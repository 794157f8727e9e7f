//! The version-swapping engine.
//!
//! A `DirSwapper` decides; it never touches the disk. Each operation comes in two
//! halves: a `*_steps` method that plans the whole-directory operations
//! (`FsStep`) the caller must perform, and a method under the operation's own
//! name that records the new state once those steps have succeeded. The meaning
//! of each step is given by `run_step` over a model of the disk (`Store`), which
//! is what the laws at the end of this file speak of.

use vstd::prelude::*;

verus! {

broadcast use vstd::string::group_string_axioms;

/// A directory that the engine works on: the live directory, or the stored copy
/// of a named version (a subdirectory of the versions directory).
#[derive(Debug)]
pub enum Slot {
    Primary,
    Version(String),
}

/// The mathematical counterpart of a `Slot`.
pub enum Place {
    Primary,
    Version(Seq<char>),
}

impl View for Slot {
    type V = Place;

    open spec fn view(&self) -> Place {
        match self {
            Slot::Primary => Place::Primary,
            Slot::Version(name) => Place::Version(name@),
        }
    }
}

/// One whole-directory operation for the caller to carry out on disk.
#[derive(Debug)]
pub enum FsStep {
    /// Create the directory if it is absent; leave it as it is otherwise.
    CreateDir(Slot),
    /// Remove everything below the directory, keeping (or creating) the directory itself.
    ClearDir(Slot),
    /// Copy every file and subdirectory of the first directory into the second,
    /// keeping their relative paths.
    CopyInto(Slot, Slot),
    /// Move the first directory, with everything below it, to the second place.
    MoveDir(Slot, Slot),
    /// Remove the directory and everything below it.
    RemoveDir(Slot),
}

/// The mathematical counterpart of an `FsStep`.
pub enum StepModel {
    CreateDir(Place),
    ClearDir(Place),
    CopyInto(Place, Place),
    MoveDir(Place, Place),
    RemoveDir(Place),
}

impl View for FsStep {
    type V = StepModel;

    open spec fn view(&self) -> StepModel {
        match self {
            FsStep::CreateDir(s) => StepModel::CreateDir(s@),
            FsStep::ClearDir(s) => StepModel::ClearDir(s@),
            FsStep::CopyInto(a, b) => StepModel::CopyInto(a@, b@),
            FsStep::MoveDir(a, b) => StepModel::MoveDir(a@, b@),
            FsStep::RemoveDir(s) => StepModel::RemoveDir(s@),
        }
    }
}

/// The model of a list of steps.
pub open spec fn steps_view(steps: Seq<FsStep>) -> Seq<StepModel> {
    steps.map_values(|s: FsStep| s@)
}

/// What a directory tree holds at one relative path.
pub enum Entry {
    Dir,
    File(Seq<u8>),
}

/// A directory tree: every entry below the directory, by its relative path.
pub type Tree = Map<Seq<char>, Entry>;

/// The disk as the engine sees it: the tree held by each directory that exists.
/// The primary directory and the versions' directories are taken to be
/// distinct, none inside another.
pub type Store = Map<Place, Tree>;

/// The tree at `p`; an absent directory reads as empty.
pub open spec fn tree_at(store: Store, p: Place) -> Tree {
    if store.contains_key(p) {
        store[p]
    } else {
        Map::empty()
    }
}

/// The disk after one step.
pub open spec fn run_step(store: Store, step: StepModel) -> Store {
    match step {
        StepModel::CreateDir(p) => if store.contains_key(p) {
            store
        } else {
            store.insert(p, Map::empty())
        },
        StepModel::ClearDir(p) => store.insert(p, Map::empty()),
        StepModel::CopyInto(from, to) => store.insert(
            to,
            tree_at(store, to).union_prefer_right(tree_at(store, from)),
        ),
        StepModel::MoveDir(from, to) => store.remove(from).insert(to, tree_at(store, from)),
        StepModel::RemoveDir(p) => store.remove(p),
    }
}

/// The disk after a list of steps, performed in order.
pub open spec fn run(store: Store, steps: Seq<StepModel>) -> Store
    decreases steps.len(),
{
    if steps.len() == 0 {
        store
    } else {
        run_step(run(store, steps.drop_last()), steps.last())
    }
}

/// Why an operation on versions was refused or failed.
#[derive(Debug, PartialEq, Eq)]
pub enum SwapError {
    /// No version of that name exists.
    NotFound,
    /// A version of that name exists already.
    AlreadyExists,
    /// Carrying out a step on disk failed; the text describes the cause.
    Io(String),
}

/// Owns a primary directory and a directory of stored versions, and tracks which
/// version (if any) is live in the primary directory.
#[derive(Debug)]
pub struct DirSwapper {
    primary_dir: String,
    version_dir: String,
    versions: Vec<String>,
    active_version: Option<String>,
}

/// The mathematical state of a `DirSwapper`.
pub struct SwapperView {
    pub primary_dir: Seq<char>,
    pub version_dir: Seq<char>,
    pub versions: Set<Seq<char>>,
    pub active: Option<Seq<char>>,
}

pub open spec fn opt_view(o: Option<String>) -> Option<Seq<char>> {
    match o {
        Some(s) => Some(s@),
        None => None,
    }
}

pub open spec fn names_of(v: Seq<String>) -> Seq<Seq<char>> {
    v.map_values(|s: String| s@)
}

impl View for DirSwapper {
    type V = SwapperView;

    closed spec fn view(&self) -> SwapperView {
        SwapperView {
            primary_dir: self.primary_dir@,
            version_dir: self.version_dir@,
            versions: names_of(self.versions@).to_set(),
            active: opt_view(self.active_version),
        }
    }
}

/// The step that makes sure the stored copy of version `name` exists, leaving an
/// existing copy as it is.
pub open spec fn ensure_steps(name: Seq<char>) -> Seq<StepModel> {
    seq![StepModel::CreateDir(Place::Version(name))]
}

/// The swap that makes version `name` live: the live contents are first parked in
/// the active version's copy (when there is an active version), then replaced by
/// a copy of version `name`. No directory is cleared while it is still to be read.
pub open spec fn swap_steps(active: Option<Seq<char>>, name: Seq<char>) -> Seq<StepModel> {
    let bring_in = seq![
        StepModel::ClearDir(Place::Primary),
        StepModel::CopyInto(Place::Version(name), Place::Primary),
    ];
    match active {
        Some(a) => seq![
            StepModel::ClearDir(Place::Version(a)),
            StepModel::CopyInto(Place::Primary, Place::Version(a)),
        ] + bring_in,
        None => bring_in,
    }
}

/// The step that removes the stored copy of version `name`.
pub open spec fn delete_steps(name: Seq<char>) -> Seq<StepModel> {
    seq![StepModel::RemoveDir(Place::Version(name))]
}

/// The step that moves the stored copy of version `name` to `new_name`.
pub open spec fn rename_steps(name: Seq<char>, new_name: Seq<char>) -> Seq<StepModel> {
    seq![StepModel::MoveDir(Place::Version(name), Place::Version(new_name))]
}

/// Index of the string whose text is `name`, if there is one.
fn position_of(v: &Vec<String>, name: &String) -> (r: Option<usize>)
    ensures
        match r {
            Some(i) => i < v@.len() && v@[i as int]@ == name@ && names_of(v@).contains(name@),
            None => !names_of(v@).contains(name@),
        },
{
    let mut i: usize = 0;
    while i < v.len()
        invariant
            i <= v@.len(),
            forall|j: int| 0 <= j < i ==> v@[j]@ != name@,
        decreases v@.len() - i,
    {
        if v[i] == *name {
            assert(names_of(v@)[i as int] == name@);
            return Some(i);
        }
        i += 1;
    }
    proof {
        if names_of(v@).contains(name@) {
            let k = names_of(v@).index_of(name@);
            assert(v@[k]@ == name@);
        }
    }
    None
}

proof fn lemma_names_push(v: Seq<String>, s: String)
    ensures
        names_of(v.push(s)) == names_of(v).push(s@),
        names_of(v.push(s)).to_set() == names_of(v).to_set().insert(s@),
        names_of(v).no_duplicates() && !names_of(v).contains(s@) ==> names_of(
            v.push(s),
        ).no_duplicates(),
{
    assert(names_of(v.push(s)) =~= names_of(v).push(s@));
    names_of(v).lemma_push_to_set_commute(s@);
}

proof fn lemma_names_remove(v: Seq<String>, i: int)
    requires
        0 <= i < v.len(),
        names_of(v).no_duplicates(),
    ensures
        names_of(v.remove(i)) == names_of(v).remove(i),
        names_of(v.remove(i)).no_duplicates(),
        names_of(v.remove(i)).to_set() == names_of(v).to_set().remove(v[i]@),
{
    let n = names_of(v);
    assert(n[i] == v[i]@);
    assert(names_of(v.remove(i)) =~= n.remove(i));
    assert(n.remove(i).to_set() =~= n.to_set().remove(v[i]@)) by {
        assert forall|x| n.remove(i).contains(x) implies n.contains(x) && x != v[i]@ by {
            let k = n.remove(i).index_of(x);
            if k < i {
                assert(n[k] == x);
            } else {
                assert(n[k + 1] == x);
            }
        }
        assert forall|x| n.contains(x) && x != v[i]@ implies n.remove(i).contains(x) by {
            let k = n.index_of(x);
            if k < i {
                assert(n.remove(i)[k] == x);
            } else {
                assert(n.remove(i)[k - 1] == x);
            }
        }
    }
}

proof fn lemma_names_update(v: Seq<String>, i: int, s: String)
    requires
        0 <= i < v.len(),
        names_of(v).no_duplicates(),
        !names_of(v).contains(s@),
    ensures
        names_of(v.update(i, s)).no_duplicates(),
        names_of(v.update(i, s)).to_set() == names_of(v).to_set().remove(v[i]@).insert(s@),
{
    let n = names_of(v);
    let m = names_of(v.update(i, s));
    assert(n[i] == v[i]@);
    assert(m =~= n.update(i, s@));
    assert(m.to_set() =~= n.to_set().remove(v[i]@).insert(s@)) by {
        assert forall|x| m.contains(x) implies (n.contains(x) && x != v[i]@) || x == s@ by {
            let k = m.index_of(x);
            if k != i {
                assert(n[k] == x);
            }
        }
        assert forall|x| (n.contains(x) && x != v[i]@) || x == s@ implies m.contains(x) by {
            if x == s@ {
                assert(m[i] == x);
            } else {
                let k = n.index_of(x);
                assert(m[k] == x);
            }
        }
    }
}

/// The texts of `existing`, each once, in the order of their first occurrence.
fn unique_names(existing: Vec<String>) -> (r: Vec<String>)
    ensures
        names_of(r@).no_duplicates(),
        names_of(r@).to_set() == names_of(existing@).to_set(),
{
    let mut versions: Vec<String> = Vec::new();
    let mut i: usize = 0;
    while i < existing.len()
        invariant
            i <= existing@.len(),
            names_of(versions@).no_duplicates(),
            names_of(versions@).to_set() == names_of(existing@.subrange(0, i as int)).to_set(),
        decreases existing@.len() - i,
    {
        let e = existing[i].clone();
        proof {
            assert(existing@.subrange(0, i + 1) =~= existing@.subrange(0, i as int).push(e));
            lemma_names_push(existing@.subrange(0, i as int), e);
        }
        match position_of(&versions, &e) {
            None => {
                proof {
                    lemma_names_push(versions@, e);
                }
                versions.push(e);
            },
            Some(k) => {
                assert(names_of(versions@)[k as int] == e@);
                assert(names_of(versions@).to_set().insert(e@) =~= names_of(
                    versions@,
                ).to_set());
            },
        }
        i += 1;
    }
    assert(existing@.subrange(0, existing@.len() as int) =~= existing@);
    versions
}

impl DirSwapper {
    /// Version names are unique, and the active version is one of them.
    pub closed spec fn wf(&self) -> bool {
        &&& names_of(self.versions@).no_duplicates()
        &&& (self.active_version matches Some(a) ==> self@.versions.contains(a@))
    }

    /// Makes a swapper over `primary_dir` and `version_dir` whose version `name` is
    /// live. `existing` names the subdirectories that `version_dir` holds already;
    /// they stay versions as they are. The step returned creates the stored copy of
    /// `name` when it is absent and leaves it alone otherwise: nothing is copied.
    pub fn build(primary_dir: String, version_dir: String, name: String, existing: Vec<String>) -> (r: (
        DirSwapper,
        Vec<FsStep>,
    ))
        ensures
            r.0.wf(),
            r.0@ == (SwapperView {
                primary_dir: primary_dir@,
                version_dir: version_dir@,
                versions: names_of(existing@).to_set().insert(name@),
                active: Some(name@),
            }),
            steps_view(r.1@) == ensure_steps(name@),
    {
        let mut versions = unique_names(existing);
        match position_of(&versions, &name) {
            None => {
                proof {
                    lemma_names_push(versions@, name);
                }
                versions.push(name.clone());
            },
            Some(k) => {
                assert(names_of(versions@)[k as int] == name@);
                assert(names_of(versions@).to_set().insert(name@) =~= names_of(versions@).to_set());
            },
        }
        let steps = vec![FsStep::CreateDir(Slot::Version(name.clone()))];
        assert(steps_view(steps@) =~= ensure_steps(name@));
        let swapper = DirSwapper { primary_dir, version_dir, versions, active_version: Some(name) };
        assert(swapper@.versions.contains(name@));
        (swapper, steps)
    }

    /// The state of a swapper that has not been pointed at any directory.
    pub open spec fn unconfigured_view() -> SwapperView {
        SwapperView {
            primary_dir: Seq::empty(),
            version_dir: Seq::empty(),
            versions: Set::empty(),
            active: None,
        }
    }

    /// A swapper that has not been pointed at any directory yet, with no versions.
    pub fn unconfigured() -> (r: DirSwapper)
        ensures
            r.wf(),
            r@ == Self::unconfigured_view(),
    {
        let r = DirSwapper {
            primary_dir: String::new(),
            version_dir: String::new(),
            versions: Vec::new(),
            active_version: None,
        };
        assert(names_of(r.versions@).to_set() =~= Set::empty());
        r
    }

    /// Makes a swapper over directories that were in use before: `existing`
    /// names the subdirectories that `version_dir` holds now, and `active` the
    /// version that was live when the swapper was last saved. That version
    /// stays active only if it still exists; nothing on disk changes.
    pub fn restore(
        primary_dir: String,
        version_dir: String,
        existing: Vec<String>,
        active: Option<String>,
    ) -> (r: DirSwapper)
        ensures
            r.wf(),
            r@ == (SwapperView {
                primary_dir: primary_dir@,
                version_dir: version_dir@,
                versions: names_of(existing@).to_set(),
                active: match active {
                    Some(a) => if names_of(existing@).to_set().contains(a@) {
                        Some(a@)
                    } else {
                        None
                    },
                    None => None,
                },
            }),
    {
        let versions = unique_names(existing);
        let active_version = match active {
            Some(a) => if position_of(&versions, &a).is_some() {
                Some(a)
            } else {
                None
            },
            None => None,
        };
        DirSwapper { primary_dir, version_dir, versions, active_version }
    }

    /// The names of the versions, each once.
    pub fn versions(&self) -> (r: &Vec<String>)
        requires
            self.wf(),
        ensures
            names_of(r@).to_set() == self@.versions,
            names_of(r@).no_duplicates(),
    {
        &self.versions
    }

    /// The directory whose contents the active version occupies.
    pub fn primary_dir(&self) -> (r: &str)
        ensures
            r@ == self@.primary_dir,
    {
        self.primary_dir.as_str()
    }

    /// The directory that holds one subdirectory per stored version.
    pub fn version_dir(&self) -> (r: &str)
        ensures
            r@ == self@.version_dir,
    {
        self.version_dir.as_str()
    }

    /// Points the swapper at another primary directory.
    pub fn set_primary_dir(&mut self, dir: String)
        requires
            old(self).wf(),
        ensures
            final(self).wf(),
            final(self)@ == (SwapperView { primary_dir: dir@, ..old(self)@ }),
    {
        self.primary_dir = dir;
    }

    /// Whether a version called `name` exists.
    pub fn has_version(&self, name: &str) -> (r: bool)
        ensures
            r == self@.versions.contains(name@),
    {
        let name = name.to_string();
        position_of(&self.versions, &name).is_some()
    }

    /// The stored copy of version `name`, if that version exists.
    pub fn get_version_dir(&self, name: &str) -> (r: Option<Slot>)
        ensures
            match r {
                Some(slot) => self@.versions.contains(name@) && slot@ == Place::Version(name@),
                None => !self@.versions.contains(name@),
            },
    {
        if self.has_version(name) {
            Some(Slot::Version(name.to_string()))
        } else {
            None
        }
    }

    /// The version that is live in the primary directory, if any.
    pub fn active_version(&self) -> (r: Option<&str>)
        ensures
            match r {
                Some(s) => self@.active == Some(s@),
                None => self@.active is None,
            },
    {
        match &self.active_version {
            Some(s) => Some(s.as_str()),
            None => None,
        }
    }

    /// The steps that make version `name` live; `NotFound` when there is no such
    /// version. Re-activating the active version parks and restores the same
    /// contents, so it changes nothing that is live.
    pub fn set_active_steps(&self, name: &str) -> (r: Result<Vec<FsStep>, SwapError>)
        requires
            self.wf(),
        ensures
            match r {
                Ok(steps) => self@.versions.contains(name@) && steps_view(steps@) == swap_steps(
                    self@.active,
                    name@,
                ),
                Err(e) => !self@.versions.contains(name@) && e == SwapError::NotFound,
            },
    {
        if !self.has_version(name) {
            return Err(SwapError::NotFound);
        }
        let mut steps: Vec<FsStep> = Vec::new();
        match &self.active_version {
            Some(a) => {
                steps.push(FsStep::ClearDir(Slot::Version(a.clone())));
                steps.push(FsStep::CopyInto(Slot::Primary, Slot::Version(a.clone())));
            },
            None => {},
        }
        steps.push(FsStep::ClearDir(Slot::Primary));
        steps.push(FsStep::CopyInto(Slot::Version(name.to_string()), Slot::Primary));
        assert(steps_view(steps@) =~= swap_steps(self@.active, name@));
        Ok(steps)
    }

    /// Records that the swap of `set_active_steps` has been carried out: version
    /// `name` is now the active one. `NotFound`, with nothing changed, when there is
    /// no such version.
    pub fn set_active(&mut self, name: String) -> (r: Result<(), SwapError>)
        requires
            old(self).wf(),
        ensures
            final(self).wf(),
            old(self)@.versions.contains(name@) ==> r is Ok && final(self)@ == (SwapperView {
                active: Some(name@),
                ..old(self)@
            }),
            !old(self)@.versions.contains(name@) ==> r == Err::<(), SwapError>(SwapError::NotFound)
                && final(self)@ == old(self)@,
    {
        if position_of(&self.versions, &name).is_none() {
            return Err(SwapError::NotFound);
        }
        self.active_version = Some(name);
        Ok(())
    }

    /// The step that creates an empty stored copy for a new version `name`;
    /// `AlreadyExists` when that name is taken.
    pub fn add_version_steps(&self, name: &str) -> (r: Result<Vec<FsStep>, SwapError>)
        requires
            self.wf(),
        ensures
            match r {
                Ok(steps) => !self@.versions.contains(name@) && steps_view(steps@) == ensure_steps(
                    name@,
                ),
                Err(e) => self@.versions.contains(name@) && e == SwapError::AlreadyExists,
            },
    {
        if self.has_version(name) {
            return Err(SwapError::AlreadyExists);
        }
        let steps = vec![FsStep::CreateDir(Slot::Version(name.to_string()))];
        assert(steps_view(steps@) =~= ensure_steps(name@));
        Ok(steps)
    }

    /// Records that version `name` has been added. `AlreadyExists`, with nothing
    /// changed, when that name is taken. The active version stays as it was.
    pub fn add_version(&mut self, name: &str) -> (r: Result<(), SwapError>)
        requires
            old(self).wf(),
        ensures
            final(self).wf(),
            !old(self)@.versions.contains(name@) ==> r is Ok && final(self)@ == (SwapperView {
                versions: old(self)@.versions.insert(name@),
                ..old(self)@
            }),
            old(self)@.versions.contains(name@) ==> r == Err::<(), SwapError>(
                SwapError::AlreadyExists,
            ) && final(self)@ == old(self)@,
    {
        let name = name.to_string();
        if position_of(&self.versions, &name).is_some() {
            return Err(SwapError::AlreadyExists);
        }
        proof {
            lemma_names_push(self.versions@, name);
        }
        self.versions.push(name);
        Ok(())
    }

    /// The step that removes the stored copy of version `name`; `NotFound` when
    /// there is no such version. The primary directory is never touched.
    pub fn delete_version_steps(&self, name: &str) -> (r: Result<Vec<FsStep>, SwapError>)
        requires
            self.wf(),
        ensures
            match r {
                Ok(steps) => self@.versions.contains(name@) && steps_view(steps@) == delete_steps(
                    name@,
                ),
                Err(e) => !self@.versions.contains(name@) && e == SwapError::NotFound,
            },
    {
        if !self.has_version(name) {
            return Err(SwapError::NotFound);
        }
        let steps = vec![FsStep::RemoveDir(Slot::Version(name.to_string()))];
        assert(steps_view(steps@) =~= delete_steps(name@));
        Ok(steps)
    }

    /// Records that version `name` has been deleted. Deleting the active version
    /// leaves no version active (the live contents stay, untracked); deleting
    /// another leaves the active version as it was. `NotFound`, with nothing
    /// changed, when there is no such version.
    pub fn delete_version(&mut self, name: &str) -> (r: Result<(), SwapError>)
        requires
            old(self).wf(),
        ensures
            final(self).wf(),
            old(self)@.versions.contains(name@) ==> r is Ok && final(self)@ == (SwapperView {
                versions: old(self)@.versions.remove(name@),
                active: if old(self)@.active == Some(name@) {
                    None
                } else {
                    old(self)@.active
                },
                ..old(self)@
            }),
            !old(self)@.versions.contains(name@) ==> r == Err::<(), SwapError>(SwapError::NotFound)
                && final(self)@ == old(self)@,
    {
        let name = name.to_string();
        match position_of(&self.versions, &name) {
            None => Err(SwapError::NotFound),
            Some(i) => {
                let is_active = match &self.active_version {
                    Some(a) => *a == name,
                    None => false,
                };
                if is_active {
                    self.active_version = None;
                }
                proof {
                    lemma_names_remove(self.versions@, i as int);
                }
                self.versions.remove(i);
                proof {
                    if let Some(a) = &self.active_version {
                        assert(a@ != name@);
                        assert(old(self)@.versions.contains(a@));
                    }
                }
                Ok(())
            },
        }
    }

    /// The step that moves the stored copy of version `name` to `new_name`;
    /// `NotFound` when there is no version `name`, else `AlreadyExists` when
    /// `new_name` is taken.
    pub fn rename_version_steps(&self, name: &str, new_name: &str) -> (r: Result<
        Vec<FsStep>,
        SwapError,
    >)
        requires
            self.wf(),
        ensures
            match r {
                Ok(steps) => self@.versions.contains(name@) && !self@.versions.contains(new_name@)
                    && steps_view(steps@) == rename_steps(name@, new_name@),
                Err(e) => if !self@.versions.contains(name@) {
                    e == SwapError::NotFound
                } else {
                    self@.versions.contains(new_name@) && e == SwapError::AlreadyExists
                },
            },
    {
        if !self.has_version(name) {
            return Err(SwapError::NotFound);
        }
        if self.has_version(new_name) {
            return Err(SwapError::AlreadyExists);
        }
        let steps = vec![
            FsStep::MoveDir(Slot::Version(name.to_string()), Slot::Version(new_name.to_string())),
        ];
        assert(steps_view(steps@) =~= rename_steps(name@, new_name@));
        Ok(steps)
    }

    /// Records that version `name` is now called `new_name`; if it was the active
    /// version, it still is, under the new name. Errors as `rename_version_steps`,
    /// with nothing changed.
    pub fn rename_version(&mut self, name: &str, new_name: &str) -> (r: Result<(), SwapError>)
        requires
            old(self).wf(),
        ensures
            final(self).wf(),
            match r {
                Ok(()) => old(self)@.versions.contains(name@) && !old(self)@.versions.contains(
                    new_name@,
                ) && final(self)@ == (SwapperView {
                    versions: old(self)@.versions.remove(name@).insert(new_name@),
                    active: if old(self)@.active == Some(name@) {
                        Some(new_name@)
                    } else {
                        old(self)@.active
                    },
                    ..old(self)@
                }),
                Err(e) => final(self)@ == old(self)@ && if !old(self)@.versions.contains(name@) {
                    e == SwapError::NotFound
                } else {
                    old(self)@.versions.contains(new_name@) && e == SwapError::AlreadyExists
                },
            },
    {
        let name = name.to_string();
        let new_name = new_name.to_string();
        match position_of(&self.versions, &name) {
            None => Err(SwapError::NotFound),
            Some(i) => {
                if position_of(&self.versions, &new_name).is_some() {
                    return Err(SwapError::AlreadyExists);
                }
                let is_active = match &self.active_version {
                    Some(a) => *a == name,
                    None => false,
                };
                if is_active {
                    self.active_version = Some(new_name.clone());
                }
                proof {
                    lemma_names_update(self.versions@, i as int, new_name);
                }
                self.versions.set(i, new_name);
                proof {
                    if let Some(a) = &self.active_version {
                        if a@ != new_name@ {
                            assert(a@ != name@);
                            assert(old(self)@.versions.contains(a@));
                        }
                    }
                }
                Ok(())
            },
        }
    }
}

/// Whether the versions of `v` are exactly the stored copies on disk.
pub open spec fn mirrors(v: SwapperView, store: Store) -> bool {
    forall|n: Seq<char>|
        #![trigger v.versions.contains(n)]
        #![trigger store.contains_key(Place::Version(n))]
        v.versions.contains(n) <==> store.contains_key(Place::Version(n))
}

/// The disk after a swap, in closed form: the active version's copy (if any)
/// receives the live tree, and the primary directory receives version `name`'s
/// stored tree as it stood once the live tree had been parked.
pub open spec fn swapped(store: Store, active: Option<Seq<char>>, name: Seq<char>) -> Store {
    match active {
        Some(a) => {
            let live = tree_at(store, Place::Primary);
            let parked = store.insert(Place::Version(a), live);
            parked.insert(Place::Primary, tree_at(parked, Place::Version(name)))
        },
        None => store.insert(Place::Primary, tree_at(store, Place::Version(name))),
    }
}

proof fn lemma_copy_into_empty(t: Tree)
    ensures
        Map::<Seq<char>, Entry>::empty().union_prefer_right(t) == t,
{
    assert(Map::<Seq<char>, Entry>::empty().union_prefer_right(t) =~= t);
}

/// Running the steps of a swap gives `swapped`.
pub proof fn lemma_swap_closed_form(store: Store, active: Option<Seq<char>>, name: Seq<char>)
    ensures
        run(store, swap_steps(active, name)) == swapped(store, active, name),
{
    reveal_with_fuel(run, 5);
    let steps = swap_steps(active, name);
    match active {
        Some(a) => {
            assert(steps.len() == 4);
            let t1 = run_step(store, steps[0]);
            let t2 = run_step(t1, steps[1]);
            let t3 = run_step(t2, steps[2]);
            assert(steps.drop_last().drop_last().drop_last().drop_last() =~= Seq::<
                StepModel,
            >::empty());
            lemma_copy_into_empty(tree_at(t1, Place::Primary));
            lemma_copy_into_empty(tree_at(t3, Place::Version(name)));
            assert(run(store, steps) =~= swapped(store, active, name));
        },
        None => {
            assert(steps.len() == 2);
            let t1 = run_step(store, steps[0]);
            assert(steps.drop_last().drop_last() =~= Seq::<StepModel>::empty());
            lemma_copy_into_empty(tree_at(t1, Place::Version(name)));
            assert(run(store, steps) =~= swapped(store, active, name));
        },
    }
}

/// Adding a version whose name is free, on a disk that mirrors the versions,
/// creates an empty stored copy under that name, touches nothing else, and the
/// disk mirrors the versions again.
pub proof fn lemma_add_creates_empty(v: SwapperView, store: Store, name: Seq<char>)
    requires
        mirrors(v, store),
        !v.versions.contains(name),
    ensures
        run(store, ensure_steps(name)) == store.insert(Place::Version(name), Map::empty()),
        mirrors(
            SwapperView { versions: v.versions.insert(name), ..v },
            run(store, ensure_steps(name)),
        ),
{
    reveal_with_fuel(run, 2);
    assert(ensure_steps(name).drop_last() =~= Seq::<StepModel>::empty());
}

/// Building a swapper whose live version `name` already has a stored copy
/// leaves the whole disk as it was: that copy is neither replaced nor duplicated.
pub proof fn lemma_restart_reuse(store: Store, name: Seq<char>)
    requires
        store.contains_key(Place::Version(name)),
    ensures
        run(store, ensure_steps(name)) == store,
{
    reveal_with_fuel(run, 2);
    assert(ensure_steps(name).drop_last() =~= Seq::<StepModel>::empty());
}

/// Building a swapper from the listing of the versions directory leaves the disk
/// mirroring its versions: the listed ones and the live one.
pub proof fn lemma_build_mirrors(v: SwapperView, store: Store, existing: Set<Seq<char>>, name: Seq<char>)
    requires
        forall|n: Seq<char>|
            #![trigger existing.contains(n)]
            #![trigger store.contains_key(Place::Version(n))]
            existing.contains(n) <==> store.contains_key(Place::Version(n)),
        v.versions == existing.insert(name),
    ensures
        mirrors(v, run(store, ensure_steps(name))),
{
    reveal_with_fuel(run, 2);
    assert(ensure_steps(name).drop_last() =~= Seq::<StepModel>::empty());
}

/// Making version `x` live while version `a` is active puts exactly `x`'s
/// stored tree in the primary directory (nothing of the old live tree is left)
/// and exactly the old live tree in `a`'s stored copy; no other directory changes.
pub proof fn lemma_swap_replaces(store: Store, a: Seq<char>, x: Seq<char>)
    requires
        a != x,
    ensures
        ({
            let after = run(store, swap_steps(Some(a), x));
            &&& after.contains_key(Place::Primary)
            &&& after[Place::Primary] == tree_at(store, Place::Version(x))
            &&& after.contains_key(Place::Version(a))
            &&& after[Place::Version(a)] == tree_at(store, Place::Primary)
            &&& forall|p: Place|
                p != Place::Primary && p != Place::Version(a) ==> (#[trigger] after.contains_key(p)
                    == store.contains_key(p) && after[p] == store[p])
        }),
{
    lemma_swap_closed_form(store, Some(a), x);
}

/// Re-activating the active version `a` keeps the live tree, and stores a copy of
/// it as `a`'s contents.
pub proof fn lemma_reactivate_keeps_live(store: Store, a: Seq<char>)
    ensures
        ({
            let after = run(store, swap_steps(Some(a), a));
            &&& after[Place::Primary] == tree_at(store, Place::Primary)
            &&& after[Place::Version(a)] == tree_at(store, Place::Primary)
        }),
{
    lemma_swap_closed_form(store, Some(a), a);
}

/// Building a swapper over a primary directory holding `t`, with live version `a`,
/// adding a new version `b`, making `b` live and then `a` live again leaves the
/// primary directory holding `t`.
pub proof fn lemma_round_trip(
    store: Store,
    existing: Set<Seq<char>>,
    a: Seq<char>,
    b: Seq<char>,
)
    requires
        store.contains_key(Place::Primary),
        !existing.insert(a).contains(b),
    ensures
        ({
            let built = run(store, ensure_steps(a));
            let added = run(built, ensure_steps(b));
            let to_b = run(added, swap_steps(Some(a), b));
            let back = run(to_b, swap_steps(Some(b), a));
            back[Place::Primary] == store[Place::Primary]
        }),
{
    reveal_with_fuel(run, 2);
    assert(ensure_steps(a).drop_last() =~= Seq::<StepModel>::empty());
    assert(ensure_steps(b).drop_last() =~= Seq::<StepModel>::empty());
    let built = run(store, ensure_steps(a));
    let added = run(built, ensure_steps(b));
    let to_b = run(added, swap_steps(Some(a), b));
    lemma_swap_replaces(added, a, b);
    lemma_swap_replaces(to_b, b, a);
}

/// Every operation keeps the disk mirroring the versions: after a swap of a
/// well-formed swapper's versions, after deleting a version, and after renaming one.
pub proof fn lemma_steps_keep_mirror(v: SwapperView, store: Store, name: Seq<char>, new_name: Seq<char>)
    requires
        mirrors(v, store),
        v.active matches Some(a) ==> v.versions.contains(a),
    ensures
        v.versions.contains(name) ==> mirrors(
            SwapperView { active: Some(name), ..v },
            run(store, swap_steps(v.active, name)),
        ),
        v.versions.contains(name) ==> mirrors(
            SwapperView { versions: v.versions.remove(name), ..v },
            run(store, delete_steps(name)),
        ),
        v.versions.contains(name) && !v.versions.contains(new_name) ==> mirrors(
            SwapperView { versions: v.versions.remove(name).insert(new_name), ..v },
            run(store, rename_steps(name, new_name)),
        ),
{
    reveal_with_fuel(run, 2);
    lemma_swap_closed_form(store, v.active, name);
    assert(delete_steps(name).drop_last() =~= Seq::<StepModel>::empty());
    assert(rename_steps(name, new_name).drop_last() =~= Seq::<StepModel>::empty());
}

} // verus!
