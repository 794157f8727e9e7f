//! Where a game keeps its saves, as a wiki page lists it: for each system, a list
//! of locations, each a path that may hold placeholders and an optional note.

use vstd::prelude::*;

use crate::paths::{expansion, replace_path_abbrs, ExpansionParams};

verus! {

broadcast use vstd::string::group_string_axioms;

/// Why a location's path could not be expanded.
#[derive(Debug, PartialEq, Eq)]
pub enum LocationError {
    /// The expanded path could not be checked on disk; the text gives the cause.
    InvalidPath(String),
    /// The path holds a placeholder that has no value.
    UndefinedAbbr,
}

/// One save location: the path as listed (with placeholders), the path once
/// expanded, and the note attached to it.
#[derive(Debug)]
pub struct Location {
    path: Option<String>,
    path_str: String,
    note: Option<String>,
}

/// The mathematical state of a `Location`.
pub struct LocationView {
    pub path: Option<Seq<char>>,
    pub path_str: Seq<char>,
    pub note: Option<Seq<char>>,
}

pub open spec fn opt_text(o: Option<String>) -> Option<Seq<char>> {
    match o {
        Some(s) => Some(s@),
        None => None,
    }
}

impl View for Location {
    type V = LocationView;

    closed spec fn view(&self) -> LocationView {
        LocationView { path: opt_text(self.path), path_str: self.path_str@, note: opt_text(self.note) }
    }
}

impl Location {
    /// A location listed as `path_str`, not yet expanded.
    pub fn new(path_str: String, note: Option<String>) -> (r: Location)
        ensures
            r@ == (LocationView { path: None, path_str: path_str@, note: opt_text(note) }),
    {
        Location { path: None, path_str, note }
    }

    /// The path as listed, placeholders included.
    pub fn path_str(&self) -> (r: &str)
        ensures
            r@ == self@.path_str,
    {
        self.path_str.as_str()
    }

    /// The expanded path, once there is one.
    pub fn path(&self) -> (r: Option<&str>)
        ensures
            match r {
                Some(p) => self@.path == Some(p@),
                None => self@.path is None,
            },
    {
        match &self.path {
            Some(p) => Some(p.as_str()),
            None => None,
        }
    }

    /// The listed path with its placeholders expanded for system `os` (see
    /// `replace_path_abbrs`); `UndefinedAbbr` when a placeholder it holds has no
    /// value, or the system has no placeholders listed.
    pub fn expanded_path(
        &self,
        os: &str,
        params: &ExpansionParams,
        env: &Vec<(String, String)>,
    ) -> (r: Result<String, LocationError>)
        ensures
            match r {
                Ok(p) => expansion(self@.path_str, os@, params.install_dir@, params.user_id, env@)
                    == Some(p@),
                Err(e) => expansion(self@.path_str, os@, params.install_dir@, params.user_id, env@)
                    is None && e == LocationError::UndefinedAbbr,
            },
    {
        match replace_path_abbrs(self.path_str.as_str(), os, params, env) {
            Some(p) => Ok(p),
            None => Err(LocationError::UndefinedAbbr),
        }
    }

    /// Records `path` as the expanded path.
    pub fn set_path(&mut self, path: String)
        ensures
            final(self)@ == (LocationView { path: Some(path@), ..old(self)@ }),
    {
        self.path = Some(path);
    }

    /// The note attached to the location, if any.
    pub fn note(&self) -> (r: Option<&str>)
        ensures
            match r {
                Some(n) => self@.note == Some(n@),
                None => self@.note is None,
            },
    {
        match &self.note {
            Some(n) => Some(n.as_str()),
            None => None,
        }
    }
}

/// The system a list of locations is for.
#[derive(Debug)]
pub enum LocationKind {
    /// An operating system, by the name the wiki gives it.
    OS(String),
    /// Steam's own folders, whatever the system.
    Steam,
}

/// The mathematical counterpart of a `LocationKind`.
pub enum KindView {
    OS(Seq<char>),
    Steam,
}

impl View for LocationKind {
    type V = KindView;

    open spec fn view(&self) -> KindView {
        match self {
            LocationKind::OS(s) => KindView::OS(s@),
            LocationKind::Steam => KindView::Steam,
        }
    }
}

/// The kind of the locations that the wiki lists under the system name `name`.
pub open spec fn kind_named(name: Seq<char>) -> KindView {
    if name == "Steam"@ {
        KindView::Steam
    } else {
        KindView::OS(name)
    }
}

/// The kind of the locations that the wiki lists under the system name `name`.
pub fn kind_from_name(name: &str) -> (r: LocationKind)
    ensures
        r@ == kind_named(name@),
{
    let s = name.to_string();
    let steam = "Steam".to_string();
    if s == steam {
        LocationKind::Steam
    } else {
        LocationKind::OS(s)
    }
}

fn same_kind(a: &LocationKind, b: &LocationKind) -> (r: bool)
    ensures
        r == (a@ == b@),
{
    match (a, b) {
        (LocationKind::OS(x), LocationKind::OS(y)) => *x == *y,
        (LocationKind::Steam, LocationKind::Steam) => true,
        _ => false,
    }
}

/// What a wiki page says about where a game keeps its saves.
#[derive(Debug)]
pub struct PCGWSaveMeta {
    locations: Vec<(LocationKind, Vec<Location>)>,
    extra_notes: Vec<String>,
}

impl PCGWSaveMeta {
    /// No kind is listed twice.
    pub closed spec fn wf(&self) -> bool {
        forall|i: int, j: int|
            0 <= i < j < self.locations@.len() ==> #[trigger] self.locations@[i].0@
                != #[trigger] self.locations@[j].0@
    }

    /// The locations listed for `kind`; empty when none are.
    pub closed spec fn listed(&self, kind: KindView) -> Seq<LocationView> {
        if exists|i: int| 0 <= i < self.locations@.len() && self.locations@[i].0@ == kind {
            let i = choose|i: int| 0 <= i < self.locations@.len() && self.locations@[i].0@ == kind;
            self.locations@[i].1@.map_values(|l: Location| l@)
        } else {
            Seq::empty()
        }
    }

    proof fn lemma_listed_at(&self, i: int)
        requires
            self.wf(),
            0 <= i < self.locations@.len(),
        ensures
            self.listed(self.locations@[i].0@) == self.locations@[i].1@.map_values(|l: Location| l@),
    {
        let k = self.locations@[i].0@;
        let j = choose|j: int| 0 <= j < self.locations@.len() && self.locations@[j].0@ == k;
        if j < i {
            assert(self.locations@[j].0@ != self.locations@[i].0@);
        } else if i < j {
            assert(self.locations@[i].0@ != self.locations@[j].0@);
        }
    }

    /// Metadata that lists no location.
    pub fn new() -> (r: PCGWSaveMeta)
        ensures
            r.wf(),
            forall|k: KindView| r.listed(k) == Seq::<LocationView>::empty(),
    {
        PCGWSaveMeta { locations: Vec::new(), extra_notes: Vec::new() }
    }

    /// Lists `locations` for `kind`, in place of what was listed for it; the
    /// other kinds keep theirs.
    pub fn set_locations(&mut self, kind: LocationKind, locations: Vec<Location>)
        requires
            old(self).wf(),
        ensures
            final(self).wf(),
            final(self).listed(kind@) == locations@.map_values(|l: Location| l@),
            forall|k: KindView| k != kind@ ==> final(self).listed(k) == old(self).listed(k),
    {
        let ghost lv = locations@.map_values(|l: Location| l@);
        let ghost kv = kind@;
        let mut i: usize = 0;
        while i < self.locations.len()
            invariant
                *self == *old(self),
                old(self).wf(),
                kv == kind@,
                lv == locations@.map_values(|l: Location| l@),
                i <= self.locations@.len(),
                forall|j: int| 0 <= j < i ==> self.locations@[j].0@ != kv,
            decreases self.locations@.len() - i,
        {
            if same_kind(&self.locations[i].0, &kind) {
                let ghost at = i as int;
                self.locations.set(i, (kind, locations));
                assert forall|a: int, b: int|
                    0 <= a < b < self.locations@.len() implies #[trigger] self.locations@[a].0@
                    != #[trigger] self.locations@[b].0@ by {
                    assert(old(self).locations@[a].0@ != old(self).locations@[b].0@);
                }
                assert forall|k: KindView| k != kv implies self.listed(k) == old(self).listed(k) by {
                    if exists|j: int| 0 <= j < old(self).locations@.len() && old(self).locations@[j].0@ == k {
                        let j = choose|j: int|
                            0 <= j < old(self).locations@.len() && old(self).locations@[j].0@ == k;
                        assert(self.locations@[j].0@ == k);
                        old(self).lemma_listed_at(j);
                        self.lemma_listed_at(j);
                    } else {
                        assert(!exists|j: int| 0 <= j < self.locations@.len() && self.locations@[j].0@ == k) by {
                            if exists|j: int| 0 <= j < self.locations@.len() && self.locations@[j].0@ == k {
                                let j = choose|j: int| 0 <= j < self.locations@.len() && self.locations@[j].0@ == k;
                                assert(old(self).locations@[j].0@ == k);
                            }
                        }
                    }
                }
                proof {
                    self.lemma_listed_at(at);
                }
                assert(self.locations@[at].0@ == kv);
                return;
            }
            i += 1;
        }
        self.locations.push((kind, locations));
        let ghost last = self.locations@.len() - 1;
        assert(self.locations@[last].0@ == kv);
        assert forall|k: KindView| k != kv implies self.listed(k) == old(self).listed(k) by {
            if exists|j: int| 0 <= j < old(self).locations@.len() && old(self).locations@[j].0@ == k {
                let j = choose|j: int|
                    0 <= j < old(self).locations@.len() && old(self).locations@[j].0@ == k;
                assert(self.locations@[j].0@ == k);
                old(self).lemma_listed_at(j);
                self.lemma_listed_at(j);
            } else {
                assert(!exists|j: int| 0 <= j < self.locations@.len() && self.locations@[j].0@ == k) by {
                    if exists|j: int| 0 <= j < self.locations@.len() && self.locations@[j].0@ == k {
                        let j = choose|j: int| 0 <= j < self.locations@.len() && self.locations@[j].0@ == k;
                        assert(old(self).locations@[j].0@ == k);
                    }
                }
            }
        }
        assert forall|a: int, b: int|
            0 <= a < b < self.locations@.len() implies #[trigger] self.locations@[a].0@
            != #[trigger] self.locations@[b].0@ by {
            if b < last {
                assert(old(self).locations@[a].0@ != old(self).locations@[b].0@);
            }
        }
        proof {
            self.lemma_listed_at(last);
        }
    }

    /// The locations listed for `kind`; empty when none are.
    pub fn get_locations(&self, kind: &LocationKind) -> (r: &[Location])
        requires
            self.wf(),
        ensures
            r@.map_values(|l: Location| l@) == self.listed(kind@),
    {
        let mut i: usize = 0;
        while i < self.locations.len()
            invariant
                self.wf(),
                i <= self.locations@.len(),
                forall|j: int| 0 <= j < i ==> self.locations@[j].0@ != kind@,
            decreases self.locations@.len() - i,
        {
            if same_kind(&self.locations[i].0, kind) {
                proof {
                    self.lemma_listed_at(i as int);
                }
                return self.locations[i].1.as_slice();
            }
            i += 1;
        }
        let none: &[Location] = &[];
        assert(none@.map_values(|l: Location| l@) =~= Seq::<LocationView>::empty());
        none
    }
}

} // verus!
