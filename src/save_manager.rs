//! The games whose saves are managed, each with its own version swapper, and the
//! names under which the games are known.

use std::collections::HashMap;
use vstd::prelude::*;

use crate::swapper::{
    delete_steps, ensure_steps, rename_steps, steps_view, swap_steps, DirSwapper, FsStep, SwapError,
    SwapperView,
};

verus! {

broadcast use {vstd::std_specs::hash::group_hash_axioms, vstd::string::group_string_axioms};

/// Identifies a game.
#[derive(Debug, Clone, Copy, PartialEq, Eq, Hash, Structural)]
#[non_exhaustive]
pub enum GameId {
    /// A Steam app id.
    Steam(u32),
}

/// The number under which a game's saves are kept.
pub open spec fn key_of(id: GameId) -> u32 {
    match id {
        GameId::Steam(n) => n,
    }
}

fn key(id: GameId) -> (r: u32)
    ensures
        r == key_of(id),
{
    match id {
        GameId::Steam(n) => n,
    }
}

/// What is recorded about one save slot besides its contents.
#[derive(Debug)]
pub struct SlotMeta {}

/// The saves of one game: a swapper over its save directory, and what is
/// recorded about each slot.
#[derive(Debug)]
pub struct GameSaves {
    pub slot_metadata: Vec<(String, SlotMeta)>,
    pub slot_swapper: DirSwapper,
}

impl GameSaves {
    /// Saves managed by `slot_swapper`, with nothing recorded about the slots yet.
    pub fn new(slot_swapper: DirSwapper) -> (r: GameSaves)
        ensures
            r.slot_swapper == slot_swapper,
            r.slot_metadata@.len() == 0,
    {
        GameSaves { slot_metadata: Vec::new(), slot_swapper }
    }
}

/// All managed games, and the names under which games are known.
#[derive(Debug)]
pub struct SaveManager {
    game_data: HashMap<u32, GameSaves>,
    order: Vec<GameId>,
    name_cache: Vec<(String, GameId)>,
    steam_loaded: bool,
}

/// The text of each cached name, with its game.
pub open spec fn names_view(v: Seq<(String, GameId)>) -> Seq<(Seq<char>, GameId)> {
    v.map_values(|p: (String, GameId)| (p.0@, p.1))
}

impl SaveManager {
    /// Every game's swapper is well formed, `order` lists each managed game
    /// once, and no name is cached twice.
    pub closed spec fn wf(&self) -> bool {
        &&& forall|k: u32| #[trigger]
            self.game_data@.contains_key(k) ==> self.game_data@[k].slot_swapper.wf()
        &&& forall|i: int, j: int|
            0 <= i < j < self.order@.len() ==> key_of(#[trigger] self.order@[i]) != key_of(
                #[trigger] self.order@[j],
            )
        &&& forall|i: int|
            0 <= i < self.order@.len() ==> self.game_data@.contains_key(key_of(#[trigger] self.order@[i]))
        &&& forall|k: u32| #[trigger]
            self.game_data@.contains_key(k) ==> exists|i: int|
                0 <= i < self.order@.len() && key_of(self.order@[i]) == k
        &&& forall|i: int, j: int|
            0 <= i < j < self.name_cache@.len() ==> #[trigger] self.name_cache@[i].0@
                != #[trigger] self.name_cache@[j].0@
    }

    /// The state of each managed game's swapper, by the game's key.
    pub closed spec fn swappers(&self) -> Map<u32, SwapperView> {
        self.game_data@.map_values(|g: GameSaves| g.slot_swapper@)
    }

    /// The cached names, in the order they were first cached.
    pub closed spec fn names(&self) -> Seq<(Seq<char>, GameId)> {
        names_view(self.name_cache@)
    }

    /// Whether the games of the Steam library have been loaded.
    pub closed spec fn loaded(&self) -> bool {
        self.steam_loaded
    }

    /// A manager with no games and no names.
    pub fn new() -> (r: SaveManager)
        ensures
            r.wf(),
            r.swappers() == Map::<u32, SwapperView>::empty(),
            r.names().len() == 0,
            !r.loaded(),
    {
        let r = SaveManager {
            game_data: HashMap::new(),
            order: Vec::new(),
            name_cache: Vec::new(),
            steam_loaded: false,
        };
        assert(r.swappers() =~= Map::<u32, SwapperView>::empty());
        r
    }

    /// The managed games, each once, in the order they were first managed.
    pub fn game_ids(&self) -> (r: Vec<GameId>)
        requires
            self.wf(),
        ensures
            forall|id: GameId| #[trigger]
                self.swappers().contains_key(key_of(id)) <==> r@.contains(id),
            forall|i: int, j: int| 0 <= i < j < r@.len() ==> r@[i] != r@[j],
    {
        let r = self.order.clone();
        assert forall|id: GameId| #[trigger]
            self.swappers().contains_key(key_of(id)) <==> r@.contains(id) by {
            if self.swappers().contains_key(key_of(id)) {
                let i = choose|i: int| 0 <= i < self.order@.len() && key_of(self.order@[i]) == key_of(id);
                assert(r@[i] == id);
            }
            if r@.contains(id) {
                let i = r@.index_of(id);
                assert(self.game_data@.contains_key(key_of(self.order@[i])));
            }
        }
        assert forall|i: int, j: int| 0 <= i < j < r@.len() implies r@[i] != r@[j] by {
            assert(key_of(self.order@[i]) != key_of(self.order@[j]));
        }
        r
    }

    /// Whether game `id` is managed.
    pub fn contains(&self, id: GameId) -> (r: bool)
        ensures
            r == self.swappers().contains_key(key_of(id)),
    {
        self.game_data.contains_key(&key(id))
    }

    /// The saves of game `id`, if it is managed.
    pub fn get(&self, id: GameId) -> (r: Option<&GameSaves>)
        ensures
            match r {
                Some(g) => self.swappers().contains_key(key_of(id)) && g.slot_swapper@
                    == self.swappers()[key_of(id)],
                None => !self.swappers().contains_key(key_of(id)),
            },
    {
        self.game_data.get(&key(id))
    }

    /// The directory that holds game `id`'s stored versions, if it is managed.
    pub fn path(&self, id: GameId) -> (r: Option<&str>)
        ensures
            match r {
                Some(p) => self.swappers().contains_key(key_of(id)) && p@ == self.swappers()[key_of(
                    id,
                )].version_dir,
                None => !self.swappers().contains_key(key_of(id)),
            },
    {
        match self.game_data.get(&key(id)) {
            Some(g) => Some(g.slot_swapper.version_dir()),
            None => None,
        }
    }

    /// Manages game `id` with `saves`, in place of whatever was managed under it.
    pub fn insert_game(&mut self, id: GameId, saves: GameSaves)
        requires
            old(self).wf(),
            saves.slot_swapper.wf(),
        ensures
            final(self).wf(),
            final(self).swappers() == old(self).swappers().insert(key_of(id), saves.slot_swapper@),
            final(self).names() == old(self).names(),
            final(self).loaded() == old(self).loaded(),
    {
        let ghost sv = saves.slot_swapper@;
        let fresh = !self.game_data.contains_key(&key(id));
        self.game_data.insert(key(id), saves);
        if fresh {
            self.order.push(id);
            assert forall|k: u32| #[trigger]
                self.game_data@.contains_key(k) implies exists|i: int|
                    0 <= i < self.order@.len() && key_of(self.order@[i]) == k by {
                if k != key_of(id) {
                    let i = choose|i: int|
                        0 <= i < old(self).order@.len() && key_of(old(self).order@[i]) == k;
                    assert(self.order@[i] == old(self).order@[i]);
                } else {
                    assert(key_of(self.order@[self.order@.len() - 1]) == k);
                }
            }
        } else {
            assert forall|k: u32| #[trigger]
                self.game_data@.contains_key(k) implies exists|i: int|
                    0 <= i < self.order@.len() && key_of(self.order@[i]) == k by {
                assert(old(self).game_data@.contains_key(k));
                let i = choose|i: int|
                    0 <= i < old(self).order@.len() && key_of(old(self).order@[i]) == k;
                assert(key_of(self.order@[i]) == k);
            }
        }
        assert(self.swappers() =~= old(self).swappers().insert(key_of(id), sv));
    }

    /// Takes game `id`'s saves out of the map, to be put back by `put_back`.
    fn take(&mut self, id: GameId) -> (r: Option<GameSaves>)
        requires
            old(self).wf(),
        ensures
            final(self).name_cache == old(self).name_cache,
            final(self).order == old(self).order,
            final(self).steam_loaded == old(self).steam_loaded,
            forall|k: u32| #[trigger]
                final(self).game_data@.contains_key(k) ==> final(self).game_data@[k].slot_swapper.wf(),
            match r {
                Some(g) => old(self).game_data@.contains_key(key_of(id)) && g
                    == old(self).game_data@[key_of(id)] && final(self).game_data@ == old(
                    self,
                ).game_data@.remove(key_of(id)) && g.slot_swapper.wf(),
                None => !old(self).game_data@.contains_key(key_of(id)) && final(self).game_data@
                    == old(self).game_data@,
            },
    {
        self.game_data.remove(&key(id))
    }

    /// Puts back game `id`'s saves, taken out of `before` by `take`.
    fn put_back(&mut self, id: GameId, g: GameSaves, Ghost(before): Ghost<SaveManager>)
        requires
            before.wf(),
            before.game_data@.contains_key(key_of(id)),
            old(self).game_data@ == before.game_data@.remove(key_of(id)),
            old(self).order == before.order,
            old(self).name_cache == before.name_cache,
            old(self).steam_loaded == before.steam_loaded,
            g.slot_swapper.wf(),
        ensures
            final(self).wf(),
            final(self).swappers() == before.swappers().insert(key_of(id), g.slot_swapper@),
            final(self).names() == before.names(),
            final(self).loaded() == before.loaded(),
    {
        let ghost sv = g.slot_swapper@;
        self.game_data.insert(key(id), g);
        assert(self.game_data@.dom() =~= before.game_data@.dom());
        assert forall|k: u32| #[trigger]
            self.game_data@.contains_key(k) implies exists|i: int|
                0 <= i < self.order@.len() && key_of(self.order@[i]) == k by {
            assert(before.game_data@.contains_key(k));
            let i = choose|i: int| 0 <= i < before.order@.len() && key_of(before.order@[i]) == k;
            assert(key_of(self.order@[i]) == k);
        }
        assert(self.swappers() =~= before.swappers().insert(key_of(id), sv));
    }

    /// Points game `id`'s swapper at another save directory; `Err(())` when the
    /// game is not managed.
    pub fn set_path(&mut self, id: GameId, new_path: String) -> (r: Result<(), ()>)
        requires
            old(self).wf(),
        ensures
            final(self).wf(),
            final(self).names() == old(self).names(),
            final(self).loaded() == old(self).loaded(),
            match r {
                Ok(()) => old(self).swappers().contains_key(key_of(id)) && final(self).swappers()
                    == old(self).swappers().insert(
                    key_of(id),
                    SwapperView { primary_dir: new_path@, ..old(self).swappers()[key_of(id)] },
                ),
                Err(()) => !old(self).swappers().contains_key(key_of(id)) && final(self).swappers()
                    == old(self).swappers(),
            },
    {
        let ghost before = *self;
        match self.take(id) {
            None => Err(()),
            Some(mut g) => {
                g.slot_swapper.set_primary_dir(new_path);
                let ghost sv = g.slot_swapper@;
                self.put_back(id, g, Ghost(before));
                Ok(())
            },
        }
    }

    /// The steps that create an empty slot `name` for game `id`: `Ok(None)` when
    /// the game is not managed, else as `DirSwapper::add_version_steps`.
    pub fn create_steps(&self, id: GameId, name: &str) -> (r: Result<Option<Vec<FsStep>>, SwapError>)
        requires
            self.wf(),
        ensures
            match r {
                Ok(None) => !self.swappers().contains_key(key_of(id)),
                Ok(Some(steps)) => self.swappers().contains_key(key_of(id)) && !self.swappers()[key_of(
                    id,
                )].versions.contains(name@) && steps_view(steps@) == ensure_steps(name@),
                Err(e) => self.swappers().contains_key(key_of(id)) && self.swappers()[key_of(
                    id,
                )].versions.contains(name@) && e == SwapError::AlreadyExists,
            },
    {
        match self.game_data.get(&key(id)) {
            None => Ok(None),
            Some(g) => match g.slot_swapper.add_version_steps(name) {
                Ok(steps) => Ok(Some(steps)),
                Err(e) => Err(e),
            },
        }
    }

    /// Records that slot `name` of game `id` has been created: `Ok(None)`, with
    /// nothing changed, when the game is not managed; else as
    /// `DirSwapper::add_version`.
    pub fn create(&mut self, id: GameId, name: &str) -> (r: Result<Option<()>, SwapError>)
        requires
            old(self).wf(),
        ensures
            final(self).wf(),
            final(self).names() == old(self).names(),
            final(self).loaded() == old(self).loaded(),
            match r {
                Ok(None) => !old(self).swappers().contains_key(key_of(id)) && final(self).swappers()
                    == old(self).swappers(),
                Ok(Some(())) => old(self).swappers().contains_key(key_of(id)) && !old(
                    self,
                ).swappers()[key_of(id)].versions.contains(name@) && final(self).swappers() == old(
                    self,
                ).swappers().insert(
                    key_of(id),
                    SwapperView {
                        versions: old(self).swappers()[key_of(id)].versions.insert(name@),
                        ..old(self).swappers()[key_of(id)]
                    },
                ),
                Err(e) => old(self).swappers().contains_key(key_of(id)) && old(
                    self,
                ).swappers()[key_of(id)].versions.contains(name@) && e == SwapError::AlreadyExists
                    && final(self).swappers() == old(self).swappers(),
            },
    {
        let ghost before = *self;
        match self.take(id) {
            None => Ok(None),
            Some(mut g) => {
                let r = g.slot_swapper.add_version(name);
                let ghost sv = g.slot_swapper@;
                self.put_back(id, g, Ghost(before));
                match r {
                    Ok(()) => Ok(Some(())),
                    Err(e) => {
                        assert(self.swappers() =~= old(self).swappers());
                        Err(e)
                    },
                }
            },
        }
    }

    /// The step that renames slot `name` of game `id` to `new_name`: `Ok(None)`
    /// when the game is not managed, else as `DirSwapper::rename_version_steps`.
    pub fn rename_steps(&self, game: GameId, name: &str, new_name: &str) -> (r: Result<
        Option<Vec<FsStep>>,
        SwapError,
    >)
        requires
            self.wf(),
        ensures
            match r {
                Ok(None) => !self.swappers().contains_key(key_of(game)),
                Ok(Some(steps)) => self.swappers().contains_key(key_of(game)) && self.swappers()[key_of(
                    game,
                )].versions.contains(name@) && !self.swappers()[key_of(game)].versions.contains(
                    new_name@,
                ) && steps_view(steps@) == rename_steps(name@, new_name@),
                Err(e) => self.swappers().contains_key(key_of(game)) && if !self.swappers()[key_of(
                    game,
                )].versions.contains(name@) {
                    e == SwapError::NotFound
                } else {
                    self.swappers()[key_of(game)].versions.contains(new_name@) && e
                        == SwapError::AlreadyExists
                },
            },
    {
        match self.game_data.get(&key(game)) {
            None => Ok(None),
            Some(g) => match g.slot_swapper.rename_version_steps(name, new_name) {
                Ok(steps) => Ok(Some(steps)),
                Err(e) => Err(e),
            },
        }
    }

    /// Records that slot `name` of game `game` is now called `new_name`:
    /// `Ok(None)`, with nothing changed, when the game is not managed; else as
    /// `DirSwapper::rename_version`.
    pub fn rename(&mut self, game: GameId, name: &str, new_name: &str) -> (r: Result<
        Option<()>,
        SwapError,
    >)
        requires
            old(self).wf(),
        ensures
            final(self).wf(),
            final(self).names() == old(self).names(),
            final(self).loaded() == old(self).loaded(),
            match r {
                Ok(None) => !old(self).swappers().contains_key(key_of(game)) && final(self).swappers()
                    == old(self).swappers(),
                Ok(Some(())) => {
                    let sv = old(self).swappers()[key_of(game)];
                    &&& old(self).swappers().contains_key(key_of(game))
                    &&& sv.versions.contains(name@)
                    &&& !sv.versions.contains(new_name@)
                    &&& final(self).swappers() == old(self).swappers().insert(
                        key_of(game),
                        SwapperView {
                            versions: sv.versions.remove(name@).insert(new_name@),
                            active: if sv.active == Some(name@) {
                                Some(new_name@)
                            } else {
                                sv.active
                            },
                            ..sv
                        },
                    )
                },
                Err(e) => {
                    let sv = old(self).swappers()[key_of(game)];
                    &&& old(self).swappers().contains_key(key_of(game))
                    &&& final(self).swappers() == old(self).swappers()
                    &&& if !sv.versions.contains(name@) {
                        e == SwapError::NotFound
                    } else {
                        sv.versions.contains(new_name@) && e == SwapError::AlreadyExists
                    }
                },
            },
    {
        let ghost before = *self;
        match self.take(game) {
            None => Ok(None),
            Some(mut g) => {
                let r = g.slot_swapper.rename_version(name, new_name);
                let ghost sv = g.slot_swapper@;
                self.put_back(game, g, Ghost(before));
                match r {
                    Ok(()) => Ok(Some(())),
                    Err(e) => {
                        assert(self.swappers() =~= old(self).swappers());
                        Err(e)
                    },
                }
            },
        }
    }

    /// The step that deletes slot `name` of game `game`: `Ok(None)` when the
    /// game is not managed, else as `DirSwapper::delete_version_steps`.
    pub fn delete_steps(&self, game: GameId, name: &str) -> (r: Result<Option<Vec<FsStep>>, SwapError>)
        requires
            self.wf(),
        ensures
            match r {
                Ok(None) => !self.swappers().contains_key(key_of(game)),
                Ok(Some(steps)) => self.swappers().contains_key(key_of(game)) && self.swappers()[key_of(
                    game,
                )].versions.contains(name@) && steps_view(steps@) == delete_steps(name@),
                Err(e) => self.swappers().contains_key(key_of(game)) && !self.swappers()[key_of(
                    game,
                )].versions.contains(name@) && e == SwapError::NotFound,
            },
    {
        match self.game_data.get(&key(game)) {
            None => Ok(None),
            Some(g) => match g.slot_swapper.delete_version_steps(name) {
                Ok(steps) => Ok(Some(steps)),
                Err(e) => Err(e),
            },
        }
    }

    /// Records that slot `name` of game `game` has been deleted: `Ok(None)`, with
    /// nothing changed, when the game is not managed; else as
    /// `DirSwapper::delete_version`.
    pub fn delete(&mut self, game: GameId, name: &str) -> (r: Result<Option<()>, SwapError>)
        requires
            old(self).wf(),
        ensures
            final(self).wf(),
            final(self).names() == old(self).names(),
            final(self).loaded() == old(self).loaded(),
            match r {
                Ok(None) => !old(self).swappers().contains_key(key_of(game)) && final(self).swappers()
                    == old(self).swappers(),
                Ok(Some(())) => {
                    let sv = old(self).swappers()[key_of(game)];
                    &&& old(self).swappers().contains_key(key_of(game))
                    &&& sv.versions.contains(name@)
                    &&& final(self).swappers() == old(self).swappers().insert(
                        key_of(game),
                        SwapperView {
                            versions: sv.versions.remove(name@),
                            active: if sv.active == Some(name@) {
                                None
                            } else {
                                sv.active
                            },
                            ..sv
                        },
                    )
                },
                Err(e) => old(self).swappers().contains_key(key_of(game)) && !old(
                    self,
                ).swappers()[key_of(game)].versions.contains(name@) && e == SwapError::NotFound
                    && final(self).swappers() == old(self).swappers(),
            },
    {
        let ghost before = *self;
        match self.take(game) {
            None => Ok(None),
            Some(mut g) => {
                let r = g.slot_swapper.delete_version(name);
                let ghost sv = g.slot_swapper@;
                self.put_back(game, g, Ghost(before));
                match r {
                    Ok(()) => Ok(Some(())),
                    Err(e) => {
                        assert(self.swappers() =~= old(self).swappers());
                        Err(e)
                    },
                }
            },
        }
    }

    /// The steps that make slot `name` of game `game` live: `Ok(None)` when the
    /// game is not managed, else as `DirSwapper::set_active_steps`.
    pub fn load_steps(&self, game: GameId, name: &str) -> (r: Result<Option<Vec<FsStep>>, SwapError>)
        requires
            self.wf(),
        ensures
            match r {
                Ok(None) => !self.swappers().contains_key(key_of(game)),
                Ok(Some(steps)) => self.swappers().contains_key(key_of(game)) && self.swappers()[key_of(
                    game,
                )].versions.contains(name@) && steps_view(steps@) == swap_steps(
                    self.swappers()[key_of(game)].active,
                    name@,
                ),
                Err(e) => self.swappers().contains_key(key_of(game)) && !self.swappers()[key_of(
                    game,
                )].versions.contains(name@) && e == SwapError::NotFound,
            },
    {
        match self.game_data.get(&key(game)) {
            None => Ok(None),
            Some(g) => match g.slot_swapper.set_active_steps(name) {
                Ok(steps) => Ok(Some(steps)),
                Err(e) => Err(e),
            },
        }
    }

    /// Records that slot `name` of game `game` is now live: `Ok(None)`, with
    /// nothing changed, when the game is not managed; else as
    /// `DirSwapper::set_active`.
    pub fn load(&mut self, game: GameId, name: String) -> (r: Result<Option<()>, SwapError>)
        requires
            old(self).wf(),
        ensures
            final(self).wf(),
            final(self).names() == old(self).names(),
            final(self).loaded() == old(self).loaded(),
            match r {
                Ok(None) => !old(self).swappers().contains_key(key_of(game)) && final(self).swappers()
                    == old(self).swappers(),
                Ok(Some(())) => old(self).swappers().contains_key(key_of(game)) && old(
                    self,
                ).swappers()[key_of(game)].versions.contains(name@) && final(self).swappers() == old(
                    self,
                ).swappers().insert(
                    key_of(game),
                    SwapperView { active: Some(name@), ..old(self).swappers()[key_of(game)] },
                ),
                Err(e) => old(self).swappers().contains_key(key_of(game)) && !old(
                    self,
                ).swappers()[key_of(game)].versions.contains(name@) && e == SwapError::NotFound
                    && final(self).swappers() == old(self).swappers(),
            },
    {
        let ghost before = *self;
        match self.take(game) {
            None => Ok(None),
            Some(mut g) => {
                let r = g.slot_swapper.set_active(name);
                let ghost sv = g.slot_swapper@;
                self.put_back(game, g, Ghost(before));
                match r {
                    Ok(()) => Ok(Some(())),
                    Err(e) => {
                        assert(self.swappers() =~= old(self).swappers());
                        Err(e)
                    },
                }
            },
        }
    }

    /// Whether slot `name` is the live one of game `game`; `None` when the game
    /// is not managed.
    pub fn is_loaded(&self, game: GameId, name: &str) -> (r: Option<bool>)
        ensures
            match r {
                Some(b) => self.swappers().contains_key(key_of(game)) && b == (self.swappers()[key_of(
                    game,
                )].active == Some(name@)),
                None => !self.swappers().contains_key(key_of(game)),
            },
    {
        match self.game_data.get(&key(game)) {
            None => None,
            Some(g) => match g.slot_swapper.active_version() {
                Some(v) => {
                    let v = v.to_string();
                    let n = name.to_string();
                    Some(v == n)
                },
                None => Some(false),
            },
        }
    }

    /// The cached names of games, each with its game.
    pub fn games(&self) -> (r: &Vec<(String, GameId)>)
        ensures
            names_view(r@) == self.names(),
    {
        &self.name_cache
    }

    /// Caches `name` as the name of game `id`, replacing the game that name
    /// stood for, if any; a new name goes last.
    pub fn cache_name(&mut self, name: String, id: GameId)
        requires
            old(self).wf(),
        ensures
            final(self).wf(),
            final(self).swappers() == old(self).swappers(),
            final(self).loaded() == old(self).loaded(),
            (exists|i: int| 0 <= i < old(self).names().len() && old(self).names()[i].0 == name@)
                ==> exists|i: int|
                0 <= i < old(self).names().len() && old(self).names()[i].0 == name@
                    && final(self).names() == old(self).names().update(i, (name@, id)),
            !(exists|i: int| 0 <= i < old(self).names().len() && old(self).names()[i].0 == name@)
                ==> final(self).names() == old(self).names().push((name@, id)),
    {
        let mut i: usize = 0;
        while i < self.name_cache.len()
            invariant
                *self == *old(self),
                old(self).wf(),
                i <= self.name_cache@.len(),
                forall|j: int| 0 <= j < i ==> self.name_cache@[j].0@ != name@,
            decreases self.name_cache@.len() - i,
        {
            if self.name_cache[i].0 == name {
                let ghost j = i as int;
                assert(old(self).names()[j].0 == name@);
                self.name_cache.set(i, (name, id));
                assert(self.names() =~= old(self).names().update(j, (name@, id)));
                assert forall|a: int, b: int|
                    0 <= a < b < self.name_cache@.len() implies #[trigger] self.name_cache@[a].0@
                    != #[trigger] self.name_cache@[b].0@ by {
                    assert(old(self).name_cache@[a].0@ != old(self).name_cache@[b].0@);
                }
                return;
            }
            i += 1;
        }
        assert(!(exists|j: int| 0 <= j < old(self).names().len() && old(self).names()[j].0 == name@))
            by {
            if exists|j: int| 0 <= j < old(self).names().len() && old(self).names()[j].0 == name@ {
                let j = choose|j: int| 0 <= j < old(self).names().len() && old(self).names()[j].0 == name@;
                assert(self.name_cache@[j].0@ == name@);
            }
        }
        self.name_cache.push((name, id));
        assert(self.names() =~= old(self).names().push((name@, id)));
    }

    /// Whether the games of the Steam library have been loaded.
    pub fn steam_loaded(&self) -> (r: bool)
        ensures
            r == self.loaded(),
    {
        self.steam_loaded
    }

    /// Records a game found in the Steam library and known to the wiki as
    /// `name`: it is managed from now on, with an unconfigured swapper, and its
    /// name is cached.
    pub fn register_steam_game(&mut self, id: GameId, name: String)
        requires
            old(self).wf(),
        ensures
            final(self).wf(),
            final(self).swappers() == old(self).swappers().insert(
                key_of(id),
                DirSwapper::unconfigured_view(),
            ),
            final(self).loaded() == old(self).loaded(),
            (exists|i: int| 0 <= i < old(self).names().len() && old(self).names()[i].0 == name@)
                ==> exists|i: int|
                0 <= i < old(self).names().len() && old(self).names()[i].0 == name@
                    && final(self).names() == old(self).names().update(i, (name@, id)),
            !(exists|i: int| 0 <= i < old(self).names().len() && old(self).names()[i].0 == name@)
                ==> final(self).names() == old(self).names().push((name@, id)),
    {
        self.insert_game(id, GameSaves::new(DirSwapper::unconfigured()));
        self.cache_name(name, id);
    }

    /// Ends loading the Steam library: it counts as loaded, and `true` comes
    /// back, when at least one game is managed; otherwise `false`, with nothing
    /// changed.
    pub fn finish_steam_load(&mut self) -> (r: bool)
        requires
            old(self).wf(),
        ensures
            final(self).wf(),
            r == !old(self).swappers().is_empty(),
            final(self).loaded() == (old(self).loaded() || r),
            final(self).swappers() == old(self).swappers(),
            final(self).names() == old(self).names(),
    {
        if self.game_data.is_empty() {
            assert(self.swappers().dom() =~= Set::<u32>::empty());
            return false;
        }
        assert(!self.swappers().is_empty()) by {
            let k = self.game_data@.dom().choose();
            if self.game_data@.dom().len() > 0 {
                assert(self.game_data@.dom().contains(k));
                assert(self.swappers().dom().contains(k));
            }
        }
        self.steam_loaded = true;
        assert forall|k: u32| #[trigger]
            self.game_data@.contains_key(k) implies exists|i: int|
                0 <= i < self.order@.len() && key_of(self.order@[i]) == k by {
            let i = choose|i: int|
                0 <= i < old(self).order@.len() && key_of(old(self).order@[i]) == k;
            assert(key_of(self.order@[i]) == k);
        }
        true
    }
}

} // verus!
