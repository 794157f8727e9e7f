use vittusave::save_manager::{GameId, GameSaves, SaveManager};
use vittusave::swapper::{DirSwapper, SwapError};

fn manager_with_game(id: GameId) -> SaveManager {
    let mut m = SaveManager::new();
    let (swapper, _) = DirSwapper::build(
        "/live".to_string(),
        "/versions".to_string(),
        "Main".to_string(),
        Vec::new(),
    );
    m.insert_game(id, GameSaves::new(swapper));
    m
}

#[test]
fn unknown_game_gives_none() {
    let mut m = SaveManager::new();
    let id = GameId::Steam(1);
    assert!(!m.contains(id));
    assert!(m.get(id).is_none());
    assert_eq!(m.path(id), None);
    assert_eq!(m.create(id, "a"), Ok(None));
    assert_eq!(m.delete(id, "a"), Ok(None));
    assert_eq!(m.load(id, "a".to_string()), Ok(None));
    assert_eq!(m.rename(id, "a", "b"), Ok(None));
    assert_eq!(m.is_loaded(id, "a"), None);
    assert_eq!(m.set_path(id, "/x".to_string()), Err(()));
}

#[test]
fn slots_are_created_loaded_renamed_and_deleted() {
    let id = GameId::Steam(516750);
    let mut m = manager_with_game(id);
    assert!(m.contains(id));
    assert_eq!(m.path(id), Some("/versions"));
    assert!(m.create_steps(id, "Second").unwrap().is_some());
    assert_eq!(m.create(id, "Second"), Ok(Some(())));
    assert_eq!(m.create(id, "Second"), Err(SwapError::AlreadyExists));
    assert_eq!(m.is_loaded(id, "Main"), Some(true));
    assert_eq!(m.load_steps(id, "Second").unwrap().unwrap().len(), 4);
    assert_eq!(m.load(id, "Second".to_string()), Ok(Some(())));
    assert_eq!(m.is_loaded(id, "Second"), Some(true));
    assert_eq!(m.is_loaded(id, "Main"), Some(false));
    assert_eq!(m.load(id, "Nope".to_string()), Err(SwapError::NotFound));
    assert_eq!(m.rename(id, "Second", "Renamed"), Ok(Some(())));
    assert_eq!(m.is_loaded(id, "Renamed"), Some(true));
    assert_eq!(m.delete(id, "Renamed"), Ok(Some(())));
    assert_eq!(m.is_loaded(id, "Renamed"), Some(false));
    assert_eq!(m.delete(id, "Renamed"), Err(SwapError::NotFound));
}

#[test]
fn set_path_moves_the_live_directory() {
    let id = GameId::Steam(3);
    let mut m = manager_with_game(id);
    assert_eq!(m.set_path(id, "/elsewhere".to_string()), Ok(()));
    assert_eq!(m.get(id).unwrap().slot_swapper.primary_dir(), "/elsewhere");
}

#[test]
fn names_are_cached_once_each() {
    let mut m = SaveManager::new();
    m.cache_name("Undertale".to_string(), GameId::Steam(391540));
    m.cache_name("My Summer Car".to_string(), GameId::Steam(516750));
    m.cache_name("Undertale".to_string(), GameId::Steam(1));
    let games = m.games();
    assert_eq!(games.len(), 2);
    assert_eq!(games[0].0, "Undertale");
    assert_eq!(games[0].1, GameId::Steam(1));
    assert_eq!(games[1].1, GameId::Steam(516750));
}

#[test]
fn steam_load_needs_a_game() {
    let mut m = SaveManager::new();
    assert!(!m.finish_steam_load());
    assert!(!m.steam_loaded());
    m.register_steam_game(GameId::Steam(730), "Counter-Strike 2".to_string());
    assert!(m.contains(GameId::Steam(730)));
    assert!(m.finish_steam_load());
    assert!(m.steam_loaded());
    assert_eq!(m.games().len(), 1);
}
