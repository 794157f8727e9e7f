use vittusave::tabs::{Action, Key, KeyOutcome, TabState};

#[test]
fn tabs_move_and_stop_at_the_ends() {
    let first = TabState::first();
    assert_eq!(first.previous(), first);
    assert_eq!(first.next(), TabState::Tab2);
    assert_eq!(TabState::Tab2.next(), TabState::Tab2);
    assert_eq!(TabState::Tab2.previous(), TabState::Tab1 { g_pressed: false });
    assert_eq!(first.tab(), 0);
    assert_eq!(TabState::Tab2.tab(), 1);
    assert_eq!(first.title(), "Games");
    assert_eq!(TabState::Tab2.title(), "Saves");
}

#[test]
fn games_tab_keys() {
    let mut s = TabState::first();
    assert_eq!(s.on_key_event(Key::Char('j')), KeyOutcome::SelectNext);
    assert_eq!(s.on_key_event(Key::Up), KeyOutcome::SelectPrevious);
    assert_eq!(s.on_key_event(Key::Char('G')), KeyOutcome::SelectLast);
    assert_eq!(s.on_key_event(Key::Home), KeyOutcome::SelectFirst);
    assert_eq!(s.on_key_event(Key::Char('a')), KeyOutcome::Perform(Action::AddGame));
    assert_eq!(s.on_key_event(Key::Delete), KeyOutcome::Perform(Action::RemoveGame));
    assert_eq!(s.on_key_event(Key::Esc), KeyOutcome::Quit);
    assert_eq!(s, TabState::first());
}

#[test]
fn double_g_selects_first() {
    let mut s = TabState::first();
    assert_eq!(s.on_key_event(Key::Char('g')), KeyOutcome::Stay);
    assert_eq!(s, TabState::Tab1 { g_pressed: true });
    assert_eq!(s.on_key_event(Key::Char('g')), KeyOutcome::SelectFirst);
    assert_eq!(s, TabState::Tab1 { g_pressed: false });
    s.on_key_event(Key::Char('g'));
    s.on_key_event(Key::Char('x'));
    assert_eq!(s.on_key_event(Key::Char('g')), KeyOutcome::Stay);
}

#[test]
fn saves_tab_goes_back() {
    let mut s = TabState::first();
    assert_eq!(s.on_key_event(Key::Enter), KeyOutcome::Stay);
    assert_eq!(s, TabState::Tab2);
    assert_eq!(s.on_key_event(Key::Char('j')), KeyOutcome::Stay);
    assert_eq!(s, TabState::Tab2);
    assert_eq!(s.on_key_event(Key::Esc), KeyOutcome::Stay);
    assert_eq!(s, TabState::first());
}

#[test]
fn actions_and_bindings() {
    assert_eq!(TabState::first().keybindings(), vec![Action::AddGame, Action::RemoveGame]);
    assert!(TabState::Tab2.keybindings().is_empty());
    assert_eq!(Action::AddGame.bindings(), vec![Key::Char('a')]);
    assert_eq!(Action::RemoveGame.bindings(), vec![Key::Delete, Key::Char('d')]);
    assert_eq!(Action::AddGame.description(), "add game");
    assert_eq!(Action::RemoveGame.description(), "delete game");
}

use vittusave::tabs::is_quit_key;

#[test]
fn quit_keys() {
    assert!(is_quit_key(Key::Char('q'), false));
    assert!(is_quit_key(Key::Char('c'), true));
    assert!(is_quit_key(Key::Char('C'), true));
    assert!(!is_quit_key(Key::Char('c'), false));
    assert!(!is_quit_key(Key::Esc, true));
}
