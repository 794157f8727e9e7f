//! What the terminal interface does with a key press: the tabs, and the
//! actions each tab offers.

use vstd::prelude::*;

verus! {

/// A key, as far as the interface tells keys apart.
#[derive(Debug, Clone, Copy, PartialEq, Eq, Structural)]
pub enum Key {
    Char(char),
    Left,
    Right,
    Up,
    Down,
    Enter,
    Esc,
    Home,
    End,
    Delete,
    Other,
}

/// The tab on show. On the games tab, `g_pressed` records that the last key was
/// a `g` that did not complete a `gg`.
#[derive(Debug, Clone, Copy, PartialEq, Eq, Structural)]
pub enum TabState {
    /// The list of games.
    Tab1 { g_pressed: bool },
    /// The saves of the selected game.
    Tab2,
}

/// An action that a tab offers, with the keys bound to it.
#[derive(Debug, Clone, Copy, PartialEq, Eq, Structural)]
pub enum Action {
    AddGame,
    RemoveGame,
}

/// What a key press asks of the interface besides the new tab state.
#[derive(Debug, Clone, Copy, PartialEq, Eq, Structural)]
pub enum KeyOutcome {
    /// Leave the interface.
    Quit,
    /// Move the selection down, or up.
    SelectNext,
    SelectPrevious,
    /// Move the selection to the first, or the last, item.
    SelectFirst,
    SelectLast,
    /// Carry out an action.
    Perform(Action),
    /// Nothing besides the new tab state.
    Stay,
}

/// The tab after `s`; the last tab stays.
pub open spec fn next_spec(s: TabState) -> TabState {
    match s {
        TabState::Tab1 { .. } => TabState::Tab2,
        TabState::Tab2 => TabState::Tab2,
    }
}

/// The tab before `s`; the first tab stays as it is.
pub open spec fn previous_spec(s: TabState) -> TabState {
    match s {
        TabState::Tab1 { .. } => s,
        TabState::Tab2 => TabState::Tab1 { g_pressed: false },
    }
}

/// The new tab state and the outcome of pressing `key` in state `s`.
pub open spec fn key_step(s: TabState, key: Key) -> (TabState, KeyOutcome) {
    match s {
        TabState::Tab1 { g_pressed } => {
            let after = TabState::Tab1 { g_pressed: key == Key::Char('g') && !g_pressed };
            match key {
                Key::Esc => (after, KeyOutcome::Quit),
                Key::Down | Key::Char('j') => (after, KeyOutcome::SelectNext),
                Key::Up | Key::Char('k') => (after, KeyOutcome::SelectPrevious),
                Key::Right | Key::Char('l') | Key::Enter => (TabState::Tab2, KeyOutcome::Stay),
                Key::Char('a') => (after, KeyOutcome::Perform(Action::AddGame)),
                Key::Char('d') | Key::Delete => (after, KeyOutcome::Perform(Action::RemoveGame)),
                Key::End | Key::Char('G') => (after, KeyOutcome::SelectLast),
                Key::Home => (after, KeyOutcome::SelectFirst),
                Key::Char('g') => (after, if g_pressed {
                    KeyOutcome::SelectFirst
                } else {
                    KeyOutcome::Stay
                }),
                _ => (after, KeyOutcome::Stay),
            }
        },
        TabState::Tab2 => match key {
            Key::Left | Key::Char('h') | Key::Esc => (previous_spec(s), KeyOutcome::Stay),
            _ => (s, KeyOutcome::Stay),
        },
    }
}

/// Whether `key` leaves the interface from any tab: `q`, or `c` / `C` with
/// the control key held.
pub fn is_quit_key(key: Key, control: bool) -> (r: bool)
    ensures
        r == (key == Key::Char('q') || (control && (key == Key::Char('c') || key == Key::Char('C')))),
{
    match key {
        Key::Char('q') => true,
        Key::Char('c') | Key::Char('C') => control,
        _ => false,
    }
}

impl TabState {
    /// The games tab, with no key pending.
    pub fn first() -> (r: TabState)
        ensures
            r == (TabState::Tab1 { g_pressed: false }),
    {
        TabState::Tab1 { g_pressed: false }
    }

    /// The next tab; if there is no next tab, the current one.
    pub fn next(self) -> (r: TabState)
        ensures
            r == next_spec(self),
    {
        match self {
            TabState::Tab1 { .. } => TabState::Tab2,
            TabState::Tab2 => TabState::Tab2,
        }
    }

    /// The previous tab; if there is no previous tab, the current one.
    pub fn previous(self) -> (r: TabState)
        ensures
            r == previous_spec(self),
    {
        match self {
            TabState::Tab1 { .. } => self,
            TabState::Tab2 => TabState::Tab1 { g_pressed: false },
        }
    }

    /// The position of the tab in the tab bar.
    pub fn tab(&self) -> (r: usize)
        ensures
            r == (if *self is Tab1 {
                0usize
            } else {
                1usize
            }),
    {
        match self {
            TabState::Tab1 { .. } => 0,
            TabState::Tab2 => 1,
        }
    }

    /// The tab's title.
    pub fn title(&self) -> (r: &'static str)
        ensures
            r@ == (if *self is Tab1 {
                "Games"@
            } else {
                "Saves"@
            }),
    {
        match self {
            TabState::Tab1 { .. } => "Games",
            TabState::Tab2 => "Saves",
        }
    }

    /// The actions that the tab offers, in the order they are listed.
    pub fn keybindings(&self) -> (r: Vec<Action>)
        ensures
            r@ == (if *self is Tab1 {
                seq![Action::AddGame, Action::RemoveGame]
            } else {
                Seq::<Action>::empty()
            }),
    {
        match self {
            TabState::Tab1 { .. } => {
                let r = vec![Action::AddGame, Action::RemoveGame];
                assert(r@ =~= seq![Action::AddGame, Action::RemoveGame]);
                r
            },
            TabState::Tab2 => {
                let r: Vec<Action> = Vec::new();
                assert(r@ =~= Seq::<Action>::empty());
                r
            },
        }
    }

    /// Handles a key press: updates the tab state and says what else the key
    /// asks for (see `key_step`).
    pub fn on_key_event(&mut self, key: Key) -> (r: KeyOutcome)
        ensures
            (*final(self), r) == key_step(*old(self), key),
    {
        match *self {
            TabState::Tab1 { g_pressed } => {
                let is_g = key == Key::Char('g');
                *self = TabState::Tab1 { g_pressed: is_g && !g_pressed };
                match key {
                    Key::Esc => KeyOutcome::Quit,
                    Key::Down | Key::Char('j') => KeyOutcome::SelectNext,
                    Key::Up | Key::Char('k') => KeyOutcome::SelectPrevious,
                    Key::Right | Key::Char('l') | Key::Enter => {
                        *self = TabState::Tab2;
                        KeyOutcome::Stay
                    },
                    Key::Char('a') => KeyOutcome::Perform(Action::AddGame),
                    Key::Char('d') | Key::Delete => KeyOutcome::Perform(Action::RemoveGame),
                    Key::End | Key::Char('G') => KeyOutcome::SelectLast,
                    Key::Home => KeyOutcome::SelectFirst,
                    Key::Char('g') => if g_pressed {
                        KeyOutcome::SelectFirst
                    } else {
                        KeyOutcome::Stay
                    },
                    _ => KeyOutcome::Stay,
                }
            },
            TabState::Tab2 => {
                match key {
                    Key::Left | Key::Char('h') | Key::Esc => {
                        *self = self.previous();
                    },
                    _ => {},
                }
                KeyOutcome::Stay
            },
        }
    }
}

impl Action {
    /// What the action is called in the list of key bindings.
    pub fn description(&self) -> (r: &'static str)
        ensures
            r@ == (if *self is AddGame {
                "add game"@
            } else {
                "delete game"@
            }),
    {
        match self {
            Action::AddGame => "add game",
            Action::RemoveGame => "delete game",
        }
    }

    /// The keys bound to the action.
    pub fn bindings(&self) -> (r: Vec<Key>)
        ensures
            r@ == (if *self is AddGame {
                seq![Key::Char('a')]
            } else {
                seq![Key::Delete, Key::Char('d')]
            }),
    {
        match self {
            Action::AddGame => {
                let r = vec![Key::Char('a')];
                assert(r@ =~= seq![Key::Char('a')]);
                r
            },
            Action::RemoveGame => {
                let r = vec![Key::Delete, Key::Char('d')];
                assert(r@ =~= seq![Key::Delete, Key::Char('d')]);
                r
            },
        }
    }
}

} // verus!
