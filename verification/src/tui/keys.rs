use vstd::prelude::*;
use super::app::{Action, App};
use super::view::{View as Screen, ViewV};

verus! {

/// The key of a key press.
#[derive(Debug, Clone, Copy, PartialEq, Eq, Structural)]
pub enum KeyCode {
    Char(char),
    F(u8),
    Up,
    Down,
    Left,
    Right,
    PageUp,
    PageDown,
    Home,
    End,
    Enter,
    Esc,
    Backspace,
    Tab,
    Delete,
    Insert,
    Other,
}

/// Bit of the Shift modifier.
pub const SHIFT: u8 = 0b0000_0001;
/// Bit of the Control modifier.
pub const CONTROL: u8 = 0b0000_0010;
/// Bit of the Alt modifier.
pub const ALT: u8 = 0b0000_0100;

/// A key press: the key and the set of modifier bits held.
#[derive(Debug, Clone, Copy, PartialEq, Eq, Structural)]
pub struct KeyInput {
    pub code: KeyCode,
    pub modifiers: u8,
}

/// The action a key asks for while the help overlay is shown.
pub open spec fn help_action(k: KeyInput) -> Option<Action> {
    match k.code {
        KeyCode::Char(c) => if c == '?' || c == 'q' {
            Some(Action::ToggleHelp)
        } else {
            None
        },
        KeyCode::Esc => Some(Action::ToggleHelp),
        KeyCode::F(n) => if n == 1 {
            Some(Action::ToggleHelp)
        } else {
            None
        },
        _ => None,
    }
}

/// The action a key asks for on the subscription picker.
pub open spec fn picker_action(k: KeyInput) -> Option<Action> {
    match k.code {
        KeyCode::Char(c) => if c == 'q' {
            Some(Action::Back)
        } else if c == 'k' {
            Some(Action::Up)
        } else if c == 'j' {
            Some(Action::Down)
        } else if c == '?' {
            Some(Action::ToggleHelp)
        } else {
            None
        },
        KeyCode::Esc => Some(Action::Back),
        KeyCode::Up => Some(Action::Up),
        KeyCode::Down => Some(Action::Down),
        KeyCode::Enter => Some(Action::SelectAccount),
        KeyCode::F(n) => if n == 1 {
            Some(Action::ToggleHelp)
        } else {
            None
        },
        _ => None,
    }
}

/// The action a key asks for on the other screens; `Ctrl` counts only when
/// it is the one modifier held.
pub open spec fn main_action(k: KeyInput) -> Option<Action> {
    let ctrl = k.modifiers == CONTROL;
    match k.code {
        KeyCode::Char(c) => if ctrl && c == 'c' {
            Some(Action::Quit)
        } else if c == 'q' {
            Some(Action::Quit)
        } else if c == 'k' {
            Some(Action::Up)
        } else if c == 'j' {
            Some(Action::Down)
        } else if ctrl && c == 'u' {
            Some(Action::PageUp)
        } else if ctrl && c == 'd' {
            Some(Action::PageDown)
        } else if c == 'g' {
            Some(Action::Home)
        } else if c == 'G' {
            Some(Action::End)
        } else if c == 'l' {
            Some(Action::Enter)
        } else if c == 'h' {
            Some(Action::Back)
        } else if c == 'r' {
            Some(Action::Refresh)
        } else if c == 's' {
            Some(Action::OpenAccountPicker)
        } else if c == '?' {
            Some(Action::ToggleHelp)
        } else {
            None
        },
        KeyCode::Up => Some(Action::Up),
        KeyCode::Down => Some(Action::Down),
        KeyCode::PageUp => Some(Action::PageUp),
        KeyCode::PageDown => Some(Action::PageDown),
        KeyCode::Home => Some(Action::Home),
        KeyCode::End => Some(Action::End),
        KeyCode::Enter => Some(Action::Enter),
        KeyCode::Right => Some(Action::Enter),
        KeyCode::Esc => Some(Action::Back),
        KeyCode::Backspace => Some(Action::Back),
        KeyCode::Left => Some(Action::Back),
        KeyCode::F(n) => if n == 1 {
            Some(Action::ToggleHelp)
        } else {
            None
        },
        _ => None,
    }
}

/// The action a key press asks for, given whether help is shown and the
/// screen on top.
pub open spec fn key_action(help_visible: bool, top: ViewV, k: KeyInput) -> Option<Action> {
    if help_visible {
        help_action(k)
    } else if top is AccountPicker {
        picker_action(k)
    } else {
        main_action(k)
    }
}

fn help_dispatch(k: KeyInput) -> (r: Option<Action>)
    ensures
        r == help_action(k),
{
    match k.code {
        KeyCode::Char(c) => if c == '?' || c == 'q' {
            Some(Action::ToggleHelp)
        } else {
            None
        },
        KeyCode::Esc => Some(Action::ToggleHelp),
        KeyCode::F(n) => if n == 1 {
            Some(Action::ToggleHelp)
        } else {
            None
        },
        _ => None,
    }
}

fn picker_dispatch(k: KeyInput) -> (r: Option<Action>)
    ensures
        r == picker_action(k),
{
    match k.code {
        KeyCode::Char(c) => if c == 'q' {
            Some(Action::Back)
        } else if c == 'k' {
            Some(Action::Up)
        } else if c == 'j' {
            Some(Action::Down)
        } else if c == '?' {
            Some(Action::ToggleHelp)
        } else {
            None
        },
        KeyCode::Esc => Some(Action::Back),
        KeyCode::Up => Some(Action::Up),
        KeyCode::Down => Some(Action::Down),
        KeyCode::Enter => Some(Action::SelectAccount),
        KeyCode::F(n) => if n == 1 {
            Some(Action::ToggleHelp)
        } else {
            None
        },
        _ => None,
    }
}

fn main_dispatch(k: KeyInput) -> (r: Option<Action>)
    ensures
        r == main_action(k),
{
    let ctrl = k.modifiers == CONTROL;
    match k.code {
        KeyCode::Char(c) => if ctrl && c == 'c' {
            Some(Action::Quit)
        } else if c == 'q' {
            Some(Action::Quit)
        } else if c == 'k' {
            Some(Action::Up)
        } else if c == 'j' {
            Some(Action::Down)
        } else if ctrl && c == 'u' {
            Some(Action::PageUp)
        } else if ctrl && c == 'd' {
            Some(Action::PageDown)
        } else if c == 'g' {
            Some(Action::Home)
        } else if c == 'G' {
            Some(Action::End)
        } else if c == 'l' {
            Some(Action::Enter)
        } else if c == 'h' {
            Some(Action::Back)
        } else if c == 'r' {
            Some(Action::Refresh)
        } else if c == 's' {
            Some(Action::OpenAccountPicker)
        } else if c == '?' {
            Some(Action::ToggleHelp)
        } else {
            None
        },
        KeyCode::Up => Some(Action::Up),
        KeyCode::Down => Some(Action::Down),
        KeyCode::PageUp => Some(Action::PageUp),
        KeyCode::PageDown => Some(Action::PageDown),
        KeyCode::Home => Some(Action::Home),
        KeyCode::End => Some(Action::End),
        KeyCode::Enter => Some(Action::Enter),
        KeyCode::Right => Some(Action::Enter),
        KeyCode::Esc => Some(Action::Back),
        KeyCode::Backspace => Some(Action::Back),
        KeyCode::Left => Some(Action::Back),
        KeyCode::F(n) => if n == 1 {
            Some(Action::ToggleHelp)
        } else {
            None
        },
        _ => None,
    }
}

/// The action a key press asks for on the current screen, if any.
pub fn dispatch(app: &App, key: KeyInput) -> (r: Option<Action>)
    requires
        app.view_stack@.len() > 0,
    ensures
        r == key_action(app.help_visible, app.view_stack@.last().view_v(), key),
{
    if app.help_visible {
        return help_dispatch(key);
    }
    let top: &Screen = app.current_view();
    match top {
        Screen::AccountPicker => picker_dispatch(key),
        _ => main_dispatch(key),
    }
}

} // verus!
