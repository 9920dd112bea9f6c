//! The inputs that the screen answers.
use vstd::prelude::*;

verus! {

/// One input: a tick, a key, or the answer of the event store.
#[derive(Debug, PartialEq)]
pub enum Action {
    // system lifecycle
    Tick,
    Quit,
    Resize(u16, u16),

    // global navigation
    NextTab,
    PrevTab,
    ToggleHelp,

    // raw input
    Enter,
    Esc,
    Backspace,
    Up,
    Down,
    Left,
    Right,
    Char(char),

    // dawnline actions
    OpenCommand,
    SubmitCommand,
    StartSelectedBlock,
    CompleteSelectedTask,
    DropSelectedTask,
    RemoveSelectedTask,
    StartNewSession,
    FinishSession,
    FinishDay,

    // storage
    ReceiveStoreResult(Result<String, String>),
}

/// A key press, as the screen reads it.
#[derive(Debug, Clone, Copy, PartialEq, Eq)]
pub enum KeyInput {
    Char(char),
    Enter,
    Esc,
    Backspace,
    Up,
    Down,
    Left,
    Right,
    Tab,
    BackTab,
    Other,
}

/// The input that a key press means. In the command line only text editing,
/// `enter` and `esc` count; elsewhere `:` opens the command line, `?` toggles
/// help, `q` quits and `tab` switches panes. Any other key is a tick.
pub open spec fn key_meaning(key: KeyInput, command_mode: bool) -> Action {
    if command_mode {
        match key {
            KeyInput::Enter => Action::Enter,
            KeyInput::Esc => Action::Esc,
            KeyInput::Backspace => Action::Backspace,
            KeyInput::Char(c) => Action::Char(c),
            _ => Action::Tick,
        }
    } else {
        match key {
            KeyInput::Char(c) => if c == ':' {
                Action::OpenCommand
            } else if c == '?' {
                Action::ToggleHelp
            } else if c == 'q' {
                Action::Quit
            } else {
                Action::Char(c)
            },
            KeyInput::Enter => Action::Enter,
            KeyInput::Esc => Action::Esc,
            KeyInput::Backspace => Action::Backspace,
            KeyInput::Up => Action::Up,
            KeyInput::Down => Action::Down,
            KeyInput::Left => Action::Left,
            KeyInput::Right => Action::Right,
            KeyInput::Tab => Action::NextTab,
            KeyInput::BackTab => Action::PrevTab,
            KeyInput::Other => Action::Tick,
        }
    }
}

/// The input that a key press means.
pub fn key_action(key: KeyInput, command_mode: bool) -> (a: Action)
    ensures
        a == key_meaning(key, command_mode),
{
    if command_mode {
        match key {
            KeyInput::Enter => Action::Enter,
            KeyInput::Esc => Action::Esc,
            KeyInput::Backspace => Action::Backspace,
            KeyInput::Char(c) => Action::Char(c),
            _ => Action::Tick,
        }
    } else {
        match key {
            KeyInput::Char(c) => if c == ':' {
                Action::OpenCommand
            } else if c == '?' {
                Action::ToggleHelp
            } else if c == 'q' {
                Action::Quit
            } else {
                Action::Char(c)
            },
            KeyInput::Enter => Action::Enter,
            KeyInput::Esc => Action::Esc,
            KeyInput::Backspace => Action::Backspace,
            KeyInput::Up => Action::Up,
            KeyInput::Down => Action::Down,
            KeyInput::Left => Action::Left,
            KeyInput::Right => Action::Right,
            KeyInput::Tab => Action::NextTab,
            KeyInput::BackTab => Action::PrevTab,
            KeyInput::Other => Action::Tick,
        }
    }
}

impl Clone for Action {
    fn clone(&self) -> (r: Self)
        ensures
            r == *self,
    {
        match self {
            Action::Tick => Action::Tick,
            Action::Quit => Action::Quit,
            Action::Resize(w, h) => Action::Resize(*w, *h),
            Action::NextTab => Action::NextTab,
            Action::PrevTab => Action::PrevTab,
            Action::ToggleHelp => Action::ToggleHelp,
            Action::Enter => Action::Enter,
            Action::Esc => Action::Esc,
            Action::Backspace => Action::Backspace,
            Action::Up => Action::Up,
            Action::Down => Action::Down,
            Action::Left => Action::Left,
            Action::Right => Action::Right,
            Action::Char(c) => Action::Char(*c),
            Action::OpenCommand => Action::OpenCommand,
            Action::SubmitCommand => Action::SubmitCommand,
            Action::StartSelectedBlock => Action::StartSelectedBlock,
            Action::CompleteSelectedTask => Action::CompleteSelectedTask,
            Action::DropSelectedTask => Action::DropSelectedTask,
            Action::RemoveSelectedTask => Action::RemoveSelectedTask,
            Action::StartNewSession => Action::StartNewSession,
            Action::FinishSession => Action::FinishSession,
            Action::FinishDay => Action::FinishDay,
            Action::ReceiveStoreResult(r) => Action::ReceiveStoreResult(match r {
                Ok(m) => Ok(m.clone()),
                Err(e) => Err(e.clone()),
            }),
        }
    }
}

} // verus!
