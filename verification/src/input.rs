//! Modes, abstract actions, and the mapping from a key press to the action
//! that it stands for in each mode.

use vstd::prelude::*;
use vstd::string::*;

verus! {

/// The top-level interaction state. `SaveFile` and `ConfirmDelete` are
/// reserved: keys are mapped for them, but no action leads into them.
#[derive(Debug, Clone, Copy, PartialEq, Eq, Structural)]
pub enum Mode {
    Navigate,
    Edit,
    Connect,
    OpenFile,
    SaveFile,
    ConfirmDelete,
}

/// What the user asked for, whatever the input device. The text of `Edit`
/// is a text delta: one of the words `backspace`, `delete`, `left`, `right`,
/// `home`, `end`, or else the text to insert.
#[derive(Debug, Clone)]
pub enum Action {
    /// The input asked for nothing.
    Noop,
    Quit,
    NavigateUp,
    NavigateDown,
    NavigateRight,
    NavigateLeft,
    Select,
    Back,
    NewPlace,
    NewAffordance,
    ToggleCollapsed,
    Filter,
    Save,
    SaveAs,
    Open,
    EnterEditMode,
    EnterConnectMode,
    RemoveConnection,
    Delete,
    Edit(String),
}

/// An action with its text seen as a sequence of characters.
pub ghost enum ActionView {
    Noop,
    Quit,
    NavigateUp,
    NavigateDown,
    NavigateRight,
    NavigateLeft,
    Select,
    Back,
    NewPlace,
    NewAffordance,
    ToggleCollapsed,
    Filter,
    Save,
    SaveAs,
    Open,
    EnterEditMode,
    EnterConnectMode,
    RemoveConnection,
    Delete,
    Edit(Seq<char>),
}

impl View for Action {
    type V = ActionView;

    open spec fn view(&self) -> ActionView {
        match *self {
            Action::Noop => ActionView::Noop,
            Action::Quit => ActionView::Quit,
            Action::NavigateUp => ActionView::NavigateUp,
            Action::NavigateDown => ActionView::NavigateDown,
            Action::NavigateRight => ActionView::NavigateRight,
            Action::NavigateLeft => ActionView::NavigateLeft,
            Action::Select => ActionView::Select,
            Action::Back => ActionView::Back,
            Action::NewPlace => ActionView::NewPlace,
            Action::NewAffordance => ActionView::NewAffordance,
            Action::ToggleCollapsed => ActionView::ToggleCollapsed,
            Action::Filter => ActionView::Filter,
            Action::Save => ActionView::Save,
            Action::SaveAs => ActionView::SaveAs,
            Action::Open => ActionView::Open,
            Action::EnterEditMode => ActionView::EnterEditMode,
            Action::EnterConnectMode => ActionView::EnterConnectMode,
            Action::RemoveConnection => ActionView::RemoveConnection,
            Action::Delete => ActionView::Delete,
            Action::Edit(text) => ActionView::Edit(text@),
        }
    }
}

/// What a text delta asks for.
#[derive(Debug, Clone, Copy, PartialEq, Eq, Structural)]
pub enum TextDelta {
    /// Remove the last character.
    Backspace,
    /// Remove the last character as well: the buffer has no cursor, so
    /// there is no character after it to remove.
    Delete,
    /// Move the cursor: `left`, `right`, `home` or `end`.
    Cursor,
    /// The empty text: nothing to do.
    Nothing,
    /// Append the text.
    Insert,
}

/// The delta that `text` stands for.
pub open spec fn delta_of(text: Seq<char>) -> TextDelta {
    if text == "backspace"@ {
        TextDelta::Backspace
    } else if text == "delete"@ {
        TextDelta::Delete
    } else if text == "left"@ || text == "right"@ || text == "home"@ || text == "end"@ {
        TextDelta::Cursor
    } else if text.len() == 0 {
        TextDelta::Nothing
    } else {
        TextDelta::Insert
    }
}

/// The delta that `text` stands for.
pub fn classify_delta(text: &str) -> (delta: TextDelta)
    ensures
        delta == delta_of(text@),
{
    if crate::text::same_text(text, "backspace") {
        TextDelta::Backspace
    } else if crate::text::same_text(text, "delete") {
        TextDelta::Delete
    } else if crate::text::same_text(text, "left") || crate::text::same_text(text, "right")
        || crate::text::same_text(text, "home") || crate::text::same_text(text, "end") {
        TextDelta::Cursor
    } else if text.unicode_len() == 0 {
        TextDelta::Nothing
    } else {
        TextDelta::Insert
    }
}

/// The key of a key press. `Other` is every key that no mode maps.
#[derive(Debug, Clone, Copy, PartialEq, Eq, Structural)]
pub enum Key {
    Up,
    Down,
    Left,
    Right,
    Home,
    End,
    Tab,
    BackTab,
    Enter,
    Esc,
    Backspace,
    Delete,
    Char(char),
    Other,
}

/// A key press: the key and the modifiers held with it.
#[derive(Debug, Clone, Copy, PartialEq, Eq, Structural)]
pub struct KeyPress {
    pub key: Key,
    pub control: bool,
    pub shift: bool,
    pub alt: bool,
}

/// The action of a key press in `Navigate` mode. `mode` is the mode that
/// the press is read in.
pub open spec fn navigate_key_action(press: KeyPress, mode: Mode) -> ActionView {
    match press.key {
        Key::Up => ActionView::NavigateUp,
        Key::Down => ActionView::NavigateDown,
        Key::Tab => ActionView::NavigateRight,
        Key::BackTab => ActionView::NavigateLeft,
        Key::Enter => ActionView::Select,
        Key::Delete => ActionView::Delete,
        Key::Backspace => if mode == Mode::Edit {
            ActionView::Edit("backspace"@)
        } else {
            ActionView::Back
        },
        Key::Esc => ActionView::Back,
        Key::Char(c) => if c == 'e' {
            if mode == Mode::Navigate {
                ActionView::EnterEditMode
            } else {
                ActionView::Edit(seq!['e'])
            }
        } else if press.control {
            if c == 'd' {
                ActionView::Delete
            } else if c == 'c' {
                ActionView::EnterConnectMode
            } else if c == 'r' {
                ActionView::RemoveConnection
            } else if c == 'n' {
                ActionView::NewPlace
            } else if c == 'a' {
                ActionView::NewAffordance
            } else if c == 'f' {
                ActionView::Filter
            } else if c == 's' {
                if press.shift {
                    ActionView::SaveAs
                } else {
                    ActionView::Save
                }
            } else if c == 'o' {
                ActionView::Open
            } else if c == 'q' {
                ActionView::Quit
            } else {
                ActionView::Noop
            }
        } else if c == 'c' {
            ActionView::ToggleCollapsed
        } else if !press.alt {
            ActionView::Edit(seq![c])
        } else {
            ActionView::Noop
        },
        _ => ActionView::Noop,
    }
}

/// The text delta of a key in a mode that edits text: the key's word, or
/// the character itself. `None` for a key that edits nothing.
pub open spec fn text_key_delta(key: Key) -> Option<Seq<char>> {
    match key {
        Key::Backspace => Some("backspace"@),
        Key::Delete => Some("delete"@),
        Key::Left => Some("left"@),
        Key::Right => Some("right"@),
        Key::Home => Some("home"@),
        Key::End => Some("end"@),
        Key::Char(c) => Some(seq![c]),
        _ => None,
    }
}

/// The action of a key press in `Edit` mode, and in `SaveFile` mode.
pub open spec fn edit_key_action(press: KeyPress) -> ActionView {
    match press.key {
        Key::Enter => ActionView::Select,
        Key::Esc => ActionView::Back,
        _ => match text_key_delta(press.key) {
            Some(text) => ActionView::Edit(text),
            None => ActionView::Noop,
        },
    }
}

/// The action of a key press in `Connect` mode.
pub open spec fn connect_key_action(press: KeyPress) -> ActionView {
    match press.key {
        Key::Up => ActionView::NavigateUp,
        Key::Down => ActionView::NavigateDown,
        _ => edit_key_action(press),
    }
}

/// The action of a key press in `OpenFile` mode.
pub open spec fn open_file_key_action(press: KeyPress) -> ActionView {
    match press.key {
        Key::Enter => ActionView::Select,
        Key::Esc => ActionView::Back,
        Key::Up => ActionView::NavigateUp,
        Key::Down => ActionView::NavigateDown,
        Key::Left => ActionView::Edit("left"@),
        Key::Right => ActionView::Edit("right"@),
        Key::Home => ActionView::Edit("home"@),
        Key::End => ActionView::Edit("end"@),
        _ => ActionView::Noop,
    }
}

/// The action of a key press in `ConfirmDelete` mode.
pub open spec fn confirm_delete_key_action(press: KeyPress) -> ActionView {
    match press.key {
        Key::Enter => ActionView::Select,
        Key::Esc => ActionView::Back,
        Key::Char(c) => if c == 'y' || c == 'Y' {
            ActionView::Select
        } else if c == 'n' || c == 'N' {
            ActionView::Back
        } else {
            ActionView::Noop
        },
        _ => ActionView::Noop,
    }
}

/// The action of a key press read in `mode`.
pub open spec fn key_action(press: KeyPress, mode: Mode) -> ActionView {
    match mode {
        Mode::Navigate => navigate_key_action(press, mode),
        Mode::Edit => edit_key_action(press),
        Mode::Connect => connect_key_action(press),
        Mode::OpenFile => open_file_key_action(press),
        Mode::SaveFile => edit_key_action(press),
        Mode::ConfirmDelete => confirm_delete_key_action(press),
    }
}

/// Calls `char::to_string`: the string that holds `c` and nothing else.
#[verifier::external_body]
pub(crate) fn char_text(c: char) -> (text: String)
    ensures
        text@ == seq![c],
{
    c.to_string()
}

/// The `Edit` action for a key that edits text, `Action::Noop` for another.
fn text_key(key: Key) -> (action: Action)
    ensures
        action@ == match text_key_delta(key) {
            Some(text) => ActionView::Edit(text),
            None => ActionView::Noop,
        },
{
    match key {
        Key::Backspace => Action::Edit("backspace".to_owned()),
        Key::Delete => Action::Edit("delete".to_owned()),
        Key::Left => Action::Edit("left".to_owned()),
        Key::Right => Action::Edit("right".to_owned()),
        Key::Home => Action::Edit("home".to_owned()),
        Key::End => Action::Edit("end".to_owned()),
        Key::Char(c) => Action::Edit(char_text(c)),
        _ => Action::Noop,
    }
}

/// Maps key presses to actions. It holds no state.
pub struct InputHandler;

impl InputHandler {
    /// A handler.
    pub fn new() -> (handler: Self) {
        InputHandler
    }

    /// The action that `press` stands for when read in `mode`.
    pub fn handle_key_event(&self, press: KeyPress, mode: Mode) -> (action: Action)
        ensures
            action@ == key_action(press, mode),
    {
        match mode {
            Mode::Navigate => self.handle_navigate_key(press, mode),
            Mode::Edit => self.handle_edit_key(press),
            Mode::Connect => self.handle_connect_key(press),
            Mode::OpenFile => self.handle_open_file_key(press),
            Mode::SaveFile => self.handle_save_file_key(press),
            Mode::ConfirmDelete => self.handle_confirm_delete_key(press),
        }
    }

    /// The action that `press` stands for in `Navigate` mode.
    pub fn handle_navigate_key(&self, press: KeyPress, mode: Mode) -> (action: Action)
        ensures
            action@ == navigate_key_action(press, mode),
    {
        match press.key {
            Key::Up => Action::NavigateUp,
            Key::Down => Action::NavigateDown,
            Key::Tab => Action::NavigateRight,
            Key::BackTab => Action::NavigateLeft,
            Key::Enter => Action::Select,
            Key::Delete => Action::Delete,
            Key::Backspace => {
                if mode == Mode::Edit {
                    Action::Edit("backspace".to_owned())
                } else {
                    Action::Back
                }
            },
            Key::Esc => Action::Back,
            Key::Char(c) => {
                if c == 'e' {
                    if mode == Mode::Navigate {
                        Action::EnterEditMode
                    } else {
                        Action::Edit(char_text('e'))
                    }
                } else if press.control {
                    if c == 'd' {
                        Action::Delete
                    } else if c == 'c' {
                        Action::EnterConnectMode
                    } else if c == 'r' {
                        Action::RemoveConnection
                    } else if c == 'n' {
                        Action::NewPlace
                    } else if c == 'a' {
                        Action::NewAffordance
                    } else if c == 'f' {
                        Action::Filter
                    } else if c == 's' {
                        if press.shift {
                            Action::SaveAs
                        } else {
                            Action::Save
                        }
                    } else if c == 'o' {
                        Action::Open
                    } else if c == 'q' {
                        Action::Quit
                    } else {
                        Action::Noop
                    }
                } else if c == 'c' {
                    Action::ToggleCollapsed
                } else if !press.alt {
                    Action::Edit(char_text(c))
                } else {
                    Action::Noop
                }
            },
            _ => Action::Noop,
        }
    }

    /// The action that `press` stands for in `Edit` mode.
    pub fn handle_edit_key(&self, press: KeyPress) -> (action: Action)
        ensures
            action@ == edit_key_action(press),
    {
        match press.key {
            Key::Enter => Action::Select,
            Key::Esc => Action::Back,
            _ => text_key(press.key),
        }
    }

    /// The action that `press` stands for in `Connect` mode.
    pub fn handle_connect_key(&self, press: KeyPress) -> (action: Action)
        ensures
            action@ == connect_key_action(press),
    {
        match press.key {
            Key::Up => Action::NavigateUp,
            Key::Down => Action::NavigateDown,
            _ => self.handle_edit_key(press),
        }
    }

    /// The action that `press` stands for in `OpenFile` mode.
    pub fn handle_open_file_key(&self, press: KeyPress) -> (action: Action)
        ensures
            action@ == open_file_key_action(press),
    {
        match press.key {
            Key::Enter => Action::Select,
            Key::Esc => Action::Back,
            Key::Up => Action::NavigateUp,
            Key::Down => Action::NavigateDown,
            Key::Left => Action::Edit("left".to_owned()),
            Key::Right => Action::Edit("right".to_owned()),
            Key::Home => Action::Edit("home".to_owned()),
            Key::End => Action::Edit("end".to_owned()),
            _ => Action::Noop,
        }
    }

    /// The action that `press` stands for in `SaveFile` mode.
    pub fn handle_save_file_key(&self, press: KeyPress) -> (action: Action)
        ensures
            action@ == edit_key_action(press),
    {
        self.handle_edit_key(press)
    }

    /// The action that `press` stands for in `ConfirmDelete` mode.
    pub fn handle_confirm_delete_key(&self, press: KeyPress) -> (action: Action)
        ensures
            action@ == confirm_delete_key_action(press),
    {
        match press.key {
            Key::Enter => Action::Select,
            Key::Esc => Action::Back,
            Key::Char(c) => {
                if c == 'y' || c == 'Y' {
                    Action::Select
                } else if c == 'n' || c == 'N' {
                    Action::Back
                } else {
                    Action::Noop
                }
            },
            _ => Action::Noop,
        }
    }
}

} // verus!
