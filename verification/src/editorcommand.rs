use crate::terminal::Size;
use vstd::prelude::*;

verus! {

/// The keys that the editor tells apart; every other key is `Other`.
#[derive(Copy, Clone, Debug, PartialEq, Eq, Structural)]
pub enum Key {
    Char(char),
    Up,
    Down,
    Left,
    Right,
    PageUp,
    PageDown,
    Home,
    End,
    Backspace,
    Delete,
    Tab,
    Enter,
    Other,
}

/// The modifier keys held with a key: shift, control, and whether any other
/// modifier was held too.
#[derive(Copy, Clone, Debug, PartialEq, Eq, Structural)]
pub struct Modifiers {
    pub shift: bool,
    pub control: bool,
    pub other: bool,
}

/// What happened to a key.
#[derive(Copy, Clone, Debug, PartialEq, Eq, Structural)]
pub enum KeyKind {
    Press,
    Repeat,
    Release,
}

/// One event of the input source.
#[derive(Copy, Clone, Debug, PartialEq, Eq, Structural)]
pub enum InputEvent {
    /// A key event: the key, the modifiers held with it, and what happened.
    Key(Key, Modifiers, KeyKind),
    /// The screen now has this many columns and rows, in this order.
    Resize(u16, u16),
    /// Anything else: focus, mouse, pasted text.
    Other,
}

#[derive(Copy, Clone, Debug, PartialEq, Eq, Structural)]
pub enum Direction {
    PageUp,
    PageDown,
    Home,
    End,
    Up,
    Down,
    Left,
    Right,
}

#[derive(Copy, Clone, Debug, PartialEq, Eq, Structural)]
pub enum EditorCommand {
    Move(Direction),
    Insert(char),
    Backspace,
    Delete,
    Enter,
    Resize(Size),
    Save,
    Quit,
}

/// An event that stands for no command. Callers drop it.
#[derive(Copy, Clone, Debug, PartialEq, Eq, Structural)]
pub enum UnsupportedInput {
    /// A key, or a key with modifiers, that the editor does not use.
    Key(Key),
    /// An event that is neither a key nor a resize.
    Event,
}

impl Modifiers {
    /// No modifier is held.
    pub open spec fn is_none(&self) -> bool {
        !self.shift && !self.control && !self.other
    }

    /// Control is held and nothing else.
    pub open spec fn is_control(&self) -> bool {
        !self.shift && self.control && !self.other
    }

    /// Shift is held and nothing else.
    pub open spec fn is_shift(&self) -> bool {
        self.shift && !self.control && !self.other
    }
}

/// The command that a key with its modifiers stands for, if any.
pub open spec fn key_command(key: Key, modifiers: Modifiers) -> Option<EditorCommand> {
    match key {
        Key::Char(character) => if modifiers.is_control() {
            if character == 'q' {
                Some(EditorCommand::Quit)
            } else if character == 's' {
                Some(EditorCommand::Save)
            } else {
                None
            }
        } else if modifiers.is_none() || modifiers.is_shift() {
            Some(EditorCommand::Insert(character))
        } else {
            None
        },
        Key::Up => Some(EditorCommand::Move(Direction::Up)),
        Key::Down => Some(EditorCommand::Move(Direction::Down)),
        Key::Left => Some(EditorCommand::Move(Direction::Left)),
        Key::Right => Some(EditorCommand::Move(Direction::Right)),
        Key::PageUp => Some(EditorCommand::Move(Direction::PageUp)),
        Key::PageDown => Some(EditorCommand::Move(Direction::PageDown)),
        Key::Home => Some(EditorCommand::Move(Direction::Home)),
        Key::End => Some(EditorCommand::Move(Direction::End)),
        Key::Backspace => Some(EditorCommand::Backspace),
        Key::Delete => Some(EditorCommand::Delete),
        Key::Tab => Some(EditorCommand::Insert('\t')),
        Key::Enter => Some(EditorCommand::Enter),
        Key::Other => None,
    }
}

/// What an event resolves to: its command, or the reason why it has none.
pub open spec fn resolved(event: InputEvent) -> Result<EditorCommand, UnsupportedInput> {
    match event {
        InputEvent::Key(key, modifiers, _) => match key_command(key, modifiers) {
            Some(command) => Ok(command),
            None => Err(UnsupportedInput::Key(key)),
        },
        InputEvent::Resize(columns, rows) => Ok(
            EditorCommand::Resize(Size { num_rows: rows as usize, num_columns: columns as usize }),
        ),
        InputEvent::Other => Err(UnsupportedInput::Event),
    }
}

impl EditorCommand {
    /// Resolves one input event to the command it stands for.
    pub fn try_from(event: InputEvent) -> (res: Result<EditorCommand, UnsupportedInput>)
        ensures
            res == resolved(event),
    {
        match event {
            InputEvent::Key(key, modifiers, _) => {
                let plain = !modifiers.shift && !modifiers.control && !modifiers.other;
                let control = !modifiers.shift && modifiers.control && !modifiers.other;
                let shift = modifiers.shift && !modifiers.control && !modifiers.other;
                match key {
                    Key::Char(character) => {
                        if control && character == 'q' {
                            Ok(EditorCommand::Quit)
                        } else if control && character == 's' {
                            Ok(EditorCommand::Save)
                        } else if plain || shift {
                            Ok(EditorCommand::Insert(character))
                        } else {
                            Err(UnsupportedInput::Key(key))
                        }
                    },
                    Key::Up => Ok(EditorCommand::Move(Direction::Up)),
                    Key::Down => Ok(EditorCommand::Move(Direction::Down)),
                    Key::Left => Ok(EditorCommand::Move(Direction::Left)),
                    Key::Right => Ok(EditorCommand::Move(Direction::Right)),
                    Key::PageUp => Ok(EditorCommand::Move(Direction::PageUp)),
                    Key::PageDown => Ok(EditorCommand::Move(Direction::PageDown)),
                    Key::Home => Ok(EditorCommand::Move(Direction::Home)),
                    Key::End => Ok(EditorCommand::Move(Direction::End)),
                    Key::Backspace => Ok(EditorCommand::Backspace),
                    Key::Delete => Ok(EditorCommand::Delete),
                    Key::Tab => Ok(EditorCommand::Insert('\t')),
                    Key::Enter => Ok(EditorCommand::Enter),
                    Key::Other => Err(UnsupportedInput::Key(key)),
                }
            },
            InputEvent::Resize(columns, rows) => Ok(
                EditorCommand::Resize(
                    Size { num_rows: rows as usize, num_columns: columns as usize },
                ),
            ),
            InputEvent::Other => Err(UnsupportedInput::Event),
        }
    }
}

} // verus!
