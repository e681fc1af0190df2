//! The keyboard of a session: a command mode and an insert mode.

use vstd::prelude::*;

verus! {

/// The key that quits the session, in command mode.
pub const KEY_QUIT: u8 = 'q' as u8;

/// The key that enters insert mode, in command mode.
pub const KEY_INSERT: u8 = 'i' as u8;

/// The key that starts the shell again, in command mode.
pub const KEY_RESPAWN: u8 = 'r' as u8;

/// The key that leaves insert mode: ASCII GS, `Ctrl-]`.
pub const KEY_LEAVE: u8 = 0x1d;

/// How the session reads the keyboard.
#[derive(Debug, Clone, Copy, PartialEq, Eq)]
pub enum Mode {
    /// Keys are commands to the session.
    Command,
    /// Keys go to the child.
    Insert,
}

/// What the session does about a key.
#[derive(Debug, Clone, Copy, PartialEq, Eq)]
pub enum KeyAction {
    /// Close the session and stop reading the keyboard.
    Quit,
    /// Resolve the working directory of the child and start the shell again
    /// in it.
    Respawn,
    /// Write the byte to the child and flush.
    Forward(u8),
    /// Nothing.
    Ignore,
}

/// The mode after the key `byte` in the mode `mode`, and what is done about
/// the key.
pub open spec fn key_step(mode: Mode, byte: u8) -> (Mode, KeyAction) {
    match mode {
        Mode::Command => if byte == KEY_QUIT {
            (Mode::Command, KeyAction::Quit)
        } else if byte == KEY_INSERT {
            (Mode::Insert, KeyAction::Ignore)
        } else if byte == KEY_RESPAWN {
            (Mode::Command, KeyAction::Respawn)
        } else {
            (Mode::Command, KeyAction::Ignore)
        },
        Mode::Insert => if byte == KEY_LEAVE {
            (Mode::Command, KeyAction::Ignore)
        } else {
            (Mode::Insert, KeyAction::Forward(byte))
        },
    }
}

impl Mode {
    /// The mode in which a session starts: command mode.
    pub fn initial() -> (mode: Mode)
        ensures
            mode == Mode::Command,
    {
        Mode::Command
    }

    /// Takes one key: gives the mode after it and what is to be done.
    pub fn on_key(self, byte: u8) -> (r: (Mode, KeyAction))
        ensures
            r == key_step(self, byte),
    {
        match self {
            Mode::Command => {
                if byte == KEY_QUIT {
                    (Mode::Command, KeyAction::Quit)
                } else if byte == KEY_INSERT {
                    (Mode::Insert, KeyAction::Ignore)
                } else if byte == KEY_RESPAWN {
                    (Mode::Command, KeyAction::Respawn)
                } else {
                    (Mode::Command, KeyAction::Ignore)
                }
            },
            Mode::Insert => {
                if byte == KEY_LEAVE {
                    (Mode::Command, KeyAction::Ignore)
                } else {
                    (Mode::Insert, KeyAction::Forward(byte))
                }
            },
        }
    }
}

/// A byte reaches the child only in insert mode, as it was typed, and every
/// byte typed in insert mode but the leaving key reaches it.
pub proof fn law_pass_through(mode: Mode, byte: u8)
    ensures
        key_step(mode, byte).1 is Forward <==> mode == Mode::Insert && byte != KEY_LEAVE,
        key_step(mode, byte).1 is Forward ==> key_step(mode, byte).1 == KeyAction::Forward(byte),
{
}

/// The mode changes on two keys only: the insert key in command mode and
/// the leaving key in insert mode.
pub proof fn law_mode_changes(mode: Mode, byte: u8)
    ensures
        key_step(mode, byte).0 != mode <==> (mode == Mode::Command && byte == KEY_INSERT) || (mode
            == Mode::Insert && byte == KEY_LEAVE),
{
}

} // verus!
