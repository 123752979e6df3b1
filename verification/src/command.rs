//! The eight commands of the language and how a source byte is classified.

use vstd::prelude::*;
use vstd::std_specs::convert::TryFromSpecImpl;

verus! {

/// One of the eight commands of the Brainfuck language
#[derive(Debug, Clone, Copy, PartialEq, Eq, Structural)]
pub enum Command {
    StepForward,
    StepBackward,
    Increment,
    Decrement,
    PrintOutput,
    ReadInput,
    BeginLoop,
    EndLoop,
}

impl Command {
    /// The command that a source byte stands for, if it stands for one. The
    /// bytes that do are `>` `<` `+` `-` `.` `,` `[` and `]`; every other byte
    /// is commentary.
    pub open spec fn of_byte(byte: u8) -> Option<Command> {
        if byte == 62 {
            Some(Command::StepForward)  // >
        } else if byte == 60 {
            Some(Command::StepBackward)  // <
        } else if byte == 43 {
            Some(Command::Increment)  // +
        } else if byte == 45 {
            Some(Command::Decrement)  // -
        } else if byte == 46 {
            Some(Command::PrintOutput)  // .
        } else if byte == 44 {
            Some(Command::ReadInput)  // ,
        } else if byte == 91 {
            Some(Command::BeginLoop)  // [
        } else if byte == 93 {
            Some(Command::EndLoop)  // ]
        } else {
            None
        }
    }

    /// Whether the command opens or closes a loop.
    pub open spec fn is_bracket(self) -> bool {
        self == Command::BeginLoop || self == Command::EndLoop
    }
}

impl TryFrom<u8> for Command {
    type Error = &'static str;

    /// Tries to convert a byte into a known Command
    fn try_from(value: u8) -> (result: Result<Self, Self::Error>)
        ensures
            result is Ok <==> Command::of_byte(value) is Some,
            result matches Ok(command) ==> Command::of_byte(value) == Some(command),
            result matches Err(message) ==> message@ == "Unknown command"@,
    {
        match value {
            62 => Ok(Self::StepForward),  // >
            60 => Ok(Self::StepBackward),  // <
            43 => Ok(Self::Increment),  // +
            45 => Ok(Self::Decrement),  // -
            46 => Ok(Self::PrintOutput),  // .
            44 => Ok(Self::ReadInput),  // ,
            91 => Ok(Self::BeginLoop),  // [
            93 => Ok(Self::EndLoop),  // ]
            _ => Err("Unknown command"),
        }
    }
}

impl TryFromSpecImpl<u8> for Command {
    open spec fn obeys_try_from_spec() -> bool {
        true
    }

    open spec fn try_from_spec(v: u8) -> Result<Self, Self::Error> {
        match Command::of_byte(v) {
            Some(command) => Ok(command),
            None => Err("Unknown command"),
        }
    }
}

} // verus!
