//! The command language: one command is one to four bytes.

use crate::engine::Input;
use vstd::prelude::*;

verus! {

/// The byte `H`.
pub const KEY_HELP: u8 = 72;

/// The byte `N`.
pub const KEY_NEW_GAME: u8 = 78;

/// The byte `Q`.
pub const KEY_QUIT: u8 = 81;

/// The byte `S`.
pub const KEY_STACK: u8 = 83;

/// The byte `s`.
pub const KEY_STACK_SHORT: u8 = 115;

/// The byte `U`.
pub const KEY_UNDO: u8 = 85;

/// The byte `z`.
pub const KEY_UNDO_SHORT: u8 = 122;

/// The byte `R`.
pub const KEY_REDO: u8 = 82;

/// The byte `y`.
pub const KEY_REDO_SHORT: u8 = 121;

/// The byte `r`.
pub const KEY_RESTART: u8 = 114;

/// The byte `c`.
pub const KEY_SMART_COMPLETE: u8 = 99;

/// The byte `C`.
pub const KEY_COMPLETE: u8 = 67;

/// The byte `M`.
pub const KEY_MOVE: u8 = 77;

/// The byte `m`.
pub const KEY_SMART_MOVE: u8 = 109;

/// Why some bytes are no command.
#[derive(Clone, Copy, Debug, PartialEq, Eq, Structural)]
pub enum ParseError {
    /// There was no byte at all.
    Empty,
    /// The first byte was a line feed.
    Blank,
    /// The first byte names no command.
    InvalidChar,
    /// `C` was not followed by a digit.
    ColumnNotDigit,
    /// `C` was followed by nothing.
    ColumnMissing,
    /// `M` or `m` was followed by too few bytes.
    DataMissing,
    /// The second byte of a move is no digit.
    SecondNotDigit,
    /// The third byte of `M` is neither a digit nor a lower-case letter.
    ThirdNotBase36,
    /// The third byte of `m` is no digit.
    ThirdNotDigit,
    /// The fourth byte of `M` is no digit.
    FourthNotDigit,
}

impl ParseError {
    /// What to tell the player.
    pub open spec fn text(self) -> Seq<char> {
        match self {
            ParseError::Empty => "Empty input; try H for help"@,
            ParseError::Blank => ""@,
            ParseError::InvalidChar => "Invalid char; try H for help"@,
            ParseError::ColumnNotDigit => "second char should be a digit!"@,
            ParseError::ColumnMissing => "Column not provided"@,
            ParseError::DataMissing => "Data not provided"@,
            ParseError::SecondNotDigit => "2nd char should be a digit!"@,
            ParseError::ThirdNotBase36 => "3rd char is a base (base 36; lowercase)"@,
            ParseError::ThirdNotDigit => "3rd char should be a digit!"@,
            ParseError::FourthNotDigit => "4th char should be a digit!"@,
        }
    }

    pub fn message(&self) -> (text: &'static str)
        ensures
            text@ == self.text(),
    {
        match self {
            ParseError::Empty => "Empty input; try H for help",
            ParseError::Blank => "",
            ParseError::InvalidChar => "Invalid char; try H for help",
            ParseError::ColumnNotDigit => "second char should be a digit!",
            ParseError::ColumnMissing => "Column not provided",
            ParseError::DataMissing => "Data not provided",
            ParseError::SecondNotDigit => "2nd char should be a digit!",
            ParseError::ThirdNotBase36 => "3rd char is a base (base 36; lowercase)",
            ParseError::ThirdNotDigit => "3rd char should be a digit!",
            ParseError::FourthNotDigit => "4th char should be a digit!",
        }
    }
}

/// The value of a decimal digit.
pub open spec fn digit_value(byte: u8) -> Option<usize> {
    if 48 <= byte <= 57 {
        Some((byte - 48) as usize)
    } else {
        None
    }
}

/// The value of a digit in base 36: `0` to `9`, then `a` to `z`.
pub open spec fn base36_value(byte: u8) -> Option<usize> {
    if 48 <= byte <= 57 {
        Some((byte - 48) as usize)
    } else if 97 <= byte <= 122 {
        Some((byte - 97 + 10) as usize)
    } else {
        None
    }
}

/// The pile that the byte at `at` names: a digit, else the error `wrong`, or
/// `missing` where the bytes end before it.
pub open spec fn pile_at(bytes: Seq<u8>, at: int, wrong: ParseError, missing: ParseError) -> Result<
    usize,
    ParseError,
> {
    if at >= bytes.len() {
        Err(missing)
    } else {
        match digit_value(bytes[at]) {
            Some(pile) => Ok(pile),
            None => Err(wrong),
        }
    }
}

/// The command that the bytes begin with.
pub open spec fn parsed(bytes: Seq<u8>) -> Result<Input, ParseError> {
    if bytes.len() == 0 {
        Err(ParseError::Empty)
    } else if bytes[0] == 10 {
        Err(ParseError::Blank)
    } else if bytes[0] == KEY_HELP {
        Ok(Input::Help)
    } else if bytes[0] == KEY_NEW_GAME {
        Ok(Input::NewGame)
    } else if bytes[0] == KEY_QUIT {
        Ok(Input::Quit)
    } else if bytes[0] == KEY_STACK || bytes[0] == KEY_STACK_SHORT {
        Ok(Input::Stack)
    } else if bytes[0] == KEY_UNDO || bytes[0] == KEY_UNDO_SHORT {
        Ok(Input::Undo)
    } else if bytes[0] == KEY_REDO || bytes[0] == KEY_REDO_SHORT {
        Ok(Input::Redo)
    } else if bytes[0] == KEY_RESTART {
        Ok(Input::Restart)
    } else if bytes[0] == KEY_SMART_COMPLETE {
        Ok(Input::SmartComp)
    } else if bytes[0] == KEY_COMPLETE {
        match pile_at(bytes, 1, ParseError::ColumnNotDigit, ParseError::ColumnMissing) {
            Ok(pos) => Ok(Input::CompleteSuit { pos }),
            Err(e) => Err(e),
        }
    } else if bytes[0] == KEY_MOVE {
        match pile_at(bytes, 1, ParseError::SecondNotDigit, ParseError::DataMissing) {
            Err(e) => Err(e),
            Ok(source) => if bytes.len() <= 2 {
                Err(ParseError::DataMissing)
            } else {
                match base36_value(bytes[2]) {
                    None => Err(ParseError::ThirdNotBase36),
                    Some(index) => match pile_at(
                        bytes,
                        3,
                        ParseError::FourthNotDigit,
                        ParseError::DataMissing,
                    ) {
                        Err(e) => Err(e),
                        Ok(target) => Ok(Input::Move { source, index, target }),
                    },
                }
            },
        }
    } else if bytes[0] == KEY_SMART_MOVE {
        match pile_at(bytes, 1, ParseError::SecondNotDigit, ParseError::DataMissing) {
            Err(e) => Err(e),
            Ok(source) => match pile_at(
                bytes,
                2,
                ParseError::ThirdNotDigit,
                ParseError::DataMissing,
            ) {
                Err(e) => Err(e),
                Ok(target) => Ok(Input::SmartMove { source, target }),
            },
        }
    } else {
        Err(ParseError::InvalidChar)
    }
}

/// How many bytes the command, or the error, takes up: every byte that was
/// looked at, the wrong one included.
pub open spec fn consumed(bytes: Seq<u8>) -> int {
    if bytes.len() == 0 {
        0
    } else if bytes[0] == KEY_COMPLETE {
        if bytes.len() < 2 {
            1
        } else {
            2
        }
    } else if bytes[0] == KEY_MOVE {
        if bytes.len() < 2 {
            1
        } else if digit_value(bytes[1]).is_none() || bytes.len() < 3 {
            2
        } else if base36_value(bytes[2]).is_none() || bytes.len() < 4 {
            3
        } else {
            4
        }
    } else if bytes[0] == KEY_SMART_MOVE {
        if bytes.len() < 2 {
            1
        } else if digit_value(bytes[1]).is_none() || bytes.len() < 3 {
            2
        } else {
            3
        }
    } else {
        1
    }
}

/// Reads the pile that the byte at `at` names.
fn read_pile(bytes: &[u8], at: usize, wrong: ParseError, missing: ParseError) -> (pile: Result<
    usize,
    ParseError,
>)
    ensures
        pile == pile_at(bytes@, at as int, wrong, missing),
        pile matches Ok(p) ==> p < 10,
{
    if at >= bytes.len() {
        return Err(missing);
    }
    let byte: u8 = bytes[at];
    if 48 <= byte && byte <= 57 {
        Ok((byte - 48) as usize)
    } else {
        Err(wrong)
    }
}

/// Reads one command from the start of `bytes`, and tells how many bytes it
/// took. A command that names piles names piles that exist.
pub fn parse_text_input(bytes: &[u8]) -> (out: (Result<Input, ParseError>, usize))
    ensures
        out.0 == parsed(bytes@),
        out.1 == consumed(bytes@),
        out.1 <= bytes@.len(),
        out.0 matches Ok(Input::Move { source, index, target }) ==> source < 10 && target < 10
            && index < 36,
        out.0 matches Ok(Input::SmartMove { source, target }) ==> source < 10 && target < 10,
        out.0 matches Ok(Input::CompleteSuit { pos }) ==> pos < 10,
{
    if bytes.len() == 0 {
        return (Err(ParseError::Empty), 0);
    }
    let first: u8 = bytes[0];
    if first == 10 {
        (Err(ParseError::Blank), 1)
    } else if first == KEY_HELP {
        (Ok(Input::Help), 1)
    } else if first == KEY_NEW_GAME {
        (Ok(Input::NewGame), 1)
    } else if first == KEY_QUIT {
        (Ok(Input::Quit), 1)
    } else if first == KEY_STACK || first == KEY_STACK_SHORT {
        (Ok(Input::Stack), 1)
    } else if first == KEY_UNDO || first == KEY_UNDO_SHORT {
        (Ok(Input::Undo), 1)
    } else if first == KEY_REDO || first == KEY_REDO_SHORT {
        (Ok(Input::Redo), 1)
    } else if first == KEY_RESTART {
        (Ok(Input::Restart), 1)
    } else if first == KEY_SMART_COMPLETE {
        (Ok(Input::SmartComp), 1)
    } else if first == KEY_COMPLETE {
        let taken: usize = if bytes.len() < 2 {
            1
        } else {
            2
        };
        match read_pile(bytes, 1, ParseError::ColumnNotDigit, ParseError::ColumnMissing) {
            Ok(pos) => (Ok(Input::CompleteSuit { pos }), taken),
            Err(e) => (Err(e), taken),
        }
    } else if first == KEY_MOVE {
        let source = match read_pile(
            bytes,
            1,
            ParseError::SecondNotDigit,
            ParseError::DataMissing,
        ) {
            Ok(pile) => pile,
            Err(e) => {
                return (
                    Err(e),
                    if bytes.len() < 2 {
                        1
                    } else {
                        2
                    },
                );
            },
        };
        if bytes.len() <= 2 {
            return (Err(ParseError::DataMissing), 2);
        }
        let third: u8 = bytes[2];
        let index: usize = if 48 <= third && third <= 57 {
            (third - 48) as usize
        } else if 97 <= third && third <= 122 {
            (third - 97 + 10) as usize
        } else {
            return (Err(ParseError::ThirdNotBase36), 3);
        };
        match read_pile(bytes, 3, ParseError::FourthNotDigit, ParseError::DataMissing) {
            Ok(target) => (Ok(Input::Move { source, index, target }), 4),
            Err(e) => (
                Err(e),
                if bytes.len() < 4 {
                    3
                } else {
                    4
                },
            ),
        }
    } else if first == KEY_SMART_MOVE {
        let source = match read_pile(
            bytes,
            1,
            ParseError::SecondNotDigit,
            ParseError::DataMissing,
        ) {
            Ok(pile) => pile,
            Err(e) => {
                return (
                    Err(e),
                    if bytes.len() < 2 {
                        1
                    } else {
                        2
                    },
                );
            },
        };
        match read_pile(bytes, 2, ParseError::ThirdNotDigit, ParseError::DataMissing) {
            Ok(target) => (Ok(Input::SmartMove { source, target }), 3),
            Err(e) => (
                Err(e),
                if bytes.len() < 3 {
                    2
                } else {
                    3
                },
            ),
        }
    } else {
        (Err(ParseError::InvalidChar), 1)
    }
}

} // verus!
