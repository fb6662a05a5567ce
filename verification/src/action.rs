//! What the user asks for, and how it is written.
//!
//! An action is written as a number from 0 to 100, with `+` or `-` in front
//! for a relative change and an optional `%` behind. The empty text asks for
//! the current brightness.

use vstd::prelude::*;
use crate::decimal::{
    decimal_text, is_digit, lemma_decimal_text_denotes, lemma_number_of_decimal_text, number_of,
    parse_number, to_decimal,
};
use crate::error::{Error, ErrorView};

verus! {

/// How the number of a [`Action::SetBrightness`] is to be read.
#[derive(Clone, Copy, Debug, PartialEq, Eq, Structural)]
pub enum SetMode {
    /// The number is the brightness wanted, in percent of the maximum.
    Absolute,
    /// The number is added to the current brightness, in percentage points.
    RelativeUp,
    /// The number is taken off the current brightness, in percentage points.
    RelativeDown,
}

/// One request to the backlight.
#[derive(Clone, Copy, Debug, PartialEq, Eq, Structural)]
pub enum Action {
    /// Change the brightness by or to so many percent. The parser only ever
    /// yields numbers up to 100.
    SetBrightness(u8, SetMode),
    /// Report the current brightness and leave it as it is.
    Get,
}

impl SetMode {
    /// The sign that announces the mode at the start of an action.
    pub open spec fn sign(self) -> Seq<char> {
        match self {
            SetMode::Absolute => Seq::empty(),
            SetMode::RelativeUp => seq!['+'],
            SetMode::RelativeDown => seq!['-'],
        }
    }
}

/// The mode that a non-empty text announces by its first character.
pub open spec fn mode_of(s: Seq<char>) -> SetMode
    recommends
        s.len() > 0,
{
    if s[0] == '+' {
        SetMode::RelativeUp
    } else if s[0] == '-' {
        SetMode::RelativeDown
    } else {
        SetMode::Absolute
    }
}

/// What is left of a non-empty text for the number: the text without the
/// sign of a relative mode in front, and without one `%` at the end of the
/// rest.
pub open spec fn number_part(s: Seq<char>) -> Seq<char>
    recommends
        s.len() > 0,
{
    let rest = if s[0] == '+' || s[0] == '-' {
        s.subrange(1, s.len() as int)
    } else {
        s
    };
    if rest.len() > 0 && rest.last() == '%' {
        rest.drop_last()
    } else {
        rest
    }
}

/// The largest number that the number part of an action may denote at all.
/// What lies above it is no number to the parser; what lies above 100 and
/// within it is a number that is out of range.
pub const NUMBER_LIMIT: u32 = 255;

/// The error for a number part that denotes no number within the limit.
pub open spec fn not_a_number(text: Seq<char>, cause: Seq<char>) -> ErrorView {
    ErrorView { message: "could not parse '"@ + text + "'"@, cause: Some(cause) }
}

/// The error for a number above 100.
pub open spec fn above_hundred(percentage: nat) -> ErrorView {
    ErrorView {
        message: "'"@ + decimal_text(percentage) + "' is greater than 100%"@,
        cause: None,
    }
}

/// The action that a text stands for, or the error that it earns.
///
/// The empty text is `Get`. Any other text is a change: its mode is
/// [`mode_of`], its number is what [`number_part`] denotes by [`number_of`].
/// A number part that denotes nothing is one error, a number above 100 is
/// another.
pub open spec fn parse(s: Seq<char>) -> Result<Action, ErrorView> {
    if s.len() == 0 {
        Ok(Action::Get)
    } else {
        match number_of(number_part(s), NUMBER_LIMIT as nat) {
            Err(kind) => Err(not_a_number(number_part(s), kind.text())),
            Ok(percentage) => if percentage > 100 {
                Err(above_hundred(percentage))
            } else {
                Ok(Action::SetBrightness(percentage as u8, mode_of(s)))
            },
        }
    }
}

impl Action {
    /// Reads an action from its text.
    ///
    /// The result is exactly [`parse`] of the text: the action where the text
    /// is one, and otherwise an error with the message and the cause that
    /// `parse` gives.
    pub fn from_str(s: &str) -> (result: Result<Action, Error>)
        ensures
            match parse(s@) {
                Ok(action) => result == Ok::<Action, Error>(action),
                Err(error) => result matches Err(e) && e@ == error,
            },
            result matches Ok(Action::SetBrightness(percentage, _)) ==> percentage <= 100,
    {
        let len: usize = s.unicode_len();
        if len == 0 {
            return Ok(Action::Get);
        }
        let first: char = s.get_char(0);
        let (start, mode): (usize, SetMode) = if first == '+' {
            (1, SetMode::RelativeUp)
        } else if first == '-' {
            (1, SetMode::RelativeDown)
        } else {
            (0, SetMode::Absolute)
        };
        let end: usize = if start < len && s.get_char(len - 1) == '%' {
            len - 1
        } else {
            len
        };
        let number: &str = s.substring_char(start, end);
        assert(number@ =~= number_part(s@));
        match parse_number(number, NUMBER_LIMIT) {
            Err(kind) => {
                let mut message = String::from_str("could not parse '");
                message.append(number);
                message.append("'");
                Err(Error::with_cause(message, String::from_str(kind.description())))
            },
            Ok(percentage) => {
                if percentage > 100 {
                    let mut message = String::from_str("'");
                    message.append(to_decimal(percentage as u64).as_str());
                    message.append("' is greater than 100%");
                    Err(Error::msg(message))
                } else {
                    Ok(Action::SetBrightness(percentage as u8, mode))
                }
            },
        }
    }

    /// The text of an action in its plainest form: the sign of the mode, then
    /// the number without leading zeros.
    pub open spec fn text(self) -> Seq<char> {
        match self {
            Action::Get => Seq::empty(),
            Action::SetBrightness(percentage, mode) => mode.sign() + decimal_text(
                percentage as nat,
            ),
        }
    }
}

impl std::str::FromStr for Action {
    type Err = Error;

    /// Reads an action from its text, as [`Action::from_str`] does, so that
    /// `str::parse` yields actions.
    fn from_str(s: &str) -> (result: Result<Action, Error>)
        ensures
            match parse(s@) {
                Ok(action) => result == Ok::<Action, Error>(action),
                Err(error) => result matches Err(e) && e@ == error,
            },
    {
        Action::from_str(s)
    }
}

/// Every action with a number up to 100 is read back from its text, with or
/// without a `%` behind the number.
pub proof fn lemma_parse_reads_action_text(action: Action)
    requires
        action matches Action::SetBrightness(percentage, _) ==> percentage <= 100,
    ensures
        parse(action.text()) == Ok::<Action, ErrorView>(action),
        action is SetBrightness ==> parse(action.text().push('%')) == Ok::<Action, ErrorView>(
            action,
        ),
{
    match action {
        Action::Get => {},
        Action::SetBrightness(percentage, mode) => {
            let digits = decimal_text(percentage as nat);
            lemma_decimal_text_denotes(percentage as nat);
            lemma_number_of_decimal_text(percentage as nat, NUMBER_LIMIT as nat);
            assert(is_digit(digits[0]));
            assert(is_digit(digits.last()));
            let plain = action.text();
            let marked = plain.push('%');
            assert(number_part(plain) =~= digits);
            assert(number_part(marked) =~= digits);
            assert(mode_of(plain) == mode);
            assert(mode_of(marked) == mode);
        },
    }
}

} // verus!
