//! What the files of a backlight device hold: one level each, as decimal
//! text, possibly with white space around it.

use vstd::prelude::*;
use crate::decimal::{
    decimal_text, is_digit, lemma_decimal_text_denotes, lemma_number_of_decimal_text, number_of,
    parse_number, to_decimal,
};
use crate::error::{Error, ErrorView};

verus! {

/// Whether `c` is white space: one of the 25 characters that Unicode gives
/// the property `White_Space`.
pub open spec fn is_whitespace(c: char) -> bool {
    let n = c as int;
    ||| 0x09 <= n <= 0x0d
    ||| n == 0x20
    ||| n == 0x85
    ||| n == 0xa0
    ||| n == 0x1680
    ||| 0x2000 <= n <= 0x200a
    ||| n == 0x2028
    ||| n == 0x2029
    ||| n == 0x202f
    ||| n == 0x205f
    ||| n == 0x3000
}

/// How many characters of white space `s` starts with.
pub open spec fn leading_spaces(s: Seq<char>) -> nat
    decreases s.len(),
{
    if s.len() > 0 && is_whitespace(s[0]) {
        1 + leading_spaces(s.drop_first())
    } else {
        0
    }
}

/// How many characters of white space `s` ends with.
pub open spec fn trailing_spaces(s: Seq<char>) -> nat
    decreases s.len(),
{
    if s.len() > 0 && is_whitespace(s.last()) {
        1 + trailing_spaces(s.drop_last())
    } else {
        0
    }
}

/// `s` without the white space at its start.
pub open spec fn trimmed_start(s: Seq<char>) -> Seq<char> {
    s.subrange(leading_spaces(s) as int, s.len() as int)
}

/// `s` without the white space at its end.
pub open spec fn trimmed_end(s: Seq<char>) -> Seq<char> {
    s.take(s.len() - trailing_spaces(s))
}

/// `s` without the white space at its start and at its end.
pub open spec fn trimmed(s: Seq<char>) -> Seq<char> {
    trimmed_end(trimmed_start(s))
}

/// The error for a file that holds no level.
pub open spec fn not_a_level(text: Seq<char>, cause: Seq<char>) -> ErrorView {
    ErrorView { message: "could not parse '"@ + text + "' as a number"@, cause: Some(cause) }
}

/// The level that the content of a device file denotes, or the error that
/// it earns: the content is trimmed, and what is left must be a number
/// that fits in 32 bits.
pub open spec fn level_of(content: Seq<char>) -> Result<u32, ErrorView> {
    match number_of(trimmed(content), u32::MAX as nat) {
        Ok(level) => Ok(level as u32),
        Err(kind) => Err(not_a_level(trimmed(content), kind.text())),
    }
}

/// White space in front is counted up to the first character that is none.
pub proof fn lemma_leading_spaces(s: Seq<char>, k: int)
    requires
        0 <= k <= s.len(),
        forall|j: int| 0 <= j < k ==> is_whitespace(#[trigger] s[j]),
        k < s.len() ==> !is_whitespace(s[k]),
    ensures
        leading_spaces(s) == k,
    decreases k,
{
    if k > 0 {
        let rest = s.drop_first();
        assert forall|j: int| 0 <= j < k - 1 implies is_whitespace(#[trigger] rest[j]) by {
            assert(rest[j] == s[j + 1]);
        }
        lemma_leading_spaces(rest, k - 1);
    }
}

/// White space at the end is counted back to the last character that is
/// none.
pub proof fn lemma_trailing_spaces(s: Seq<char>, k: int)
    requires
        0 <= k <= s.len(),
        forall|j: int| s.len() - k <= j < s.len() ==> is_whitespace(#[trigger] s[j]),
        k < s.len() ==> !is_whitespace(s[s.len() - k - 1]),
    ensures
        trailing_spaces(s) == k,
    decreases k,
{
    if k > 0 {
        let rest = s.drop_last();
        assert forall|j: int| rest.len() - (k - 1) <= j < rest.len() implies is_whitespace(
            #[trigger] rest[j],
        ) by {
            assert(rest[j] == s[j]);
        }
        lemma_trailing_spaces(rest, k - 1);
    }
}

/// Tells white space from other characters.
pub fn is_space(c: char) -> (b: bool)
    ensures
        b == is_whitespace(c),
{
    let n: u32 = c as u32;
    (0x09 <= n && n <= 0x0d) || n == 0x20 || n == 0x85 || n == 0xa0 || n == 0x1680 || (0x2000 <= n
        && n <= 0x200a) || n == 0x2028 || n == 0x2029 || n == 0x202f || n == 0x205f || n
        == 0x3000
}

/// Cuts the white space off both ends of `s`.
pub fn trim(s: &str) -> (t: &str)
    ensures
        t@ == trimmed(s@),
{
    let n: usize = s.unicode_len();
    let mut from: usize = 0;
    while from < n && is_space(s.get_char(from))
        invariant
            from <= n == s@.len(),
            forall|j: int| 0 <= j < from ==> is_whitespace(#[trigger] s@[j]),
        decreases n - from,
    {
        from += 1;
    }
    let mut to: usize = n;
    while to > from && is_space(s.get_char(to - 1))
        invariant
            from <= to <= n == s@.len(),
            forall|j: int| to <= j < n ==> is_whitespace(#[trigger] s@[j]),
        decreases to,
    {
        to -= 1;
    }
    proof {
        lemma_leading_spaces(s@, from as int);
        let rest = trimmed_start(s@);
        assert forall|j: int| rest.len() - (n - to) <= j < rest.len() implies is_whitespace(
            #[trigger] rest[j],
        ) by {
            assert(rest[j] == s@[from + j]);
        }
        lemma_trailing_spaces(rest, n - to);
        assert(s@.subrange(from as int, to as int) =~= trimmed(s@));
    }
    s.substring_char(from, to)
}

/// Reads the level that the content of a device file denotes.
///
/// The result is exactly [`level_of`] of the content: the level where there
/// is one, and otherwise an error with the message and the cause that
/// `level_of` gives.
pub fn parse_level(content: &str) -> (result: Result<u32, Error>)
    ensures
        match level_of(content@) {
            Ok(level) => result == Ok::<u32, Error>(level),
            Err(error) => result matches Err(e) && e@ == error,
        },
{
    let text: &str = trim(content);
    match parse_number(text, u32::MAX) {
        Ok(level) => Ok(level),
        Err(kind) => {
            let mut message = String::from_str("could not parse '");
            message.append(text);
            message.append("' as a number");
            Err(Error::with_cause(message, String::from_str(kind.description())))
        },
    }
}

/// Writes a level as a device file holds it: in decimal notation, with
/// nothing around it.
pub fn level_text(level: u32) -> (text: String)
    ensures
        text@ == decimal_text(level as nat),
{
    to_decimal(level as u64)
}

/// What is written for a level is read back as that level, also where the
/// device has put a line end behind it.
pub proof fn lemma_level_text_is_read_back(level: u32)
    ensures
        level_of(decimal_text(level as nat)) == Ok::<u32, ErrorView>(level),
        level_of(decimal_text(level as nat).push('\n')) == Ok::<u32, ErrorView>(level),
{
    let digits = decimal_text(level as nat);
    lemma_decimal_text_denotes(level as nat);
    lemma_number_of_decimal_text(level as nat, u32::MAX as nat);
    assert(is_digit(digits[0]) && is_digit(digits.last()));
    lemma_leading_spaces(digits, 0);
    lemma_trailing_spaces(digits, 0);
    assert(trimmed_start(digits) =~= digits);
    assert(trimmed(digits) =~= digits);
    let line = digits.push('\n');
    assert(line[0] == digits[0]);
    lemma_leading_spaces(line, 0);
    assert(trimmed_start(line) =~= line);
    assert(line[line.len() - 2] == digits.last());
    lemma_trailing_spaces(line, 1);
    assert(trimmed(line) =~= digits);
}

} // verus!
