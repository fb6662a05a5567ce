//! Decimal notation for unsigned integers: its meaning as a number, and the
//! conversion in both directions.

use vstd::prelude::*;

verus! {

/// Whether `c` is one of the ten ASCII digits.
pub open spec fn is_digit(c: char) -> bool {
    '0' <= c <= '9'
}

/// The number a digit stands for.
pub open spec fn digit_value(c: char) -> nat
    recommends
        is_digit(c),
{
    (c as int - '0' as int) as nat
}

/// The digit that stands for a number below ten.
pub open spec fn digit_char(d: nat) -> char
    recommends
        d < 10,
{
    (d + '0' as nat) as char
}

/// Whether every character of `s` is a digit.
pub open spec fn all_digits(s: Seq<char>) -> bool {
    forall|i: int| 0 <= i < s.len() ==> is_digit(#[trigger] s[i])
}

/// The number that a run of digits denotes, most significant digit first.
/// The empty run denotes zero.
pub open spec fn decimal_value(s: Seq<char>) -> nat
    decreases s.len(),
{
    if s.len() == 0 {
        0
    } else {
        10 * decimal_value(s.drop_last()) + digit_value(s.last())
    }
}

/// The shortest decimal notation of `n`: no leading zero, except for zero
/// itself.
pub open spec fn decimal_text(n: nat) -> Seq<char>
    decreases n,
{
    if n < 10 {
        seq![digit_char(n)]
    } else {
        decimal_text(n / 10).push(digit_char(n % 10))
    }
}

/// Why a text is not the notation of a number within a limit.
#[derive(Clone, Copy, Debug, PartialEq, Eq, Structural)]
pub enum NumberError {
    /// The text is empty.
    Empty,
    /// A character is no digit, or there is no digit at all.
    InvalidDigit,
    /// The digits denote more than the limit.
    TooLarge,
}

impl NumberError {
    /// The wording of the error.
    pub open spec fn text(self) -> Seq<char> {
        match self {
            NumberError::Empty => "cannot parse integer from empty string"@,
            NumberError::InvalidDigit => "invalid digit found in string"@,
            NumberError::TooLarge => "number too large to fit in target type"@,
        }
    }

    /// The wording of the error.
    pub fn description(self) -> (text: &'static str)
        ensures
            text@ == self.text(),
    {
        match self {
            NumberError::Empty => "cannot parse integer from empty string",
            NumberError::InvalidDigit => "invalid digit found in string",
            NumberError::TooLarge => "number too large to fit in target type",
        }
    }
}

/// `s` without the plus sign that may stand in front of a number.
pub open spec fn without_plus(s: Seq<char>) -> Seq<char> {
    if s.len() > 0 && s[0] == '+' {
        s.subrange(1, s.len() as int)
    } else {
        s
    }
}

/// Whether `s` starts with a run of digits that denotes more than `limit`.
pub open spec fn exceeds(s: Seq<char>, limit: nat) -> bool {
    exists|k: int|
        0 <= k <= s.len() && all_digits(#[trigger] s.take(k)) && decimal_value(s.take(k)) > limit
}

/// The number up to `limit` that `s` denotes: an optional plus sign, then
/// one digit or more, and nothing else.
///
/// The text is read from the left, and the first thing found wrong decides
/// the error: digits that have already run past the limit make the number
/// too large whatever follows them, and a character that is no digit is an
/// invalid digit otherwise.
pub open spec fn number_of(s: Seq<char>, limit: nat) -> Result<nat, NumberError> {
    let digits = without_plus(s);
    if s.len() == 0 {
        Err(NumberError::Empty)
    } else if exceeds(digits, limit) {
        Err(NumberError::TooLarge)
    } else if digits.len() == 0 || !all_digits(digits) {
        Err(NumberError::InvalidDigit)
    } else {
        Ok(decimal_value(digits))
    }
}

/// One more digit multiplies what the digits before it denote by ten and
/// adds its own value.
pub proof fn lemma_decimal_value_step(s: Seq<char>, k: int)
    requires
        0 <= k < s.len(),
    ensures
        decimal_value(s.take(k + 1)) == 10 * decimal_value(s.take(k)) + digit_value(s[k]),
{
    assert(s.take(k + 1).drop_last() =~= s.take(k));
}

/// A longer run of the same text denotes no less than a shorter one.
pub proof fn lemma_decimal_value_monotone(s: Seq<char>, j: int, k: int)
    requires
        0 <= j <= k <= s.len(),
    ensures
        decimal_value(s.take(j)) <= decimal_value(s.take(k)),
    decreases k - j,
{
    if j < k {
        lemma_decimal_value_monotone(s, j, k - 1);
        lemma_decimal_value_step(s, k - 1);
    }
}

/// A run of digits within the limit has no start that exceeds it.
pub proof fn lemma_within_limit(s: Seq<char>, limit: nat)
    requires
        decimal_value(s) <= limit,
    ensures
        !exceeds(s, limit),
{
    assert(s.take(s.len() as int) =~= s);
    assert forall|k: int| 0 <= k <= s.len() implies decimal_value(#[trigger] s.take(k))
        <= limit by {
        lemma_decimal_value_monotone(s, k, s.len() as int);
    }
}

/// The notation that [`decimal_text`] gives consists of digits, at least
/// one, and denotes the number it was made from.
pub proof fn lemma_decimal_text_denotes(n: nat)
    ensures
        decimal_text(n).len() >= 1,
        all_digits(decimal_text(n)),
        decimal_value(decimal_text(n)) == n,
    decreases n,
{
    let text = decimal_text(n);
    if n < 10 {
        assert(text.drop_last() =~= Seq::<char>::empty());
        assert(decimal_value(text.drop_last()) == 0);
    } else {
        lemma_decimal_text_denotes(n / 10);
        assert(text.drop_last() =~= decimal_text(n / 10));
    }
}

/// A number within the limit is read back from its notation.
pub proof fn lemma_number_of_decimal_text(n: nat, limit: nat)
    requires
        n <= limit,
    ensures
        number_of(decimal_text(n), limit) == Ok::<nat, NumberError>(n),
{
    let text = decimal_text(n);
    lemma_decimal_text_denotes(n);
    assert(is_digit(text[0]));
    lemma_within_limit(text, limit);
}

/// Reads a number up to `limit` from its decimal notation.
pub fn parse_number(s: &str, limit: u32) -> (r: Result<u32, NumberError>)
    ensures
        match r {
            Ok(value) => number_of(s@, limit as nat) == Ok::<nat, NumberError>(value as nat),
            Err(error) => number_of(s@, limit as nat) == Err::<nat, NumberError>(error),
        },
{
    let n: usize = s.unicode_len();
    if n == 0 {
        return Err(NumberError::Empty);
    }
    let start: usize = if s.get_char(0) == '+' {
        1
    } else {
        0
    };
    let ghost digits = without_plus(s@);
    let mut value: u32 = 0;
    let mut i: usize = start;
    assert(digits.take(0) =~= Seq::<char>::empty());
    while i < n
        invariant
            start <= i <= n,
            0 < n == s@.len(),
            digits == without_plus(s@),
            digits.len() == n - start,
            all_digits(digits.take(i - start)),
            value == decimal_value(digits.take(i - start)),
            value <= limit,
        decreases n - i,
    {
        let ghost k = i - start;
        proof {
            lemma_decimal_value_step(digits, k);
        }
        let digit: u8 = match digit_of(s.get_char(i)) {
            Some(digit) => digit,
            None => {
                proof {
                    assert(!is_digit(digits[k]));
                    assert forall|j: int|
                        0 <= j <= digits.len() && all_digits(
                            #[trigger] digits.take(j),
                        ) implies decimal_value(digits.take(j)) <= limit by {
                        if j > k {
                            assert(digits.take(j)[k] == digits[k]);
                        } else {
                            lemma_decimal_value_monotone(digits, j, k);
                        }
                    }
                }
                return Err(NumberError::InvalidDigit);
            },
        };
        proof {
            assert forall|j: int| 0 <= j < k + 1 implies is_digit(
                #[trigger] digits.take(k + 1)[j],
            ) by {
                if j < k {
                    assert(digits.take(k)[j] == digits[j]);
                }
            }
        }
        let next: u64 = 10 * (value as u64) + (digit as u64);
        if next > limit as u64 {
            assert(all_digits(digits.take(k + 1)) && decimal_value(digits.take(k + 1)) > limit);
            return Err(NumberError::TooLarge);
        }
        value = next as u32;
        i += 1;
    }
    proof {
        assert(digits.take(digits.len() as int) =~= digits);
        lemma_within_limit(digits, limit as nat);
    }
    if start == n {
        Err(NumberError::InvalidDigit)
    } else {
        Ok(value)
    }
}

/// Turns one digit into its value.
pub fn digit_of(c: char) -> (d: Option<u8>)
    ensures
        is_digit(c) ==> d == Some(digit_value(c) as u8),
        !is_digit(c) ==> d is None,
{
    if '0' <= c && c <= '9' {
        Some((c as u32 - '0' as u32) as u8)
    } else {
        None
    }
}

/// The one-character text of a digit.
fn digit_str(d: u8) -> (s: &'static str)
    requires
        d < 10,
    ensures
        s@ == seq![digit_char(d as nat)],
{
    proof {
        reveal_strlit("0");
        reveal_strlit("1");
        reveal_strlit("2");
        reveal_strlit("3");
        reveal_strlit("4");
        reveal_strlit("5");
        reveal_strlit("6");
        reveal_strlit("7");
        reveal_strlit("8");
        reveal_strlit("9");
    }
    let s: &'static str = match d {
        0 => "0",
        1 => "1",
        2 => "2",
        3 => "3",
        4 => "4",
        5 => "5",
        6 => "6",
        7 => "7",
        8 => "8",
        _ => "9",
    };
    assert(s@ =~= seq![digit_char(d as nat)]);
    s
}

/// Writes `n` in decimal notation, without sign or leading zeros.
pub fn to_decimal(n: u64) -> (text: String)
    ensures
        text@ == decimal_text(n as nat),
    decreases n,
{
    if n < 10 {
        String::from_str(digit_str(n as u8))
    } else {
        let mut text = to_decimal(n / 10);
        text.append(digit_str((n % 10) as u8));
        assert(text@ =~= decimal_text(n as nat));
        text
    }
}

} // verus!
