//! From an action and the state of the device to the level to set.
//!
//! The device is known by two numbers, its current level and its highest
//! level. The current level is only read where the action depends on it:
//! the caller passes a function that reads it, and the policy calls that
//! function at most once.

use vstd::prelude::*;
use crate::action::{Action, SetMode};
use crate::decimal::{decimal_text, to_decimal};
use crate::error::Error;
use crate::fraction::{
    lemma_level_of_bounds, lemma_round_exact, lemma_round_half_even_is_nearest,
    lemma_round_half_up_is_nearest, round_half_even, round_half_up, Fraction, Ratio,
};
use vstd::arithmetic::div_mod::lemma_div_multiples_vanish_quotient;

verus! {

/// The current brightness in percent of the maximum, rounded to a whole
/// number, a tie going to the even neighbour.
pub open spec fn percent_of(brightness: nat, max: nat) -> nat
    recommends
        max > 0,
{
    round_half_even(100 * brightness as int, max as int) as nat
}

/// The line that reports the current brightness: the rounded percentage and
/// a percent sign. On a device whose highest level is zero no percentage
/// exists; the line then reads `NaN%` at level zero and `inf%` above it.
pub open spec fn report_line(brightness: nat, max: nat) -> Seq<char> {
    if max > 0 {
        decimal_text(percent_of(brightness, max)) + "%\n"@
    } else if brightness == 0 {
        "NaN%\n"@
    } else {
        "inf%\n"@
    }
}

/// The view of an optional fraction.
pub open spec fn ratio_of(f: Option<Fraction>) -> Option<Ratio> {
    match f {
        Some(f) => Some(f@),
        None => None,
    }
}

impl Action {
    /// Whether the action depends on the current level of the device.
    pub open spec fn reads_brightness(self) -> bool {
        !(self matches Action::SetBrightness(_, SetMode::Absolute))
    }

    /// The brightness that the action asks for, as a ratio of the maximum,
    /// on a device at level `brightness` of `max`. `Get` asks for none.
    ///
    /// An absolute `p` asks for `p/100`. A relative `p` asks for
    /// `brightness/max + p/100` or `brightness/max - p/100`, here brought to
    /// the common denominator `100 * max`. The ratio is not clamped.
    pub open spec fn target(self, max: nat, brightness: nat) -> Option<Ratio> {
        match self {
            Action::Get => None,
            Action::SetBrightness(p, SetMode::Absolute) => Some(
                Ratio { numer: p as int, denom: 100 },
            ),
            Action::SetBrightness(p, SetMode::RelativeUp) => Some(
                Ratio { numer: 100 * brightness + p * max, denom: 100 * max as int },
            ),
            Action::SetBrightness(p, SetMode::RelativeDown) => Some(
                Ratio { numer: 100 * brightness - p * max, denom: 100 * max as int },
            ),
        }
    }

    /// What the action prints: the report line for `Get`, nothing for a change.
    pub open spec fn report(self, max: nat, brightness: nat) -> Seq<char> {
        match self {
            Action::Get => report_line(brightness, max),
            Action::SetBrightness(_, _) => Seq::empty(),
        }
    }

    /// The level that the action has written to the device, if any.
    pub open spec fn level_written(self, max: nat, brightness: nat) -> Option<nat> {
        match self.target(max, brightness) {
            Some(ratio) => Some(ratio.level(max)),
            None => None,
        }
    }

    /// The level of the device after the action.
    pub open spec fn level_after(self, max: nat, brightness: nat) -> nat {
        match self.level_written(max, brightness) {
            Some(level) => level,
            None => brightness,
        }
    }

    /// What [`Action::calculate_new_percentage`] yields once the device has
    /// answered `read`: the read error as it came, or else the target, with
    /// the report appended to what was printed `before`.
    pub open spec fn percentage_settled(
        self,
        max: u32,
        read: Result<u32, Error>,
        before: Seq<char>,
        result: Result<Option<Fraction>, Error>,
        after: Seq<char>,
    ) -> bool {
        match read {
            Err(e) => result == Err::<Option<Fraction>, Error>(e) && after == before,
            Ok(brightness) => {
                &&& result matches Ok(f)
                &&& ratio_of(f) == self.target(max as nat, brightness as nat)
                &&& after == before + self.report(max as nat, brightness as nat)
            },
        }
    }

    /// What [`Action::execute`] yields once the device has answered `read`:
    /// the read error as it came, or else the level to write, with the
    /// report appended to what was printed `before`.
    pub open spec fn level_settled(
        self,
        max: u32,
        read: Result<u32, Error>,
        before: Seq<char>,
        result: Result<Option<u32>, Error>,
        after: Seq<char>,
    ) -> bool {
        match read {
            Err(e) => result == Err::<Option<u32>, Error>(e) && after == before,
            Ok(brightness) => {
                &&& result matches Ok(level)
                &&& match level {
                    Some(l) => Some(l as nat),
                    None => None,
                } == self.level_written(max as nat, brightness as nat)
                &&& after == before + self.report(max as nat, brightness as nat)
            },
        }
    }

    /// The brightness that the action asks for on a device at level
    /// `brightness` of `max_brightness`, not yet clamped; `None` for `Get`.
    pub fn new_percentage(self, max_brightness: u32, brightness: u32) -> (f: Option<Fraction>)
        ensures
            ratio_of(f) == self.target(max_brightness as nat, brightness as nat),
    {
        let current: i64 = 100 * (brightness as i64);
        let denom: u64 = 100 * (max_brightness as u64);
        match self {
            Action::Get => None,
            Action::SetBrightness(percentage, SetMode::Absolute) => Some(
                Fraction::from_percent(percentage),
            ),
            Action::SetBrightness(change, SetMode::RelativeUp) => {
                let delta: i64 = scaled_change(change, max_brightness);
                Some(Fraction { numer: current + delta, denom })
            },
            Action::SetBrightness(change, SetMode::RelativeDown) => {
                let delta: i64 = scaled_change(change, max_brightness);
                Some(Fraction { numer: current - delta, denom })
            },
        }
    }

    /// Computes the brightness that the action asks for, as a ratio of the
    /// maximum that is not yet clamped, or `None` where nothing is to be
    /// written.
    ///
    /// `get_brightness` reads the current level. It is called only where the
    /// action depends on that level, and then once: an absolute change is
    /// answered without it, so its precondition is not even asked for. A
    /// failed read is handed on as it came. `Get` appends its line to
    /// `report`; every other action leaves `report` as it was.
    pub fn calculate_new_percentage<F>(
        self,
        max_brightness: u32,
        get_brightness: F,
        report: &mut String,
    ) -> (result: Result<Option<Fraction>, Error>) where F: FnOnce() -> Result<u32, Error>
        requires
            self.reads_brightness() ==> get_brightness.requires(()),
        ensures
            self matches Action::SetBrightness(p, SetMode::Absolute) ==> {
                &&& result matches Ok(Some(f))
                &&& f@ == (Ratio { numer: p as int, denom: 100 })
                &&& final(report)@ == old(report)@
            },
            self.reads_brightness() ==> exists|read: Result<u32, Error>|
                {
                    &&& get_brightness.ensures((), read)
                    &&& self.percentage_settled(
                        max_brightness,
                        read,
                        old(report)@,
                        result,
                        final(report)@,
                    )
                },
            self is Get ==> !(result matches Ok(Some(_))),
    {
        match self {
            Action::SetBrightness(percentage, SetMode::Absolute) => Ok(
                Some(Fraction::from_percent(percentage)),
            ),
            _ => {
                let read = get_brightness();
                let ghost seen = read;
                let result = match read {
                    Err(e) => Err(e),
                    Ok(brightness) => {
                        if let Action::Get = self {
                            let line = brightness_report(brightness, max_brightness);
                            report.append(line.as_str());
                        }
                        Ok(self.new_percentage(max_brightness, brightness))
                    },
                };
                assert(self.percentage_settled(
                    max_brightness,
                    seen,
                    old(report)@,
                    result,
                    report@,
                ));
                result
            },
        }
    }

    /// Decides what to write to the device: the level that the action asks
    /// for, clamped to the range of the device and rounded to the nearest
    /// level with a tie going up, or `None` where the action writes nothing.
    ///
    /// `get_brightness` and `report` are used as in
    /// [`Action::calculate_new_percentage`].
    pub fn execute<F>(
        self,
        max_brightness: u32,
        get_brightness: F,
        report: &mut String,
    ) -> (result: Result<Option<u32>, Error>) where F: FnOnce() -> Result<u32, Error>
        requires
            self.reads_brightness() ==> get_brightness.requires(()),
        ensures
            self matches Action::SetBrightness(p, SetMode::Absolute) ==> {
                &&& result matches Ok(Some(level))
                &&& level == (Ratio { numer: p as int, denom: 100 }).level(max_brightness as nat)
                &&& final(report)@ == old(report)@
            },
            self.reads_brightness() ==> exists|read: Result<u32, Error>|
                {
                    &&& get_brightness.ensures((), read)
                    &&& self.level_settled(
                        max_brightness,
                        read,
                        old(report)@,
                        result,
                        final(report)@,
                    )
                },
            self is Get ==> !(result matches Ok(Some(_))),
            result matches Ok(Some(level)) ==> level <= max_brightness,
    {
        let ghost reader = get_brightness;
        let computed = self.calculate_new_percentage(max_brightness, get_brightness, report);
        let ghost percentage = computed;
        let result = match computed {
            Err(e) => Err(e),
            Ok(None) => Ok(None),
            Ok(Some(percentage)) => {
                let percentage = percentage.clamp();
                Ok(Some(percentage.to_level(max_brightness)))
            },
        };
        proof {
            if self.reads_brightness() {
                let read = choose|read: Result<u32, Error>|
                    {
                        &&& reader.ensures((), read)
                        &&& self.percentage_settled(
                            max_brightness,
                            read,
                            old(report)@,
                            percentage,
                            report@,
                        )
                    };
                assert(self.level_settled(max_brightness, read, old(report)@, result, report@));
            }
        }
        result
    }
}

/// `change * max_brightness`, which always fits.
fn scaled_change(change: u8, max_brightness: u32) -> (delta: i64)
    ensures
        delta == change * max_brightness,
        0 <= delta <= 255 * 0xffff_ffff,
{
    assert(0 <= change * max_brightness <= 255 * 0xffff_ffff) by (nonlinear_arith)
        requires
            0 <= change <= 255,
            0 <= max_brightness <= 0xffff_ffff,
    ;
    (change as i64) * (max_brightness as i64)
}

/// Writes the line that reports the current brightness.
pub fn brightness_report(brightness: u32, max_brightness: u32) -> (line: String)
    ensures
        line@ == report_line(brightness as nat, max_brightness as nat),
{
    if max_brightness == 0 {
        if brightness == 0 {
            String::from_str("NaN%\n")
        } else {
            String::from_str("inf%\n")
        }
    } else {
        let mut line = to_decimal(rounded_percent(brightness, max_brightness));
        line.append("%\n");
        line
    }
}

/// The current brightness in percent of the maximum, rounded to a whole
/// number, a tie going to the even neighbour.
fn rounded_percent(brightness: u32, max_brightness: u32) -> (percent: u64)
    requires
        max_brightness > 0,
    ensures
        percent == percent_of(brightness as nat, max_brightness as nat),
{
    let scaled: u64 = 100 * (brightness as u64);
    let max: u64 = max_brightness as u64;
    let q: u64 = scaled / max;
    let r: u64 = scaled % max;
    proof {
        lemma_round_half_even_is_nearest(scaled as int, max as int);
        assert(q <= scaled) by (nonlinear_arith)
            requires
                q == scaled / max,
                max > 0,
                scaled >= 0,
        ;
    }
    if 2 * r < max || (2 * r == max && q % 2 == 0) {
        q
    } else {
        q + 1
    }
}

/// The level that a ratio with denominator `100 * max` selects out of `max`
/// is its numerator in hundredths, rounded: the `max` cancels.
proof fn lemma_level_in_hundredths(numer: int, max: nat)
    requires
        0 <= numer <= 100 * max,
        max > 0,
    ensures
        (Ratio { numer, denom: 100 * max as int }).level(max) == round_half_up(numer, 100),
        round_half_up(numer, 100) <= max,
{
    let m = max as int;
    lemma_div_multiples_vanish_quotient(m, 2 * numer + 100, 200);
    assert(2 * (numer * m) + 100 * m == m * (2 * numer + 100)) by (nonlinear_arith);
    assert(2 * (100 * m) == m * 200) by (nonlinear_arith);
}

/// An absolute change to `p` percent sets the level to `p` hundredths of the
/// maximum, rounded to the nearest level with a tie going up, whatever the
/// level was; a number above 100 sets the maximum. Out of 100 levels, `p`
/// percent is level `p`.
pub proof fn lemma_absolute_level(p: u8, max: nat, brightness: nat)
    ensures
        Action::SetBrightness(p, SetMode::Absolute).level_written(max, brightness) == Some(
            if p >= 100 {
                max
            } else {
                round_half_up(p * max, 100) as nat
            },
        ),
        max == 100 && p <= 100 ==> Action::SetBrightness(p, SetMode::Absolute).level_after(
            max,
            brightness,
        ) == p,
{
    lemma_level_of_bounds(max);
    if p == 100 {
        assert((2 * (100 * max) + 100) / 200 == max);
    }
}

/// A change upwards by `p` percentage points adds `p` hundredths of the
/// maximum, rounded to the nearest level with a tie going up, and stops at the
/// maximum. Out of 100 levels it adds `p` levels.
pub proof fn lemma_relative_up_level(p: u8, max: nat, brightness: nat)
    ensures
        Action::SetBrightness(p, SetMode::RelativeUp).level_written(max, brightness) == Some(
            if brightness + round_half_up(p * max, 100) >= max {
                max
            } else {
                (brightness + round_half_up(p * max, 100)) as nat
            },
        ),
        max == 100 ==> Action::SetBrightness(p, SetMode::RelativeUp).level_after(max, brightness)
            == if brightness + p >= 100 {
            100
        } else {
            brightness + p
        },
{
    let step = p * max;
    assert(0 <= step) by (nonlinear_arith)
        requires
            step == p * max,
    ;
    let numer = 100 * brightness + step;
    let ratio = Ratio { numer, denom: 100 * max as int };
    lemma_level_of_bounds(max);
    assert(Action::SetBrightness(p, SetMode::RelativeUp).target(max, brightness) == Some(ratio));
    if max == 0 {
        assert(step == 0);
        assert(ratio.level(max) == 0);
    } else if numer <= 100 * max {
        lemma_level_in_hundredths(numer, max);
    } else {
        assert(ratio.clamped() == Ratio { numer: 1, denom: 1 });
        assert(ratio.level(max) == max);
    }
    if max == 100 {
        assert(step == 100 * p);
    }
}

/// A change downwards by `p` percentage points takes `p` hundredths of the
/// maximum off the level and rounds to the nearest level with a tie going up;
/// it stops at zero, and at the maximum where the level was above it. Out of
/// 100 levels, from a level up to 100, it takes off `p` levels.
pub proof fn lemma_relative_down_level(p: u8, max: nat, brightness: nat)
    ensures
        Action::SetBrightness(p, SetMode::RelativeDown).level_written(max, brightness) == Some(
            if 100 * brightness <= p * max {
                0
            } else if 100 * brightness - p * max >= 100 * max {
                max
            } else {
                round_half_up(100 * brightness - p * max, 100) as nat
            },
        ),
        max == 100 && brightness <= 100 ==> Action::SetBrightness(
            p,
            SetMode::RelativeDown,
        ).level_after(max, brightness) == if brightness <= p {
            0
        } else {
            brightness - p
        },
{
    let step = p * max;
    assert(0 <= step) by (nonlinear_arith)
        requires
            step == p * max,
    ;
    let numer = 100 * brightness - step;
    let ratio = Ratio { numer, denom: 100 * max as int };
    lemma_level_of_bounds(max);
    assert(Action::SetBrightness(p, SetMode::RelativeDown).target(max, brightness) == Some(
        ratio,
    ));
    if max == 0 {
        assert(step == 0);
        assert(ratio.level(max) == 0);
    } else if numer < 0 {
        assert(ratio.clamped() == Ratio { numer: 0, denom: 1 });
        assert(ratio.level(max) == 0);
    } else if numer <= 100 * max {
        lemma_level_in_hundredths(numer, max);
    } else {
        assert(ratio.clamped() == Ratio { numer: 1, denom: 1 });
        assert(ratio.level(max) == max);
    }
    if max == 100 {
        assert(step == 100 * p);
    }
}

/// `Get` writes nothing: the level is after it what it was before.
pub proof fn lemma_get_leaves_level(max: nat, brightness: nat)
    ensures
        Action::Get.level_written(max, brightness) is None,
        Action::Get.level_after(max, brightness) == brightness,
{
}

/// No action takes the level above the maximum of the device.
pub proof fn lemma_level_written_within_range(action: Action, max: nat, brightness: nat)
    ensures
        action.level_written(max, brightness) matches Some(level) ==> level <= max,
{
    match action {
        Action::Get => {},
        Action::SetBrightness(p, SetMode::Absolute) => {
            lemma_absolute_level(p, max, brightness);
            if p < 100 {
                lemma_round_half_up_is_nearest(p * max, 100);
                assert(p * max <= 99 * max) by (nonlinear_arith)
                    requires
                        p <= 99,
                ;
            }
        },
        Action::SetBrightness(p, SetMode::RelativeUp) => {
            lemma_relative_up_level(p, max, brightness);
        },
        Action::SetBrightness(p, SetMode::RelativeDown) => {
            lemma_relative_down_level(p, max, brightness);
            let numer = 100 * brightness - p * max;
            if 0 < numer < 100 * max {
                lemma_level_in_hundredths(numer, max);
            }
        },
    }
}

/// After an absolute change to `p` percent, `Get` reports `p` again, as far
/// as the levels of the device allow: the percentage reported is off by no
/// more than `50/max + 1/2`. That is within one point on a device with at
/// least 34 levels above zero, and exact on one with at least 100, whose
/// report then reads `p%`.
pub proof fn lemma_set_then_get_reports(p: u8, max: nat, brightness: nat)
    requires
        p <= 100,
        max > 0,
    ensures
        ({
            let level = Action::SetBrightness(p, SetMode::Absolute).level_after(max, brightness);
            let reported = percent_of(level, max);
            &&& 2 * max * (reported - p) <= 100 + max
            &&& 2 * max * (p - reported) <= 100 + max
            &&& max >= 34 ==> p - 1 <= reported <= p + 1
            &&& max >= 100 ==> reported == p
            &&& max >= 100 ==> Action::Get.report(max, level) == decimal_text(p as nat) + "%\n"@
        }),
{
    let level = Action::SetBrightness(p, SetMode::Absolute).level_after(max, brightness);
    let reported = percent_of(level, max);
    let m = max as int;
    let r = reported as int;
    let q = p as int;
    lemma_absolute_level(p, max, brightness);
    assert(0 <= q * m) by (nonlinear_arith)
        requires
            0 <= q,
            0 <= m,
    ;
    lemma_round_half_up_is_nearest(q * m, 100);
    assert(2 * (q * m) - 100 < 200 * level <= 2 * (q * m) + 100) by {
        if p == 100 {
            assert(q * m == 100 * m);
        }
    }
    lemma_round_half_even_is_nearest(100 * level as int, m);
    assert(2 * m * (r - q) == 2 * m * r - 2 * (q * m)) by (nonlinear_arith);
    assert(2 * m * (q - r) == 2 * (q * m) - 2 * m * r) by (nonlinear_arith);
    if max >= 34 {
        assert(q - 1 <= r <= q + 1) by (nonlinear_arith)
            requires
                2 * m * (r - q) <= 100 + m,
                2 * m * (q - r) <= 100 + m,
                m >= 34,
        ;
    }
    if max > 100 {
        assert(r == q) by (nonlinear_arith)
            requires
                2 * m * (r - q) <= 100 + m,
                2 * m * (q - r) <= 100 + m,
                m > 100,
        ;
    }
    if max == 100 {
        assert(level == q);
        lemma_round_exact(q, 100);
        assert(100 * level == q * 100);
    }
}

/// An absolute change does not depend on the level it finds, so making it
/// twice leaves the device where making it once does.
pub proof fn lemma_absolute_is_idempotent(p: u8, max: nat, brightness: nat)
    ensures
        ({
            let action = Action::SetBrightness(p, SetMode::Absolute);
            let once = action.level_after(max, brightness);
            &&& action.level_after(max, once) == once
            &&& forall|other: nat| action.level_after(max, other) == once
        }),
{
}

} // verus!
