//! Exact ratios of the maximum brightness, and the two roundings that turn
//! them into whole numbers.

use vstd::prelude::*;

verus! {

/// `numer / denom` rounded to the nearest integer, a tie going up.
///
/// Meant for `numer >= 0` and `denom > 0`.
pub open spec fn round_half_up(numer: int, denom: int) -> int {
    (2 * numer + denom) / (2 * denom)
}

/// `numer / denom` rounded to the nearest integer, a tie going to the even
/// neighbour.
///
/// Meant for `numer >= 0` and `denom > 0`.
pub open spec fn round_half_even(numer: int, denom: int) -> int {
    let q = numer / denom;
    let r = numer % denom;
    if 2 * r < denom || (2 * r == denom && q % 2 == 0) {
        q
    } else {
        q + 1
    }
}

/// A ratio of two integers: the mathematical content of a [`Fraction`].
///
/// A ratio with denominator zero has no value as a number. It is read as
/// beyond every bound on the side of its numerator's sign, and as undefined
/// where the numerator is zero too.
pub struct Ratio {
    pub numer: int,
    pub denom: int,
}

impl Ratio {
    /// The nearest ratio in the closed range from zero to one.
    pub open spec fn clamped(self) -> Ratio {
        if self.numer < 0 {
            Ratio { numer: 0, denom: 1 }
        } else if self.numer > self.denom {
            Ratio { numer: 1, denom: 1 }
        } else {
            self
        }
    }

    /// The level that the ratio selects on a device whose highest level is
    /// `max`: the clamped ratio times `max`, rounded to the nearest level, a
    /// tie going up. An undefined ratio selects level zero.
    pub open spec fn level(self, max: nat) -> nat {
        let c = self.clamped();
        if c.denom == 0 {
            0
        } else {
            round_half_up(c.numer * max, c.denom) as nat
        }
    }
}

/// A target brightness as an exact ratio of the maximum level, so that
/// `1/1` stands for full brightness.
///
/// The value need not lie between zero and one: a relative change may point
/// below zero or above the maximum. [`Fraction::clamp`] brings it back.
#[derive(Clone, Copy, Debug, PartialEq, Eq, Structural)]
pub struct Fraction {
    pub numer: i64,
    pub denom: u64,
}

impl View for Fraction {
    type V = Ratio;

    open spec fn view(&self) -> Ratio {
        Ratio { numer: self.numer as int, denom: self.denom as int }
    }
}

impl Fraction {
    /// The ratio `percent / 100`.
    pub fn from_percent(percent: u8) -> (f: Fraction)
        ensures
            f@ == (Ratio { numer: percent as int, denom: 100 }),
    {
        Fraction { numer: percent as i64, denom: 100 }
    }

    /// Brings the ratio into the closed range from zero to one: a negative
    /// one becomes zero, one above one becomes one, any other is kept.
    pub fn clamp(self) -> (c: Fraction)
        ensures
            c@ == self@.clamped(),
    {
        if self.numer < 0 {
            Fraction { numer: 0, denom: 1 }
        } else if self.numer as u64 > self.denom {
            Fraction { numer: 1, denom: 1 }
        } else {
            self
        }
    }

    /// The level to set on a device whose highest level is `max`: the ratio,
    /// clamped, times `max`, rounded to the nearest level with a tie going
    /// up. The result never exceeds `max`.
    pub fn to_level(self, max: u32) -> (level: u32)
        ensures
            level == self@.level(max as nat),
            level <= max,
    {
        let c = self.clamp();
        if c.denom == 0 {
            return 0;
        }
        let n: u128 = c.numer as u128;
        let d: u128 = c.denom as u128;
        let m: u128 = max as u128;
        proof {
            lemma_scaled_round_bounds(n as int, d as int, m as int);
            assert(d * m <= 0x1_0000_0000_0000_0000 * 0x1_0000_0000) by (nonlinear_arith)
                requires
                    d <= 0x1_0000_0000_0000_0000,
                    m <= 0x1_0000_0000,
            ;
        }
        let scaled: u128 = n * m;
        let q: u128 = (2 * scaled + d) / (2 * d);
        q as u32
    }
}

/// Scaling a ratio in the unit range by `max` and rounding stays within
/// `0..=max`, and the product stays small where the parts are.
proof fn lemma_scaled_round_bounds(n: int, d: int, max: int)
    requires
        0 <= n <= d,
        0 < d,
        0 <= max,
    ensures
        0 <= n * max <= d * max,
        0 <= round_half_up(n * max, d) <= max,
{
    assert(0 <= n * max <= d * max) by (nonlinear_arith)
        requires
            0 <= n <= d,
            0 <= max,
    ;
    lemma_round_half_up_is_nearest(n * max, d);
    let q = round_half_up(n * max, d);
    assert(q <= max) by (nonlinear_arith)
        requires
            2 * d * q <= 2 * (n * max) + d,
            n * max <= d * max,
            0 < d,
    ;
}

/// The rounded quotient is the integer nearest to the exact one: it differs
/// from `numer / denom` by at most one half, and by exactly one half only
/// from below.
pub proof fn lemma_round_half_up_is_nearest(numer: int, denom: int)
    requires
        0 <= numer,
        0 < denom,
    ensures
        2 * numer - denom < 2 * denom * round_half_up(numer, denom) <= 2 * numer + denom,
        0 <= round_half_up(numer, denom),
{
    let q = round_half_up(numer, denom);
    assert(2 * numer + denom == (2 * denom) * q + (2 * numer + denom) % (2 * denom)
        && 0 <= (2 * numer + denom) % (2 * denom) < 2 * denom
        && 0 <= q) by (nonlinear_arith)
        requires
            0 <= numer,
            0 < denom,
            q == (2 * numer + denom) / (2 * denom),
    ;
    assert((2 * denom) * q == 2 * denom * q) by (nonlinear_arith);
}

/// The quotient rounded half to even differs from `numer / denom` by at
/// most one half.
pub proof fn lemma_round_half_even_is_nearest(numer: int, denom: int)
    requires
        0 <= numer,
        0 < denom,
    ensures
        2 * numer - denom <= 2 * denom * round_half_even(numer, denom) <= 2 * numer + denom,
        0 <= round_half_even(numer, denom),
{
    let q = numer / denom;
    let r = numer % denom;
    assert(numer == denom * q + r && 0 <= r < denom && 0 <= q) by (nonlinear_arith)
        requires
            0 <= numer,
            0 < denom,
            q == numer / denom,
            r == numer % denom,
    ;
    let e = round_half_even(numer, denom);
    assert(2 * denom * e == 2 * (denom * q) + 2 * denom * (e - q)) by (nonlinear_arith);
    if e == q {
        assert(2 * denom * (e - q) == 0) by (nonlinear_arith)
            requires
                e == q,
        ;
    } else {
        assert(2 * denom * (e - q) == 2 * denom) by (nonlinear_arith)
            requires
                e == q + 1,
        ;
    }
}

/// The two ends of the unit range select the two ends of the device: zero
/// selects level zero, one selects the highest level.
pub proof fn lemma_level_of_bounds(max: nat)
    ensures
        (Ratio { numer: 0, denom: 1 }).level(max) == 0,
        (Ratio { numer: 1, denom: 1 }).level(max) == max,
{
    let zero = Ratio { numer: 0, denom: 1 };
    let one = Ratio { numer: 1, denom: 1 };
    assert(zero.clamped() == zero);
    assert(one.clamped() == one);
    assert(zero.numer * max == 0) by (nonlinear_arith)
        requires
            zero.numer == 0,
    ;
    assert(one.numer * max == max) by (nonlinear_arith)
        requires
            one.numer == 1,
    ;
    assert((2 * 0 + 1) / (2 * 1) == 0 && (2 * max + 1) / (2 * 1) == max) by (nonlinear_arith);
}

/// A whole number of units rounds to itself, whatever the rounding.
pub proof fn lemma_round_exact(k: int, denom: int)
    requires
        0 <= k,
        0 < denom,
    ensures
        round_half_up(k * denom, denom) == k,
        round_half_even(k * denom, denom) == k,
{
    assert((2 * (k * denom) + denom) / (2 * denom) == k) by (nonlinear_arith)
        requires
            0 <= k,
            0 < denom,
    ;
    assert((k * denom) / denom == k && (k * denom) % denom == 0) by (nonlinear_arith)
        requires
            0 <= k,
            0 < denom,
    ;
}

} // verus!
