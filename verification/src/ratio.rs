//! Exact fractions: probabilities and size factors without rounding error.

use vstd::arithmetic::div_mod::{
    lemma_div_denominator, lemma_div_is_ordered_by_denominator, lemma_fundamental_div_mod,
    lemma_fundamental_div_mod_converse,
};
use vstd::prelude::*;

verus! {

/// The fraction `numerator / denominator`.
///
/// A ratio stands for a number only when its denominator is positive, and for
/// a probability only when it also lies between zero and one.
#[derive(Clone, Copy, Debug, PartialEq, Eq)]
pub struct Ratio {
    pub numerator: u32,
    pub denominator: u32,
}

impl Ratio {
    /// The ratio stands for a number.
    pub open spec fn is_number(self) -> bool {
        self.denominator > 0
    }

    /// The ratio stands for a number between zero and one, both included.
    pub open spec fn is_probability(self) -> bool {
        0 < self.denominator && self.numerator <= self.denominator
    }

    /// As a probability: the event never happens.
    pub open spec fn is_never(self) -> bool {
        self.numerator == 0
    }

    /// As a probability: the event always happens.
    pub open spec fn is_certain(self) -> bool {
        self.numerator == self.denominator
    }

    /// The fraction `numerator / denominator`, as given.
    pub fn new(numerator: u32, denominator: u32) -> (ratio: Self)
        ensures
            ratio.numerator == numerator,
            ratio.denominator == denominator,
    {
        Ratio { numerator, denominator }
    }

    /// The probability zero.
    pub fn never() -> (ratio: Self)
        ensures
            ratio == (Ratio { numerator: 0, denominator: 1 }),
            ratio.is_probability(),
            ratio.is_never(),
            !ratio.is_certain(),
    {
        Ratio { numerator: 0, denominator: 1 }
    }

    /// The probability one.
    pub fn certain() -> (ratio: Self)
        ensures
            ratio == (Ratio { numerator: 1, denominator: 1 }),
            ratio.is_probability(),
            ratio.is_certain(),
            !ratio.is_never(),
    {
        Ratio { numerator: 1, denominator: 1 }
    }

    /// Whether the ratio may be used as a probability.
    pub fn check_probability(&self) -> (ok: bool)
        ensures
            ok == self.is_probability(),
    {
        0 < self.denominator && self.numerator <= self.denominator
    }
}

/// The integer nearest to `numerator / denominator`; a quotient that lies
/// halfway between two integers goes to the larger one.
pub open spec fn rounded(numerator: nat, denominator: nat) -> nat {
    (numerator + denominator / 2) / denominator
}

/// Half of `numerator / denominator`, rounded as `rounded` does.
pub open spec fn rounded_half(numerator: nat, denominator: nat) -> nat {
    ((numerator + denominator) / denominator) / 2
}

/// `rounded` differs from the exact quotient by at most one half, and by one
/// half only where it lies above the quotient.
pub proof fn lemma_rounded_is_nearest(numerator: nat, denominator: nat)
    requires
        denominator > 0,
    ensures
        2 * (rounded(numerator, denominator) * denominator) <= 2 * numerator + denominator,
        2 * numerator < 2 * (rounded(numerator, denominator) * denominator) + denominator,
{
    let half: int = denominator as int / 2;
    let x: int = numerator + half;
    let d: int = denominator as int;
    lemma_fundamental_div_mod(x, d);
    assert(x == d * (x / d) + x % d);
    assert(0 <= x % d < d);
    assert(d * (x / d) == (x / d) * d) by (nonlinear_arith);
}

/// `rounded_half` is `rounded` with the denominator doubled.
pub proof fn lemma_rounded_half(numerator: nat, denominator: nat)
    requires
        denominator > 0,
    ensures
        rounded_half(numerator, denominator) == rounded(numerator, 2 * denominator),
{
    lemma_div_denominator((numerator + denominator) as int, denominator as int, 2);
    assert(denominator * 2 == 2 * denominator);
    assert((2 * denominator) / 2 == denominator);
}

/// Divides and rounds to the nearest integer, halves upwards.
pub fn round_quotient(numerator: u128, denominator: u128) -> (quotient: u128)
    requires
        denominator > 0,
    ensures
        quotient == rounded(numerator as nat, denominator as nat),
{
    let whole: u128 = numerator / denominator;
    let rest: u128 = numerator % denominator;
    proof {
        let n: int = numerator as int;
        let d: int = denominator as int;
        let w: int = whole as int;
        let r: int = rest as int;
        let half: int = d / 2;
        lemma_fundamental_div_mod(n, d);
        assert(n == d * w + r);
        if r >= d - r {
            assert(n + half == d * (w + 1) + (r + half - d)) by (nonlinear_arith)
                requires
                    n == d * w + r,
            ;
            lemma_fundamental_div_mod_converse(n + half, d, w + 1, r + half - d);
            assert(d >= 2);
            lemma_div_is_ordered_by_denominator(n, 2, d);
            assert(w <= n / 2);
        } else {
            lemma_fundamental_div_mod_converse(n + half, d, w, r + half);
        }
    }
    if rest >= denominator - rest {
        whole + 1
    } else {
        whole
    }
}

} // verus!
