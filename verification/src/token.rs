//! Balance and ratio primitives.
//!
//! Balances exist in two distinct unit spaces: `Lamports` for the native
//! token and `StLamports` for the pool-share token. Arithmetic on balances is
//! done directly on the inner `u64` at each use site, where the verifier
//! discharges the absence of overflow and underflow from the snapshot's
//! well-formedness; there is no silently wrapping operation anywhere.

use vstd::prelude::*;
use vstd::arithmetic::mul::lemma_mul_upper_bound;
use vstd::arithmetic::mul::lemma_mul_inequality;
use vstd::arithmetic::div_mod::lemma_div_multiples_vanish;
use vstd::arithmetic::div_mod::lemma_div_is_ordered;

verus! {

/// A non-negative balance in the native token's base unit.
#[derive(Clone, Copy, PartialEq, Eq, Structural, Debug)]
pub struct Lamports(pub u64);

/// A non-negative balance in the pool-share token's base unit.
#[derive(Clone, Copy, PartialEq, Eq, Structural, Debug)]
pub struct StLamports(pub u64);

/// A ratio of two unsigned integers, used for percentage and threshold
/// comparisons without floating point. Comparisons are by cross-multiplication
/// in 128-bit arithmetic, so they are exact for any pair of `u64` ratios.
#[derive(Clone, Copy, PartialEq, Eq, Structural, Debug)]
pub struct Rational {
    pub numerator: u64,
    pub denominator: u64,
}

impl Rational {
    /// `self >= other` as mathematical fractions, by cross-multiplication.
    pub fn gte(&self, other: &Rational) -> (r: bool)
        ensures
            r == (self.numerator * other.denominator >= other.numerator * self.denominator),
    {
        proof {
            lemma_mul_upper_bound(
                self.numerator as int,
                u64::MAX as int,
                other.denominator as int,
                u64::MAX as int,
            );
            lemma_mul_upper_bound(
                other.numerator as int,
                u64::MAX as int,
                self.denominator as int,
                u64::MAX as int,
            );
        }
        let left: u128 = (self.numerator as u128) * (other.denominator as u128);
        let right: u128 = (other.numerator as u128) * (self.denominator as u128);
        left >= right
    }

    /// `self > other` as mathematical fractions, by cross-multiplication.
    pub fn gt(&self, other: &Rational) -> (r: bool)
        ensures
            r == (self.numerator * other.denominator > other.numerator * self.denominator),
    {
        proof {
            lemma_mul_upper_bound(
                self.numerator as int,
                u64::MAX as int,
                other.denominator as int,
                u64::MAX as int,
            );
            lemma_mul_upper_bound(
                other.numerator as int,
                u64::MAX as int,
                self.denominator as int,
                u64::MAX as int,
            );
        }
        let left: u128 = (self.numerator as u128) * (other.denominator as u128);
        let right: u128 = (other.numerator as u128) * (self.denominator as u128);
        left > right
    }
}

/// The fraction `numerator / denominator` scaled to the full `u64` range:
/// `u64::MAX` stands for 1.0. Used to record rates (vote success) as plain
/// integers.
pub fn per64(numerator: u64, denominator: u64) -> (r: u64)
    requires
        denominator > 0,
        numerator <= denominator,
    ensures
        r == numerator * u64::MAX / denominator as int,
{
    proof {
        lemma_mul_upper_bound(numerator as int, u64::MAX as int, u64::MAX as int, u64::MAX as int);
        lemma_mul_inequality(numerator as int, denominator as int, u64::MAX as int);
        lemma_div_is_ordered(
            numerator * u64::MAX,
            denominator * u64::MAX,
            denominator as int,
        );
        lemma_div_multiples_vanish(u64::MAX as int, denominator as int);
    }
    let wide: u128 = (numerator as u128) * (u64::MAX as u128) / (denominator as u128);
    wide as u64
}

} // verus!
