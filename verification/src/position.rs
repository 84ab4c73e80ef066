//! Positions inside a bar, counted in beats and kept as exact fractions.

use num::rational::Rational32;
use vstd::prelude::*;

verus! {

use crate::fraction::{
    coprime, divides, lemma_lowest_terms_unique, lemma_odd_coprime_to_power_of_two, Fraction,
};

/// Whether `numer / denom` in lowest terms, with a positive denominator, has
/// parts of 32 bits. The denominator must not be zero. Beyond that only
/// `i32::MIN` can fail, where its sign has to change and no factor of two
/// is there to be cancelled first.
pub open spec fn reduces_in_range(numer: int, denom: int) -> bool {
    &&& denom != 0
    &&& (denom < 0 && numer != 0 && numer != denom) ==> {
        &&& numer == i32::MIN ==> denom % 2 == 0
        &&& denom == i32::MIN ==> numer % 2 == 0
    }
}

/// `reduces_in_range` leaves out no more than it must: where it fails for a
/// denominator other than zero, the number has no fraction in lowest terms
/// whose parts fit in 32 bits.
pub proof fn lemma_out_of_range_does_not_fit(numer: i32, denom: i32, lowest: Fraction)
    requires
        denom != 0,
        !reduces_in_range(numer as int, denom as int),
        lowest.in_lowest_terms(),
        lowest.same_number(numer as int, denom as int),
    ensures
        !lowest.fits(),
{
    assert(vstd::arithmetic::power2::pow2(31) == 0x8000_0000) by {
        vstd::arithmetic::power2::lemma2_to64();
    }
    let n = numer as int;
    let d = denom as int;
    // The sign changes, and the odd part cancels nothing of 2^31: the
    // number in lowest terms has 2^31 as a part.
    let odd = if n == i32::MIN && d % 2 != 0 {
        -d
    } else {
        -n
    };
    assert(odd % 2 == 1) by {
        assert((-odd) % 2 == 1);
    }
    lemma_odd_coprime_to_power_of_two(odd, 31);
    let other = if n == i32::MIN && d % 2 != 0 {
        Fraction { numer: 0x8000_0000, denom: -d }
    } else {
        Fraction { numer: -n, denom: 0x8000_0000 }
    };
    assert(other.in_lowest_terms());
    assert(lowest.same_number(other.numer, other.denom)) by (nonlinear_arith)
        requires
            lowest.numer * d == n * lowest.denom,
            (other.numer == -n && other.denom == -d),
    ;
    lemma_lowest_terms_unique(lowest, other);
}

/// Puts `numer / denom` in lowest terms with `num::rational::Ratio::<i32>::new`
/// and returns the numerator and the denominator of what it built.
///
/// Trusted, from the source of `Ratio::new` and of the `gcd` it calls: the
/// ratio is divided through by the greatest common divisor and the signs are
/// flipped where the denominator is negative, so the result is the same
/// number, its denominator is positive and the two parts share no factor.
/// `Ratio::new` panics on a zero denominator, and the sign flip overflows on
/// the inputs that `reduces_in_range` leaves out.
#[verifier::external_body]
fn reduce(numer: i32, denom: i32) -> (parts: (i32, i32))
    requires
        reduces_in_range(numer as int, denom as int),
    ensures
        parts.1 > 0,
        parts.0 * denom == numer * parts.1,
        coprime(parts.0 as int, parts.1 as int),
{
    let ratio = Rational32::new(numer, denom);
    (*ratio.numer(), *ratio.denom())
}

/// A position in a bar, in beats. Half a beat and the like are exact: the
/// position is a fraction in lowest terms.
pub struct BarPosition {
    numer: i32,
    denom: i32,
}

impl View for BarPosition {
    type V = Fraction;

    closed spec fn view(&self) -> Fraction {
        Fraction { numer: self.numer as int, denom: self.denom as int }
    }
}

impl BarPosition {
    #[verifier::type_invariant]
    spec fn lowest_terms(self) -> bool {
        self@.in_lowest_terms()
    }

    /// The start of the bar: zero beats.
    pub fn new() -> (position: BarPosition)
        ensures
            position@ == (Fraction { numer: 0, denom: 1 }),
    {
        assert forall|k: int| k > 1 implies !(#[trigger] divides(k, 0) && divides(k, 1)) by {
            assert(1int % k == 1) by (nonlinear_arith)
                requires
                    k > 1,
            ;
        }
        BarPosition { numer: 0, denom: 1 }
    }

    /// The position `n / d` beats into the bar, in lowest terms.
    pub fn from_ratio(n: i32, d: i32) -> (position: BarPosition)
        requires
            reduces_in_range(n as int, d as int),
        ensures
            position@.in_lowest_terms(),
            position@.same_number(n as int, d as int),
            position@.fits(),
    {
        let parts = reduce(n, d);
        BarPosition { numer: parts.0, denom: parts.1 }
    }

    /// The position `n / d` beats into the bar, or `None` where the
    /// denominator is zero or the position has no parts of 32 bits.
    pub fn checked_from_ratio(n: i32, d: i32) -> (position: Option<BarPosition>)
        ensures
            position is Some <==> reduces_in_range(n as int, d as int),
            position matches Some(p) ==> {
                &&& p@.in_lowest_terms()
                &&& p@.same_number(n as int, d as int)
                &&& p@.fits()
            },
    {
        let sign_changes = d < 0 && n != 0 && n != d;
        let n_is_odd = n % 2 != 0;
        let d_is_odd = d % 2 != 0;
        if d == 0 || (sign_changes && ((n == i32::MIN && d_is_odd) || (d == i32::MIN && n_is_odd))) {
            None
        } else {
            Some(BarPosition::from_ratio(n, d))
        }
    }

    /// The numerator: negative for a position before the bar's start.
    pub fn numer(&self) -> (n: i32)
        ensures
            n == self@.numer,
            self@.in_lowest_terms(),
    {
        proof {
            use_type_invariant(self);
        }
        self.numer
    }

    /// The denominator, always positive.
    pub fn denom(&self) -> (d: i32)
        ensures
            d == self@.denom,
            d > 0,
            self@.in_lowest_terms(),
    {
        proof {
            use_type_invariant(self);
        }
        self.denom
    }
}

} // verus!
