//! Fractions of whole numbers in lowest terms, and why that form is unique.

use vstd::arithmetic::div_mod::{
    lemma_fundamental_div_mod, lemma_mod_multiples_basic, lemma_mod_pos_bound, lemma_mod_self_0,
    lemma_small_mod,
};
use vstd::arithmetic::power2::{lemma_pow2_unfold, pow2};
use vstd::prelude::*;

verus! {

/// A fraction of whole numbers.
pub struct Fraction {
    pub numer: int,
    pub denom: int,
}

/// `k` divides `n`.
pub open spec fn divides(k: int, n: int) -> bool {
    n % k == 0
}

/// No whole number above 1 divides both `a` and `b`.
pub open spec fn coprime(a: int, b: int) -> bool {
    forall|k: int| k > 1 ==> !(#[trigger] divides(k, a) && divides(k, b))
}

impl Fraction {
    /// The denominator is positive and shares no factor with the numerator.
    pub open spec fn in_lowest_terms(self) -> bool {
        self.denom > 0 && coprime(self.numer, self.denom)
    }

    /// The fraction is the number `numer / denom`, compared by cross
    /// multiplication; it means that for denominators other than zero.
    pub open spec fn same_number(self, numer: int, denom: int) -> bool {
        self.numer * denom == numer * self.denom
    }

    /// Both parts fit in 32 bits.
    pub open spec fn fits(self) -> bool {
        i32::MIN <= self.numer <= i32::MAX && i32::MIN <= self.denom <= i32::MAX
    }
}

/// A multiple of `k` is divided by `k`.
proof fn lemma_divides_multiple(k: int, m: int)
    requires
        k > 0,
    ensures
        divides(k, k * m),
{
    lemma_mod_multiples_basic(m, k);
    assert(k * m == m * k) by (nonlinear_arith);
}

/// What `k` divides is `k` times the quotient.
proof fn lemma_divided_is_multiple(k: int, n: int)
    requires
        k > 0,
        divides(k, n),
    ensures
        n == k * (n / k),
{
    lemma_fundamental_div_mod(n, k);
}

/// `k` divides a number exactly when it divides its negation.
proof fn lemma_divides_negation(k: int, n: int)
    requires
        k > 0,
        divides(k, n),
    ensures
        divides(k, -n),
{
    lemma_divided_is_multiple(k, n);
    let m = -(n / k);
    assert(-n == k * m) by (nonlinear_arith)
        requires
            n == k * (n / k),
            m == -(n / k),
    ;
    lemma_divides_multiple(k, m);
}

/// Negating one side keeps a pair coprime.
proof fn lemma_coprime_negation(a: int, b: int)
    requires
        coprime(a, b),
    ensures
        coprime(-a, b),
{
    assert forall|k: int| k > 1 implies !(#[trigger] divides(k, -a) && divides(k, b)) by {
        if divides(k, -a) && divides(k, b) {
            lemma_divides_negation(k, -a);
            assert(divides(k, a));
        }
    }
}

/// Bezout's identity for a coprime pair: whole numbers `x` and `y` with
/// `a * x + b * y == 1`, found as Euclid's algorithm finds them.
proof fn lemma_bezout(a: int, b: int) -> (xy: (int, int))
    requires
        a >= 0,
        b >= 0,
        coprime(a, b),
    ensures
        a * xy.0 + b * xy.1 == 1,
    decreases b,
{
    if b == 0 {
        if a != 1 {
            let k = if a == 0 {
                2
            } else {
                a
            };
            if a != 0 {
                lemma_mod_self_0(a);
            }
            assert(divides(k, a));
            assert(divides(k, 0));
        }
        (1, 0)
    } else {
        let q = a / b;
        let r = a % b;
        lemma_fundamental_div_mod(a, b);
        lemma_mod_pos_bound(a, b);
        assert forall|k: int| k > 1 implies !(#[trigger] divides(k, b) && divides(k, r)) by {
            if divides(k, b) && divides(k, r) {
                lemma_divided_is_multiple(k, b);
                lemma_divided_is_multiple(k, r);
                let m = (b / k) * q + r / k;
                assert(a == k * m) by (nonlinear_arith)
                    requires
                        a == b * q + r,
                        b == k * (b / k),
                        r == k * (r / k),
                        m == (b / k) * q + r / k,
                ;
                lemma_divides_multiple(k, m);
                assert(divides(k, a));
            }
        }
        let (x1, y1) = lemma_bezout(b, r);
        let x = y1;
        let y = x1 - q * y1;
        assert(a * x + b * y == 1) by (nonlinear_arith)
            requires
                a == b * q + r,
                b * x1 + r * y1 == 1,
                x == y1,
                y == x1 - q * y1,
        ;
        (x, y)
    }
}

/// Euclid's lemma: what divides a product and is coprime to one factor
/// divides the other.
proof fn lemma_euclid(a: int, b: int, c: int)
    requires
        b > 0,
        coprime(a, b),
        divides(b, a * c),
    ensures
        divides(b, c),
{
    let (x, y) = if a >= 0 {
        lemma_bezout(a, b)
    } else {
        lemma_coprime_negation(a, b);
        let (x0, y0) = lemma_bezout(-a, b);
        assert(a * (-x0) + b * y0 == 1) by (nonlinear_arith)
            requires
                (-a) * x0 + b * y0 == 1,
        ;
        (-x0, y0)
    };
    lemma_divided_is_multiple(b, a * c);
    let m = (a * c) / b;
    let n = m * x + c * y;
    assert(c == b * n) by (nonlinear_arith)
        requires
            a * x + b * y == 1,
            a * c == b * m,
            n == m * x + c * y,
    ;
    lemma_divides_multiple(b, n);
}

/// Two positive numbers that divide each other are equal.
proof fn lemma_divide_each_other(b: int, d: int)
    requires
        b > 0,
        d > 0,
        divides(b, d),
        divides(d, b),
    ensures
        b == d,
{
    lemma_divided_is_multiple(b, d);
    lemma_divided_is_multiple(d, b);
    let m = d / b;
    let n = b / d;
    assert(b == d) by (nonlinear_arith)
        requires
            b > 0,
            d > 0,
            d == b * m,
            b == d * n,
    ;
}

/// Only 1 and 2 divide 2.
proof fn lemma_divisor_of_two(j: int)
    requires
        j > 1,
        divides(j, 2),
    ensures
        j == 2,
{
    if j > 2 {
        lemma_small_mod(2, j as nat);
    }
}

/// What divides an odd number is odd.
proof fn lemma_divisor_of_odd(k: int, m: int)
    requires
        k > 0,
        m % 2 == 1,
        divides(k, m),
    ensures
        k % 2 == 1,
{
    if k % 2 == 0 {
        lemma_divided_is_multiple(k, m);
        lemma_divided_is_multiple(2, k);
        let half = (k / 2) * (m / k);
        assert(m == 2 * half) by (nonlinear_arith)
            requires
                m == k * (m / k),
                k == 2 * (k / 2),
                half == (k / 2) * (m / k),
        ;
        lemma_divides_multiple(2, half);
    }
}

/// The only odd divisor of a power of two is 1.
proof fn lemma_odd_divisor_of_power_of_two(k: int, e: nat)
    requires
        k > 0,
        k % 2 == 1,
        divides(k, pow2(e) as int),
    ensures
        k == 1,
    decreases e,
{
    if e == 0 {
        assert(pow2(0) == 1) by {
            vstd::arithmetic::power2::lemma2_to64();
        }
        if k > 1 {
            lemma_small_mod(1, k as nat);
        }
    } else {
        lemma_pow2_unfold(e);
        let rest = pow2((e - 1) as nat) as int;
        assert forall|j: int| j > 1 implies !(#[trigger] divides(j, 2) && divides(j, k)) by {
            if divides(j, 2) && divides(j, k) {
                lemma_divisor_of_two(j);
            }
        }
        assert(pow2(e) as int == 2 * rest);
        lemma_euclid(2, k, rest);
        lemma_odd_divisor_of_power_of_two(k, (e - 1) as nat);
    }
}

/// An odd number shares no factor with a power of two.
pub proof fn lemma_odd_coprime_to_power_of_two(m: int, e: nat)
    requires
        m % 2 == 1,
    ensures
        coprime(m, pow2(e) as int),
        coprime(pow2(e) as int, m),
{
    assert forall|k: int| k > 1 implies !(#[trigger] divides(k, m) && divides(k, pow2(e) as int)) by {
        if divides(k, m) && divides(k, pow2(e) as int) {
            lemma_divisor_of_odd(k, m);
            lemma_odd_divisor_of_power_of_two(k, e);
        }
    }
    assert forall|k: int| k > 1 implies !(#[trigger] divides(k, pow2(e) as int) && divides(k, m)) by {
        if divides(k, m) && divides(k, pow2(e) as int) {
            lemma_divisor_of_odd(k, m);
            lemma_odd_divisor_of_power_of_two(k, e);
        }
    }
}

/// A number has one fraction in lowest terms: two such fractions that are
/// the same number have the same numerator and the same denominator.
pub proof fn lemma_lowest_terms_unique(p: Fraction, q: Fraction)
    requires
        p.in_lowest_terms(),
        q.in_lowest_terms(),
        p.same_number(q.numer, q.denom),
    ensures
        p == q,
{
    let (a, b, c, d) = (p.numer, p.denom, q.numer, q.denom);
    assert(a * d == c * b);
    // b divides a * d, and shares nothing with a: it divides d.
    assert(a * d == b * c) by (nonlinear_arith)
        requires
            a * d == c * b,
    ;
    lemma_divides_multiple(b, c);
    lemma_euclid(a, b, d);
    // d divides c * b, and shares nothing with c: it divides b.
    assert(c * b == d * a) by (nonlinear_arith)
        requires
            a * d == c * b,
    ;
    lemma_divides_multiple(d, a);
    lemma_euclid(c, d, b);
    lemma_divide_each_other(b, d);
    assert(a == c) by (nonlinear_arith)
        requires
            a * b == c * b,
            b > 0,
    ;
}

/// What a number is in lowest terms does not depend on how it was written:
/// fractions in lowest terms of `n1 / d1` and of `n2 / d2` are equal where
/// the two are the same number.
pub proof fn lemma_lowest_terms_of_same_number(
    p: Fraction,
    q: Fraction,
    n1: int,
    d1: int,
    n2: int,
    d2: int,
)
    requires
        d1 != 0,
        d2 != 0,
        n1 * d2 == n2 * d1,
        p.in_lowest_terms(),
        q.in_lowest_terms(),
        p.same_number(n1, d1),
        q.same_number(n2, d2),
    ensures
        p == q,
{
    let (a, b, c, d) = (p.numer, p.denom, q.numer, q.denom);
    // a/b == n1/d1 == n2/d2 == c/d, cleared of the denominators d1 and d2.
    assert((a * d - c * b) * (d1 * d2) == 0) by (nonlinear_arith)
        requires
            a * d1 == n1 * b,
            c * d2 == n2 * d,
            n1 * d2 == n2 * d1,
    ;
    assert(a * d == c * b) by (nonlinear_arith)
        requires
            (a * d - c * b) * (d1 * d2) == 0,
            d1 != 0,
            d2 != 0,
    ;
    lemma_lowest_terms_unique(p, q);
}

} // verus!
