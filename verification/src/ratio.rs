//! Exact fractions, kept in lowest terms.
//!
//! A mean or a speed is a quotient of two sums. It is returned as a fraction
//! of whole numbers, never rounded, and always in lowest terms, so that two
//! quotients of the same value are the same `Ratio`.

use vstd::arithmetic::div_mod::{
    lemma_add_mod_noop, lemma_fundamental_div_mod, lemma_mod_multiples_basic,
    lemma_mul_mod_noop_left, lemma_small_mod, lemma_sub_mod_noop,
};
use vstd::prelude::*;

verus! {

/// `d` divides `n`: it is positive and leaves no remainder.
pub open spec fn divides(d: nat, n: nat) -> bool {
    d > 0 && n % d == 0
}

/// `d` divides both `a` and `b`.
pub open spec fn common_divisor(d: nat, a: nat, b: nat) -> bool {
    divides(d, a) && divides(d, b)
}

/// `g` is the greatest number that divides both `a` and `b`.
pub open spec fn is_gcd(g: nat, a: nat, b: nat) -> bool {
    &&& common_divisor(g, a, b)
    &&& forall|d: nat| #[trigger] common_divisor(d, a, b) ==> d <= g
}

/// The greatest common divisor of `a` and `b`, where one of them is not zero.
pub open spec fn gcd(a: nat, b: nat) -> nat {
    choose|g: nat| is_gcd(g, a, b)
}

/// A divisor of a positive number is no greater than the number.
pub proof fn lemma_divisor_is_bounded(d: nat, n: nat)
    requires
        divides(d, n),
        n > 0,
    ensures
        d <= n,
{
    if d > n {
        lemma_small_mod(n, d);
    }
}

/// A product is divided by each of its factors.
pub proof fn lemma_factor_divides(k: nat, d: nat)
    requires
        d > 0,
    ensures
        divides(d, k * d),
{
    lemma_mod_multiples_basic(k as int, d as int);
}

/// What a divisor divides is the divisor times the quotient.
pub proof fn lemma_divides_means_multiple(d: nat, n: nat)
    requires
        divides(d, n),
    ensures
        n == d * (n / d),
{
    lemma_fundamental_div_mod(n as int, d as int);
}

/// Replacing `a` by its remainder modulo `b` keeps the common divisors: this
/// is the step of Euclid's algorithm.
pub proof fn lemma_remainder_keeps_common_divisors(d: nat, a: nat, b: nat)
    requires
        b > 0,
    ensures
        common_divisor(d, a, b) <==> common_divisor(d, b, a % b),
{
    if d > 0 && b % d == 0 {
        let (ai, bi, di) = (a as int, b as int, d as int);
        let q = ai / bi;
        let r = ai % bi;
        lemma_fundamental_div_mod(ai, bi);
        assert((bi * q) % di == 0) by {
            lemma_mul_mod_noop_left(bi, q, di);
            assert((bi % di) * q == 0) by (nonlinear_arith)
                requires
                    bi % di == 0,
            ;
        }
        if ai % di == 0 {
            lemma_sub_mod_noop(ai, bi * q, di);
            assert(ai - bi * q == r);
        }
        if r % di == 0 {
            lemma_add_mod_noop(bi * q, r, di);
        }
    }
}

/// Two numbers have at most one greatest common divisor, and `gcd` names it.
pub proof fn lemma_gcd_is_unique(g: nat, a: nat, b: nat)
    requires
        is_gcd(g, a, b),
    ensures
        gcd(a, b) == g,
{
    let h = gcd(a, b);
    assert(is_gcd(h, a, b));
    assert(common_divisor(g, a, b));
    assert(common_divisor(h, a, b));
}

/// The greatest common divisor of a positive number and zero is that number.
pub proof fn lemma_gcd_with_zero(a: nat)
    requires
        a > 0,
    ensures
        gcd(a, 0) == a,
        is_gcd(a, a, 0),
{
    assert(a % a == 0) by {
        lemma_mod_multiples_basic(1, a as int);
    }
    assert forall|d: nat| #[trigger] common_divisor(d, a, 0) implies d <= a by {
        lemma_divisor_is_bounded(d, a);
    }
    lemma_gcd_is_unique(a, a, 0);
}

/// Where one of two numbers is positive, they have a greatest common divisor,
/// which is positive and divides both; and it is that of the second number and
/// the remainder of the first.
pub proof fn lemma_gcd_exists(a: nat, b: nat)
    requires
        a > 0 || b > 0,
    ensures
        is_gcd(gcd(a, b), a, b),
        b > 0 ==> gcd(a, b) == gcd(b, a % b),
    decreases b,
{
    if b == 0 {
        lemma_gcd_with_zero(a);
    } else {
        lemma_gcd_exists(b, a % b);
        let g = gcd(b, a % b);
        lemma_remainder_keeps_common_divisors(g, a, b);
        assert forall|d: nat| #[trigger] common_divisor(d, a, b) implies d <= g by {
            lemma_remainder_keeps_common_divisors(d, a, b);
        }
        lemma_gcd_is_unique(g, a, b);
    }
}

/// What divides `a * k` and `b * k` divides `gcd(a, b) * k`.
pub proof fn lemma_divisor_of_multiples(m: nat, a: nat, b: nat, k: nat)
    requires
        a > 0 || b > 0,
        divides(m, a * k),
        divides(m, b * k),
    ensures
        divides(m, gcd(a, b) * k),
    decreases b,
{
    lemma_gcd_exists(a, b);
    if b == 0 {
        lemma_gcd_with_zero(a);
    } else {
        let (ai, bi, ki, mi) = (a as int, b as int, k as int, m as int);
        let q = ai / bi;
        let r = ai % bi;
        lemma_fundamental_div_mod(ai, bi);
        assert(r * ki == ai * ki - (bi * ki) * q) by (nonlinear_arith)
            requires
                ai == bi * q + r,
        ;
        assert(((bi * ki) * q) % mi == 0) by {
            lemma_mul_mod_noop_left(bi * ki, q, mi);
            assert(((bi * ki) % mi) * q == 0) by (nonlinear_arith)
                requires
                    (bi * ki) % mi == 0,
            ;
        }
        assert((r * ki) % mi == 0) by {
            assert((ai * ki) % mi == 0);
            lemma_sub_mod_noop(ai * ki, (bi * ki) * q, mi);
        }
        assert(divides(m, (a % b) * k)) by {
            assert((a % b) * k == r * ki);
        }
        lemma_divisor_of_multiples(m, b, a % b, k);
    }
}

/// Euclid's lemma: what divides a product and shares no divisor with one
/// factor divides the other factor.
pub proof fn lemma_coprime_divisor(b: nat, a: nat, k: nat)
    requires
        is_gcd(1, a, b),
        divides(b, a * k),
    ensures
        divides(b, k),
{
    lemma_gcd_is_unique(1, a, b);
    lemma_factor_divides(k, b);
    assert(b * k == k * b) by (nonlinear_arith);
    lemma_divisor_of_multiples(b, a, b, k);
    assert(1 * k == k);
}

/// Computes the greatest common divisor by Euclid's algorithm. Of zero and
/// zero, which every number divides, it gives zero.
pub fn greatest_common_divisor(a: u128, b: u128) -> (g: u128)
    ensures
        a > 0 || b > 0 ==> g == gcd(a as nat, b as nat) && is_gcd(g as nat, a as nat, b as nat),
        a == 0 && b == 0 ==> g == 0,
{
    if a == 0 && b == 0 {
        return 0;
    }
    let mut x: u128 = a;
    let mut y: u128 = b;
    while y != 0
        invariant
            x > 0 || y > 0,
            gcd(x as nat, y as nat) == gcd(a as nat, b as nat),
        decreases y,
    {
        proof {
            lemma_gcd_exists(x as nat, y as nat);
        }
        let r: u128 = x % y;
        x = y;
        y = r;
    }
    proof {
        lemma_gcd_with_zero(x as nat);
        lemma_gcd_exists(a as nat, b as nat);
    }
    x
}

/// An exact fraction of two whole numbers.
///
/// Every `Ratio` that this library returns is well formed ([`Ratio::wf`]): its
/// denominator is positive and it is in lowest terms. Zero is `0 / 1`.
#[derive(Clone, Copy, Debug, PartialEq, Eq)]
pub struct Ratio {
    /// The number above the line.
    pub numerator: u128,
    /// The number below the line.
    pub denominator: u128,
}

impl Ratio {
    /// The fraction has a positive denominator and cannot be reduced further.
    pub open spec fn wf(self) -> bool {
        self.denominator > 0 && is_gcd(1, self.numerator as nat, self.denominator as nat)
    }

    /// The two fractions have the same value, stated without division.
    pub open spec fn same_value(self, other: Ratio) -> bool {
        self.numerator * other.denominator == other.numerator * self.denominator
    }

    /// The fraction has the value `num / den`, stated without division.
    pub open spec fn is_value_of(self, num: nat, den: nat) -> bool {
        self.numerator * den == num * self.denominator
    }

    /// `self <= other` as fractions, for positive denominators.
    pub open spec fn le(self, other: Ratio) -> bool {
        self.numerator * other.denominator <= other.numerator * self.denominator
    }

    /// `num / den` in lowest terms, for `den > 0`.
    pub open spec fn of(num: nat, den: nat) -> Ratio {
        Ratio {
            numerator: (num / gcd(num, den)) as u128,
            denominator: (den / gcd(num, den)) as u128,
        }
    }

    /// Reduces `num / den` to lowest terms.
    pub fn new(num: u128, den: u128) -> (ratio: Ratio)
        requires
            den > 0,
        ensures
            ratio == Ratio::of(num as nat, den as nat),
            ratio.wf(),
            ratio.is_value_of(num as nat, den as nat),
    {
        let g = greatest_common_divisor(num, den);
        proof {
            lemma_of_is_reduced(num as nat, den as nat);
            lemma_divides_means_multiple(g as nat, num as nat);
            lemma_divides_means_multiple(g as nat, den as nat);
        }
        Ratio { numerator: num / g, denominator: den / g }
    }
}

/// `Ratio::of(num, den)` has the value `num / den` and is in lowest terms; its
/// parts are no greater than `num` and `den`.
pub proof fn lemma_of_is_reduced(num: nat, den: nat)
    requires
        den > 0,
        num <= u128::MAX,
        den <= u128::MAX,
    ensures
        Ratio::of(num, den).wf(),
        Ratio::of(num, den).is_value_of(num, den),
        Ratio::of(num, den).denominator > 0,
        Ratio::of(num, den).numerator == num / gcd(num, den),
        Ratio::of(num, den).denominator == den / gcd(num, den),
{
    lemma_gcd_exists(num, den);
    let g = gcd(num, den);
    let n = num / g;
    let d = den / g;
    lemma_divides_means_multiple(g, num);
    lemma_divides_means_multiple(g, den);
    assert(n <= num && d <= den && d > 0 && n * den == num * d) by (nonlinear_arith)
        requires
            g > 0,
            den > 0,
            num == g * n,
            den == g * d,
    ;
    assert(n % 1 == 0 && d % 1 == 0);
    assert forall|c: nat| #[trigger] common_divisor(c, n, d) implies c <= 1 by {
        lemma_divides_means_multiple(c, n);
        lemma_divides_means_multiple(c, d);
        let kn = n / c;
        let kd = d / c;
        assert(num == kn * (c * g) && den == kd * (c * g) && c * g > 0) by (nonlinear_arith)
            requires
                num == g * n,
                den == g * d,
                n == c * kn,
                d == c * kd,
                c > 0,
                g > 0,
        ;
        lemma_factor_divides(kn, c * g);
        lemma_factor_divides(kd, c * g);
        assert(common_divisor(c * g, num, den));
        assert(c <= 1) by (nonlinear_arith)
            requires
                c * g <= g,
                g > 0,
        ;
    }
}

/// A value has one fraction in lowest terms: two well-formed ratios of the
/// same value are the same ratio.
pub proof fn lemma_lowest_terms_are_unique(first: Ratio, second: Ratio)
    requires
        first.wf(),
        second.wf(),
        first.same_value(second),
    ensures
        first == second,
{
    let (a, b) = (first.numerator as nat, first.denominator as nat);
    let (c, e) = (second.numerator as nat, second.denominator as nat);
    assert(a * e == c * b);
    assert(divides(b, a * e)) by {
        lemma_factor_divides(c, b);
    }
    lemma_coprime_divisor(b, a, e);
    assert(divides(e, c * b)) by {
        lemma_factor_divides(a, e);
    }
    lemma_coprime_divisor(e, c, b);
    lemma_divisor_is_bounded(b, e);
    lemma_divisor_is_bounded(e, b);
    assert(a == c) by (nonlinear_arith)
        requires
            a * e == c * b,
            b == e,
            b > 0,
    ;
}

/// `Ratio::of(num, den)` is the one well-formed ratio of the value `num / den`.
pub proof fn lemma_of_is_the_quotient(ratio: Ratio, num: nat, den: nat)
    requires
        den > 0,
        num <= u128::MAX,
        den <= u128::MAX,
        ratio.wf(),
        ratio.is_value_of(num, den),
    ensures
        ratio == Ratio::of(num, den),
{
    lemma_of_is_reduced(num, den);
    let other = Ratio::of(num, den);
    let (a, b) = (ratio.numerator as int, ratio.denominator as int);
    let (c, e) = (other.numerator as int, other.denominator as int);
    let (n, d) = (num as int, den as int);
    assert(a * e == c * b) by (nonlinear_arith)
        requires
            a * d == n * b,
            c * d == n * e,
            d > 0,
    ;
    lemma_lowest_terms_are_unique(ratio, other);
}

} // verus!
