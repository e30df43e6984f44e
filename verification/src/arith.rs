//! Integer arithmetic shared by the geometric tests: magnitudes, signs, and
//! division that rounds toward zero.
use vstd::prelude::*;

verus! {

/// The magnitude of `v`.
pub open spec fn magnitude(v: int) -> int {
    if v < 0 {
        -v
    } else {
        v
    }
}

/// `v` moved one unit toward zero; zero stays zero.
pub open spec fn toward_zero_by_one(v: int) -> int {
    if v < 0 {
        v + 1
    } else if v == 0 {
        0
    } else {
        v - 1
    }
}

/// The quotient of `a` by `b`, rounded toward zero.
pub open spec fn quotient_toward_zero(a: int, b: int) -> int
    recommends
        b != 0,
{
    let q = magnitude(a) / magnitude(b);
    if (a < 0) != (b < 0) {
        -q
    } else {
        q
    }
}

/// `part` is a proper part of `whole`: it has the sign of `whole` or is zero,
/// and is smaller in magnitude; of zero only zero is a part.
pub open spec fn proper_part(part: int, whole: int) -> bool {
    if whole > 0 {
        0 <= part < whole
    } else if whole < 0 {
        whole < part <= 0
    } else {
        part == 0
    }
}

/// `part` is the last whole number short of `whole * numerator / denominator`,
/// counted from zero in the direction of `whole`; of zero it is zero.
pub open spec fn last_short_of(part: int, whole: int, numerator: int, denominator: int) -> bool {
    if whole == 0 {
        part == 0
    } else {
        &&& (part < 0 ==> whole < 0) && (part > 0 ==> whole > 0)
        &&& denominator * magnitude(part) < numerator * magnitude(whole)
        &&& numerator * magnitude(whole) <= denominator * (magnitude(part) + 1)
    }
}

/// Whether `v` can be held in an `i64`.
pub open spec fn fits_i64(v: int) -> bool {
    i64::MIN <= v <= i64::MAX
}

/// A product is no larger in magnitude than the product of its factors' bounds.
pub proof fn lemma_product_within(a: int, b: int, bound_a: int, bound_b: int)
    by (nonlinear_arith)
    requires
        -bound_a <= a <= bound_a,
        -bound_b <= b <= bound_b,
    ensures
        -(bound_a * bound_b) <= a * b <= bound_a * bound_b,
{
}

/// Scaling `k` by a fraction `n / d` of the unit interval shrinks it: the
/// rounded-down result is at most `k`, and below `k` when the fraction is
/// proper and `k` is not zero.
pub proof fn lemma_scaled_down(k: int, n: int, d: int)
    by (nonlinear_arith)
    requires
        0 <= k,
        0 <= n <= d,
        0 < d,
    ensures
        0 <= (k * n) / d <= k,
        n < d && 0 < k ==> (k * n) / d < k,
{
}

/// The magnitude of a product is the product of the magnitudes, and its sign
/// the product of the signs.
pub proof fn lemma_product_magnitude(a: int, b: int)
    ensures
        magnitude(a * b) == magnitude(a) * magnitude(b),
        a == 0 || b == 0 ==> a * b == 0,
        a != 0 && b != 0 ==> (a * b != 0 && ((a * b < 0) == ((a < 0) != (b < 0)))),
{
    let m = magnitude(a);
    let n = magnitude(b);
    assert(m * n >= 0 && (m > 0 && n > 0 ==> m * n > 0) && (m == 0 || n == 0 ==> m * n == 0))
        by (nonlinear_arith)
        requires
            m >= 0,
            n >= 0,
    ;
    assert(a * b == m * n || a * b == -(m * n)) by (nonlinear_arith)
        requires
            a == m || a == -m,
            b == n || b == -n,
    ;
    assert((a < 0) == (b < 0) ==> a * b == m * n) by (nonlinear_arith)
        requires
            (a < 0 ==> a == -m) && (a >= 0 ==> a == m),
            (b < 0 ==> b == -n) && (b >= 0 ==> b == n),
    ;
    assert((a < 0) != (b < 0) ==> a * b == -(m * n)) by (nonlinear_arith)
        requires
            (a < 0 ==> a == -m) && (a >= 0 ==> a == m),
            (b < 0 ==> b == -n) && (b >= 0 ==> b == n),
    ;
}

/// The magnitude of a product with a factor that is not below zero.
pub proof fn lemma_scaled_magnitude(k: int, n: int)
    by (nonlinear_arith)
    requires
        0 <= n,
    ensures
        magnitude(k * n) == magnitude(k) * n,
        k > 0 && n > 0 ==> k * n > 0,
        k < 0 && n > 0 ==> k * n < 0,
        k == 0 || n == 0 ==> k * n == 0,
{
}

/// Where `toward` and `cross` have one sign and `toward` is the smaller,
/// `k * toward`, moved one unit toward zero and divided by `cross`, is the
/// last whole number short of `k * toward / cross`, and so a proper part of
/// `k`.
pub proof fn lemma_backed_off_quotient(k: int, toward: int, cross: int)
    requires
        cross != 0,
        (cross > 0 && 0 < toward <= cross) || (cross < 0 && cross <= toward < 0),
    ensures
        proper_part(quotient_toward_zero(toward_zero_by_one(k * toward), cross), k),
        last_short_of(
            quotient_toward_zero(toward_zero_by_one(k * toward), cross),
            k,
            magnitude(toward),
            magnitude(cross),
        ),
{
    let t = magnitude(toward);
    let c = magnitude(cross);
    let m = magnitude(k);
    lemma_product_magnitude(k, toward);
    if k != 0 {
        assert(0 <= (m * t - 1) / c < m && c * ((m * t - 1) / c) < t * m <= c * ((m * t - 1) / c
            + 1)) by (nonlinear_arith)
            requires
                0 < t <= c,
                0 < m,
        ;
    } else {
        assert(0int / c == 0) by (nonlinear_arith)
            requires
                c > 0,
        ;
    }
}

/// Where `k * n` is a multiple `p * d` of `d`, scaling `k` by `(n - 1) / d`
/// and rounding toward zero gives `p` moved one unit toward zero: the last
/// whole number short of `k * n / d`.
pub proof fn lemma_one_short_of_multiple(k: int, p: int, n: int, d: int)
    requires
        0 < n <= d,
        magnitude(k) <= d,
        k * n == p * d,
    ensures
        quotient_toward_zero(k * (n - 1), d) == toward_zero_by_one(p),
        last_short_of(toward_zero_by_one(p), k, n, d),
{
    let m = magnitude(k);
    let r = magnitude(p);
    lemma_product_magnitude(k, n);
    lemma_product_magnitude(p, d);
    lemma_product_magnitude(k, n - 1);
    assert(k * (n - 1) == p * d - k) by (nonlinear_arith)
        requires
            k * n == p * d,
    ;
    assert(m * (n - 1) == r * d - m) by (nonlinear_arith)
        requires
            m * n == r * d,
    ;
    if k == 0 {
        assert(r == 0) by (nonlinear_arith)
            requires
                r * d == 0,
                d > 0,
                r >= 0,
        ;
        assert(0int / d == 0) by (nonlinear_arith)
            requires
                d > 0,
        ;
    } else {
        assert(r > 0 && (r * d - m) / d == r - 1) by (nonlinear_arith)
            requires
                0 < m <= d,
                0 < n,
                m * n == r * d,
                r >= 0,
        ;
        assert(d * (r - 1) < n * m && n * m <= d * ((r - 1) + 1)) by (nonlinear_arith)
            requires
                m * n == r * d,
                d > 0,
        ;
    }
}

/// A whole number is no larger in magnitude than its square.
pub proof fn lemma_square_covers(v: int)
    by (nonlinear_arith)
    ensures
        -(v * v) <= v <= v * v,
{
}

/// A proper part has the smaller square, unless both are zero.
pub proof fn lemma_square_of_part(part: int, whole: int)
    by (nonlinear_arith)
    requires
        proper_part(part, whole),
    ensures
        part * part <= whole * whole,
        whole != 0 ==> part * part < whole * whole,
{
}

/// `v` moved one unit toward zero; zero stays zero.
pub fn reduce_one(v: i64) -> (r: i64)
    ensures
        r == toward_zero_by_one(v as int),
{
    if v < 0 {
        v + 1
    } else if v == 0 {
        0
    } else {
        v - 1
    }
}

/// The magnitude of `v` as an `i64`.
pub fn abs_i64(v: i64) -> (r: i64)
    requires
        v > i64::MIN,
    ensures
        r == magnitude(v as int),
{
    if v < 0 {
        -v
    } else {
        v
    }
}

/// Euclidean division by a divisor below zero mirrors division by its
/// magnitude.
pub proof fn lemma_divide_by_negative(n: int, b: int)
    by (nonlinear_arith)
    requires
        0 <= n,
        b < 0,
    ensures
        n / b == -(n / (-b)),
{
}

/// `a / b` rounded toward zero, as `i64` division rounds.
pub fn div_toward_zero(a: i64, b: i64) -> (q: i64)
    requires
        b != 0,
        fits_i64(magnitude(a as int)),
    ensures
        q == quotient_toward_zero(a as int, b as int),
{
    proof {
        if b < 0 {
            lemma_divide_by_negative(magnitude(a as int), b as int);
        }
    }
    a / b
}

} // verus!
