//! Fixed-point scales and checked integer arithmetic.
//!
//! Quotients are truncated toward zero. Every operation here reports a result
//! that does not fit in an `i128` instead of wrapping.

use vstd::prelude::*;

verus! {

/// One whole unit of a rate, a utilization or a health factor.
pub const SCALE: i128 = 10_000_000;

/// One US dollar in price units.
pub const PRICE_SCALE: i128 = 10_000_000;

/// Denominator of the loan-to-value ratio and of the liquidation threshold.
pub const BASIS_POINTS: i128 = 10_000;

/// A borrow index of 1.0.
pub const INDEX_SCALE: i128 = 1_000_000_000;

/// Seconds in a year of 365 days.
pub const SECONDS_PER_YEAR: i128 = 31_536_000;

/// What a rate times a number of seconds is divided by: the seconds of a
/// year times `SCALE`.
pub const YEAR_SCALE: i128 = SECONDS_PER_YEAR * SCALE;

/// Whether `x` can be held in an `i128`.
pub open spec fn fits(x: int) -> bool {
    i128::MIN <= x <= i128::MAX
}

/// The quotient of `a` by `d`, truncated toward zero.
pub open spec fn trunc_div(a: int, d: int) -> int
    recommends
        d != 0,
{
    if a >= 0 {
        a / d
    } else {
        -((-a) / d)
    }
}

/// `a * b / d`: the product is exact, the quotient truncated.
pub open spec fn mul_div(a: int, b: int, d: int) -> int
    recommends
        d != 0,
{
    trunc_div(a * b, d)
}

/// Whether `mul_div(a, b, d)` can be computed in 128 bits: the product and the
/// quotient both fit.
pub open spec fn mul_div_fits(a: int, b: int, d: int) -> bool {
    fits(a * b) && fits(mul_div(a, b, d))
}

proof fn lemma_div_sign_and_size(x: int, d: int)
    by (nonlinear_arith)
    requires
        x >= 0,
        d != 0,
    ensures
        d > 0 ==> 0 <= x / d <= x,
        d < 0 ==> -x <= x / d <= 0,
        d == -1 ==> x / d == -x,
        d < -1 ==> -x <= 2 * (x / d),
{
}

/// A truncated quotient is no larger in magnitude than its dividend, and has
/// the sign that the signs of dividend and divisor give.
pub proof fn lemma_trunc_div_bounds(a: int, d: int)
    requires
        d != 0,
    ensures
        a >= 0 && d > 0 ==> 0 <= trunc_div(a, d) <= a,
        a >= 0 && d < 0 ==> -a <= trunc_div(a, d) <= 0,
        a <= 0 && d > 0 ==> a <= trunc_div(a, d) <= 0,
        a <= 0 && d < 0 ==> 0 <= trunc_div(a, d) <= -a,
        d == -1 ==> trunc_div(a, d) == -a,
        a <= 0 && d < -1 ==> 2 * trunc_div(a, d) <= -a,
{
    if a >= 0 {
        lemma_div_sign_and_size(a, d);
    } else {
        lemma_div_sign_and_size(-a, d);
    }
}

/// A product of two factors of one sign, divided by a positive number, is not
/// negative.
pub proof fn lemma_mul_div_nonnegative(a: int, b: int, d: int)
    requires
        a >= 0,
        b >= 0,
        d > 0,
    ensures
        a * b >= 0,
        mul_div(a, b, d) >= 0,
{
    assert(a * b >= 0) by (nonlinear_arith)
        requires
            a >= 0,
            b >= 0,
    ;
    lemma_trunc_div_bounds(a * b, d);
}

/// Truncated division: `None` exactly where the divisor is zero or the
/// quotient does not fit in an `i128`.
pub fn checked_div(a: i128, d: i128) -> (r: Option<i128>)
    ensures
        r is Some <==> d != 0 && fits(trunc_div(a as int, d as int)),
        r matches Some(q) ==> q == trunc_div(a as int, d as int),
{
    if d == 0 || (a == i128::MIN && d == -1) {
        None
    } else {
        proof {
            lemma_trunc_div_bounds(a as int, d as int);
        }
        Some(a / d)
    }
}

/// `a * b / d` in 128 bits: `None` exactly where the divisor is zero or the
/// product or the quotient does not fit.
pub fn checked_mul_div(a: i128, b: i128, d: i128) -> (r: Option<i128>)
    ensures
        r is Some <==> d != 0 && mul_div_fits(a as int, b as int, d as int),
        r matches Some(q) ==> q == mul_div(a as int, b as int, d as int),
{
    match a.checked_mul(b) {
        Some(p) => checked_div(p, d),
        None => None,
    }
}

/// `a * b * c / d`: the product of the three is exact, the quotient
/// truncated.
pub open spec fn mul3_div(a: int, b: int, c: int, d: int) -> int
    recommends
        d != 0,
{
    trunc_div(a * b * c, d)
}

/// The absolute value of `x`.
pub open spec fn magnitude(x: int) -> int {
    if x >= 0 {
        x
    } else {
        -x
    }
}

fn magnitude_of(x: i128) -> (m: u128)
    ensures
        m == magnitude(x as int),
{
    if x >= 0 {
        x as u128
    } else if x == i128::MIN {
        0x8000_0000_0000_0000_0000_0000_0000_0000u128
    } else {
        (-x) as u128
    }
}

/// A product whose first factor is split into quotient and remainder by
/// `d` splits likewise.
proof fn lemma_split_factor(x: int, d: int, q: int, r: int, y: int)
    by (nonlinear_arith)
    requires
        x == d * q + r,
    ensures
        x * y == d * (q * y) + r * y,
{
}

proof fn lemma_regroup(x: int, y: int, z: int)
    by (nonlinear_arith)
    ensures
        x * y * z == x * (y * z),
        x * y * z == y * (x * z),
        x * y * z == z * (x * y),
{
}

/// How a product of three splits by a divisor `d`, where `a` and `b` are
/// split into quotient and remainder by `d`, and so are `c` and the product
/// of the two remainders.
proof fn lemma_split_product(
    a: int,
    b: int,
    c: int,
    d: int,
    qa: int,
    ra: int,
    qb: int,
    rb: int,
    qc: int,
    rc: int,
    qt: int,
    rt: int,
)
    requires
        a == d * qa + ra,
        b == d * qb + rb,
        c == d * qc + rc,
        ra * rb == d * qt + rt,
    ensures
        a * b * c == d * (qa * b * c + ra * qb * c + ra * rb * qc + qt * rc) + rt * rc,
{
    let t = ra * rb;
    // a * (b * c) = d * (qa * (b * c)) + ra * (b * c)
    lemma_split_factor(a, d, qa, ra, b * c);
    lemma_regroup(a, b, c);
    lemma_regroup(qa, b, c);
    lemma_regroup(ra, b, c);
    assert(a * b * c == d * (qa * b * c) + ra * b * c);
    // b * (ra * c) = d * (qb * (ra * c)) + rb * (ra * c)
    lemma_split_factor(b, d, qb, rb, ra * c);
    lemma_regroup(ra, qb, c);
    lemma_regroup(ra, rb, c);
    assert(ra * b * c == d * (ra * qb * c) + t * c);
    // c * t = d * (qc * t) + rc * t
    lemma_split_factor(c, d, qc, rc, t);
    assert(c * t == t * c) by (nonlinear_arith);
    assert(qc * t == t * qc) by (nonlinear_arith);
    assert(rc * t == t * rc) by (nonlinear_arith);
    assert(t * c == d * (t * qc) + t * rc);
    // t * rc = d * (qt * rc) + rt * rc
    lemma_split_factor(t, d, qt, rt, rc);
    let s1 = qa * b * c;
    let s2 = ra * qb * c;
    let s3 = t * qc;
    let s4 = qt * rc;
    assert(d * (s1 + s2 + s3 + s4) == d * s1 + d * s2 + d * s3 + d * s4) by (nonlinear_arith);
}

proof fn lemma_product_bounds(x: int, y: int, limit: int)
    by (nonlinear_arith)
    requires
        0 <= x < limit,
        0 <= y < limit,
    ensures
        0 <= x * y <= (limit - 1) * (limit - 1),
        x * y < limit * limit,
{
}

proof fn lemma_product_grows(x: int, y: int)
    by (nonlinear_arith)
    requires
        0 <= x,
        1 <= y,
    ensures
        x <= x * y,
{
}

proof fn lemma_product_non_negative(x: int, y: int)
    by (nonlinear_arith)
    requires
        0 <= x,
        0 <= y,
    ensures
        0 <= x * y,
{
}

proof fn lemma_quotient_below_divisor(t: int, d: int)
    by (nonlinear_arith)
    requires
        0 < d,
        0 <= t < d * d,
    ensures
        0 <= t / d < d,
{
}

/// `a * b * c / d` on numbers without sign, with every intermediate exact:
/// `None` exactly where the quotient does not fit in 128 bits.
fn wide_mul_div(a: u128, b: u128, c: u64, d: u64) -> (r: Option<u128>)
    requires
        d > 0,
    ensures
        r is Some <==> (a * b * c) / (d as int) <= u128::MAX,
        r matches Some(q) ==> q == (a * b * c) / (d as int),
{
    if c == 0 {
        assert(a * b * 0 == 0) by (nonlinear_arith);
        return Some(0);
    }
    let wide_d: u128 = d as u128;
    let wide_c: u128 = c as u128;
    let qa: u128 = a / wide_d;
    let ra: u128 = a % wide_d;
    let qb: u128 = b / wide_d;
    let rb: u128 = b % wide_d;
    let qc: u128 = wide_c / wide_d;
    let rc: u128 = wide_c % wide_d;
    proof {
        lemma_product_bounds(ra as int, rb as int, 0x1_0000_0000_0000_0000int);
    }
    let t: u128 = ra * rb;
    let qt: u128 = t / wide_d;
    let rt: u128 = t % wide_d;
    proof {
        lemma_product_bounds(ra as int, rb as int, d as int);
        lemma_quotient_below_divisor(t as int, d as int);
        lemma_product_bounds(qt as int, rc as int, 0x1_0000_0000_0000_0000int);
        lemma_product_bounds(rt as int, rc as int, 0x1_0000_0000_0000_0000int);
    }
    let last: u128 = qt * rc;
    let rest: u128 = rt * rc;
    let carried: u128 = rest / wide_d;
    let ghost first = qa * b * c;
    let ghost second = ra * qb * c;
    let ghost third = t * qc;
    let ghost total = first + second + third + last + carried;
    proof {
        vstd::arithmetic::div_mod::lemma_fundamental_div_mod(a as int, d as int);
        vstd::arithmetic::div_mod::lemma_fundamental_div_mod(b as int, d as int);
        vstd::arithmetic::div_mod::lemma_fundamental_div_mod(c as int, d as int);
        vstd::arithmetic::div_mod::lemma_fundamental_div_mod(t as int, d as int);
        vstd::arithmetic::div_mod::lemma_fundamental_div_mod(rest as int, d as int);
        lemma_split_product(
            a as int,
            b as int,
            c as int,
            d as int,
            qa as int,
            ra as int,
            qb as int,
            rb as int,
            qc as int,
            rc as int,
            qt as int,
            rt as int,
        );
        let inner = first + second + third + last;
        assert(a * b * c == d * (inner + carried) + (rest % wide_d)) by (nonlinear_arith)
            requires
                a * b * c == d * inner + rest,
                rest == d * carried + (rest % wide_d),
        ;
        vstd::arithmetic::div_mod::lemma_div_multiples_vanish_fancy(
            inner + carried,
            (rest % wide_d) as int,
            d as int,
        );
        assert((a * b * c) / (d as int) == total);
        lemma_product_non_negative(qa as int, b as int);
        lemma_product_non_negative(qa * b, c as int);
        lemma_product_grows(qa * b, c as int);
        lemma_product_non_negative(ra as int, qb as int);
        lemma_product_non_negative(ra * qb, c as int);
        lemma_product_grows(ra * qb, c as int);
        lemma_product_non_negative(t as int, qc as int);
    }
    let Some(first_ab) = qa.checked_mul(b) else {
        return None;
    };
    let Some(first_term) = first_ab.checked_mul(wide_c) else {
        return None;
    };
    let Some(second_ab) = ra.checked_mul(qb) else {
        return None;
    };
    let Some(second_term) = second_ab.checked_mul(wide_c) else {
        return None;
    };
    let Some(third_term) = t.checked_mul(qc) else {
        return None;
    };
    let Some(sum) = first_term.checked_add(second_term) else {
        return None;
    };
    let Some(sum) = sum.checked_add(third_term) else {
        return None;
    };
    let Some(sum) = sum.checked_add(last) else {
        return None;
    };
    sum.checked_add(carried)
}

/// `a * b * c / d` with the product of the three held exactly, however
/// wide it is: `None` exactly where the divisor is zero or the truncated
/// quotient does not fit in an `i128`.
pub fn checked_mul3_div(a: i128, b: i128, c: u64, d: u64) -> (r: Option<i128>)
    ensures
        r is Some <==> d != 0 && fits(mul3_div(a as int, b as int, c as int, d as int)),
        r matches Some(q) ==> q == mul3_div(a as int, b as int, c as int, d as int),
{
    if d == 0 {
        return None;
    }
    let negative: bool = (a < 0) != (b < 0);
    let wide_a: u128 = magnitude_of(a);
    let wide_b: u128 = magnitude_of(b);
    proof {
        let product = a * b * c;
        let size = wide_a * wide_b * c;
        assert(size >= 0) by (nonlinear_arith)
            requires
                size == wide_a * wide_b * c,
        ;
        assert(product == (if negative {
            -size
        } else {
            size
        })) by (nonlinear_arith)
            requires
                product == a * b * c,
                size == wide_a * wide_b * c,
                wide_a == magnitude(a as int),
                wide_b == magnitude(b as int),
                negative == ((a < 0) != (b < 0)),
        ;
        lemma_div_sign_and_size(size, d as int);
    }
    match wide_mul_div(wide_a, wide_b, c, d) {
        None => None,
        Some(q) => {
            if negative {
                if q > 0x8000_0000_0000_0000_0000_0000_0000_0000u128 {
                    None
                } else if q == 0x8000_0000_0000_0000_0000_0000_0000_0000u128 {
                    Some(i128::MIN)
                } else {
                    Some(-(q as i128))
                }
            } else {
                if q > 0x7fff_ffff_ffff_ffff_ffff_ffff_ffff_ffffu128 {
                    None
                } else {
                    Some(q as i128)
                }
            }
        },
    }
}

} // verus!
