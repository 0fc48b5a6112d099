//! Scaling a direction to a given length in integers.
//!
//! `f` is the number of parts into which one unit is divided when the length of a direction is
//! measured, and `m` that length in such parts, rounded down.

use crate::sqrt::lemma_square_lt_rev;
use vstd::prelude::*;

verus! {

/// The squared length of the vector `(dx, dy, dz)`.
pub open spec fn len_sq(dx: int, dy: int, dz: int) -> int {
    dx * dx + dy * dy + dz * dz
}

/// The size of `c` without its sign.
pub open spec fn magnitude(c: int) -> int {
    if c >= 0 {
        c
    } else {
        -c
    }
}

/// `c * len * f / m`, rounded toward zero.
pub open spec fn scaled(c: int, len: int, f: int, m: int) -> int {
    if c >= 0 {
        (c * len * f) / m
    } else {
        -(((-c) * len * f) / m)
    }
}

/// Quotient and remainder of a non-negative division.
pub proof fn lemma_quotient(t: int, m: int)
    requires
        0 <= t,
        0 < m,
    ensures
        0 <= t / m,
        (t / m) * m <= t < (t / m) * m + m,
{
    vstd::arithmetic::div_mod::lemma_fundamental_div_mod(t, m);
    vstd::arithmetic::div_mod::lemma_mod_pos_bound(t, m);
    vstd::arithmetic::div_mod::lemma_div_pos_is_pos(t, m);
    assert(m * (t / m) == (t / m) * m) by (nonlinear_arith);
}

/// One component of a vector, measured in parts, is no longer than the vector.
pub proof fn lemma_component_fits(a: int, n2: int, f: int, m: int)
    requires
        0 <= a,
        a * a <= n2,
        0 < f,
        0 <= m,
        n2 * f * f < (m + 1) * (m + 1),
    ensures
        0 <= a * f <= m,
{
    assert(0 <= a * f) by (nonlinear_arith)
        requires
            0 <= a,
            0 < f,
    ;
    assert((a * f) * (a * f) <= n2 * f * f) by (nonlinear_arith)
        requires
            0 <= a,
            a * a <= n2,
            0 < f,
    ;
    lemma_square_lt_rev(a * f, m + 1);
}

/// A component scaled to `len` is at most `len`.
pub proof fn lemma_scaled_bound(a: int, len: int, f: int, m: int)
    requires
        0 <= a,
        0 <= len,
        0 < f,
        0 < m,
        a * f <= m,
    ensures
        0 <= (a * len * f) / m <= len,
{
    let t = a * len * f;
    assert(0 <= t <= len * m) by (nonlinear_arith)
        requires
            t == a * len * f,
            0 <= a,
            0 <= len,
            0 < f,
            a * f <= m,
    ;
    lemma_quotient(t, m);
    let q = t / m;
    assert(q <= len) by (nonlinear_arith)
        requires
            q * m <= len * m,
            0 < m,
    ;
}

/// The square of a product is the product of the squares.
pub proof fn lemma_square_of_product(x: int, y: int)
    by (nonlinear_arith)
    ensures
        (x * y) * (x * y) == (x * x) * (y * y),
{
}

/// The squares of the three components, each times `len * f`, sum to `len * len` times the
/// squared length in parts.
pub proof fn lemma_parts_squared(a: int, b: int, c: int, len: int, f: int, n: int)
    requires
        n == len_sq(a, b, c) * (f * f),
    ensures
        (a * len * f) * (a * len * f) + (b * len * f) * (b * len * f) + (c * len * f) * (c * len
            * f) == len * len * n,
{
    let u = len * f;
    let k = u * u;
    vstd::arithmetic::mul::lemma_mul_is_associative(a, len, f);
    vstd::arithmetic::mul::lemma_mul_is_associative(b, len, f);
    vstd::arithmetic::mul::lemma_mul_is_associative(c, len, f);
    lemma_square_of_product(a, u);
    lemma_square_of_product(b, u);
    lemma_square_of_product(c, u);
    lemma_square_of_product(len, f);
    let aa = a * a;
    let bb = b * b;
    let cc = c * c;
    assert(aa * k + bb * k + cc * k == (aa + bb + cc) * k) by (nonlinear_arith);
    let ll = len * len;
    let ff = f * f;
    let n2 = aa + bb + cc;
    assert(n2 * (ll * ff) == ll * (n2 * ff)) by (nonlinear_arith);
}

/// The squares of three quotients, each times `m`, sum to `m * m` times the sum of their squares.
pub proof fn lemma_quotients_squared(qa: int, qb: int, qc: int, m: int)
    ensures
        m * m * len_sq(qa, qb, qc) == (qa * m) * (qa * m) + (qb * m) * (qb * m) + (qc * m) * (qc
            * m),
{
    lemma_square_of_product(qa, m);
    lemma_square_of_product(qb, m);
    lemma_square_of_product(qc, m);
    let aa = qa * qa;
    let bb = qb * qb;
    let cc = qc * qc;
    let k = m * m;
    assert(k * (aa + bb + cc) == aa * k + bb * k + cc * k) by (nonlinear_arith);
}

/// Scaling toward zero never makes a vector longer than `len + 1`.
///
/// `a`, `b`, `c` are the sizes of the vector's components and `n` its squared length in parts.
pub proof fn lemma_scaled_upper(a: int, b: int, c: int, len: int, f: int, m: int, n: int)
    requires
        0 <= a,
        0 <= b,
        0 <= c,
        0 < f,
        0 < m,
        0 <= len <= m,
        n == len_sq(a, b, c) * (f * f),
        n < (m + 1) * (m + 1),
    ensures
        len_sq((a * len * f) / m, (b * len * f) / m, (c * len * f) / m) <= len * len + 2 * len,
{
    let ta = a * len * f;
    let tb = b * len * f;
    let tc = c * len * f;
    assert(0 <= ta && 0 <= tb && 0 <= tc) by (nonlinear_arith)
        requires
            ta == a * len * f,
            tb == b * len * f,
            tc == c * len * f,
            0 <= a,
            0 <= b,
            0 <= c,
            0 <= len,
            0 < f,
    ;
    lemma_quotient(ta, m);
    lemma_quotient(tb, m);
    lemma_quotient(tc, m);
    let qa = ta / m;
    let qb = tb / m;
    let qc = tc / m;
    let q = len_sq(qa, qb, qc);
    assert((qa * m) * (qa * m) <= ta * ta) by (nonlinear_arith)
        requires
            0 <= qa,
            0 < m,
            qa * m <= ta,
    ;
    assert((qb * m) * (qb * m) <= tb * tb) by (nonlinear_arith)
        requires
            0 <= qb,
            0 < m,
            qb * m <= tb,
    ;
    assert((qc * m) * (qc * m) <= tc * tc) by (nonlinear_arith)
        requires
            0 <= qc,
            0 < m,
            qc * m <= tc,
    ;
    lemma_quotients_squared(qa, qb, qc, m);
    lemma_parts_squared(a, b, c, len, f, n);
    assert(m * m * q <= len * len * n);
    if q >= (len + 1) * (len + 1) {
        assert(m * m * ((len + 1) * (len + 1)) <= m * m * q) by (nonlinear_arith)
            requires
                (len + 1) * (len + 1) <= q,
        ;
        if len == 0 {
            assert(m * m * ((len + 1) * (len + 1)) > 0) by (nonlinear_arith)
                requires
                    0 < m,
                    len == 0,
            ;
            assert(len * len * n == 0) by (nonlinear_arith)
                requires
                    len == 0,
            ;
        } else {
            assert(len * len * n < len * len * ((m + 1) * (m + 1))) by (nonlinear_arith)
                requires
                    0 < len,
                    n < (m + 1) * (m + 1),
            ;
            assert((m * (len + 1)) * (m * (len + 1)) == m * m * ((len + 1) * (len + 1)))
                by (nonlinear_arith);
            assert((len * (m + 1)) * (len * (m + 1)) == len * len * ((m + 1) * (m + 1)))
                by (nonlinear_arith);
            assert(0 <= m * (len + 1) && 0 <= len * (m + 1)) by (nonlinear_arith)
                requires
                    0 < m,
                    0 < len,
            ;
            lemma_square_lt_rev(m * (len + 1), len * (m + 1));
            assert(m * (len + 1) == m * len + m && len * (m + 1) == m * len + len)
                by (nonlinear_arith);
        }
    }
    assert((len + 1) * (len + 1) == len * len + 2 * len + 1) by (nonlinear_arith);
}

/// Scaling toward zero leaves a vector of squared length at least `len * len - 4 * len`.
///
/// `a`, `b`, `c` are the sizes of the vector's components and `n` its squared length in parts.
pub proof fn lemma_scaled_lower(a: int, b: int, c: int, len: int, f: int, m: int, n: int)
    requires
        0 <= a,
        0 <= b,
        0 <= c,
        0 < f,
        7 <= m,
        0 <= len,
        n == len_sq(a, b, c) * (f * f),
        m * m <= n < (m + 1) * (m + 1),
    ensures
        len * len - 4 * len <= len_sq((a * len * f) / m, (b * len * f) / m, (c * len * f) / m),
{
    let ta = a * len * f;
    let tb = b * len * f;
    let tc = c * len * f;
    assert(0 <= ta && 0 <= tb && 0 <= tc) by (nonlinear_arith)
        requires
            ta == a * len * f,
            tb == b * len * f,
            tc == c * len * f,
            0 <= a,
            0 <= b,
            0 <= c,
            0 <= len,
            0 < f,
    ;
    lemma_quotient(ta, m);
    lemma_quotient(tb, m);
    lemma_quotient(tc, m);
    let qa = ta / m;
    let qb = tb / m;
    let qc = tc / m;
    let q = len_sq(qa, qb, qc);
    let ea = ta - qa * m;
    let eb = tb - qb * m;
    let ec = tc - qc * m;
    // The sum of the components, in parts, is under twice the length.
    let s = a + b + c;
    assert(s * s <= 3 * len_sq(a, b, c)) by (nonlinear_arith)
        requires
            s == a + b + c,
    ;
    lemma_square_of_product(s, f);
    assert((s * s) * (f * f) <= (3 * len_sq(a, b, c)) * (f * f)) by (nonlinear_arith)
        requires
            s * s <= 3 * len_sq(a, b, c),
    ;
    assert((3 * len_sq(a, b, c)) * (f * f) == 3 * (len_sq(a, b, c) * (f * f)))
        by (nonlinear_arith);
    assert(3 * ((m + 1) * (m + 1)) <= (2 * m) * (2 * m)) by (nonlinear_arith)
        requires
            7 <= m,
    ;
    assert(0 <= s * f) by (nonlinear_arith)
        requires
            0 <= s,
            0 < f,
    ;
    lemma_square_lt_rev(s * f, 2 * m);
    let t = ta + tb + tc;
    assert(t == len * (s * f)) by (nonlinear_arith)
        requires
            t == ta + tb + tc,
            ta == a * len * f,
            tb == b * len * f,
            tc == c * len * f,
            s == a + b + c,
    ;
    assert(t <= len * (2 * m)) by (nonlinear_arith)
        requires
            t == len * (s * f),
            s * f < 2 * m,
            0 <= len,
    ;
    // What the rounding of the three quotients drops.
    let cross = ta * ea + tb * eb + tc * ec;
    assert(cross <= m * t) by (nonlinear_arith)
        requires
            cross == ta * ea + tb * eb + tc * ec,
            t == ta + tb + tc,
            0 <= ta,
            0 <= tb,
            0 <= tc,
            ea < m,
            eb < m,
            ec < m,
    ;
    let lmm = len * (m * m);
    assert(m * t <= 2 * lmm) by (nonlinear_arith)
        requires
            t <= len * (2 * m),
            0 < m,
            lmm == len * (m * m),
    ;
    lemma_quotients_squared(qa, qb, qc, m);
    let pa = qa * m;
    let pb = qb * m;
    let pc = qc * m;
    assert(pa * pa + pb * pb + pc * pc >= (ta * ta + tb * tb + tc * tc) - 2 * cross)
        by (nonlinear_arith)
        requires
            cross == ta * ea + tb * eb + tc * ec,
            ea == ta - pa,
            eb == tb - pb,
            ec == tc - pc,
    ;
    lemma_parts_squared(a, b, c, len, f, n);
    assert(len * len * n >= len * len * (m * m)) by (nonlinear_arith)
        requires
            m * m <= n,
    ;
    assert(m * m * q >= len * len * (m * m) - 4 * lmm);
    assert(q >= len * len - 4 * len) by (nonlinear_arith)
        requires
            m * m * q >= len * len * (m * m) - 4 * lmm,
            lmm == len * (m * m),
            0 < m,
    ;
}

/// Adding `b` under a rounded-down division adds the quotient of `b`, or one more.
pub proof fn lemma_quotient_step(a: int, b: int, m: int)
    requires
        0 <= a,
        0 <= b,
        0 < m,
    ensures
        b / m <= (a + b) / m - a / m <= b / m + 1,
{
    lemma_quotient(a, m);
    lemma_quotient(b, m);
    let qa = a / m;
    let qb = b / m;
    let r = (a - qa * m) + (b - qb * m);
    assert((qa + qb) * m == qa * m + qb * m) by (nonlinear_arith);
    assert((qa + qb + 1) * m == qa * m + qb * m + m) by (nonlinear_arith);
    if r < m {
        vstd::arithmetic::div_mod::lemma_fundamental_div_mod_converse(a + b, m, qa + qb, r);
    } else {
        vstd::arithmetic::div_mod::lemma_fundamental_div_mod_converse(
            a + b,
            m,
            qa + qb + 1,
            r - m,
        );
    }
}

/// One component of the step between two points of a ray, `cum` and `cum + len` from its
/// start: the component scaled to `len`, or one more.
pub proof fn lemma_step_component(a: int, cum: int, len: int, f: int, m: int)
    requires
        0 <= a,
        0 <= cum,
        0 <= len,
        0 < f,
        0 < m,
    ensures
        (a * len * f) / m <= (a * (cum + len) * f) / m - (a * cum * f) / m <= (a * len * f) / m
            + 1,
{
    assert(a * (cum + len) * f == a * cum * f + a * len * f) by (nonlinear_arith);
    assert(0 <= a * cum * f && 0 <= a * len * f) by (nonlinear_arith)
        requires
            0 <= a,
            0 <= cum,
            0 <= len,
            0 < f,
    ;
    lemma_quotient_step(a * cum * f, a * len * f, m);
}

/// Three numbers that are each a given one or its successor: the sum of their squares.
pub proof fn lemma_successor_squares(qa: int, qb: int, qc: int, va: int, vb: int, vc: int, len: int)
    requires
        0 <= len,
        0 <= qa <= va <= qa + 1,
        0 <= qb <= vb <= qb + 1,
        0 <= qc <= vc <= qc + 1,
        len_sq(qa, qb, qc) <= len * len + 2 * len,
    ensures
        len_sq(qa, qb, qc) <= len_sq(va, vb, vc) <= len * len + 6 * len + 5,
{
    let s = qa + qb + qc;
    let q = len_sq(qa, qb, qc);
    assert(s * s <= 3 * q) by (nonlinear_arith)
        requires
            s == qa + qb + qc,
            q == qa * qa + qb * qb + qc * qc,
    ;
    assert((2 * len + 2) * (2 * len + 2) == 4 * (len * len) + 8 * len + 4) by (nonlinear_arith);
    lemma_square_lt_rev(s, 2 * len + 2);
    assert(qa * qa <= va * va <= qa * qa + 2 * qa + 1) by (nonlinear_arith)
        requires
            0 <= qa <= va <= qa + 1,
    ;
    assert(qb * qb <= vb * vb <= qb * qb + 2 * qb + 1) by (nonlinear_arith)
        requires
            0 <= qb <= vb <= qb + 1,
    ;
    assert(qc * qc <= vc * vc <= qc * qc + 2 * qc + 1) by (nonlinear_arith)
        requires
            0 <= qc <= vc <= qc + 1,
    ;
}

/// Two components scaled by one factor keep their proportion, but for the rounding.
pub proof fn lemma_scaled_aligned(a: int, b: int, len: int, f: int, m: int)
    requires
        0 <= a,
        0 <= b,
        0 <= len,
        0 < f,
        0 < m,
    ensures
        -b <= ((a * len * f) / m) * b - ((b * len * f) / m) * a <= a,
{
    let k = len * f;
    assert(0 <= k) by (nonlinear_arith)
        requires
            0 <= len,
            0 < f,
            k == len * f,
    ;
    vstd::arithmetic::mul::lemma_mul_is_associative(a, len, f);
    vstd::arithmetic::mul::lemma_mul_is_associative(b, len, f);
    let ta = a * k;
    let tb = b * k;
    assert(0 <= ta && 0 <= tb) by (nonlinear_arith)
        requires
            ta == a * k,
            tb == b * k,
            0 <= a,
            0 <= b,
            0 <= k,
    ;
    lemma_quotient(ta, m);
    lemma_quotient(tb, m);
    let qa = ta / m;
    let qb = tb / m;
    let ea = ta - qa * m;
    let eb = tb - qb * m;
    let x = qa * b - qb * a;
    assert(m * x == eb * a - ea * b) by (nonlinear_arith)
        requires
            x == qa * b - qb * a,
            ea == a * k - qa * m,
            eb == b * k - qb * m,
    ;
    assert(x <= a) by (nonlinear_arith)
        requires
            m * x == eb * a - ea * b,
            0 <= ea,
            0 <= eb < m,
            0 <= a,
            0 <= b,
            0 < m,
    ;
    assert(-b <= x) by (nonlinear_arith)
        requires
            m * x == eb * a - ea * b,
            0 <= eb,
            0 <= ea < m,
            0 <= a,
            0 <= b,
            0 < m,
    ;
}

/// The larger of two numbers.
pub open spec fn larger(a: int, b: int) -> int {
    if a >= b {
        a
    } else {
        b
    }
}

/// Two components `ti`, `tj` of an offset stand to each other as the components `ci`, `cj` of
/// a direction do, but for the rounding of one unit.
pub open spec fn aligned(ti: int, tj: int, ci: int, cj: int) -> bool {
    magnitude(ti * cj - tj * ci) <= larger(magnitude(ci), magnitude(cj))
}

/// A scaled component points the way of the component, and two of them are aligned with the
/// direction they come from.
pub proof fn lemma_scaled_skew(ci: int, cj: int, len: int, f: int, m: int)
    requires
        0 <= len,
        0 < f,
        0 < m,
    ensures
        scaled(ci, len, f, m) * ci >= 0,
        aligned(scaled(ci, len, f, m), scaled(cj, len, f, m), ci, cj),
{
    let a = magnitude(ci);
    let b = magnitude(cj);
    let qa = (a * len * f) / m;
    let qb = (b * len * f) / m;
    let ti = scaled(ci, len, f, m);
    let tj = scaled(cj, len, f, m);
    lemma_scaled_aligned(a, b, len, f, m);
    assert(0 <= a * len * f && 0 <= b * len * f) by (nonlinear_arith)
        requires
            0 <= a,
            0 <= b,
            0 <= len,
            0 < f,
    ;
    lemma_quotient(a * len * f, m);
    lemma_quotient(b * len * f, m);
    let x = qa * b - qb * a;
    assert(ti * ci == qa * a) by (nonlinear_arith)
        requires
            (ti == qa && ci == a) || (ti == -qa && ci == -a),
    ;
    assert(qa * a >= 0) by (nonlinear_arith)
        requires
            0 <= qa,
            0 <= a,
    ;
    assert(ti * cj - tj * ci == x || ti * cj - tj * ci == -x) by (nonlinear_arith)
        requires
            (ti == qa && ci == a) || (ti == -qa && ci == -a),
            (tj == qb && cj == b) || (tj == -qb && cj == -b),
            x == qa * b - qb * a,
    ;
}

/// A component that is at least as large as the other two, scaled to a length of two or more,
/// does not vanish.
pub proof fn lemma_largest_component(a: int, n2: int, len: int, f: int, m: int)
    requires
        1 <= a,
        n2 <= 3 * (a * a),
        2 <= len,
        0 < f,
        0 < m,
        m * m <= n2 * (f * f),
    ensures
        1 <= (a * len * f) / m,
{
    lemma_square_of_product(a, f);
    assert(n2 * (f * f) <= 3 * ((a * a) * (f * f))) by (nonlinear_arith)
        requires
            n2 <= 3 * (a * a),
    ;
    assert(3 * ((a * f) * (a * f)) < (2 * (a * f)) * (2 * (a * f))) by (nonlinear_arith)
        requires
            1 <= a,
            0 < f,
    ;
    assert(0 <= 2 * (a * f)) by (nonlinear_arith)
        requires
            1 <= a,
            0 < f,
    ;
    lemma_square_lt_rev(m, 2 * (a * f));
    let t = a * len * f;
    assert(2 * (a * f) <= t) by (nonlinear_arith)
        requires
            t == a * len * f,
            2 <= len,
            1 <= a,
            0 < f,
    ;
    lemma_quotient(t, m);
    let q = t / m;
    assert(1 <= q) by (nonlinear_arith)
        requires
            m <= t,
            t < q * m + m,
            0 < m,
    ;
}

/// A vector that is not zero, scaled to a length of two or more, does not vanish.
pub proof fn lemma_scaled_nonzero(a: int, b: int, c: int, len: int, f: int, m: int, n: int)
    requires
        0 <= a,
        0 <= b,
        0 <= c,
        a != 0 || b != 0 || c != 0,
        2 <= len,
        0 < f,
        0 < m,
        n == len_sq(a, b, c) * (f * f),
        m * m <= n,
    ensures
        1 <= len_sq((a * len * f) / m, (b * len * f) / m, (c * len * f) / m),
{
    let n2 = len_sq(a, b, c);
    assert(0 <= a * len * f && 0 <= b * len * f && 0 <= c * len * f) by (nonlinear_arith)
        requires
            0 <= a,
            0 <= b,
            0 <= c,
            2 <= len,
            0 < f,
    ;
    lemma_quotient(a * len * f, m);
    lemma_quotient(b * len * f, m);
    lemma_quotient(c * len * f, m);
    let qa = (a * len * f) / m;
    let qb = (b * len * f) / m;
    let qc = (c * len * f) / m;
    assert(0 <= qa * qa && 0 <= qb * qb && 0 <= qc * qc) by (nonlinear_arith);
    if a >= b && a >= c {
        assert(n2 <= 3 * (a * a)) by (nonlinear_arith)
            requires
                n2 == a * a + b * b + c * c,
                0 <= b <= a,
                0 <= c <= a,
        ;
        lemma_largest_component(a, n2, len, f, m);
        assert(1 <= qa * qa) by (nonlinear_arith)
            requires
                1 <= qa,
        ;
    } else if b >= a && b >= c {
        assert(n2 <= 3 * (b * b)) by (nonlinear_arith)
            requires
                n2 == a * a + b * b + c * c,
                0 <= a <= b,
                0 <= c <= b,
        ;
        lemma_largest_component(b, n2, len, f, m);
        assert(1 <= qb * qb) by (nonlinear_arith)
            requires
                1 <= qb,
        ;
    } else {
        assert(n2 <= 3 * (c * c)) by (nonlinear_arith)
            requires
                n2 == a * a + b * b + c * c,
                0 <= a <= c,
                0 <= b <= c,
        ;
        lemma_largest_component(c, n2, len, f, m);
        assert(1 <= qc * qc) by (nonlinear_arith)
            requires
                1 <= qc,
        ;
    }
}

} // verus!
