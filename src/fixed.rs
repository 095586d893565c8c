//! Fixed-point scalars and vectors.
//!
//! A length is a count of micrometres, a speed of micrometres per second, an
//! acceleration of micrometres per second squared, and a direction (a unit
//! vector) has components in millionths. A duration is a count of microseconds.
use vstd::prelude::*;
use vstd::arithmetic::div_mod::{
    lemma_div_is_ordered,
    lemma_div_is_ordered_by_denominator,
    lemma_div_multiples_vanish,
    lemma_div_pos_is_pos,
    lemma_fundamental_div_mod,
    lemma_mod_bound,
};

verus! {

/// Micro-units in one unit: the scale of every fixed-point quantity.
pub const UNIT: i64 = 1_000_000;

/// Microseconds in one second.
pub const MICROS_PER_SECOND: i64 = 1_000_000;

/// A vector in the horizontal plane, or any pair of fixed-point components.
#[derive(Clone, Copy, Debug, PartialEq, Eq, Structural)]
pub struct FixedVec2 {
    pub x: i64,
    pub y: i64,
}

/// A vector in space: `x` lateral, `y` up, `z` depth.
#[derive(Clone, Copy, Debug, PartialEq, Eq, Structural)]
pub struct FixedVec3 {
    pub x: i64,
    pub y: i64,
    pub z: i64,
}

impl FixedVec2 {
    pub fn new(x: i64, y: i64) -> (r: FixedVec2)
        ensures
            r.x == x,
            r.y == y,
    {
        FixedVec2 { x, y }
    }

    pub fn zero() -> (r: FixedVec2)
        ensures
            r.x == 0,
            r.y == 0,
    {
        FixedVec2 { x: 0, y: 0 }
    }

    pub fn is_zero(&self) -> (r: bool)
        ensures
            r == (self.x == 0 && self.y == 0),
    {
        self.x == 0 && self.y == 0
    }
}

impl FixedVec3 {
    pub fn new(x: i64, y: i64, z: i64) -> (r: FixedVec3)
        ensures
            r.x == x,
            r.y == y,
            r.z == z,
    {
        FixedVec3 { x, y, z }
    }

    pub fn zero() -> (r: FixedVec3)
        ensures
            r.x == 0,
            r.y == 0,
            r.z == 0,
    {
        FixedVec3 { x: 0, y: 0, z: 0 }
    }
}

/// `x` held to the interval `[-lim, lim]`.
pub open spec fn clamp(x: int, lim: int) -> int {
    if x > lim {
        lim
    } else if x < -lim {
        -lim
    } else {
        x
    }
}

/// The absolute value of `x`.
pub open spec fn abs(x: int) -> int {
    if x < 0 {
        -x
    } else {
        x
    }
}

/// `a / b` rounded toward zero (for `b > 0`).
pub open spec fn trunc_div(a: int, b: int) -> int {
    if a >= 0 {
        a / b
    } else {
        -((-a) / b)
    }
}

/// How far a per-second `rate` moves a quantity in `delta` microseconds.
pub open spec fn over_delta(rate: int, delta: int) -> int {
    trunc_div(rate * delta, MICROS_PER_SECOND as int)
}

/// `r` is the integer square root of `n`.
pub open spec fn is_isqrt(r: int, n: int) -> bool {
    0 <= r && r * r <= n && n < (r + 1) * (r + 1)
}

/// The integer square root of `n` (for `n >= 0`).
pub open spec fn isqrt(n: int) -> int {
    choose|r: int| is_isqrt(r, n)
}

/// The larger of `|x|` and `|y|`.
pub open spec fn max_abs(x: int, y: int) -> int {
    if abs(x) >= abs(y) {
        abs(x)
    } else {
        abs(y)
    }
}

/// `v` turned into a direction: first scaled so that its larger component has
/// magnitude `UNIT`, then divided by its length; a zero vector stays zero.
pub open spec fn normalize_or_zero(v: FixedVec2) -> FixedVec2 {
    let m = max_abs(v.x as int, v.y as int);
    if m == 0 {
        FixedVec2 { x: 0, y: 0 }
    } else {
        let s = trunc_div(v.x * UNIT, m);
        let t = trunc_div(v.y * UNIT, m);
        let len = isqrt(s * s + t * t);
        FixedVec2 {
            x: trunc_div(s * UNIT, len) as i64,
            y: trunc_div(t * UNIT, len) as i64,
        }
    }
}

/// `(nx, ny, nz)` (components held to `[-UNIT, UNIT]`) is not zero and makes with the up
/// axis an angle whose cosine, `n.y / |n|`, is at least `cos / UNIT`.
pub open spec fn within_slope(nx: int, ny: int, nz: int, cos: int) -> bool {
    let x = clamp(nx, UNIT as int);
    let y = clamp(ny, UNIT as int);
    let z = clamp(nz, UNIT as int);
    let len2 = x * x + y * y + z * z;
    &&& len2 > 0
    &&& if cos >= 0 {
        y >= 0 && y * y * (UNIT * UNIT) >= cos * cos * len2
    } else {
        y >= 0 || y * y * (UNIT * UNIT) <= cos * cos * len2
    }
}

proof fn lemma_isqrt_unique(a: int, b: int, n: int)
    requires
        is_isqrt(a, n),
        is_isqrt(b, n),
    ensures
        a == b,
{
    if a < b {
        assert((a + 1) * (a + 1) <= b * b) by (nonlinear_arith)
            requires
                0 <= a + 1 <= b,
        ;
    }
    if b < a {
        assert((b + 1) * (b + 1) <= a * a) by (nonlinear_arith)
            requires
                0 <= b + 1 <= a,
        ;
    }
}

/// `|a * b| <= la * lb` where `|a| <= la` and `|b| <= lb`.
pub proof fn lemma_mul_abs_bound(a: int, b: int, la: int, lb: int)
    requires
        abs(a) <= la,
        abs(b) <= lb,
    ensures
        abs(a * b) <= la * lb,
        abs(a * b) == abs(a) * abs(b),
{
    assert(abs(a * b) == abs(a) * abs(b)) by (nonlinear_arith);
    assert(abs(a) * abs(b) <= la * lb) by (nonlinear_arith)
        requires
            0 <= abs(a) <= la,
            0 <= abs(b) <= lb,
    ;
}

/// Division by a positive number keeps the sign and does not grow the magnitude.
pub proof fn lemma_trunc_div_bound(a: int, b: int)
    requires
        b > 0,
    ensures
        abs(trunc_div(a, b)) == abs(a) / b,
        abs(trunc_div(a, b)) <= abs(a),
        a >= 0 ==> trunc_div(a, b) >= 0,
        a <= 0 ==> trunc_div(a, b) <= 0,
{
    let m = abs(a);
    lemma_div_pos_is_pos(m, b);
    lemma_div_is_ordered_by_denominator(m, 1, b);
    assert(m / 1 == m) by {
        lemma_div_multiples_vanish(m, 1);
    }
}

/// Scaling by `s / den`, with `0 <= s <= den`, does not grow a magnitude; with
/// `s < den` it shrinks every magnitude that is not zero.
pub proof fn lemma_scale_down(a: int, s: int, den: int)
    requires
        0 <= s <= den,
        den > 0,
    ensures
        abs(trunc_div(a * s, den)) <= abs(a),
        s < den && a != 0 ==> abs(trunc_div(a * s, den)) < abs(a),
        a >= 0 ==> trunc_div(a * s, den) >= 0,
        a <= 0 ==> trunc_div(a * s, den) <= 0,
{
    let m = abs(a);
    lemma_mul_abs_bound(a, s, m, s);
    lemma_trunc_div_bound(a * s, den);
    assert(m * s <= den * m) by (nonlinear_arith)
        requires
            0 <= s <= den,
            m >= 0,
    ;
    lemma_div_is_ordered(m * s, den * m, den);
    lemma_div_multiples_vanish(m, den);
    if s < den && a != 0 {
        let x = m * s;
        let q = x / den;
        lemma_fundamental_div_mod(x, den);
        lemma_mod_bound(x, den);
        assert(x < den * m) by (nonlinear_arith)
            requires
                x == m * s,
                0 <= s < den,
                m > 0,
        ;
        assert(q < m) by (nonlinear_arith)
            requires
                den * q <= x,
                x < den * m,
                den > 0,
        ;
    }
    if a >= 0 {
        assert(a * s >= 0) by (nonlinear_arith)
            requires
                a >= 0,
                s >= 0,
        ;
    }
    if a <= 0 {
        assert(a * s <= 0) by (nonlinear_arith)
            requires
                a <= 0,
                s >= 0,
        ;
    }
}

/// The product of two `i64` values fits in an `i128` with room to spare.
pub proof fn lemma_i64_product(a: i64, b: i64)
    ensures
        abs(a * b) <= 0x4000_0000_0000_0000_0000_0000_0000_0000,
{
    lemma_mul_abs_bound(a as int, b as int, 0x8000_0000_0000_0000, 0x8000_0000_0000_0000);
}

proof fn lemma_square_bound(x: int, lim: int)
    requires
        -lim <= x <= lim,
    ensures
        0 <= x * x <= lim * lim,
{
    assert(0 <= x * x <= lim * lim) by (nonlinear_arith)
        requires
            -lim <= x <= lim,
    ;
}

/// `a / b` rounded toward zero.
pub fn div_toward_zero(a: i128, b: i128) -> (r: i128)
    requires
        b > 0,
        a > i128::MIN,
    ensures
        r == trunc_div(a as int, b as int),
{
    if a >= 0 {
        a / b
    } else {
        let q = (-a) / b;
        -q
    }
}

/// `x` held to `[-lim, lim]`.
pub fn clamp_to(x: i128, lim: i64) -> (r: i64)
    requires
        lim >= 0,
    ensures
        r == clamp(x as int, lim as int),
{
    if x > lim as i128 {
        lim
    } else if x < -(lim as i128) {
        -lim
    } else {
        x as i64
    }
}

/// How far a per-second `rate` moves a quantity in `delta` microseconds.
pub fn scale_by_delta(rate: i64, delta: i64) -> (r: i128)
    requires
        delta >= 0,
    ensures
        r == over_delta(rate as int, delta as int),
        abs(r as int) <= 0x4000_0000_0000_0000_0000_0000_0000_0000,
{
    proof {
        lemma_i64_product(rate, delta);
        lemma_trunc_div_bound(rate * delta, MICROS_PER_SECOND as int);
    }
    let p: i128 = (rate as i128) * (delta as i128);
    div_toward_zero(p, MICROS_PER_SECOND as i128)
}

/// The integer square root of `n`, for `n` up to `2 * UNIT * UNIT`.
pub fn integer_sqrt(n: u64) -> (r: u64)
    requires
        n <= 2 * UNIT * UNIT,
    ensures
        is_isqrt(r as int, n as int),
        r == isqrt(n as int),
{
    let mut lo: u64 = 0;
    let mut hi: u64 = 2_000_000;
    while hi - lo > 1
        invariant
            lo < hi <= 2_000_000,
            lo * lo <= n,
            n < hi * hi,
        decreases hi - lo,
    {
        let mid: u64 = lo + (hi - lo) / 2;
        proof {
            lemma_square_bound(mid as int, 2_000_000);
        }
        if mid * mid <= n {
            lo = mid;
        } else {
            hi = mid;
        }
    }
    proof {
        assert(is_isqrt(lo as int, n as int));
        let c = isqrt(n as int);
        assert(is_isqrt(c, n as int));
        lemma_isqrt_unique(c, lo as int, n as int);
    }
    lo
}

/// `v` turned into a direction, or zero where `v` is zero. A direction has
/// squared length `UNIT * UNIT` up to the rounding of its components.
pub fn normalize_or_zero_exec(v: FixedVec2) -> (r: FixedVec2)
    ensures
        r == normalize_or_zero(v),
        abs(r.x as int) <= UNIT,
        abs(r.y as int) <= UNIT,
        (v.x == 0 && v.y == 0) ==> r.x == 0 && r.y == 0,
        !(v.x == 0 && v.y == 0) ==> UNIT * UNIT - 5 * UNIT <= r.x * r.x + r.y * r.y
            <= UNIT * UNIT + 2 * UNIT,
        v.x > 0 ==> r.x >= 0,
        v.x < 0 ==> r.x <= 0,
        v.x == 0 ==> r.x == 0,
        v.y > 0 ==> r.y >= 0,
        v.y < 0 ==> r.y <= 0,
        v.y == 0 ==> r.y == 0,
        abs(r.x * v.y - r.y * v.x) < 4 * max_abs(v.x as int, v.y as int) || (v.x == 0 && v.y
            == 0),
{
    let ax: i128 = if v.x < 0 { -(v.x as i128) } else { v.x as i128 };
    let ay: i128 = if v.y < 0 { -(v.y as i128) } else { v.y as i128 };
    let m: i128 = if ax >= ay { ax } else { ay };
    if m == 0 {
        return FixedVec2 { x: 0, y: 0 };
    }
    proof {
        lemma_mul_abs_bound(v.x as int, UNIT as int, 0x8000_0000_0000_0000, UNIT as int);
        lemma_mul_abs_bound(v.y as int, UNIT as int, 0x8000_0000_0000_0000, UNIT as int);
        lemma_scale_to_unit(v.x as int, m as int);
        lemma_scale_to_unit(v.y as int, m as int);
    }
    let s: i128 = div_toward_zero(v.x as i128 * UNIT as i128, m);
    let t: i128 = div_toward_zero(v.y as i128 * UNIT as i128, m);
    proof {
        lemma_square_bound(s as int, UNIT as int);
        lemma_square_bound(t as int, UNIT as int);
        assert(abs(s as int) == UNIT || abs(t as int) == UNIT);
        assert(s * s == abs(s as int) * abs(s as int)) by (nonlinear_arith);
        assert(t * t == abs(t as int) * abs(t as int)) by (nonlinear_arith);
        assert(s * s + t * t >= UNIT * UNIT) by (nonlinear_arith)
            requires
                abs(s as int) == UNIT || abs(t as int) == UNIT,
                s * s == abs(s as int) * abs(s as int),
                t * t == abs(t as int) * abs(t as int),
                t * t >= 0,
                s * s >= 0,
        ;
    }
    let n: u64 = (s * s + t * t) as u64;
    let len: u64 = integer_sqrt(n);
    proof {
        if len < UNIT {
            assert((len + 1) * (len + 1) <= UNIT * UNIT) by (nonlinear_arith)
                requires
                    0 <= len + 1 <= UNIT,
            ;
        }
        lemma_mul_abs_bound(s as int, UNIT as int, UNIT as int, UNIT as int);
        lemma_mul_abs_bound(t as int, UNIT as int, UNIT as int, UNIT as int);
        lemma_trunc_div_bound(s * UNIT, len as int);
        lemma_trunc_div_bound(t * UNIT, len as int);
        assert(abs(s as int) * abs(s as int) + abs(t as int) * abs(t as int) == n);
        lemma_normalized_length(abs(s as int), abs(t as int), len as int);
    }
    let nx: i128 = div_toward_zero(s * UNIT as i128, len as i128);
    let ny: i128 = div_toward_zero(t * UNIT as i128, len as i128);
    proof {
        assert(nx * nx == abs(nx as int) * abs(nx as int)) by (nonlinear_arith);
        assert(ny * ny == abs(ny as int) * abs(ny as int)) by (nonlinear_arith);
        lemma_same_sign_scaled(v.x as int, m as int, len as int);
        lemma_same_sign_scaled(v.y as int, m as int, len as int);
        lemma_direction_kept(v.x as int, v.y as int, m as int, s as int, t as int, len as int);
    }
    FixedVec2 { x: nx as i64, y: ny as i64 }
}

/// `a` differs from `b * trunc_div(a, b)` by less than `b`.
pub proof fn lemma_trunc_div_rem(a: int, b: int)
    requires
        b > 0,
    ensures
        abs(a - b * trunc_div(a, b)) < b,
{
    let m = abs(a);
    lemma_fundamental_div_mod(m, b);
    lemma_mod_bound(m, b);
    if a >= 0 {
        assert(a - b * trunc_div(a, b) == m % b);
    } else {
        assert(b * trunc_div(a, b) == -(b * (m / b))) by (nonlinear_arith)
            requires
                trunc_div(a, b) == -(m / b),
        ;
        assert(a - b * trunc_div(a, b) == -(m % b));
    }
}

/// Scaling `x` by `UNIT / m` and then by `UNIT / len` keeps its sign, and keeps
/// zero at zero.
proof fn lemma_same_sign_scaled(x: int, m: int, len: int)
    requires
        m > 0,
        len > 0,
    ensures
        x > 0 ==> trunc_div(trunc_div(x * UNIT, m) * UNIT, len) >= 0,
        x < 0 ==> trunc_div(trunc_div(x * UNIT, m) * UNIT, len) <= 0,
        x == 0 ==> trunc_div(trunc_div(x * UNIT, m) * UNIT, len) == 0,
{
    lemma_scale_sign(x, m);
    lemma_scale_sign(trunc_div(x * UNIT, m), len);
}

proof fn lemma_scale_sign(x: int, m: int)
    requires
        m > 0,
    ensures
        x >= 0 ==> trunc_div(x * UNIT, m) >= 0,
        x <= 0 ==> trunc_div(x * UNIT, m) <= 0,
        x == 0 ==> trunc_div(x * UNIT, m) == 0,
{
    if x >= 0 {
        assert(x * UNIT >= 0) by (nonlinear_arith)
            requires
                x >= 0,
        ;
    }
    if x <= 0 {
        assert(x * UNIT <= 0) by (nonlinear_arith)
            requires
                x <= 0,
        ;
    }
    lemma_trunc_div_bound(x * UNIT, m);
}

/// Normalizing `(x, y)` keeps its direction up to rounding: the cross product of
/// the result with `(x, y)` is less than `4 * m`, where `m` is the larger of
/// `|x|` and `|y|`.
proof fn lemma_direction_kept(x: int, y: int, m: int, s: int, t: int, len: int)
    requires
        m == max_abs(x, y),
        m > 0,
        s == trunc_div(x * UNIT, m),
        t == trunc_div(y * UNIT, m),
        len >= UNIT,
    ensures
        abs(trunc_div(s * UNIT, len) * y - trunc_div(t * UNIT, len) * x) < 4 * m,
{
    let u = UNIT as int;
    let f1 = x * u - m * s;
    let f2 = y * u - m * t;
    lemma_trunc_div_rem(x * u, m);
    lemma_trunc_div_rem(y * u, m);
    let d = s * y - t * x;
    assert(m * d == f2 * x - f1 * y) by (nonlinear_arith)
        requires
            f1 == x * u - m * s,
            f2 == y * u - m * t,
            d == s * y - t * x,
    ;
    lemma_mul_abs_bound(f2, x, m, m);
    lemma_mul_abs_bound(f1, y, m, m);
    lemma_mul_abs_bound(m, d, m, abs(d));
    assert(abs(d) < 2 * m) by (nonlinear_arith)
        requires
            m * abs(d) == abs(m * d),
            abs(m * d) <= abs(f2 * x) + abs(f1 * y),
            abs(f2 * x) == abs(f2) * abs(x),
            abs(f1 * y) == abs(f1) * abs(y),
            abs(f1) < m,
            abs(f2) < m,
            abs(x) <= m,
            abs(y) <= m,
            m > 0,
    {
        assert(abs(f2) * abs(x) <= abs(f2) * m);
        assert(abs(f1) * abs(y) <= abs(f1) * m);
    }
    let rx = trunc_div(s * u, len);
    let ry = trunc_div(t * u, len);
    let e1 = s * u - len * rx;
    let e2 = t * u - len * ry;
    lemma_trunc_div_rem(s * u, len);
    lemma_trunc_div_rem(t * u, len);
    let c = rx * y - ry * x;
    let pa = len * rx;
    let pb = len * ry;
    assert(len * c == pa * y - pb * x) by (nonlinear_arith)
        requires
            pa == len * rx,
            pb == len * ry,
            c == rx * y - ry * x,
    ;
    assert(pa * y - pb * x == (s * u - e1) * y - (t * u - e2) * x);
    assert((s * u - e1) * y - (t * u - e2) * x == u * d - e1 * y + e2 * x) by (nonlinear_arith)
        requires
            d == s * y - t * x,
    ;
    lemma_mul_abs_bound(u, d, u, abs(d));
    lemma_mul_abs_bound(e1, y, len, m);
    lemma_mul_abs_bound(e2, x, len, m);
    lemma_mul_abs_bound(len, c, len, abs(c));
    assert(abs(c) < 4 * m) by (nonlinear_arith)
        requires
            len * abs(c) == abs(len * c),
            abs(len * c) <= abs(u * d) + abs(e1 * y) + abs(e2 * x),
            abs(u * d) == u * abs(d),
            abs(e1 * y) == abs(e1) * abs(y),
            abs(e2 * x) == abs(e2) * abs(x),
            abs(d) < 2 * m,
            abs(e1) < len,
            abs(e2) < len,
            abs(x) <= m,
            abs(y) <= m,
            u <= len,
            u > 0,
            m > 0,
    {
        assert(u * abs(d) <= len * abs(d));
        assert(len * abs(d) < len * (2 * m));
        assert(abs(e1) * abs(y) <= abs(e1) * m);
        assert(abs(e1) * m <= len * m);
        assert(abs(e2) * abs(x) <= abs(e2) * m);
        assert(abs(e2) * m <= len * m);
    }
}

/// Scaling `x` by `UNIT / m`, where `m` is at least `|x|`, gives at most `UNIT`,
/// and exactly `UNIT` in magnitude where `|x| == m`.
proof fn lemma_scale_to_unit(x: int, m: int)
    requires
        m > 0,
        abs(x) <= m,
    ensures
        abs(trunc_div(x * UNIT, m)) <= UNIT,
        abs(x) == m ==> abs(trunc_div(x * UNIT, m)) == UNIT,
{
    lemma_mul_abs_bound(x, UNIT as int, abs(x), UNIT as int);
    lemma_trunc_div_bound(x * UNIT, m);
    assert(abs(x) * UNIT <= m * UNIT) by (nonlinear_arith)
        requires
            abs(x) <= m,
    ;
    lemma_div_is_ordered(abs(x) * UNIT, m * UNIT, m);
    lemma_div_multiples_vanish(UNIT as int, m);
    assert(m * UNIT == UNIT * m) by (nonlinear_arith);
}

proof fn lemma_square_le(x: int, y: int)
    requires
        0 <= x <= y,
    ensures
        x * x <= y * y,
{
    assert(x * x <= y * y) by (nonlinear_arith)
        requires
            0 <= x <= y,
    ;
}

proof fn lemma_square_lt(x: int, y: int)
    requires
        0 <= x < y,
    ensures
        x * x < y * y,
{
    assert(x * x < y * y) by (nonlinear_arith)
        requires
            0 <= x < y,
    ;
}

/// Components `a` and `b` (magnitudes), divided by the integer square root `len`
/// of `a * a + b * b` and scaled to `UNIT`, have squared length within a few
/// `UNIT` of `UNIT * UNIT`.
proof fn lemma_normalized_length(a: int, b: int, len: int)
    requires
        0 <= a <= UNIT,
        0 <= b <= UNIT,
        is_isqrt(len, a * a + b * b),
        len >= UNIT,
    ensures
        (a * UNIT) / len <= UNIT,
        (b * UNIT) / len <= UNIT,
        UNIT * UNIT - 5 * UNIT <= ((a * UNIT) / len) * ((a * UNIT) / len) + ((b * UNIT) / len) * (
        (b * UNIT) / len) <= UNIT * UNIT + 2 * UNIT,
{
    let u = UNIT as int;
    let n = a * a + b * b;
    let qa = (a * u) / len;
    let qb = (b * u) / len;
    let ra = (a * u) % len;
    let rb = (b * u) % len;
    lemma_fundamental_div_mod(a * u, len);
    lemma_fundamental_div_mod(b * u, len);
    lemma_mod_bound(a * u, len);
    lemma_mod_bound(b * u, len);
    assert(a * u >= 0 && b * u >= 0) by (nonlinear_arith)
        requires
            a >= 0,
            b >= 0,
            u > 0,
    ;
    lemma_div_pos_is_pos(a * u, len);
    lemma_div_pos_is_pos(b * u, len);
    // Each quotient is at most UNIT.
    assert(a * u <= len * u && b * u <= len * u) by (nonlinear_arith)
        requires
            a <= u,
            b <= u,
            u <= len,
            u > 0,
    ;
    lemma_div_is_ordered(a * u, len * u, len);
    lemma_div_is_ordered(b * u, len * u, len);
    lemma_div_multiples_vanish(u, len);
    // Upper bound.
    lemma_square_le(len * qa, a * u);
    lemma_square_le(len * qb, b * u);
    let q = qa * qa + qb * qb;
    assert((len * qa) * (len * qa) + (len * qb) * (len * qb) == (len * len) * q) by (nonlinear_arith)
        requires
            q == qa * qa + qb * qb,
    ;
    assert((a * u) * (a * u) + (b * u) * (b * u) == (u * u) * n) by (nonlinear_arith)
        requires
            n == a * a + b * b,
    ;
    assert((u * u) * n < (u * (len + 1)) * (u * (len + 1))) by (nonlinear_arith)
        requires
            n < (len + 1) * (len + 1),
            u > 0,
    ;
    if q >= (u + 1) * (u + 1) {
        assert((len * len) * q >= (len * (u + 1)) * (len * (u + 1))) by (nonlinear_arith)
            requires
                q >= (u + 1) * (u + 1),
                len >= 0,
        ;
        assert(len * (u + 1) >= u * (len + 1)) by (nonlinear_arith)
            requires
                len >= u,
        ;
        lemma_square_le(u * (len + 1), len * (u + 1));
    }
    // Lower bound.
    assert(a * u < len * (qa + 1) && b * u < len * (qb + 1)) by (nonlinear_arith)
        requires
            a * u == len * qa + ra,
            b * u == len * qb + rb,
            ra < len,
            rb < len,
    ;
    lemma_square_lt(a * u, len * (qa + 1));
    lemma_square_lt(b * u, len * (qb + 1));
    let p = (qa + 1) * (qa + 1) + (qb + 1) * (qb + 1);
    assert((len * (qa + 1)) * (len * (qa + 1)) + (len * (qb + 1)) * (len * (qb + 1)) == (len * len)
        * p) by (nonlinear_arith)
        requires
            p == (qa + 1) * (qa + 1) + (qb + 1) * (qb + 1),
    ;
    assert((u * u) * n >= (u * u) * (len * len)) by (nonlinear_arith)
        requires
            n >= len * len,
            u > 0,
    ;
    assert(p > u * u) by (nonlinear_arith)
        requires
            (len * len) * p > (u * u) * (len * len),
            len > 0,
    ;
    assert(p == q + 2 * qa + 2 * qb + 2) by (nonlinear_arith)
        requires
            p == (qa + 1) * (qa + 1) + (qb + 1) * (qb + 1),
            q == qa * qa + qb * qb,
    ;
}


/// Whether `(x, y, z)` makes with the up axis an angle whose cosine is at least
/// `cos / UNIT`.
pub fn is_within_slope(x: i128, y: i128, z: i128, cos: i64) -> (r: bool)
    requires
        -UNIT <= cos <= UNIT,
    ensures
        r == within_slope(x as int, y as int, z as int, cos as int),
{
    let cx: i64 = clamp_to(x, UNIT);
    let cy: i64 = clamp_to(y, UNIT);
    let cz: i64 = clamp_to(z, UNIT);
    proof {
        lemma_square_bound(cx as int, UNIT as int);
        lemma_square_bound(cy as int, UNIT as int);
        lemma_square_bound(cz as int, UNIT as int);
        lemma_square_bound(cos as int, UNIT as int);
    }
    let len2: i128 = cx as i128 * cx as i128 + cy as i128 * cy as i128 + cz as i128 * cz as i128;
    if len2 <= 0 {
        return false;
    }
    let y2: i128 = cy as i128 * cy as i128;
    let c2: i128 = cos as i128 * cos as i128;
    proof {
        assert(y2 * (UNIT * UNIT) <= (UNIT * UNIT) * (UNIT * UNIT)) by (nonlinear_arith)
            requires
                0 <= y2 <= UNIT * UNIT,
        ;
        assert(c2 * len2 <= (UNIT * UNIT) * (3 * UNIT * UNIT)) by (nonlinear_arith)
            requires
                0 <= c2 <= UNIT * UNIT,
                0 <= len2 <= 3 * UNIT * UNIT,
        ;
        assert(0 <= c2 * len2) by (nonlinear_arith)
            requires
                0 <= c2,
                0 <= len2,
        ;
        assert(0 <= y2 * (UNIT * UNIT)) by (nonlinear_arith)
            requires
                0 <= y2,
        ;
    }
    let lhs: i128 = y2 * (UNIT as i128 * UNIT as i128);
    let rhs: i128 = c2 * len2;
    if cos >= 0 {
        cy >= 0 && lhs >= rhs
    } else {
        cy >= 0 || lhs <= rhs
    }
}

} // verus!
