//! Fixed-point 2D vectors.
//!
//! World quantities are integers in thousandths of a world unit (positions),
//! of a unit per second (velocities) and of a unit per second squared
//! (accelerations). Contracts speak of the mathematical pair `(int, int)`.
use vstd::prelude::*;

verus! {

/// Number of fixed-point steps in one world unit.
pub const UNIT: i64 = 1000;

/// Largest magnitude of a stored coordinate or velocity component.
pub const COORD_LIMIT: i64 = 0x1000_0000;

/// Largest magnitude of a component handed to `scale_to_length` or `clamp_length_max`.
pub const WIDE_LIMIT: i128 = 0x4000_0000_0000_0000;

/// A vector of fixed-point integers.
#[derive(Clone, Copy, Debug, PartialEq, Eq, Structural)]
pub struct Vec2 {
    pub x: i64,
    pub y: i64,
}

/// A mathematical vector.
pub type IVec = (int, int);

impl Vec2 {
    pub open spec fn view(self) -> IVec {
        (self.x as int, self.y as int)
    }

    /// Both components lie within the stored range.
    pub open spec fn bounded(self) -> bool {
        -COORD_LIMIT <= self.x <= COORD_LIMIT && -COORD_LIMIT <= self.y <= COORD_LIMIT
    }

    pub fn new(x: i64, y: i64) -> (r: Vec2)
        ensures
            r.x == x,
            r.y == y,
    {
        Vec2 { x, y }
    }

    pub fn zero() -> (r: Vec2)
        ensures
            r@ == (0int, 0int),
    {
        Vec2 { x: 0, y: 0 }
    }

    pub fn is_zero(&self) -> (r: bool)
        ensures
            r == (self@ == (0int, 0int)),
    {
        self.x == 0 && self.y == 0
    }
}

pub open spec fn vadd(a: IVec, b: IVec) -> IVec {
    (a.0 + b.0, a.1 + b.1)
}

pub open spec fn vsub(a: IVec, b: IVec) -> IVec {
    (a.0 - b.0, a.1 - b.1)
}

/// Reflection across the vertical axis.
pub open spec fn mirror(a: IVec) -> IVec {
    (-a.0, a.1)
}

/// Squared Euclidean length.
pub open spec fn len2(a: IVec) -> int {
    a.0 * a.0 + a.1 * a.1
}

/// Squared distance between two points.
pub open spec fn dist2(a: IVec, b: IVec) -> int {
    len2(vsub(a, b))
}

pub open spec fn abs(a: int) -> int {
    if a >= 0 {
        a
    } else {
        -a
    }
}

/// Division that rounds toward zero, for a positive divisor.
pub open spec fn trunc_div(a: int, b: int) -> int {
    if a >= 0 {
        a / b
    } else {
        -((-a) / b)
    }
}

/// Division that rounds up, for a non-negative dividend and a positive divisor.
pub open spec fn ceil_div(a: int, b: int) -> int {
    (a + b - 1) / b
}

/// `r` is the least non-negative integer whose square reaches `n`.
pub open spec fn is_ceil_sqrt(n: int, r: int) -> bool {
    r >= 0 && r * r >= n && (r == 0 || (r - 1) * (r - 1) < n)
}

/// The ceiling of the square root of `n`.
pub open spec fn ceil_sqrt(n: int) -> int {
    choose|r: int| #[trigger] is_ceil_sqrt(n, r)
}

/// `v` rescaled to length `l` (rounded toward zero per component); the zero
/// vector, which has no direction, stays zero.
pub open spec fn scale_to(v: IVec, l: int) -> IVec {
    if v == (0int, 0int) {
        (0int, 0int)
    } else {
        let c = ceil_sqrt(len2(v));
        (trunc_div(v.0 * l, c), trunc_div(v.1 * l, c))
    }
}

/// `v` unchanged when its length is at most `m`, otherwise rescaled to `m`.
pub open spec fn clamp_len(v: IVec, m: int) -> IVec {
    if len2(v) <= m * m {
        v
    } else {
        scale_to(v, m)
    }
}

pub proof fn lemma_ceil_sqrt_exists(n: int)
    requires
        n >= 0,
    ensures
        exists|r: int| #[trigger] is_ceil_sqrt(n, r),
    decreases n,
{
    if n == 0 {
        assert(is_ceil_sqrt(0, 0));
    } else {
        lemma_ceil_sqrt_exists(n - 1);
        let r = choose|r: int| #[trigger] is_ceil_sqrt(n - 1, r);
        if r * r >= n {
            assert(is_ceil_sqrt(n, r));
        } else {
            assert((r + 1) * (r + 1) == r * r + 2 * r + 1) by (nonlinear_arith);
            assert(is_ceil_sqrt(n, r + 1));
        }
    }
}

pub proof fn lemma_ceil_sqrt_unique(n: int, r1: int, r2: int)
    requires
        is_ceil_sqrt(n, r1),
        is_ceil_sqrt(n, r2),
    ensures
        r1 == r2,
{
    if r1 < r2 {
        assert((r2 - 1) * (r2 - 1) >= r1 * r1) by (nonlinear_arith)
            requires
                0 <= r1 <= r2 - 1,
        ;
    } else if r2 < r1 {
        assert((r1 - 1) * (r1 - 1) >= r2 * r2) by (nonlinear_arith)
            requires
                0 <= r2 <= r1 - 1,
        ;
    }
}

pub proof fn lemma_ceil_sqrt(n: int)
    requires
        n >= 0,
    ensures
        is_ceil_sqrt(n, ceil_sqrt(n)),
{
    lemma_ceil_sqrt_exists(n);
}

pub proof fn lemma_ceil_sqrt_pos(n: int)
    requires
        n > 0,
    ensures
        ceil_sqrt(n) > 0,
        is_ceil_sqrt(n, ceil_sqrt(n)),
{
    lemma_ceil_sqrt(n);
    let c = ceil_sqrt(n);
    if c == 0 {
        assert(c * c == 0) by (nonlinear_arith)
            requires
                c == 0,
        ;
    }
}

pub proof fn lemma_len2_nonneg(v: IVec)
    ensures
        len2(v) >= 0,
        len2(v) == 0 <==> v == (0int, 0int),
{
    assert(v.0 * v.0 >= 0) by (nonlinear_arith);
    assert(v.1 * v.1 >= 0) by (nonlinear_arith);
    if v.0 != 0 {
        assert(v.0 * v.0 > 0) by (nonlinear_arith)
            requires
                v.0 != 0,
        ;
    }
    if v.1 != 0 {
        assert(v.1 * v.1 > 0) by (nonlinear_arith)
            requires
                v.1 != 0,
        ;
    }
}

/// A component is no longer than the vector.
pub proof fn lemma_component_bound(v: IVec, m: int)
    requires
        m >= 0,
        len2(v) <= m * m,
    ensures
        abs(v.0) <= m,
        abs(v.1) <= m,
{
    lemma_len2_nonneg(v);
    assert(v.1 * v.1 >= 0 && v.0 * v.0 >= 0) by (nonlinear_arith);
    assert(abs(v.0) <= m) by (nonlinear_arith)
        requires
            v.0 * v.0 <= m * m,
            m >= 0,
            abs(v.0) == if v.0 >= 0 { v.0 } else { -v.0 },
    ;
    assert(abs(v.1) <= m) by (nonlinear_arith)
        requires
            v.1 * v.1 <= m * m,
            m >= 0,
            abs(v.1) == if v.1 >= 0 { v.1 } else { -v.1 },
    ;
}

pub proof fn lemma_trunc_div_bound(a: int, b: int)
    requires
        b > 0,
    ensures
        abs(trunc_div(a, b)) * b <= abs(a),
        abs(trunc_div(a, b)) <= abs(a),
        trunc_div(-a, b) == -trunc_div(a, b),
{
    if a >= 0 {
        assert((a / b) * b <= a && a / b >= 0) by (nonlinear_arith)
            requires
                a >= 0,
                b > 0,
        ;
        assert(a / b <= a) by (nonlinear_arith)
            requires
                a >= 0,
                b > 0,
                (a / b) * b <= a,
                a / b >= 0,
        ;
    } else {
        let p = -a;
        assert((p / b) * b <= p && p / b >= 0) by (nonlinear_arith)
            requires
                p >= 0,
                b > 0,
        ;
        assert(p / b <= p) by (nonlinear_arith)
            requires
                p >= 0,
                b > 0,
                (p / b) * b <= p,
                p / b >= 0,
        ;
    }
    if a == 0 {
        assert(0int / b == 0);
    }
}

proof fn lemma_square_monotone(p: int, q: int)
    requires
        0 <= p <= q,
    ensures
        p * p <= q * q,
{
    assert(p * p <= q * q) by (nonlinear_arith)
        requires
            0 <= p <= q,
    ;
}

proof fn lemma_cancel_factor(p: int, q: int, k: int)
    requires
        k > 0,
        p * k <= q * k,
    ensures
        p <= q,
{
    assert(p <= q) by (nonlinear_arith)
        requires
            k > 0,
            p * k <= q * k,
    ;
}

/// Rescaling never yields a vector longer than the requested length.
pub proof fn lemma_scale_to_len(v: IVec, l: int)
    requires
        l >= 0,
    ensures
        len2(scale_to(v, l)) <= l * l,
        abs(scale_to(v, l).0) <= l,
        abs(scale_to(v, l).1) <= l,
        scale_to(mirror(v), l) == mirror(scale_to(v, l)),
{
    lemma_len2_nonneg(v);
    if v != (0int, 0int) {
        let n = len2(v);
        let c = ceil_sqrt(n);
        lemma_ceil_sqrt(n);
        lemma_ceil_sqrt_pos(n);
        let rx = trunc_div(v.0 * l, c);
        let ry = trunc_div(v.1 * l, c);
        lemma_trunc_div_bound(v.0 * l, c);
        lemma_trunc_div_bound(v.1 * l, c);
        let ax = abs(v.0);
        let ay = abs(v.1);
        assert(abs(v.0 * l) == ax * l) by (nonlinear_arith)
            requires
                l >= 0,
                ax == if v.0 >= 0 { v.0 } else { -v.0 },
        ;
        assert(abs(v.1 * l) == ay * l) by (nonlinear_arith)
            requires
                l >= 0,
                ay == if v.1 >= 0 { v.1 } else { -v.1 },
        ;
        let bx = abs(rx);
        let by_ = abs(ry);
        assert(ax * ax + ay * ay == n) by (nonlinear_arith)
            requires
                n == v.0 * v.0 + v.1 * v.1,
                ax == if v.0 >= 0 { v.0 } else { -v.0 },
                ay == if v.1 >= 0 { v.1 } else { -v.1 },
        ;
        lemma_square_monotone(bx * c, ax * l);
        lemma_square_monotone(by_ * c, ay * l);
        assert(bx * c * (bx * c) == (bx * bx) * (c * c)) by (nonlinear_arith);
        assert(ax * l * (ax * l) == (ax * ax) * (l * l)) by (nonlinear_arith);
        assert(by_ * c * (by_ * c) == (by_ * by_) * (c * c)) by (nonlinear_arith);
        assert(ay * l * (ay * l) == (ay * ay) * (l * l)) by (nonlinear_arith);
        let b2 = bx * bx + by_ * by_;
        assert(b2 * (c * c) == (bx * bx) * (c * c) + (by_ * by_) * (c * c)) by (nonlinear_arith)
            requires
                b2 == bx * bx + by_ * by_,
        ;
        assert(n * (l * l) == (ax * ax) * (l * l) + (ay * ay) * (l * l)) by (nonlinear_arith)
            requires
                n == ax * ax + ay * ay,
        ;
        assert(l * l >= 0) by (nonlinear_arith);
        assert(n * (l * l) <= (c * c) * (l * l)) by (nonlinear_arith)
            requires
                n <= c * c,
                l * l >= 0,
        ;
        assert((l * l) * (c * c) == (c * c) * (l * l)) by (nonlinear_arith);
        assert(c * c > 0) by (nonlinear_arith)
            requires
                c > 0,
        ;
        lemma_cancel_factor(b2, l * l, c * c);
        assert(rx * rx == bx * bx && ry * ry == by_ * by_) by (nonlinear_arith)
            requires
                bx == if rx >= 0 { rx } else { -rx },
                by_ == if ry >= 0 { ry } else { -ry },
        ;
        lemma_component_bound(scale_to(v, l), l);
        let m = mirror(v);
        assert(len2(m) == n) by (nonlinear_arith)
            requires
                m.0 == -v.0,
                m.1 == v.1,
                n == v.0 * v.0 + v.1 * v.1,
        ;
        assert(m.0 * l == -(v.0 * l)) by (nonlinear_arith)
            requires
                m.0 == -v.0,
        ;
        lemma_trunc_div_bound(v.0 * l, c);
    }
}

/// Clamping never yields a vector longer than the bound, and commutes with mirroring.
pub proof fn lemma_clamp_len(v: IVec, m: int)
    requires
        m >= 0,
    ensures
        len2(clamp_len(v, m)) <= m * m,
        abs(clamp_len(v, m).0) <= m,
        abs(clamp_len(v, m).1) <= m,
        clamp_len(mirror(v), m) == mirror(clamp_len(v, m)),
{
    lemma_scale_to_len(v, m);
    assert(len2(mirror(v)) == len2(v)) by (nonlinear_arith);
    lemma_component_bound(clamp_len(v, m), m);
}

/// Squared distance between two stored points.
pub fn distance_squared(a: Vec2, b: Vec2) -> (r: i128)
    requires
        a.bounded(),
        b.bounded(),
    ensures
        r == dist2(a@, b@),
        0 <= r <= 0x2000_0000_0000_0000,
{
    let dx = a.x as i128 - b.x as i128;
    let dy = a.y as i128 - b.y as i128;
    assert(0 <= dx * dx <= 0x4000_0000 * 0x4000_0000) by (nonlinear_arith)
        requires
            -0x2000_0000 <= dx <= 0x2000_0000,
    ;
    assert(0 <= dy * dy <= 0x4000_0000 * 0x4000_0000) by (nonlinear_arith)
        requires
            -0x2000_0000 <= dy <= 0x2000_0000,
    ;
    dx * dx + dy * dy
}

/// Squared length of a vector whose components fit the wide range.
pub fn length_squared(x: i128, y: i128) -> (r: u128)
    requires
        -WIDE_LIMIT <= x <= WIDE_LIMIT,
        -WIDE_LIMIT <= y <= WIDE_LIMIT,
    ensures
        r == len2((x as int, y as int)),
{
    assert(x * x <= WIDE_LIMIT * WIDE_LIMIT) by (nonlinear_arith)
        requires
            -WIDE_LIMIT <= x <= WIDE_LIMIT,
    ;
    assert(y * y <= WIDE_LIMIT * WIDE_LIMIT) by (nonlinear_arith)
        requires
            -WIDE_LIMIT <= y <= WIDE_LIMIT,
    ;
    assert(x * x >= 0 && y * y >= 0) by (nonlinear_arith);
    let xx = (x * x) as u128;
    let yy = (y * y) as u128;
    xx + yy
}

/// Least non-negative integer whose square reaches `n`.
pub fn ceil_sqrt_u128(n: u128) -> (r: u128)
    requires
        n <= 2 * (WIDE_LIMIT * WIDE_LIMIT),
    ensures
        r == ceil_sqrt(n as int),
        r <= 0x8000_0000_0000_0000,
{
    let mut lo: u128 = 0;
    let mut hi: u128 = 0x8000_0000_0000_0000;
    while lo < hi
        invariant
            lo <= hi <= 0x8000_0000_0000_0000,
            hi * hi >= n,
            lo == 0 || (lo - 1) * (lo - 1) < n,
        decreases hi - lo,
    {
        let mid = lo + (hi - lo) / 2;
        assert(mid * mid <= 0x8000_0000_0000_0000u128 * 0x8000_0000_0000_0000u128) by (nonlinear_arith)
            requires
                mid <= 0x8000_0000_0000_0000u128,
        ;
        if mid * mid >= n {
            hi = mid;
        } else {
            lo = mid + 1;
        }
    }
    proof {
        lemma_ceil_sqrt(n as int);
        lemma_ceil_sqrt_unique(n as int, lo as int, ceil_sqrt(n as int));
    }
    lo
}

/// Division rounding toward zero by a positive divisor.
pub fn div_toward_zero(a: i128, b: i128) -> (r: i128)
    requires
        b > 0,
        a > i128::MIN,
    ensures
        r == trunc_div(a as int, b as int),
{
    if a >= 0 {
        a / b
    } else {
        let p = -a;
        assert(p / b <= p) by (nonlinear_arith)
            requires
                p >= 0,
                b > 0,
        ;
        -(p / b)
    }
}

/// Division rounding up, for a non-negative dividend and a positive divisor.
pub fn div_round_up(a: i128, b: i128) -> (r: i128)
    requires
        a >= 0,
        b > 0,
        a + b <= i128::MAX,
    ensures
        r == ceil_div(a as int, b as int),
{
    (a + b - 1) / b
}

/// `(x, y)` rescaled to length `l`; the zero vector stays zero.
pub fn scale_to_length(x: i128, y: i128, l: i128) -> (r: (i128, i128))
    requires
        -WIDE_LIMIT <= x <= WIDE_LIMIT,
        -WIDE_LIMIT <= y <= WIDE_LIMIT,
        0 <= l <= WIDE_LIMIT,
    ensures
        (r.0 as int, r.1 as int) == scale_to((x as int, y as int), l as int),
{
    if x == 0 && y == 0 {
        return (0, 0);
    }
    let n = length_squared(x, y);
    assert(n <= 2 * (WIDE_LIMIT * WIDE_LIMIT)) by (nonlinear_arith)
        requires
            n == x * x + y * y,
            -WIDE_LIMIT <= x <= WIDE_LIMIT,
            -WIDE_LIMIT <= y <= WIDE_LIMIT,
    ;
    let c = ceil_sqrt_u128(n);
    proof {
        lemma_len2_nonneg((x as int, y as int));
        lemma_ceil_sqrt_pos(n as int);
    }
    assert(x * l <= WIDE_LIMIT * WIDE_LIMIT && x * l >= -(WIDE_LIMIT * WIDE_LIMIT)) by (nonlinear_arith)
        requires
            -WIDE_LIMIT <= x <= WIDE_LIMIT,
            0 <= l <= WIDE_LIMIT,
    ;
    assert(y * l <= WIDE_LIMIT * WIDE_LIMIT && y * l >= -(WIDE_LIMIT * WIDE_LIMIT)) by (nonlinear_arith)
        requires
            -WIDE_LIMIT <= y <= WIDE_LIMIT,
            0 <= l <= WIDE_LIMIT,
    ;
    let rx = div_toward_zero(x * l, c as i128);
    let ry = div_toward_zero(y * l, c as i128);
    (rx, ry)
}

/// `(x, y)` unchanged when no longer than `m`, otherwise rescaled to length `m`.
pub fn clamp_length_max(x: i128, y: i128, m: i128) -> (r: (i128, i128))
    requires
        -WIDE_LIMIT <= x <= WIDE_LIMIT,
        -WIDE_LIMIT <= y <= WIDE_LIMIT,
        0 <= m <= WIDE_LIMIT,
    ensures
        (r.0 as int, r.1 as int) == clamp_len((x as int, y as int), m as int),
        abs(r.0 as int) <= m,
        abs(r.1 as int) <= m,
{
    let n = length_squared(x, y);
    proof {
        lemma_clamp_len((x as int, y as int), m as int);
    }
    assert(m * m <= WIDE_LIMIT * WIDE_LIMIT) by (nonlinear_arith)
        requires
            0 <= m <= WIDE_LIMIT,
    ;
    if n <= (m * m) as u128 {
        (x, y)
    } else {
        scale_to_length(x, y, m)
    }
}

} // verus!
