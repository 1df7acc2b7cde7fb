use vstd::prelude::*;

verus! {

/// Fixed-point scale of directions: a component equal to `UNIT` stands for 1.0.
pub const UNIT: i64 = 1000;

/// Largest magnitude a coordinate of a position may have.
pub const COORD_LIMIT: i64 = 1_000_000_000;

/// Largest magnitude a component of a difference of two positions may have.
pub const SPAN_LIMIT: i64 = 2_000_000_000;

/// The integer square root: the largest `r` with `r * r <= n`.
pub open spec fn sqrt_floor(n: nat) -> nat
    decreases n,
{
    if n == 0 {
        0
    } else {
        let r = sqrt_floor((n - 1) as nat);
        if (r + 1) * (r + 1) <= n {
            (r + 1) as nat
        } else {
            r
        }
    }
}

/// The smallest `r` with `n <= r * r`.
pub open spec fn sqrt_ceil(n: nat) -> nat {
    if sqrt_floor(n) * sqrt_floor(n) == n {
        sqrt_floor(n)
    } else {
        (sqrt_floor(n) + 1) as nat
    }
}

/// Division that rounds toward zero, as Rust's `/` does on signed integers.
pub open spec fn trunc_div(a: int, d: int) -> int {
    if a >= 0 {
        a / d
    } else {
        -((-a) / d)
    }
}

/// Squared Euclidean distance between two points.
pub open spec fn dist_sq(a: Vector, b: Vector) -> int {
    (a.x - b.x) * (a.x - b.x) + (a.y - b.y) * (a.y - b.y)
}

pub proof fn lemma_sqrt_floor_bounds(n: nat)
    ensures
        sqrt_floor(n) * sqrt_floor(n) <= n,
        n < (sqrt_floor(n) + 1) * (sqrt_floor(n) + 1),
    decreases n,
{
    if n > 0 {
        lemma_sqrt_floor_bounds((n - 1) as nat);
        let r = sqrt_floor((n - 1) as nat);
        let s = sqrt_floor(n);
        if (r + 1) * (r + 1) <= n {
            assert(s == r + 1);
            assert(n < (r + 2) * (r + 2)) by (nonlinear_arith)
                requires
                    n - 1 < (r + 1) * (r + 1),
                    r >= 0,
            ;
            assert(s * s <= n && n < (s + 1) * (s + 1)) by (nonlinear_arith)
                requires
                    s == r + 1,
                    (r + 1) * (r + 1) <= n,
                    n < (r + 2) * (r + 2),
            ;
        } else {
            assert(s == r);
            assert(n < (s + 1) * (s + 1));
        }
    } else {
        assert(sqrt_floor(0) == 0);
        assert(0 < (0 + 1) * (0 + 1)) by (nonlinear_arith);
    }
}

proof fn lemma_square_monotonic(a: int, b: int)
    requires
        0 <= a <= b,
    ensures
        a * a <= b * b,
{
    assert(a * a <= b * b) by (nonlinear_arith)
        requires
            0 <= a <= b,
    ;
}

/// Any `r` that brackets `n` between two consecutive squares is its integer root.
pub proof fn lemma_sqrt_floor_unique(n: nat, r: int)
    requires
        0 <= r,
        r * r <= n,
        n < (r + 1) * (r + 1),
    ensures
        r == sqrt_floor(n),
{
    lemma_sqrt_floor_bounds(n);
    let s = sqrt_floor(n) as int;
    if r < s {
        lemma_square_monotonic(r + 1, s);
    } else if r > s {
        lemma_square_monotonic(s + 1, r);
    }
}

/// Bound below which `isqrt` takes its argument: 2^84.
pub const ISQRT_LIMIT: u128 = 19342813113834066795298816;

/// Integer square root of `n`.
pub fn isqrt(n: u128) -> (r: u128)
    requires
        n < ISQRT_LIMIT,
    ensures
        r == sqrt_floor(n as nat),
        r < 4398046511104,
{
    let mut lo: u128 = 0;
    let mut hi: u128 = 4398046511104;
    assert(n < 4398046511104 * 4398046511104);
    while hi - lo > 1
        invariant
            lo < hi <= 4398046511104,
            lo * lo <= n,
            n < hi * hi,
        decreases hi - lo,
    {
        let mid: u128 = lo + (hi - lo) / 2;
        assert(mid * mid < 4398046511104 * 4398046511104) by (nonlinear_arith)
            requires
                mid < 4398046511104,
        ;
        if mid * mid <= n {
            lo = mid;
        } else {
            hi = mid;
        }
    }
    proof {
        lemma_sqrt_floor_unique(n as nat, lo as int);
    }
    lo
}

/// Smallest `r` with `n <= r * r`.
pub fn isqrt_ceil(n: u128) -> (r: u128)
    requires
        n < ISQRT_LIMIT,
    ensures
        r == sqrt_ceil(n as nat),
{
    let f = isqrt(n);
    proof {
        lemma_sqrt_floor_bounds(n as nat);
    }
    if f * f == n {
        f
    } else {
        f + 1
    }
}

/// Magnitude of a signed integer.
fn magnitude(a: i64) -> (r: u64)
    requires
        a > i64::MIN,
    ensures
        r == (if a >= 0 { a as int } else { -a }),
{
    if a >= 0 {
        a as u64
    } else {
        (-a) as u64
    }
}

/// Divides `a` by a positive `d`, rounding toward zero.
pub fn div_trunc(a: i64, d: i64) -> (r: i64)
    requires
        a > i64::MIN,
        d > 0,
    ensures
        r == trunc_div(a as int, d as int),
{
    let q: u64 = magnitude(a) / (d as u64);
    proof {
        vstd::arithmetic::div_mod::lemma_div_is_ordered_by_denominator(
            if a >= 0 { a as int } else { -a },
            1,
            d as int,
        );
    }
    if a >= 0 {
        q as i64
    } else {
        -(q as i64)
    }
}

/// A two-dimensional integer vector: a position, a displacement or a
/// fixed-point direction.
#[derive(Clone, Copy, Debug, PartialEq, Eq, Structural)]
pub struct Vector {
    pub x: i64,
    pub y: i64,
}

impl Vector {
    /// Both coordinates lie within `COORD_LIMIT` of the origin.
    pub open spec fn in_bounds(self) -> bool {
        -COORD_LIMIT <= self.x <= COORD_LIMIT && -COORD_LIMIT <= self.y <= COORD_LIMIT
    }

    /// Both components lie within `SPAN_LIMIT` of zero.
    pub open spec fn in_span(self) -> bool {
        -SPAN_LIMIT <= self.x <= SPAN_LIMIT && -SPAN_LIMIT <= self.y <= SPAN_LIMIT
    }

    /// Both components are at most one unit in magnitude.
    pub open spec fn is_unit_bounded(self) -> bool {
        -UNIT <= self.x <= UNIT && -UNIT <= self.y <= UNIT
    }

    pub open spec fn is_zero(self) -> bool {
        self.x == 0 && self.y == 0
    }

    pub open spec fn sq_len(self) -> int {
        self.x * self.x + self.y * self.y
    }

    /// Integer length of the vector.
    pub open spec fn len_floor(self) -> int {
        sqrt_floor(self.sq_len() as nat) as int
    }

    /// The length scaled by `UNIT`, rounded up.
    pub open spec fn fine_len(self) -> int {
        sqrt_ceil((self.sq_len() * (UNIT * UNIT)) as nat) as int
    }

    /// The direction of a non-zero vector, scaled to `UNIT`: each component
    /// times `UNIT * UNIT`, divided by the length scaled by `UNIT`, rounded
    /// toward zero.
    pub open spec fn normalized(self) -> Vector {
        Vector {
            x: trunc_div(self.x * (UNIT * UNIT), self.fine_len()) as i64,
            y: trunc_div(self.y * (UNIT * UNIT), self.fine_len()) as i64,
        }
    }

    /// A direction of unit length, up to rounding: its length lies between
    /// `UNIT - 4` and `UNIT`.
    pub open spec fn is_heading(self) -> bool {
        (UNIT - 4) * (UNIT - 4) <= self.sq_len() <= UNIT * UNIT
    }

    /// The vector scaled by the fixed-point factor `val / UNIT`, each
    /// component rounded toward zero.
    pub open spec fn scaled(self, val: int) -> Vector {
        Vector { x: trunc_div(self.x * val, UNIT as int) as i64, y: trunc_div(self.y * val, UNIT as int) as i64 }
    }

    pub fn new(x: i64, y: i64) -> (r: Vector)
        ensures
            r == (Vector { x, y }),
    {
        Vector { x, y }
    }

    /// Sum `self + other`.
    pub fn add(&self, other: &Vector) -> (r: Vector)
        requires
            self.in_bounds(),
            other.in_bounds(),
        ensures
            r.x == self.x + other.x,
            r.y == self.y + other.y,
            r.in_span(),
    {
        Vector { x: self.x + other.x, y: self.y + other.y }
    }

    /// Difference `self - other`.
    pub fn sub(&self, other: &Vector) -> (r: Vector)
        requires
            self.in_bounds(),
            other.in_bounds(),
        ensures
            r.x == self.x - other.x,
            r.y == self.y - other.y,
            r.in_span(),
    {
        Vector { x: self.x - other.x, y: self.y - other.y }
    }

    /// Squared distance between two points.
    pub fn squared_distance(&self, other: &Vector) -> (r: u64)
        requires
            self.in_bounds(),
            other.in_bounds(),
        ensures
            r == dist_sq(*self, *other),
    {
        let d = self.sub(other);
        proof {
            lemma_square_bound(d.x as int);
            lemma_square_bound(d.y as int);
        }
        let dx: u64 = (d.x * d.x) as u64;
        let dy: u64 = (d.y * d.y) as u64;
        dx + dy
    }

    /// Integer length of the vector.
    pub fn sqrt_magnitude(&self) -> (r: u64)
        requires
            self.in_span(),
        ensures
            r == self.len_floor(),
    {
        proof {
            lemma_square_bound(self.x as int);
            lemma_square_bound(self.y as int);
        }
        let sq: u64 = (self.x * self.x) as u64 + (self.y * self.y) as u64;
        let r = isqrt(sq as u128);
        proof {
            lemma_sqrt_floor_bounds(sq as nat);
            if r >= 4294967296 {
                lemma_square_monotonic(4294967296, r as int);
            }
        }
        r as u64
    }

    /// The direction of the vector, scaled to `UNIT` and of unit length up
    /// to rounding. A zero vector has no direction, so callers must rule it
    /// out.
    pub fn normalize(&self) -> (r: Vector)
        requires
            self.in_span(),
            !self.is_zero(),
        ensures
            r == self.normalized(),
            r.is_unit_bounded(),
            r.is_heading(),
    {
        proof {
            lemma_square_bound(self.x as int);
            lemma_square_bound(self.y as int);
            lemma_normalized_heading(*self);
        }
        let sq: u128 = (self.x * self.x) as u128 + (self.y * self.y) as u128;
        let len = isqrt_ceil(sq * 1_000_000);
        let x = div_trunc(self.x * 1_000_000, len as i64);
        let y = div_trunc(self.y * 1_000_000, len as i64);
        Vector { x, y }
    }

    /// The vector scaled by the fixed-point factor `val / UNIT`.
    pub fn multiply_float(&self, val: i64) -> (r: Vector)
        requires
            self.is_unit_bounded(),
            -COORD_LIMIT <= val <= COORD_LIMIT,
        ensures
            r == self.scaled(val as int),
            -COORD_LIMIT <= r.x <= COORD_LIMIT,
            -COORD_LIMIT <= r.y <= COORD_LIMIT,
    {
        proof {
            lemma_unit_product(self.x as int, val as int);
            lemma_unit_product(self.y as int, val as int);
        }
        let x = div_trunc(self.x * val, UNIT);
        let y = div_trunc(self.y * val, UNIT);
        Vector { x, y }
    }
}

proof fn lemma_square_bound(a: int)
    requires
        -SPAN_LIMIT <= a <= SPAN_LIMIT,
    ensures
        0 <= a * a <= SPAN_LIMIT * SPAN_LIMIT,
{
    assert(0 <= a * a <= SPAN_LIMIT * SPAN_LIMIT) by (nonlinear_arith)
        requires
            -SPAN_LIMIT <= a <= SPAN_LIMIT,
    ;
}

/// A unit-bounded component times a bounded factor, divided by `UNIT`, stays
/// within the factor's bound.
proof fn lemma_unit_product(a: int, val: int)
    requires
        -UNIT <= a <= UNIT,
        -COORD_LIMIT <= val <= COORD_LIMIT,
    ensures
        -UNIT * COORD_LIMIT <= a * val <= UNIT * COORD_LIMIT,
        -COORD_LIMIT <= trunc_div(a * val, UNIT as int) <= COORD_LIMIT,
{
    assert(-UNIT * COORD_LIMIT <= a * val <= UNIT * COORD_LIMIT) by (nonlinear_arith)
        requires
            -UNIT <= a <= UNIT,
            -COORD_LIMIT <= val <= COORD_LIMIT,
    ;
    let p = a * val;
    let m = if p >= 0 { p } else { -p };
    vstd::arithmetic::div_mod::lemma_div_is_ordered(m, UNIT * COORD_LIMIT, UNIT as int);
    vstd::arithmetic::div_mod::lemma_div_multiples_vanish(COORD_LIMIT as int, UNIT as int);
    vstd::arithmetic::div_mod::lemma_div_pos_is_pos(m, UNIT as int);
}

/// Rounding a vector of integer length at least one to `UNIT` scale: with
/// `l` the rounded-up root of `(a² + b²) * UNIT²`, the components
/// `a * UNIT² / l` and `b * UNIT² / l` form a vector whose length lies
/// between `UNIT - 4` and `UNIT`.
proof fn lemma_rounded_unit(a: int, b: int, l: int)
    requires
        a >= 0,
        b >= 0,
        a * a + b * b >= 1,
        l >= 1,
        (l - 1) * (l - 1) < (a * a + b * b) * 1_000_000 <= l * l,
    ensures
        (a * 1_000_000 / l) * (a * 1_000_000 / l) + (b * 1_000_000 / l) * (b * 1_000_000 / l) <= 1_000_000,
        996 * 996 <= (a * 1_000_000 / l) * (a * 1_000_000 / l) + (b * 1_000_000 / l) * (b * 1_000_000 / l),
{
    let aa = a * 1_000_000;
    let bb = b * 1_000_000;
    let n = (a * a + b * b) * 1_000_000;
    assert(aa * aa + bb * bb == 1_000_000 * n) by (nonlinear_arith)
        requires
            aa == a * 1_000_000,
            bb == b * 1_000_000,
            n == (a * a + b * b) * 1_000_000,
    ;
    assert(aa >= 0 && bb >= 0) by (nonlinear_arith)
        requires
            a >= 0,
            b >= 0,
            aa == a * 1_000_000,
            bb == b * 1_000_000,
    ;
    let x = aa / l;
    let y = bb / l;
    vstd::arithmetic::div_mod::lemma_fundamental_div_mod(aa, l);
    vstd::arithmetic::div_mod::lemma_fundamental_div_mod(bb, l);
    vstd::arithmetic::div_mod::lemma_mod_bound(aa, l);
    vstd::arithmetic::div_mod::lemma_mod_bound(bb, l);
    vstd::arithmetic::div_mod::lemma_div_pos_is_pos(aa, l);
    vstd::arithmetic::div_mod::lemma_div_pos_is_pos(bb, l);
    assert(x * l <= aa && (x + 1) * l > aa) by (nonlinear_arith)
        requires
            aa == l * x + aa % l,
            0 <= aa % l < l,
    ;
    assert(y * l <= bb && (y + 1) * l > bb) by (nonlinear_arith)
        requires
            bb == l * y + bb % l,
            0 <= bb % l < l,
    ;
    let l2 = l * l;
    assert(x * x * l2 <= aa * aa && (x + 1) * (x + 1) * l2 > aa * aa) by (nonlinear_arith)
        requires
            x >= 0,
            l >= 1,
            aa >= 0,
            l2 == l * l,
            x * l <= aa,
            (x + 1) * l > aa,
    ;
    assert(y * y * l2 <= bb * bb && (y + 1) * (y + 1) * l2 > bb * bb) by (nonlinear_arith)
        requires
            y >= 0,
            l >= 1,
            bb >= 0,
            l2 == l * l,
            y * l <= bb,
            (y + 1) * l > bb,
    ;
    let s = x * x + y * y;
    let t = (x + 1) * (x + 1) + (y + 1) * (y + 1);
    assert(s * l2 <= 1_000_000 * l2) by (nonlinear_arith)
        requires
            s == x * x + y * y,
            x * x * l2 <= aa * aa,
            y * y * l2 <= bb * bb,
            aa * aa + bb * bb == 1_000_000 * n,
            n <= l2,
    ;
    assert(s <= 1_000_000) by (nonlinear_arith)
        requires
            s * l2 <= 1_000_000 * l2,
            l2 >= 1,
    ;
    assert(l >= 1000) by (nonlinear_arith)
        requires
            n <= l * l,
            n >= 1_000_000,
            l >= 1,
    ;
    assert(t * l2 > 1_000_000 * ((l - 1) * (l - 1))) by (nonlinear_arith)
        requires
            t == (x + 1) * (x + 1) + (y + 1) * (y + 1),
            (x + 1) * (x + 1) * l2 > aa * aa,
            (y + 1) * (y + 1) * l2 > bb * bb,
            aa * aa + bb * bb == 1_000_000 * n,
            (l - 1) * (l - 1) < n,
    ;
    assert(t >= 998001) by (nonlinear_arith)
        requires
            t * l2 > 1_000_000 * ((l - 1) * (l - 1)),
            l2 == l * l,
            l >= 1000,
    ;
    assert(x <= 1000 && y <= 1000) by (nonlinear_arith)
        requires
            x * x + y * y <= 1_000_000,
            x >= 0,
            y >= 0,
    ;
    assert(996 * 996 <= s) by (nonlinear_arith)
        requires
            s == x * x + y * y,
            t == (x + 1) * (x + 1) + (y + 1) * (y + 1),
            t >= 998001,
            x <= 1000,
            y <= 1000,
    ;
}

/// The normalised form of a non-zero vector within the span is a heading,
/// and its scaled length fits the integer types used to compute it.
proof fn lemma_normalized_heading(v: Vector)
    requires
        v.in_span(),
        !v.is_zero(),
    ensures
        v.normalized().is_heading(),
        v.normalized().is_unit_bounded(),
        1000 <= v.fine_len() <= 3_000_000_000_000,
        0 <= v.sq_len() * 1_000_000 < ISQRT_LIMIT,
        -SPAN_LIMIT * 1_000_000 <= v.x * 1_000_000 <= SPAN_LIMIT * 1_000_000,
        -SPAN_LIMIT * 1_000_000 <= v.y * 1_000_000 <= SPAN_LIMIT * 1_000_000,
{
    lemma_square_bound(v.x as int);
    lemma_square_bound(v.y as int);
    let a = if v.x >= 0 { v.x as int } else { -v.x };
    let b = if v.y >= 0 { v.y as int } else { -v.y };
    assert(a * a == v.x * v.x && b * b == v.y * v.y) by (nonlinear_arith)
        requires
            a == v.x || a == -v.x,
            b == v.y || b == -v.y,
    ;
    assert(a * a + b * b >= 1) by (nonlinear_arith)
        requires
            a >= 0,
            b >= 0,
            a != 0 || b != 0,
    ;
    let n = (v.sq_len() * 1_000_000) as nat;
    assert(v.sq_len() * (UNIT * UNIT) == v.sq_len() * 1_000_000);
    lemma_sqrt_floor_bounds(n);
    let f = sqrt_floor(n) as int;
    let l = v.fine_len();
    assert(n >= 1_000_000) by (nonlinear_arith)
        requires
            n == v.sq_len() * 1_000_000,
            v.sq_len() == a * a + b * b,
            a * a + b * b >= 1,
    ;
    if f * f == n {
        assert(l == f);
        assert(f >= 1) by (nonlinear_arith)
            requires
                f * f == n,
                n >= 1,
                f >= 0,
        ;
        assert((l - 1) * (l - 1) < n) by (nonlinear_arith)
            requires
                l * l == n,
                l >= 1,
        ;
    } else {
        assert(l == f + 1);
        assert((l - 1) * (l - 1) < n <= l * l);
    }
    assert(l >= 1000) by (nonlinear_arith)
        requires
            n <= l * l,
            n >= 1_000_000,
            l >= 0,
    ;
    assert(l <= 3_000_000_000_000) by (nonlinear_arith)
        requires
            (l - 1) * (l - 1) < n,
            n <= 8_000_000_000_000_000_000_000_000,
    ;
    lemma_rounded_unit(a, b, l);
    let ua = a * 1_000_000;
    let ub = b * 1_000_000;
    assert(v.x * 1_000_000 == ua || v.x * 1_000_000 == -ua) by (nonlinear_arith)
        requires
            a == v.x || a == -v.x,
            ua == a * 1_000_000,
    ;
    assert(v.y * 1_000_000 == ub || v.y * 1_000_000 == -ub) by (nonlinear_arith)
        requires
            b == v.y || b == -v.y,
            ub == b * 1_000_000,
    ;
    assert(ua >= 0 && ub >= 0) by (nonlinear_arith)
        requires
            a >= 0,
            b >= 0,
            ua == a * 1_000_000,
            ub == b * 1_000_000,
    ;
    let r = v.normalized();
    assert(r.x == ua / l || r.x == -(ua / l));
    assert(r.y == ub / l || r.y == -(ub / l));
    assert(r.sq_len() == (ua / l) * (ua / l) + (ub / l) * (ub / l)) by (nonlinear_arith)
        requires
            r.x == ua / l || r.x == -(ua / l),
            r.y == ub / l || r.y == -(ub / l),
    ;
    assert(r.is_unit_bounded()) by (nonlinear_arith)
        requires
            r.x * r.x + r.y * r.y <= 1_000_000,
    ;
    assert(-SPAN_LIMIT * 1_000_000 <= v.x * 1_000_000 <= SPAN_LIMIT * 1_000_000
        && -SPAN_LIMIT * 1_000_000 <= v.y * 1_000_000 <= SPAN_LIMIT * 1_000_000) by (nonlinear_arith)
        requires
            v.in_span(),
    ;
}

} // verus!
