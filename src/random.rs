use vstd::prelude::*;
use crate::vector::{Vector, UNIT};

verus! {

/// Relies on rand's `Uniform::from(low..high)` sampled with `thread_rng()`:
/// a value in `[low, high)`. It panics on an empty range, which `requires`
/// rules out.
#[verifier::external_body]
pub fn num(range: (i64, i64)) -> (r: i64)
    requires
        range.0 < range.1,
    ensures
        range.0 <= r < range.1,
{
    rand::distributions::Distribution::sample(
        &rand::distributions::Uniform::from(range.0..range.1),
        &mut rand::thread_rng(),
    )
}

/// Number of points drawn before `random_heading` settles for a fixed one.
pub const HEADING_TRIES: u64 = 32;

/// Whether a drawn point lies in the ring between half a unit and one unit
/// from the origin.
pub open spec fn in_ring(v: Vector) -> bool {
    UNIT * UNIT <= 4 * v.sq_len() && v.sq_len() <= UNIT * UNIT
}

/// The heading a drawn point gives: its direction when it lies in the ring,
/// `None` otherwise.
pub fn heading_from_draw(x: i64, y: i64) -> (r: Option<Vector>)
    requires
        -UNIT <= x <= UNIT,
        -UNIT <= y <= UNIT,
    ensures
        r == (if in_ring(Vector { x, y }) {
            Some(Vector { x, y }.normalized())
        } else {
            None
        }),
        r matches Some(h) ==> h.is_heading() && h.is_unit_bounded(),
{
    let v = Vector { x, y };
    assert(0 <= x * x <= UNIT * UNIT && 0 <= y * y <= UNIT * UNIT) by (nonlinear_arith)
        requires
            -UNIT <= x <= UNIT,
            -UNIT <= y <= UNIT,
    ;
    let sq = x * x + y * y;
    if 4 * sq >= UNIT * UNIT && sq <= UNIT * UNIT {
        assert(!v.is_zero()) by (nonlinear_arith)
            requires
                v.x == x,
                v.y == y,
                4 * (x * x + y * y) >= 1_000_000,
        ;
        Some(v.normalize())
    } else {
        None
    }
}

/// A random unit direction, scaled to `UNIT`. Points are drawn uniformly
/// from the square around the origin until one falls in the ring between half
/// a unit and one unit from it, so every heading is equally likely, and that
/// point is normalised; should every try miss (odds below one in 10^12),
/// the heading along the x axis is taken.
pub fn random_heading() -> (r: Vector)
    ensures
        r.is_heading(),
        r.is_unit_bounded(),
        r == (Vector { x: UNIT, y: 0 }) || exists|v: Vector| in_ring(v) && r == v.normalized(),
{
    let mut tries: u64 = 0;
    while tries < HEADING_TRIES
        invariant
            tries <= HEADING_TRIES,
        decreases HEADING_TRIES - tries,
    {
        let x = num((-UNIT, UNIT + 1));
        let y = num((-UNIT, UNIT + 1));
        if let Some(h) = heading_from_draw(x, y) {
            return h;
        }
        tries = tries + 1;
    }
    assert(UNIT * UNIT == 1_000_000);
    Vector { x: UNIT, y: 0 }
}

/// `n` random headings, drawn one after another.
pub fn random_headings(n: usize) -> (r: Vec<Vector>)
    ensures
        r@.len() == n,
        forall|i: int|
            0 <= i < r@.len() ==> (#[trigger] r@[i]).is_unit_bounded() && r@[i].is_heading(),
{
    let mut headings: Vec<Vector> = Vec::new();
    let mut i: usize = 0;
    while i < n
        invariant
            headings@.len() == i,
            i <= n,
            forall|k: int|
                0 <= k < headings@.len() ==> (#[trigger] headings@[k]).is_unit_bounded()
                    && headings@[k].is_heading(),
        decreases n - i,
    {
        headings.push(random_heading());
        i = i + 1;
    }
    headings
}

} // verus!
