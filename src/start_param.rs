use vstd::prelude::*;
use rand::Rng;
use crate::geometry::Vec2;

verus! {

/// Relies on `rand::Rng::gen_range` over `low..high` with `rand::thread_rng`: the value
/// drawn lies in `[low, high)` (the range is not empty, so the call does not panic).
#[verifier::external_body]
fn sample_between(low: i64, high: i64) -> (r: i64)
    requires
        low < high,
    ensures
        low <= r < high,
{
    rand::thread_rng().gen_range(low..high)
}

/// Whether `v` is a value that a range `[low, high)` can yield. A range with
/// `high <= low` is degenerate and yields `low`, as `Fixed(low)` would.
pub open spec fn in_range(low: i64, high: i64, v: i64) -> bool {
    if low < high {
        low <= v < high
    } else {
        v == low
    }
}

/// How an emission-time value is chosen: a fixed value, or a uniform draw from `[low, high)`.
#[derive(Clone, Copy, Debug)]
pub enum StartParam<T> {
    Fixed(T),
    UniformRange(T, T),
}

impl StartParam<i64> {
    /// Whether `v` is a value that resolving this descriptor can yield.
    pub open spec fn admits(self, v: i64) -> bool {
        match self {
            StartParam::Fixed(x) => v == x,
            StartParam::UniformRange(low, high) => in_range(low, high, v),
        }
    }

    /// Resolves the descriptor to a value: the fixed value itself, or one uniform draw from
    /// the range (no draw where the range is degenerate).
    pub fn resolve(&self) -> (r: i64)
        ensures
            self.admits(r),
    {
        match self {
            StartParam::Fixed(x) => *x,
            StartParam::UniformRange(low, high) => resolve_range(*low, *high),
        }
    }
}

impl StartParam<Vec2> {
    /// Whether `v` is a point that resolving this descriptor can yield; a range of points
    /// is drawn from component by component.
    pub open spec fn admits_point(self, v: Vec2) -> bool {
        match self {
            StartParam::Fixed(p) => v == p,
            StartParam::UniformRange(low, high) => in_range(low.x, high.x, v.x) && in_range(
                low.y,
                high.y,
                v.y,
            ),
        }
    }

    /// Resolves the descriptor to a point: the fixed point itself, or one draw for each
    /// component from the ranges that the two corners span.
    pub fn resolve_point(&self) -> (r: Vec2)
        ensures
            self.admits_point(r),
    {
        match self {
            StartParam::Fixed(p) => *p,
            StartParam::UniformRange(low, high) => {
                let x = resolve_range(low.x, high.x);
                let y = resolve_range(low.y, high.y);
                Vec2 { x, y }
            },
        }
    }
}

fn resolve_range(low: i64, high: i64) -> (r: i64)
    ensures
        in_range(low, high, r),
{
    if low < high {
        sample_between(low, high)
    } else {
        low
    }
}

} // verus!
