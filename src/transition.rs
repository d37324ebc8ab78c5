use vstd::prelude::*;
use vstd::arithmetic::div_mod::{lemma_div_is_ordered, lemma_div_pos_is_pos, lemma_div_by_multiple};
use vstd::arithmetic::mul::lemma_mul_inequality;
use crate::geometry::Vec2;

verus! {

/// The integer that stands for normalized time 1; normalized times run over `0..=NORM_ONE`.
pub const NORM_ONE: u64 = 1_000_000;

/// A normalized time clamped into `0..=NORM_ONE`.
pub open spec fn clamp_norm(f: int) -> int {
    if f < 0 {
        0
    } else if f > NORM_ONE as int {
        NORM_ONE as int
    } else {
        f
    }
}

/// Linear interpolation from `a` to `b` at fraction `f / NORM_ONE`, rounded toward `a`.
pub open spec fn lerp(a: int, b: int, f: int) -> int {
    if a <= b {
        a + (b - a) * f / (NORM_ONE as int)
    } else {
        a - (a - b) * f / (NORM_ONE as int)
    }
}

/// `x * NORM_ONE / y` stays within `0..=NORM_ONE` when `0 <= x <= y`.
pub(crate) proof fn lemma_scale_to_norm(x: int, y: int)
    requires
        0 <= x <= y,
        0 < y,
    ensures
        0 <= x * (NORM_ONE as int) / y <= NORM_ONE as int,
{
    let n = NORM_ONE as int;
    lemma_mul_inequality(x, y, n);
    lemma_div_is_ordered(x * n, y * n, y);
    lemma_div_by_multiple(n, y);
    assert(y * n == n * y) by (nonlinear_arith);
    lemma_div_pos_is_pos(x * n, y);
}

/// `d * f / NORM_ONE` stays within `0..=d` when `0 <= f <= NORM_ONE`.
proof fn lemma_scale_from_norm(d: int, f: int)
    requires
        0 <= d,
        0 <= f <= NORM_ONE as int,
    ensures
        0 <= d * f / (NORM_ONE as int) <= d,
{
    let n = NORM_ONE as int;
    assert(d * f <= d * n) by (nonlinear_arith)
        requires
            0 <= d,
            f <= n,
    ;
    assert(0 <= d * f) by (nonlinear_arith)
        requires
            0 <= d,
            0 <= f,
    ;
    lemma_div_is_ordered(d * f, d * n, n);
    lemma_div_by_multiple(d, n);
    lemma_div_pos_is_pos(d * f, n);
}

/// `lerp` lies between its two ends.
proof fn lemma_lerp_between(a: int, b: int, f: int)
    requires
        0 <= f <= NORM_ONE as int,
    ensures
        a <= b ==> a <= lerp(a, b, f) <= b,
        b < a ==> b <= lerp(a, b, f) <= a,
{
    if a <= b {
        lemma_scale_from_norm(b - a, f);
    } else {
        lemma_scale_from_norm(a - b, f);
    }
}

/// The product of a gap between two `i64` values and a normalized fraction fits in a `u128`.
proof fn lemma_scaled_gap_fits(d: int, f: int)
    requires
        0 <= d <= 0x1_0000_0000_0000_0000,
        0 <= f <= NORM_ONE as int,
    ensures
        0 <= d * f <= 0x1_0000_0000_0000_0000 * (NORM_ONE as int),
{
    assert(0 <= d * f <= 0x1_0000_0000_0000_0000 * (NORM_ONE as int)) by (nonlinear_arith)
        requires
            0 <= d <= 0x1_0000_0000_0000_0000,
            0 <= f <= NORM_ONE as int,
    ;
}

fn lerp_i64(a: i64, b: i64, f: u64) -> (r: i64)
    requires
        f <= NORM_ONE,
    ensures
        r == lerp(a as int, b as int, f as int),
{
    proof {
        lemma_lerp_between(a as int, b as int, f as int);
    }
    if a <= b {
        let d: u128 = (b as i128 - a as i128) as u128;
        proof {
            lemma_scaled_gap_fits(d as int, f as int);
        }
        let q: u128 = d * (f as u128) / (NORM_ONE as u128);
        (a as i128 + q as i128) as i64
    } else {
        let d: u128 = (a as i128 - b as i128) as u128;
        proof {
            lemma_scaled_gap_fits(d as int, f as int);
        }
        let q: u128 = d * (f as u128) / (NORM_ONE as u128);
        (a as i128 - q as i128) as i64
    }
}

fn clamp_fraction(f: u64) -> (r: u64)
    ensures
        r == clamp_norm(f as int),
{
    if f > NORM_ONE {
        NORM_ONE
    } else {
        f
    }
}

/// A value that can be blended with another one at a normalized fraction.
pub trait Interpolate: Sized + Copy {
    /// The value `f / NORM_ONE` of the way from `a` to `b`, for `f` in `0..=NORM_ONE`.
    spec fn blend(a: Self, b: Self, f: int) -> Self;

    /// Blends `self` toward `other`; a fraction above `NORM_ONE` saturates at `NORM_ONE`.
    fn interp(&self, other: &Self, f: u64) -> (r: Self)
        ensures
            r == Self::blend(*self, *other, clamp_norm(f as int)),
    ;
}

impl Interpolate for i64 {
    open spec fn blend(a: i64, b: i64, f: int) -> i64 {
        lerp(a as int, b as int, f) as i64
    }

    fn interp(&self, other: &i64, f: u64) -> (r: i64) {
        lerp_i64(*self, *other, clamp_fraction(f))
    }
}

impl Interpolate for u32 {
    open spec fn blend(a: u32, b: u32, f: int) -> u32 {
        lerp(a as int, b as int, f) as u32
    }

    fn interp(&self, other: &u32, f: u64) -> (r: u32) {
        let f = clamp_fraction(f);
        proof {
            lemma_lerp_between(*self as int, *other as int, f as int);
        }
        lerp_i64(*self as i64, *other as i64, f) as u32
    }
}

impl Interpolate for Vec2 {
    open spec fn blend(a: Vec2, b: Vec2, f: int) -> Vec2 {
        Vec2 { x: lerp(a.x as int, b.x as int, f) as i64, y: lerp(a.y as int, b.y as int, f) as i64 }
    }

    fn interp(&self, other: &Vec2, f: u64) -> (r: Vec2) {
        let f = clamp_fraction(f);
        Vec2 { x: lerp_i64(self.x, other.x, f), y: lerp_i64(self.y, other.y, f) }
    }
}

/// Breakpoints sorted by strictly increasing time, every time within `0..=NORM_ONE`.
pub open spec fn sorted_points<T>(s: Seq<(u64, T)>) -> bool {
    &&& forall|i: int, j: int| 0 <= i < j < s.len() ==> #[trigger] s[i].0 < #[trigger] s[j].0
    &&& forall|i: int| 0 <= i < s.len() ==> #[trigger] s[i].0 <= NORM_ONE
}

/// The index of the breakpoint that opens the segment holding `c`.
pub open spec fn segment_of<T>(s: Seq<(u64, T)>, c: int) -> int {
    choose|i: int| 0 <= i < s.len() - 1 && s[i].0 <= c < #[trigger] s[i + 1].0
}

/// The value of a breakpoint curve at normalized time `t`: `None` without breakpoints;
/// the edge value outside the breakpoints' span (after clamping `t`); otherwise the blend
/// across the segment holding `t`, at the fraction of that segment already covered.
pub open spec fn curve_value<T: Interpolate>(s: Seq<(u64, T)>, t: int) -> Option<T> {
    if s.len() == 0 {
        None
    } else {
        let c = clamp_norm(t);
        if c <= s[0].0 {
            Some(s[0].1)
        } else if c >= s.last().0 {
            Some(s.last().1)
        } else {
            let i = segment_of(s, c);
            Some(
                T::blend(
                    s[i].1,
                    s[i + 1].1,
                    (c - s[i].0) * (NORM_ONE as int) / (s[i + 1].0 - s[i].0),
                ),
            )
        }
    }
}

/// A curve over normalized time, given by breakpoints `(time, value)`.
pub struct Transition<T> {
    breakpoints: Vec<(u64, T)>,
}

impl<T: Interpolate> Transition<T> {
    /// The breakpoints, in order of time.
    pub closed spec fn points(&self) -> Seq<(u64, T)> {
        self.breakpoints@
    }

    pub open spec fn wf(&self) -> bool {
        sorted_points(self.points())
    }

    /// A curve without breakpoints.
    pub fn new() -> (r: Transition<T>)
        ensures
            r.wf(),
            r.points() == Seq::<(u64, T)>::empty(),
    {
        Transition { breakpoints: Vec::new() }
    }

    /// The number of breakpoints.
    pub fn len(&self) -> (r: usize)
        ensures
            r == self.points().len(),
    {
        self.breakpoints.len()
    }

    /// Inserts a breakpoint at normalized time `t`, keeping the order of time. A breakpoint
    /// already at `t` is replaced; a time above `NORM_ONE` is ignored.
    pub fn add(&mut self, t: u64, val: T)
        requires
            old(self).wf(),
        ensures
            final(self).wf(),
            t > NORM_ONE ==> final(self).points() == old(self).points(),
            t <= NORM_ONE ==> forall|p: (u64, T)|
                #[trigger] final(self).points().contains(p) <==> (p == (t, val) || (old(
                    self,
                ).points().contains(p) && p.0 != t)),
    {
        if t > NORM_ONE {
            return;
        }
        let n = self.breakpoints.len();
        let mut i: usize = 0;
        while i < n && self.breakpoints[i].0 < t
            invariant
                i <= n,
                n == self.breakpoints@.len(),
                forall|j: int| 0 <= j < i ==> #[trigger] self.breakpoints@[j].0 < t,
            decreases n - i,
        {
            i = i + 1;
        }
        let ghost s = self.breakpoints@;
        if i < n && self.breakpoints[i].0 == t {
            self.breakpoints.set(i, (t, val));
            assert forall|p: (u64, T)| #[trigger]
                self.breakpoints@.contains(p) <==> (p == (t, val) || (s.contains(p) && p.0
                    != t)) by {
                if self.breakpoints@.contains(p) {
                    let k = choose|k: int| 0 <= k < self.breakpoints@.len() && self.breakpoints@[k] == p;
                    if k != i {
                        assert(s[k] == p);
                        assert(p.0 != t);
                    }
                }
                if s.contains(p) && p.0 != t {
                    let k = choose|k: int| 0 <= k < s.len() && s[k] == p;
                    assert(k != i);
                    assert(self.breakpoints@[k] == p);
                }
                if p == (t, val) {
                    assert(self.breakpoints@[i as int] == p);
                }
            }
        } else {
            proof {
                assert forall|j: int| i <= j < n implies #[trigger] s[j].0 > t by {
                    if j > i {
                        assert(s[i as int].0 < s[j].0);
                    }
                }
            }
            self.breakpoints.insert(i, (t, val));
            let ghost r = self.breakpoints@;
            assert(r == s.insert(i as int, (t, val)));
            assert forall|a: int, b: int| 0 <= a < b < r.len() implies #[trigger] r[a].0
                < #[trigger] r[b].0 by {
                if b < i {
                    assert(r[a] == s[a] && r[b] == s[b]);
                } else if b == i {
                    assert(r[a] == s[a]);
                } else if a < i {
                    assert(r[a] == s[a] && r[b] == s[b - 1]);
                } else if a == i {
                    assert(r[b] == s[b - 1]);
                } else {
                    assert(r[a] == s[a - 1] && r[b] == s[b - 1]);
                }
            }
            assert forall|a: int| 0 <= a < r.len() implies #[trigger] r[a].0 <= NORM_ONE by {
                if a < i {
                    assert(r[a] == s[a]);
                } else if a > i {
                    assert(r[a] == s[a - 1]);
                }
            }
            assert forall|p: (u64, T)| #[trigger]
                r.contains(p) <==> (p == (t, val) || (s.contains(p) && p.0 != t)) by {
                if r.contains(p) {
                    let k = choose|k: int| 0 <= k < r.len() && r[k] == p;
                    if k < i {
                        assert(s[k] == p);
                    } else if k > i {
                        assert(s[k - 1] == p);
                    }
                }
                if s.contains(p) && p.0 != t {
                    let k = choose|k: int| 0 <= k < s.len() && s[k] == p;
                    if k < i {
                        assert(r[k] == p);
                    } else {
                        assert(r[k + 1] == p);
                    }
                }
                if p == (t, val) {
                    assert(r[i as int] == p);
                }
            }
        }
    }

    /// The value of the curve at normalized time `t` (clamped into `0..=NORM_ONE`), or
    /// `None` where the curve has no breakpoint.
    pub fn evaluate(&self, t: i64) -> (r: Option<T>)
        requires
            self.wf(),
        ensures
            r == curve_value(self.points(), t as int),
    {
        let n = self.breakpoints.len();
        if n == 0 {
            return None;
        }
        let c: u64 = if t < 0 {
            0
        } else if t as u64 > NORM_ONE {
            NORM_ONE
        } else {
            t as u64
        };
        assert(c == clamp_norm(t as int));
        if c <= self.breakpoints[0].0 {
            return Some(self.breakpoints[0].1);
        }
        if c >= self.breakpoints[n - 1].0 {
            return Some(self.breakpoints[n - 1].1);
        }
        let ghost s = self.breakpoints@;
        let mut i: usize = 0;
        let mut j: usize = n - 1;
        while j - i > 1
            invariant
                n == s.len(),
                s == self.breakpoints@,
                0 <= i < j < n,
                s[i as int].0 <= c,
                c < s[j as int].0,
            decreases j - i,
        {
            let mid = i + (j - i) / 2;
            if self.breakpoints[mid].0 <= c {
                i = mid;
            } else {
                j = mid;
            }
        }
        proof {
            assert(s[i as int].0 <= c < s[i + 1].0);
            let k = segment_of(s, c as int);
            assert(exists|m: int| 0 <= m < s.len() - 1 && s[m].0 <= c < #[trigger] s[m + 1].0);
            if k < i {
                if k + 1 < i {
                    assert(s[k + 1].0 < s[i as int].0);
                }
            } else if k > i {
                if k > i + 1 {
                    assert(s[i + 1].0 < s[k].0);
                }
            }
            assert(k == i);
        }
        let lo = self.breakpoints[i].0;
        let hi = self.breakpoints[i + 1].0;
        proof {
            lemma_scale_to_norm((c - lo) as int, (hi - lo) as int);
        }
        let f: u64 = ((c - lo) as u128 * (NORM_ONE as u128) / ((hi - lo) as u128)) as u64;
        let r = self.breakpoints[i].1.interp(&self.breakpoints[i + 1].1, f);
        Some(r)
    }
}

/// At times 0 and 1 a curve takes its first and its last breakpoint's value, and a time
/// outside `0..=1` takes the value of the nearer edge.
pub proof fn lemma_curve_edges<T: Interpolate>(tr: &Transition<T>, t: int)
    requires
        tr.wf(),
        tr.points().len() > 0,
    ensures
        curve_value(tr.points(), 0) == Some(tr.points()[0].1),
        curve_value(tr.points(), NORM_ONE as int) == Some(tr.points().last().1),
        t < 0 ==> curve_value(tr.points(), t) == curve_value(tr.points(), 0),
        t > NORM_ONE as int ==> curve_value(tr.points(), t) == curve_value(
            tr.points(),
            NORM_ONE as int,
        ),
{
    let s = tr.points();
    assert(s[s.len() - 1].0 <= NORM_ONE);
}

} // verus!
