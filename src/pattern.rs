//! Pattern playback: a loopable, piecewise-linear intensity curve over
//! timestamped control points.
use vstd::prelude::*;
use vstd::arithmetic::div_mod::{
    lemma_div_is_ordered,
    lemma_div_multiples_vanish,
    lemma_div_pos_is_pos,
    lemma_mod_multiples_vanish,
    lemma_mod_pos_bound,
};
use vstd::arithmetic::mul::{lemma_mul_inequality, lemma_mul_upper_bound};
use crate::speed::{clamp_percent, Speed};

verus! {

/// One control point: an offset in milliseconds and an intensity in percent.
#[derive(Debug, Clone, Copy, PartialEq, Eq, Structural)]
pub struct PatternPoint {
    pub at: u64,
    pub value: u16,
}

/// Why a pattern could not be built.
#[derive(Debug, Clone, Copy, PartialEq, Eq, Structural)]
pub enum PatternError {
    /// No control point was given.
    Empty,
}

/// Every intensity lies in the percentage range.
pub open spec fn values_in_range(s: Seq<PatternPoint>) -> bool {
    forall|i: int| 0 <= i < s.len() ==> #[trigger] s[i].value <= 100
}

/// The timestamps rise strictly.
pub open spec fn strictly_sorted(s: Seq<PatternPoint>) -> bool {
    forall|i: int, j: int| 0 <= i < j < s.len() ==> #[trigger] s[i].at < #[trigger] s[j].at
}

/// A usable pattern: non-empty, strictly sorted, intensities in range.
pub open spec fn valid_points(s: Seq<PatternPoint>) -> bool {
    s.len() > 0 && strictly_sorted(s) && values_in_range(s)
}

/// `s[j]` is the first point of `s` with its timestamp.
pub open spec fn first_with_time(s: Seq<PatternPoint>, j: int) -> bool {
    forall|i: int| 0 <= i < j ==> #[trigger] s[i].at != s[j].at
}

/// `p` is, among the first `n` points of `s`, the first with its timestamp.
pub open spec fn kept_from(s: Seq<PatternPoint>, n: int, p: PatternPoint) -> bool {
    exists|j: int| 0 <= j < n && #[trigger] s[j] == p && first_with_time(s, j)
}

/// Some point of `r` has timestamp `at`.
pub open spec fn has_time(r: Seq<PatternPoint>, at: u64) -> bool {
    exists|k: int| 0 <= k < r.len() && #[trigger] r[k].at == at
}

/// `r` is `s` ordered by timestamp, with only the first point kept of those
/// that share one.
pub open spec fn sanitized_points(r: Seq<PatternPoint>, s: Seq<PatternPoint>) -> bool {
    &&& strictly_sorted(r)
    &&& forall|k: int| 0 <= k < r.len() ==> kept_from(s, s.len() as int, #[trigger] r[k])
    &&& forall|j: int| 0 <= j < s.len() ==> has_time(r, #[trigger] s[j].at)
}

/// The pattern point that stands for a funscript point: negative offsets are
/// taken as zero and the position is clamped into range.
pub open spec fn point_of_fs(p: funscript::FSPoint) -> PatternPoint {
    PatternPoint {
        at: if p.at < 0 {
            0u64
        } else {
            p.at as u64
        },
        value: clamp_percent(p.pos as int) as u16,
    }
}

/// The length of one loop: the last point's timestamp.
pub open spec fn period_of(s: Seq<PatternPoint>) -> int {
    s.last().at as int
}

/// The index of the first point at or after `tm`, searching from `k`.
pub open spec fn first_not_before(s: Seq<PatternPoint>, tm: int, k: int) -> int
    decreases s.len() - k,
{
    if k < 0 || k >= s.len() {
        s.len() as int
    } else if s[k].at >= tm {
        k
    } else {
        first_not_before(s, tm, k + 1)
    }
}

/// The straight line from `(t0, v0)` to `(t1, v1)` at `t`, rounded towards `v0`.
pub open spec fn interpolate(v0: int, v1: int, t0: int, t1: int, t: int) -> int {
    if v1 >= v0 {
        v0 + (v1 - v0) * (t - t0) / (t1 - t0)
    } else {
        v0 - (v0 - v1) * (t - t0) / (t1 - t0)
    }
}

/// The intensity inside one loop at offset `tm`: the first point's value up to
/// its timestamp, then the line between the two points that bracket `tm`.
pub open spec fn sample_in_loop(s: Seq<PatternPoint>, tm: int) -> int {
    let k = first_not_before(s, tm, 0);
    if k <= 0 || k >= s.len() {
        s[0].value as int
    } else {
        interpolate(
            s[k - 1].value as int,
            s[k].value as int,
            s[k - 1].at as int,
            s[k].at as int,
            tm,
        )
    }
}

/// The intensity of the looped pattern `t` milliseconds after its start.
pub open spec fn sample_at(s: Seq<PatternPoint>, t: int) -> int {
    let p = period_of(s);
    if p <= 0 {
        s[0].value as int
    } else {
        sample_in_loop(s, t % p)
    }
}

/// A named or inline intensity curve, kept sorted and free of repeated
/// timestamps.
#[derive(Debug, Clone)]
pub struct Pattern {
    points: Vec<PatternPoint>,
}

impl View for Pattern {
    type V = Seq<PatternPoint>;

    closed spec fn view(&self) -> Seq<PatternPoint> {
        self.points@
    }
}

/// Whether some point of `r` has timestamp `at`.
fn contains_time(r: &Vec<PatternPoint>, at: u64) -> (found: bool)
    ensures
        found == has_time(r@, at),
{
    let mut k: usize = 0;
    while k < r.len()
        invariant
            k <= r@.len(),
            forall|i: int| 0 <= i < k ==> #[trigger] r@[i].at != at,
        decreases r@.len() - k,
    {
        if r[k].at == at {
            return true;
        }
        k = k + 1;
    }
    false
}

/// Where a point with timestamp `at` goes in a sorted sequence.
fn insertion_index(r: &Vec<PatternPoint>, at: u64) -> (pos: usize)
    requires
        strictly_sorted(r@),
    ensures
        pos <= r@.len(),
        forall|i: int| 0 <= i < pos ==> #[trigger] r@[i].at < at,
        forall|i: int| pos <= i < r@.len() ==> #[trigger] r@[i].at >= at,
{
    let mut k: usize = 0;
    while k < r.len() && r[k].at < at
        invariant
            k <= r@.len(),
            strictly_sorted(r@),
            forall|i: int| 0 <= i < k ==> #[trigger] r@[i].at < at,
        decreases r@.len() - k,
    {
        k = k + 1;
    }
    proof {
        assert forall|i: int| k <= i < r@.len() implies #[trigger] r@[i].at >= at by {
            if i > k {
                assert(r@[k as int].at < r@[i].at);
            }
        }
    }
    k
}

impl Pattern {
    /// The pattern is usable.
    pub open spec fn wf(&self) -> bool {
        valid_points(self@)
    }

    /// Builds a pattern from control points in any order: they are sorted by
    /// timestamp and, of those that share a timestamp, the first is kept.
    pub fn new(points: &Vec<PatternPoint>) -> (r: Result<Pattern, PatternError>)
        requires
            values_in_range(points@),
        ensures
            points@.len() == 0 <==> r == Err::<Pattern, PatternError>(PatternError::Empty),
            r matches Ok(p) ==> p.wf() && sanitized_points(p@, points@),
    {
        if points.len() == 0 {
            return Err(PatternError::Empty);
        }
        let mut out: Vec<PatternPoint> = Vec::new();
        let mut j: usize = 0;
        while j < points.len()
            invariant
                j <= points@.len(),
                values_in_range(points@),
                strictly_sorted(out@),
                j > 0 ==> out@.len() > 0,
                forall|k: int| 0 <= k < out@.len() ==> kept_from(points@, j as int, #[trigger] out@[k]),
                forall|i: int| 0 <= i < j ==> has_time(out@, #[trigger] points@[i].at),
            decreases points@.len() - j,
        {
            let p = points[j];
            if !contains_time(&out, p.at) {
                let pos = insertion_index(&out, p.at);
                let ghost before = out@;
                out.insert(pos, p);
                proof {
                    assert(first_with_time(points@, j as int)) by {
                        assert forall|i: int| 0 <= i < j implies #[trigger] points@[i].at
                            != points@[j as int].at by {
                            if points@[i].at == p.at {
                                assert(has_time(before, points@[i].at));
                            }
                        }
                    }
                    assert forall|a: int, b: int| 0 <= a < b < out@.len() implies #[trigger] out@[a].at
                        < #[trigger] out@[b].at by {
                        if b < pos {
                        } else if a > pos {
                            assert(before[a - 1].at < before[b - 1].at);
                        } else if a == pos {
                            assert(before[b - 1].at >= p.at);
                            assert(!has_time(before, p.at));
                            assert(before[b - 1].at != p.at);
                        } else if b == pos {
                        } else {
                            assert(before[b - 1].at >= p.at);
                        }
                    }
                    assert forall|k: int| 0 <= k < out@.len() implies kept_from(
                        points@,
                        j + 1,
                        #[trigger] out@[k],
                    ) by {
                        if k < pos {
                            assert(out@[k] == before[k]);
                            assert(kept_from(points@, j as int, before[k]));
                        } else if k == pos {
                            assert(points@[j as int] == out@[k]);
                        } else {
                            assert(out@[k] == before[k - 1]);
                            assert(kept_from(points@, j as int, before[k - 1]));
                        }
                    }
                    assert forall|i: int| 0 <= i < j + 1 implies has_time(
                        out@,
                        #[trigger] points@[i].at,
                    ) by {
                        if i == j {
                            assert(out@[pos as int].at == p.at);
                        } else {
                            let k = choose|k: int| 0 <= k < before.len() && #[trigger] before[k].at
                                == points@[i].at;
                            if k < pos {
                                assert(out@[k].at == points@[i].at);
                            } else {
                                assert(out@[k + 1].at == points@[i].at);
                            }
                        }
                    }
                }
            } else {
                assert forall|k: int| 0 <= k < out@.len() implies kept_from(
                    points@,
                    j + 1,
                    #[trigger] out@[k],
                ) by {
                    assert(kept_from(points@, j as int, out@[k]));
                }
            }
            j = j + 1;
        }
        proof {
            assert forall|k: int| 0 <= k < out@.len() implies #[trigger] out@[k].value <= 100 by {
                assert(kept_from(points@, j as int, out@[k]));
            }
        }
        Ok(Pattern { points: out })
    }
}

/// The value between `v0` and `v1` that a straight line reaches, in range.
proof fn lemma_interpolate_between(v0: int, v1: int, t0: int, t1: int, t: int)
    requires
        0 <= v0 <= 100,
        0 <= v1 <= 100,
        t0 < t1,
        t0 <= t <= t1,
    ensures
        0 <= interpolate(v0, v1, t0, t1, t) <= 100,
{
    let d = if v1 >= v0 {
        v1 - v0
    } else {
        v0 - v1
    };
    let x = t - t0;
    let y = t1 - t0;
    lemma_mul_inequality(x, y, d);
    assert(x * d == d * x) by (nonlinear_arith);
    assert(y * d == d * y) by (nonlinear_arith);
    lemma_div_is_ordered(d * x, d * y, y);
    lemma_div_multiples_vanish(d, y);
    assert(d * y == y * d) by (nonlinear_arith);
    assert(0 <= d * x) by (nonlinear_arith)
        requires
            0 <= d,
            0 <= x,
    ;
    lemma_div_pos_is_pos(d * x, y);
}

impl Pattern {
    /// The length of one loop, in milliseconds.
    pub fn period(&self) -> (r: u64)
        requires
            self.wf(),
        ensures
            r == period_of(self@),
    {
        self.points[self.points.len() - 1].at
    }

    /// The number of control points.
    pub fn len(&self) -> (r: usize)
        ensures
            r == self@.len(),
    {
        self.points.len()
    }

    /// Builds a pattern from a funscript's actions: negative offsets count as
    /// zero and positions are clamped into range, then the points are sanitized
    /// as by [`Pattern::new`].
    pub fn from_funscript(actions: &Vec<funscript::FSPoint>) -> (r: Result<Pattern, PatternError>)
        ensures
            actions@.len() == 0 <==> r == Err::<Pattern, PatternError>(PatternError::Empty),
            r matches Ok(p) ==> p.wf() && sanitized_points(
                p@,
                actions@.map_values(|a: funscript::FSPoint| point_of_fs(a)),
            ),
    {
        let mut points: Vec<PatternPoint> = Vec::new();
        let mut i: usize = 0;
        while i < actions.len()
            invariant
                i <= actions@.len(),
                points@ == actions@.subrange(0, i as int).map_values(
                    |a: funscript::FSPoint| point_of_fs(a),
                ),
                values_in_range(points@),
            decreases actions@.len() - i,
        {
            let a = &actions[i];
            let at: u64 = if a.at < 0 {
                0
            } else {
                a.at as u64
            };
            let value = Speed::from_fs(a).value;
            points.push(PatternPoint { at, value });
            assert(actions@.subrange(0, i as int + 1) =~= actions@.subrange(0, i as int).push(
                actions@[i as int],
            ));
            assert(points@ =~= actions@.subrange(0, i as int + 1).map_values(
                |a: funscript::FSPoint| point_of_fs(a),
            ));
            i = i + 1;
        }
        assert(actions@.subrange(0, actions@.len() as int) =~= actions@);
        Pattern::new(&points)
    }

    /// The intensity `t` milliseconds after the pattern started, the pattern
    /// repeating for as long as it is asked.
    pub fn sample(&self, t: u64) -> (r: u16)
        requires
            self.wf(),
        ensures
            r == sample_at(self@, t as int),
            r <= 100,
    {
        let pts = &self.points;
        let n = pts.len();
        let period = pts[n - 1].at;
        if period == 0 {
            return pts[0].value;
        }
        let tm = t % period;
        proof {
            lemma_mod_pos_bound(t as int, period as int);
        }
        let mut k: usize = 0;
        while pts[k].at < tm
            invariant
                self.wf(),
                pts@ == self@,
                n == pts@.len(),
                period == pts@[n - 1].at,
                tm < period,
                k < n,
                k > 0 ==> pts@[k - 1].at < tm,
                first_not_before(pts@, tm as int, 0) == first_not_before(pts@, tm as int, k as int),
            decreases n - k,
        {
            k = k + 1;
        }
        if k == 0 {
            return pts[0].value;
        }
        let p0 = pts[k - 1];
        let p1 = pts[k];
        assert(p0.at < p1.at);
        proof {
            assert(first_not_before(pts@, tm as int, k as int) == k);
            lemma_interpolate_between(
                p0.value as int,
                p1.value as int,
                p0.at as int,
                p1.at as int,
                tm as int,
            );
        }
        let x = (tm - p0.at) as u128;
        let y = (p1.at - p0.at) as u128;
        if p1.value >= p0.value {
            let d = (p1.value - p0.value) as u128;
            proof {
                lemma_mul_upper_bound(d as int, 100, x as int, u64::MAX as int);
            }
            let step = d * x / y;
            (p0.value as u128 + step) as u16
        } else {
            let d = (p0.value - p1.value) as u128;
            proof {
                lemma_mul_upper_bound(d as int, 100, x as int, u64::MAX as int);
            }
            let step = d * x / y;
            (p0.value as u128 - step) as u16
        }
    }
}

/// Loop invariance: a pattern sampled at `t` and at `t` plus any whole number
/// of periods gives the same intensity.
pub proof fn lemma_sample_periodic(s: Seq<PatternPoint>, t: nat, k: nat)
    requires
        valid_points(s),
    ensures
        sample_at(s, t as int) == sample_at(s, t + k * period_of(s)),
{
    let p = period_of(s);
    if p > 0 {
        assert(t + k * p == p * k + t) by (nonlinear_arith);
        lemma_mod_multiples_vanish(k as int, t as int, p);
    }
}

} // verus!
