//! Iterated RANSAC line fitting on a 2D point cloud.
//!
//! Each call to `next_line` samples pairs of distinct points, keeps the
//! candidate line with the most inliers, and removes the inliers from the
//! pool.  Randomness comes from an injected seed driving a linear
//! congruential generator, so a cycle is reproducible from its seed.

use vstd::prelude::*;
use crate::geometry::{GroundPoint, Line, in_range, within_line_distance_spec};
use crate::math::COORD_LIMIT;

verus! {

/// One extracted line and the points that supported it.
pub struct RansacResult {
    pub line: Option<Line>,
    pub used_points: Vec<GroundPoint>,
}

/// The RANSAC state: the not-yet-claimed point pool and the generator state.
pub struct Ransac {
    pub unused_points: Vec<GroundPoint>,
    pub rng_state: u64,
}

pub open spec fn points_in_range(points: Seq<GroundPoint>) -> bool {
    forall|i: int| 0 <= i < points.len() ==> in_range(#[trigger] points[i])
}

/// Filtering keeps every point within coordinate range.
proof fn lemma_filter_in_range(s: Seq<GroundPoint>, pred: spec_fn(GroundPoint) -> bool)
    requires
        points_in_range(s),
    ensures
        points_in_range(s.filter(pred)),
    decreases s.len(),
{
    reveal(Seq::filter);
    if s.len() > 0 {
        assert forall|i: int| 0 <= i < s.drop_last().len() implies in_range(
            #[trigger] s.drop_last()[i],
        ) by {
            assert(s.drop_last()[i] == s[i]);
        }
        lemma_filter_in_range(s.drop_last(), pred);
    }
}

/// A line's own start lies within any nonnegative distance of the line.
proof fn lemma_start_is_inlier(l: Line, threshold: i64)
    requires
        0 <= threshold,
    ensures
        within_line_distance_spec(l, l.start, threshold),
{
    assert(0 <= threshold as int * threshold as int) by (nonlinear_arith);
    if l.end == l.start {
        assert(crate::geometry::dist_sq_spec(l.start, l.start) == 0);
    } else {
        let d2 = crate::geometry::dist_sq_spec(l.start, l.end);
        assert(crate::geometry::cross_dir_spec(l, l.start) == 0);
        assert(crate::geometry::sq(0) == 0);
        assert(0 <= d2 && 0 <= threshold as int * threshold as int ==> 0 <= (threshold as int
            * threshold as int) * d2) by (nonlinear_arith);
        assert(0 <= d2) by (nonlinear_arith)
            requires
                d2 == (l.end.x - l.start.x) * (l.end.x - l.start.x) + (l.end.y - l.start.y) * (
                l.end.y - l.start.y),
        ;
    }
}

/// A predicate and its negation split a sequence into two parts whose
/// lengths add up.
proof fn lemma_filter_partition_len(
    s: Seq<GroundPoint>,
    p: spec_fn(GroundPoint) -> bool,
    q: spec_fn(GroundPoint) -> bool,
)
    requires
        forall|x: GroundPoint| #[trigger] q(x) == !p(x),
    ensures
        s.filter(p).len() + s.filter(q).len() == s.len(),
    decreases s.len(),
{
    reveal(Seq::filter);
    if s.len() > 0 {
        lemma_filter_partition_len(s.drop_last(), p, q);
    }
}

/// One step of the linear congruential generator.
pub open spec fn lcg_step(s: u64) -> u64 {
    vstd::wrapping::u64_specs::wrapping_add(
        vstd::wrapping::u64_specs::wrapping_mul(s, 6364136223846793005),
        1442695040888963407,
    )
}

/// Advances the generator and returns a value below `n`.
fn lcg_below(state: &mut u64, n: usize) -> (idx: usize)
    requires
        n >= 1,
    ensures
        idx < n,
        *final(state) == lcg_step(*old(state)),
        idx as u64 == (lcg_step(*old(state)) >> 33) % (n as u64),
{
    let next = state.wrapping_mul(6364136223846793005).wrapping_add(1442695040888963407);
    *state = next;
    ((next >> 33) % (n as u64)) as usize
}

/// Splits `points` into those within `threshold` of `line` and the rest,
/// keeping order.
fn partition_by_line(points: &Vec<GroundPoint>, line: Line, threshold: i64) -> (r: (
    Vec<GroundPoint>,
    Vec<GroundPoint>,
))
    requires
        points_in_range(points@),
        in_range(line.start),
        in_range(line.end),
        0 <= threshold <= COORD_LIMIT,
    ensures
        r.0@ == points@.filter(|p: GroundPoint| within_line_distance_spec(line, p, threshold)),
        r.1@ == points@.filter(|p: GroundPoint| !within_line_distance_spec(line, p, threshold)),
{
    let ghost pred_in = |p: GroundPoint| within_line_distance_spec(line, p, threshold);
    let ghost pred_out = |p: GroundPoint| !within_line_distance_spec(line, p, threshold);
    let mut ins: Vec<GroundPoint> = Vec::new();
    let mut outs: Vec<GroundPoint> = Vec::new();
    proof {
        reveal(Seq::filter);
        assert(points@.take(0) =~= Seq::<GroundPoint>::empty());
    }
    let mut i: usize = 0;
    while i < points.len()
        invariant
            i <= points@.len(),
            points_in_range(points@),
            in_range(line.start),
            in_range(line.end),
            0 <= threshold <= COORD_LIMIT,
            ins@ == points@.take(i as int).filter(pred_in),
            outs@ == points@.take(i as int).filter(pred_out),
            pred_in == (|p: GroundPoint| within_line_distance_spec(line, p, threshold)),
            pred_out == (|p: GroundPoint| !within_line_distance_spec(line, p, threshold)),
        decreases points@.len() - i,
    {
        let p = points[i];
        proof {
            reveal(Seq::filter);
            assert(points@.take(i as int + 1).drop_last() =~= points@.take(i as int));
            assert(points@.take(i as int + 1).last() == points@[i as int]);
        }
        if line.within_distance(&p, threshold) {
            ins.push(p);
        } else {
            outs.push(p);
        }
        i = i + 1;
    }
    proof {
        assert(points@.take(points@.len() as int) =~= points@);
    }
    (ins, outs)
}

/// Number of points within `threshold` of `line`.
fn count_inliers(points: &Vec<GroundPoint>, line: Line, threshold: i64) -> (n: usize)
    requires
        points_in_range(points@),
        in_range(line.start),
        in_range(line.end),
        0 <= threshold <= COORD_LIMIT,
{
    let mut n: usize = 0;
    let mut i: usize = 0;
    while i < points.len()
        invariant
            i <= points@.len(),
            n <= i,
            points_in_range(points@),
            in_range(line.start),
            in_range(line.end),
            0 <= threshold <= COORD_LIMIT,
        decreases points@.len() - i,
    {
        if line.within_distance(&points[i], threshold) {
            n = n + 1;
        }
        i = i + 1;
    }
    n
}

impl Ransac {
    pub open spec fn wf(&self) -> bool {
        points_in_range(self.unused_points@)
    }

    pub fn new(unused_points: Vec<GroundPoint>, seed: u64) -> (r: Ransac)
        ensures
            r.unused_points == unused_points,
            r.rng_state == seed,
    {
        Ransac { unused_points, rng_state: seed }
    }

    /// Extracts the dominant line of the pool, `None` when fewer than two
    /// points remain.  The returned support is exactly the set of pool
    /// points within `threshold` of the line, and is removed from the pool.
    pub fn next_line(&mut self, iterations: usize, threshold: i64) -> (r: RansacResult)
        requires
            old(self).wf(),
            iterations >= 1,
            0 <= threshold <= COORD_LIMIT,
        ensures
            final(self).wf(),
            points_in_range(r.used_points@),
            final(self).unused_points@.len() <= old(self).unused_points@.len(),
            old(self).unused_points@.len() < 2 ==> r.line is None && r.used_points@.len() == 0
                && final(self).unused_points == old(self).unused_points,
            old(self).unused_points@.len() >= 2 ==> {
                &&& r.line is Some
                &&& in_range(r.line->Some_0.start) && in_range(r.line->Some_0.end)
                &&& exists|i: int, j: int|
                    0 <= i < old(self).unused_points@.len() && 0 <= j < old(
                        self,
                    ).unused_points@.len() && i != j && r.line->Some_0 == (Line {
                        start: old(self).unused_points@[i],
                        end: old(self).unused_points@[j],
                    })
                &&& r.used_points@ == old(self).unused_points@.filter(
                    |p: GroundPoint| within_line_distance_spec(r.line->Some_0, p, threshold),
                )
                &&& final(self).unused_points@ == old(self).unused_points@.filter(
                    |p: GroundPoint| !within_line_distance_spec(r.line->Some_0, p, threshold),
                )
                &&& r.used_points@.len() + final(self).unused_points@.len() == old(
                    self,
                ).unused_points@.len()
                &&& r.used_points@.len() >= 1
            },
    {
        let n = self.unused_points.len();
        if n < 2 {
            return RansacResult { line: None, used_points: Vec::new() };
        }
        let ghost points0 = self.unused_points@;
        let mut state = self.rng_state;
        let i1 = lcg_below(&mut state, n);
        let j1 = lcg_below(&mut state, n - 1);
        let j1 = if j1 >= i1 {
            j1 + 1
        } else {
            j1
        };
        let mut best_line = Line { start: self.unused_points[i1], end: self.unused_points[j1] };
        let ghost witness_i = i1 as int;
        let ghost witness_j = j1 as int;
        let mut best_count = count_inliers(&self.unused_points, best_line, threshold);
        let mut it: usize = 1;
        while it < iterations
            invariant
                self.unused_points@ == points0,
                points_in_range(points0),
                n == points0.len(),
                n >= 2,
                0 <= threshold <= COORD_LIMIT,
                0 <= witness_i < n,
                0 <= witness_j < n,
                witness_i != witness_j,
                best_line == (Line { start: points0[witness_i], end: points0[witness_j] }),
            decreases iterations - it,
        {
            let i2 = lcg_below(&mut state, n);
            let j2 = lcg_below(&mut state, n - 1);
            let j2 = if j2 >= i2 {
                j2 + 1
            } else {
                j2
            };
            let candidate = Line { start: self.unused_points[i2], end: self.unused_points[j2] };
            let count = count_inliers(&self.unused_points, candidate, threshold);
            if count > best_count {
                best_line = candidate;
                best_count = count;
                proof {
                    witness_i = i2 as int;
                    witness_j = j2 as int;
                }
            }
            it = it + 1;
        }
        self.rng_state = state;
        let (used, rest) = partition_by_line(&self.unused_points, best_line, threshold);
        proof {
            points0.lemma_filter_len(
                |p: GroundPoint| !within_line_distance_spec(best_line, p, threshold),
            );
            lemma_filter_in_range(
                points0,
                |p: GroundPoint| !within_line_distance_spec(best_line, p, threshold),
            );
            lemma_filter_in_range(
                points0,
                |p: GroundPoint| within_line_distance_spec(best_line, p, threshold),
            );
            lemma_filter_partition_len(
                points0,
                |p: GroundPoint| within_line_distance_spec(best_line, p, threshold),
                |p: GroundPoint| !within_line_distance_spec(best_line, p, threshold),
            );
            lemma_start_is_inlier(best_line, threshold);
            points0.filter_lemma(
                |p: GroundPoint| within_line_distance_spec(best_line, p, threshold),
            );
            assert(points0.filter(
                |p: GroundPoint| within_line_distance_spec(best_line, p, threshold),
            ).contains(points0[witness_i]));
        }
        self.unused_points = rest;
        RansacResult { line: Some(best_line), used_points: used }
    }
}

} // verus!
