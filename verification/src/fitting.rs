//! Post-processing of raw RANSAC lines, and the per-frame cycle.
//!
//! Each raw line's support is projected onto the line and sorted along it;
//! the first too-large gap splits off a tail that returns to the point pool;
//! what remains is re-checked for support, then gated on ground length and
//! distance to the robot before it is accepted.

use vstd::prelude::*;
use crate::camera::CameraMatrix;
use crate::detection::{
    ImageLines, LineData, LineDiscardReason, Parameters, candidates_spec,
    filter_segments_for_lines, origin_admissible, origin_of, segment_produces_candidate,
};
use crate::geometry::{
    GroundPoint, Line, PixelLine, SubPixelPoint, center_spec, dist_sq_spec, foot_spec,
    in_foot_range, in_range, line_in_foot_range, norm_sq_spec, sq, within_line_distance_spec,
};
use crate::image::LumaImage;
use crate::math::mul_i128;
use crate::ransac::{Ransac, points_in_range};
use crate::segments::{FilteredSegments, filtered_segments_wf};

verus! {

/// What one run of the fitter produced: accepted ground lines, the raw
/// support endpoints of each accepted line, and the rejected raw lines.
pub struct FitResult {
    pub lines_in_robot: Vec<Line>,
    pub support_lines: Vec<Line>,
    pub discarded_lines: Vec<(Line, LineDiscardReason)>,
}

/// The gates of the post-processing step: ground length within the allowed
/// interval when length checking is on, and midpoint distance to the robot
/// within bounds when distance checking is on.
pub open spec fn line_accepted_by_gates(params: Parameters, l: Line) -> bool {
    &&& params.check_line_length ==> sq(params.allowed_line_length_min as int) <= dist_sq_spec(
        l.start,
        l.end,
    ) <= sq(params.allowed_line_length_max as int)
    &&& params.check_line_distance ==> norm_sq_spec(center_spec(l)) <= sq(
        params.maximum_distance_to_robot as int,
    )
}

/// A retained support run for a fitted line `l0`: every member is a cloud
/// point within the fit distance of `l0`, paired with its perpendicular
/// foot; the run is ordered along the line and has no gap above
/// `maximum_gap_on_line` between consecutive feet; it meets the configured
/// minimum support and is non-empty.
pub open spec fn support_chain(
    points0: Seq<GroundPoint>,
    params: Parameters,
    l0: Line,
    s: Seq<(GroundPoint, GroundPoint)>,
) -> bool {
    &&& s.len() >= params.minimum_number_of_points_on_line
    &&& s.len() >= 1
    &&& forall|k: int|
        0 <= k < s.len() ==> points0.contains((#[trigger] s[k]).0) && within_line_distance_spec(
            l0,
            s[k].0,
            params.maximum_fit_distance_in_ground,
        ) && s[k].1 == foot_spec(l0, s[k].0)
    &&& forall|a: int, b: int| 0 <= a < b < s.len() ==> s[a].1.x <= s[b].1.x
    &&& forall|k: int|
        1 <= k < s.len() ==> dist_sq_spec(s[k - 1].1, (#[trigger] s[k]).1) <= sq(
            params.maximum_gap_on_line as int,
        )
}

/// An accepted line and its support line come from a base line through two
/// cloud points and a retained support run on it: the endpoints are the
/// first and last perpendicular feet in foot-x order, and the support line
/// joins the corresponding raw points.
pub open spec fn provenance_witness(
    points0: Seq<GroundPoint>,
    params: Parameters,
    l0: Line,
    s: Seq<(GroundPoint, GroundPoint)>,
    line_in_robot: Line,
    support_line: Line,
) -> bool {
    &&& points0.contains(l0.start)
    &&& points0.contains(l0.end)
    &&& support_chain(points0, params, l0, s)
    &&& line_in_robot == (Line { start: s[0].1, end: s[s.len() - 1].1 })
    &&& support_line == (Line { start: s[0].0, end: s[s.len() - 1].0 })
}

pub open spec fn accepted_line_provenance(
    points0: Seq<GroundPoint>,
    params: Parameters,
    line_in_robot: Line,
    support_line: Line,
) -> bool {
    exists|l0: Line, s: Seq<(GroundPoint, GroundPoint)>|
        #[trigger] provenance_witness(points0, params, l0, s, line_in_robot, support_line)
}

/// An accepted line traces back to the candidate cloud through some base
/// line and support run.
pub open spec fn line_from_candidates(
    points0: Seq<GroundPoint>,
    params: Parameters,
    line_in_robot: Line,
) -> bool {
    exists|sl: Line| #[trigger] accepted_line_provenance(points0, params, line_in_robot, sl)
}

/// A retained support run for `l0` that the named gate rejects.
pub open spec fn gate_reject_witness(
    points0: Seq<GroundPoint>,
    params: Parameters,
    l0: Line,
    s: Seq<(GroundPoint, GroundPoint)>,
    reason: LineDiscardReason,
) -> bool {
    &&& support_chain(points0, params, l0, s)
    &&& match reason {
        LineDiscardReason::LineTooShort => params.check_line_length && dist_sq_spec(
            s[0].1,
            s[s.len() - 1].1,
        ) < sq(params.allowed_line_length_min as int),
        LineDiscardReason::LineTooLong => params.check_line_length && dist_sq_spec(
            s[0].1,
            s[s.len() - 1].1,
        ) > sq(params.allowed_line_length_max as int),
        LineDiscardReason::TooFarAway => params.check_line_distance && norm_sq_spec(
            center_spec(Line { start: s[0].1, end: s[s.len() - 1].1 }),
        ) > sq(params.maximum_distance_to_robot as int),
        LineDiscardReason::TooFewPoints => true,
    }
}

/// Why a discard record is in the output: its raw line passes through two
/// cloud points, and, for the three geometric reasons, some retained
/// support run on it fails exactly that gate.  A `TooFewPoints` record
/// reports a support shortfall of the shrinking pool, which the cloud alone
/// cannot witness.
pub open spec fn discard_justified(
    points0: Seq<GroundPoint>,
    params: Parameters,
    l0: Line,
    reason: LineDiscardReason,
) -> bool {
    &&& points0.contains(l0.start)
    &&& points0.contains(l0.end)
    &&& reason != LineDiscardReason::TooFewPoints ==> exists|s: Seq<(GroundPoint, GroundPoint)>|
        #[trigger] gate_reject_witness(points0, params, l0, s, reason)
}

/// Filtering keeps every element's membership in a base sequence.
proof fn lemma_filter_keeps_membership(
    s: Seq<GroundPoint>,
    pred: spec_fn(GroundPoint) -> bool,
    base: Seq<GroundPoint>,
)
    requires
        forall|k: int| 0 <= k < s.len() ==> base.contains(#[trigger] s[k]),
    ensures
        forall|k: int| 0 <= k < s.filter(pred).len() ==> base.contains(#[trigger] s.filter(pred)[k]),
    decreases s.len(),
{
    reveal(Seq::filter);
    if s.len() > 0 {
        assert forall|k: int| 0 <= k < s.drop_last().len() implies base.contains(
            #[trigger] s.drop_last()[k],
        ) by {
            assert(s.drop_last()[k] == s[k]);
        }
        lemma_filter_keeps_membership(s.drop_last(), pred, base);
        let sub = s.drop_last().filter(pred);
        let out = s.filter(pred);
        assert(base.contains(s[s.len() - 1]));
        assert forall|k: int| 0 <= k < out.len() implies base.contains(#[trigger] out[k]) by {
            if pred(s.last()) {
                assert(out == sub.push(s.last()));
                if k < sub.len() {
                    assert(out[k] == sub[k]);
                } else {
                    assert(out[k] == s.last());
                    assert(s.last() == s[s.len() - 1]);
                }
            } else {
                assert(out == sub);
            }
        }
    }
}

/// Inserting into a sequence inserts into its multiset.
proof fn lemma_insert_to_multiset(s: Seq<(GroundPoint, GroundPoint)>, i: int, x: (
    GroundPoint,
    GroundPoint,
))
    requires
        0 <= i <= s.len(),
    ensures
        s.insert(i, x).to_multiset() =~= s.to_multiset().insert(x),
{
    broadcast use vstd::seq_lib::group_to_multiset_ensures;

    let a = s.subrange(0, i);
    let b = s.subrange(i, s.len() as int);
    assert(s =~= a + b);
    vstd::seq_lib::lemma_multiset_commutative(a.push(x), b);
    vstd::seq_lib::lemma_multiset_commutative(a, b);
    assert(s.insert(i, x) == a.push(x) + b);
}

/// Stable insertion sort of support pairs by the x coordinate of the
/// projected foot; an element-wise property of the pairs is preserved.
fn sort_pairs_by_foot_x(
    pairs: Vec<(GroundPoint, GroundPoint)>,
    Ghost(pok): Ghost<spec_fn((GroundPoint, GroundPoint)) -> bool>,
) -> (out: Vec<(GroundPoint, GroundPoint)>)
    requires
        forall|k: int| 0 <= k < pairs@.len() ==> pok(#[trigger] pairs@[k]),
    ensures
        out@.len() == pairs@.len(),
        out@.to_multiset() == pairs@.to_multiset(),
        forall|k: int| 0 <= k < out@.len() ==> pok(#[trigger] out@[k]),
        forall|a: int, b: int| 0 <= a < b < out@.len() ==> out@[a].1.x <= out@[b].1.x,
{
    let mut out: Vec<(GroundPoint, GroundPoint)> = Vec::new();
    proof {
        broadcast use vstd::seq_lib::group_to_multiset_ensures;

        assert(pairs@.take(0) =~= Seq::<(GroundPoint, GroundPoint)>::empty());
        assert(out@ =~= Seq::<(GroundPoint, GroundPoint)>::empty());
    }
    let mut i: usize = 0;
    while i < pairs.len()
        invariant
            i <= pairs@.len(),
            out@.len() == i,
            out@.to_multiset() == pairs@.take(i as int).to_multiset(),
            forall|k: int| 0 <= k < pairs@.len() ==> pok(#[trigger] pairs@[k]),
            forall|k: int| 0 <= k < out@.len() ==> pok(#[trigger] out@[k]),
            forall|a: int, b: int| 0 <= a < b < out@.len() ==> out@[a].1.x <= out@[b].1.x,
        decreases pairs@.len() - i,
    {
        let item = pairs[i];
        let mut pos: usize = 0;
        while pos < out.len() && out[pos].1.x <= item.1.x
            invariant
                pos <= out@.len(),
                forall|q: int| 0 <= q < pos ==> out@[q].1.x <= item.1.x,
            decreases out@.len() - pos,
        {
            pos = pos + 1;
        }
        proof {
            out@.insert_ensures(pos as int, item);
        }
        let ghost old_out = out@;
        out.insert(pos, item);
        proof {
            broadcast use vstd::seq_lib::group_to_multiset_ensures;

            lemma_insert_to_multiset(old_out, pos as int, item);
            assert(pairs@.take(i as int + 1).drop_last() =~= pairs@.take(i as int));
            assert(pairs@.take(i as int + 1) =~= pairs@.take(i as int).push(pairs@[i as int]));
            assert forall|a: int, b: int| 0 <= a < b < out@.len() implies out@[a].1.x
                <= out@[b].1.x by {
                if b < pos {
                } else if a >= pos + 1 {
                    assert(out@[a] == old_out[a - 1]);
                    assert(out@[b] == old_out[b - 1]);
                } else if a < pos && b == pos {
                    assert(out@[a] == old_out[a]);
                } else if a == pos {
                    assert(out@[b] == old_out[b - 1]);
                    assert(old_out[pos as int].1.x > item.1.x);
                } else {
                    assert(out@[a] == old_out[a]);
                    assert(out@[b] == old_out[b - 1]);
                    assert(old_out[pos as int].1.x > item.1.x);
                }
            }
        }
        i = i + 1;
    }
    proof {
        assert(pairs@.take(pairs@.len() as int) =~= pairs@);
    }
    out
}

/// Extracts up to `maximum_number_of_lines` ground lines from the candidate
/// cloud by iterated RANSAC with gap splitting and gating.
pub fn detect_lines(points: Vec<GroundPoint>, params: &Parameters, seed: u64) -> (r: FitResult)
    requires
        params.wf(),
        points_in_range(points@),
    ensures
        r.lines_in_robot@.len() <= params.maximum_number_of_lines,
        r.support_lines@.len() == r.lines_in_robot@.len(),
        forall|k: int|
            0 <= k < r.lines_in_robot@.len() ==> line_accepted_by_gates(
                *params,
                #[trigger] r.lines_in_robot@[k],
            ) && line_in_foot_range(r.lines_in_robot@[k]) && r.lines_in_robot@[k].start.x
                <= r.lines_in_robot@[k].end.x && accepted_line_provenance(
                points@,
                *params,
                r.lines_in_robot@[k],
                r.support_lines@[k],
            ),
        forall|k: int|
            0 <= k < r.support_lines@.len() ==> points@.contains(
                (#[trigger] r.support_lines@[k]).start,
            ) && points@.contains(r.support_lines@[k].end) && in_range(r.support_lines@[k].start)
                && in_range(r.support_lines@[k].end),
        forall|k: int|
            0 <= k < r.discarded_lines@.len() ==> discard_justified(
                points@,
                *params,
                (#[trigger] r.discarded_lines@[k]).0,
                r.discarded_lines@[k].1,
            ) && in_range(r.discarded_lines@[k].0.start) && in_range(r.discarded_lines@[k].0.end),
        points@.len() < params.minimum_number_of_points_on_line ==> r.lines_in_robot@.len() == 0,
        points@.len() < 2 ==> r.lines_in_robot@.len() == 0,
        points@.len() >= params.minimum_number_of_points_on_line && points@.len() >= 2
            && params.maximum_number_of_lines >= 1 ==> r.lines_in_robot@.len()
            + r.discarded_lines@.len() >= 1,
{
    let ghost points0 = points@;
    let mut ransac = Ransac::new(points, seed);
    let mut lines_in_robot: Vec<Line> = Vec::new();
    let mut support_lines: Vec<Line> = Vec::new();
    let mut discarded_lines: Vec<(Line, LineDiscardReason)> = Vec::new();
    let mut it: usize = 0;
    let mut done = false;
    while it < params.maximum_number_of_lines && !done
        invariant
            params.wf(),
            ransac.wf(),
            points_in_range(points0),
            it <= params.maximum_number_of_lines,
            done ==> 1 <= it,
            lines_in_robot@.len() <= it,
            support_lines@.len() == lines_in_robot@.len(),
            ransac.unused_points@.len() <= points0.len(),
            it == 0 ==> ransac.unused_points@ == points0 && lines_in_robot@.len()
                + discarded_lines@.len() == 0,
            forall|q: int|
                0 <= q < ransac.unused_points@.len() ==> points0.contains(
                    #[trigger] ransac.unused_points@[q],
                ),
            forall|k: int|
                0 <= k < lines_in_robot@.len() ==> line_accepted_by_gates(
                    *params,
                    #[trigger] lines_in_robot@[k],
                ) && line_in_foot_range(lines_in_robot@[k]) && lines_in_robot@[k].start.x
                    <= lines_in_robot@[k].end.x && accepted_line_provenance(
                    points0,
                    *params,
                    lines_in_robot@[k],
                    support_lines@[k],
                ),
            forall|k: int|
                0 <= k < support_lines@.len() ==> points0.contains(
                    (#[trigger] support_lines@[k]).start,
                ) && points0.contains(support_lines@[k].end) && in_range(support_lines@[k].start)
                    && in_range(support_lines@[k].end),
            forall|k: int|
                0 <= k < discarded_lines@.len() ==> discard_justified(
                    points0,
                    *params,
                    (#[trigger] discarded_lines@[k]).0,
                    discarded_lines@[k].1,
                ) && in_range(discarded_lines@[k].0.start) && in_range(
                    discarded_lines@[k].0.end,
                ),
            points0.len() < params.minimum_number_of_points_on_line ==> lines_in_robot@.len()
                == 0,
            points0.len() < 2 ==> lines_in_robot@.len() == 0,
            points0.len() >= params.minimum_number_of_points_on_line && points0.len() >= 2 && it
                >= 1 ==> lines_in_robot@.len() + discarded_lines@.len() >= 1,
        decreases params.maximum_number_of_lines - it,
    {
        if ransac.unused_points.len() < params.minimum_number_of_points_on_line
            || ransac.unused_points.len() < 2 {
            done = true;
        } else {
            let ghost pool_before = ransac.unused_points@;
            let result = ransac.next_line(20, params.maximum_fit_distance_in_ground);
            let ransac_line = match result.line {
                Some(l) => l,
                None => {
                    proof {
                        assert(false);
                    }
                    Line { start: GroundPoint { x: 0, y: 0 }, end: GroundPoint { x: 0, y: 0 } }
                },
            };
            let used_points = result.used_points;
            let ghost fit_pred = |p: GroundPoint|
                within_line_distance_spec(
                    ransac_line,
                    p,
                    params.maximum_fit_distance_in_ground,
                );
            proof {
                pool_before.filter_lemma(fit_pred);
                lemma_filter_keeps_membership(pool_before, fit_pred, points0);
                lemma_filter_keeps_membership(
                    pool_before,
                    |p: GroundPoint|
                        !within_line_distance_spec(
                            ransac_line,
                            p,
                            params.maximum_fit_distance_in_ground,
                        ),
                    points0,
                );
                assert(points0.contains(ransac_line.start) && points0.contains(
                    ransac_line.end,
                )) by {
                    let (wi, wj) = choose|wi: int, wj: int|
                        0 <= wi < pool_before.len() && 0 <= wj < pool_before.len() && wi != wj
                            && ransac_line == (Line {
                            start: pool_before[wi],
                            end: pool_before[wj],
                        });
                    assert(points0.contains(pool_before[wi]));
                    assert(points0.contains(pool_before[wj]));
                }
            }
            if used_points.len() < params.minimum_number_of_points_on_line {
                discarded_lines.push((ransac_line, LineDiscardReason::TooFewPoints));
                done = true;
            } else {
                let ghost pok = |pr: (GroundPoint, GroundPoint)|
                    in_range(pr.0) && in_foot_range(pr.1) && pr.1 == foot_spec(ransac_line, pr.0)
                        && points0.contains(pr.0) && within_line_distance_spec(
                        ransac_line,
                        pr.0,
                        params.maximum_fit_distance_in_ground,
                    );
                let mut pairs: Vec<(GroundPoint, GroundPoint)> = Vec::new();
                let mut k: usize = 0;
                while k < used_points.len()
                    invariant
                        k <= used_points@.len(),
                        pairs@.len() == k,
                        points_in_range(used_points@),
                        in_range(ransac_line.start),
                        in_range(ransac_line.end),
                        forall|q: int|
                            0 <= q < used_points@.len() ==> points0.contains(
                                #[trigger] used_points@[q],
                            ) && within_line_distance_spec(
                                ransac_line,
                                used_points@[q],
                                params.maximum_fit_distance_in_ground,
                            ),
                        pok == (|pr: (GroundPoint, GroundPoint)|
                            in_range(pr.0) && in_foot_range(pr.1) && pr.1 == foot_spec(
                                ransac_line,
                                pr.0,
                            ) && points0.contains(pr.0) && within_line_distance_spec(
                                ransac_line,
                                pr.0,
                                params.maximum_fit_distance_in_ground,
                            )),
                        forall|q: int| 0 <= q < pairs@.len() ==> pok(#[trigger] pairs@[q]),
                    decreases used_points@.len() - k,
                {
                    let p = used_points[k];
                    let foot = ransac_line.project_point(&p);
                    pairs.push((p, foot));
                    k = k + 1;
                }
                let mut pairs = sort_pairs_by_foot_x(pairs, Ghost(pok));
                let gap2 = mul_i128(
                    params.maximum_gap_on_line as i128,
                    params.maximum_gap_on_line as i128,
                );
                let mut split: usize = pairs.len();
                let mut m: usize = 1;
                while m < pairs.len() && split == pairs.len()
                    invariant
                        1 <= m,
                        m <= pairs@.len() || pairs@.len() == 0,
                        split <= pairs@.len(),
                        pairs@.len() >= 1 ==> split >= 1,
                        gap2 == sq(params.maximum_gap_on_line as int),
                        forall|q: int| 0 <= q < pairs@.len() ==> pok(#[trigger] pairs@[q]),
                        split == pairs@.len() ==> forall|q: int|
                            1 <= q < m ==> dist_sq_spec(pairs@[q - 1].1, (#[trigger] pairs@[q]).1)
                                <= sq(params.maximum_gap_on_line as int),
                        split < pairs@.len() ==> forall|q: int|
                            1 <= q < split ==> dist_sq_spec(
                                pairs@[q - 1].1,
                                (#[trigger] pairs@[q]).1,
                            ) <= sq(params.maximum_gap_on_line as int),
                        pok == (|pr: (GroundPoint, GroundPoint)|
                            in_range(pr.0) && in_foot_range(pr.1) && pr.1 == foot_spec(
                                ransac_line,
                                pr.0,
                            ) && points0.contains(pr.0) && within_line_distance_spec(
                                ransac_line,
                                pr.0,
                                params.maximum_fit_distance_in_ground,
                            )),
                    decreases pairs@.len() - m,
                {
                    let d = pairs[m - 1].1.dist_sq(&pairs[m].1);
                    if d > gap2 {
                        split = m;
                    }
                    m = m + 1;
                }
                let mut t: usize = split;
                while t < pairs.len()
                    invariant
                        split <= t <= pairs@.len(),
                        ransac.wf(),
                        ransac.unused_points@.len() + pairs@.len() - t <= points0.len(),
                        forall|q: int|
                            0 <= q < ransac.unused_points@.len() ==> points0.contains(
                                #[trigger] ransac.unused_points@[q],
                            ),
                        forall|q: int| 0 <= q < pairs@.len() ==> pok(#[trigger] pairs@[q]),
                        pok == (|pr: (GroundPoint, GroundPoint)|
                            in_range(pr.0) && in_foot_range(pr.1) && pr.1 == foot_spec(
                                ransac_line,
                                pr.0,
                            ) && points0.contains(pr.0) && within_line_distance_spec(
                                ransac_line,
                                pr.0,
                                params.maximum_fit_distance_in_ground,
                            )),
                    decreases pairs@.len() - t,
                {
                    ransac.unused_points.push(pairs[t].0);
                    t = t + 1;
                }
                let ghost pairs_before_truncate = pairs@;
                pairs.truncate(split);
                proof {
                    assert(pairs@ =~= pairs_before_truncate.take(split as int));
                }
                if pairs.len() < params.minimum_number_of_points_on_line {
                    discarded_lines.push((ransac_line, LineDiscardReason::TooFewPoints));
                } else {
                    let first = pairs[0];
                    let last = pairs[pairs.len() - 1];
                    let line_in_robot = Line { start: first.1, end: last.1 };
                    let support_line = Line { start: first.0, end: last.0 };
                    proof {
                        assert(support_chain(points0, *params, ransac_line, pairs@));
                    }
                    let length2 = line_in_robot.length_sq();
                    let min2 = mul_i128(
                        params.allowed_line_length_min as i128,
                        params.allowed_line_length_min as i128,
                    );
                    let max2 = mul_i128(
                        params.allowed_line_length_max as i128,
                        params.allowed_line_length_max as i128,
                    );
                    let is_too_short = params.check_line_length && length2 < min2;
                    let is_too_long = params.check_line_length && length2 > max2;
                    if is_too_short {
                        proof {
                            assert(gate_reject_witness(
                                points0,
                                *params,
                                ransac_line,
                                pairs@,
                                LineDiscardReason::LineTooShort,
                            ));
                        }
                        discarded_lines.push((ransac_line, LineDiscardReason::LineTooShort));
                    } else if is_too_long {
                        proof {
                            assert(gate_reject_witness(
                                points0,
                                *params,
                                ransac_line,
                                pairs@,
                                LineDiscardReason::LineTooLong,
                            ));
                        }
                        discarded_lines.push((ransac_line, LineDiscardReason::LineTooLong));
                    } else {
                        let center = line_in_robot.center();
                        let dist2 = center.norm_sq();
                        let maxd2 = mul_i128(
                            params.maximum_distance_to_robot as i128,
                            params.maximum_distance_to_robot as i128,
                        );
                        let is_too_far = params.check_line_distance && dist2 > maxd2;
                        if is_too_far {
                            proof {
                                assert(gate_reject_witness(
                                    points0,
                                    *params,
                                    ransac_line,
                                    pairs@,
                                    LineDiscardReason::TooFarAway,
                                ));
                            }
                            discarded_lines.push((ransac_line, LineDiscardReason::TooFarAway));
                        } else {
                            proof {
                                assert(provenance_witness(
                                    points0,
                                    *params,
                                    ransac_line,
                                    pairs@,
                                    line_in_robot,
                                    support_line,
                                ));
                            }
                            lines_in_robot.push(line_in_robot);
                            support_lines.push(support_line);
                        }
                    }
                }
            }
        }
        it = it + 1;
    }
    FitResult { lines_in_robot, support_lines, discarded_lines }
}


/// What one cycle emits: the line data, and the debug record when a
/// subscriber asked for it.
pub struct CycleOutput {
    pub line_data: LineData,
    pub lines_in_image: Option<ImageLines>,
}

/// The one fatal condition of a cycle: a debug re-projection of an accepted
/// or discarded endpoint failed, which gated inputs do not produce.
#[derive(Clone, Copy, Debug, PartialEq, Eq, Structural)]
pub enum CycleError {
    DebugProjectionFailed,
}

/// Some candidate ground point of the frame cannot be carried back into
/// the image: the one condition under which a subscribed cycle fails.
pub open spec fn debug_reprojection_fails(
    cam: CameraMatrix,
    fs: FilteredSegments,
    image: LumaImage,
    params: Parameters,
) -> bool {
    exists|k: int|
        0 <= k < candidates_spec(cam, fs, image, params).len() && !(
        crate::camera::ground_to_pixel_spec(
            cam,
            #[trigger] candidates_spec(cam, fs, image, params)[k],
        ) is Some)
}

/// Re-projects ground points into the image, failing on the first point the
/// camera cannot carry back.
fn reproject_points(cam: &CameraMatrix, points: &Vec<GroundPoint>) -> (r: Result<
    Vec<SubPixelPoint>,
    CycleError,
>)
    requires
        cam.wf(),
        points_in_range(points@),
    ensures
        r is Ok ==> forall|k: int|
            0 <= k < points@.len() ==> crate::camera::ground_to_pixel_spec(
                *cam,
                #[trigger] points@[k],
            ) is Some,
        r is Ok ==> r->Ok_0@.len() == points@.len() && forall|k: int|
            0 <= k < points@.len() ==> r->Ok_0@[k] == crate::camera::ground_to_pixel_spec(
                *cam,
                #[trigger] points@[k],
            )->Some_0,
        r is Err ==> exists|k: int|
            0 <= k < points@.len() && !(crate::camera::ground_to_pixel_spec(
                *cam,
                #[trigger] points@[k],
            ) is Some),
{
    let mut out: Vec<SubPixelPoint> = Vec::new();
    let mut i: usize = 0;
    while i < points.len()
        invariant
            i <= points@.len(),
            out@.len() == i,
            cam.wf(),
            points_in_range(points@),
            forall|k: int|
                0 <= k < i ==> crate::camera::ground_to_pixel_spec(
                    *cam,
                    #[trigger] points@[k],
                ) is Some,
            forall|k: int|
                0 <= k < i ==> out@[k] == crate::camera::ground_to_pixel_spec(
                    *cam,
                    #[trigger] points@[k],
                )->Some_0,
        decreases points@.len() - i,
    {
        match cam.ground_to_pixel(points[i]) {
            Some(px) => out.push(px),
            None => {
                return Err(CycleError::DebugProjectionFailed);
            },
        }
        i = i + 1;
    }
    Ok(out)
}

/// Re-projects a ground line into the image; fails iff either endpoint has
/// no image position.
fn reproject_line(cam: &CameraMatrix, line: &Line) -> (r: Result<PixelLine, CycleError>)
    requires
        cam.wf(),
        in_range(line.start),
        in_range(line.end),
    ensures
        r is Ok <==> crate::camera::ground_to_pixel_spec(*cam, line.start) is Some
            && crate::camera::ground_to_pixel_spec(*cam, line.end) is Some,
        r is Ok ==> r->Ok_0 == (PixelLine {
            start: crate::camera::ground_to_pixel_spec(*cam, line.start)->Some_0,
            end: crate::camera::ground_to_pixel_spec(*cam, line.end)->Some_0,
        }),
{
    match (cam.ground_to_pixel(line.start), cam.ground_to_pixel(line.end)) {
        (Some(a), Some(b)) => Ok(PixelLine { start: a, end: b }),
        _ => Err(CycleError::DebugProjectionFailed),
    }
}

/// The line-detection stage itself; it holds no state between cycles.
pub struct LineDetection {}

/// What the stage needs at construction: nothing.
pub struct CreationContext {}

impl LineDetection {
    pub fn new(_context: CreationContext) -> (r: LineDetection) {
        LineDetection {  }
    }

    /// Runs one frame: merges and filters scanline segments, projects the
    /// admissible ones to the ground, extracts lines by RANSAC with gap
    /// splitting and gating, and, for a subscriber, re-projects the result
    /// into image coordinates.
    pub fn cycle(
        &mut self,
        camera_matrix: &CameraMatrix,
        filtered_segments: &FilteredSegments,
        image: &LumaImage,
        params: &Parameters,
        seed: u64,
        subscribed: bool,
    ) -> (r: Result<CycleOutput, CycleError>)
        requires
            camera_matrix.wf(),
            image.wf(),
            params.wf(),
            filtered_segments_wf(*filtered_segments),
        ensures
            !subscribed ==> r is Ok && r->Ok_0.lines_in_image is None,
            r is Err <==> subscribed && debug_reprojection_fails(
                *camera_matrix,
                *filtered_segments,
                *image,
                *params,
            ),
            subscribed && r is Ok ==> {
                let debug = r->Ok_0.lines_in_image;
                &&& debug is Some
                &&& debug->Some_0.points@.len() == candidates_spec(
                    *camera_matrix,
                    *filtered_segments,
                    *image,
                    *params,
                ).len()
                &&& forall|k: int|
                    0 <= k < debug->Some_0.points@.len() ==> debug->Some_0.points@[k]
                        == crate::camera::ground_to_pixel_spec(
                        *camera_matrix,
                        #[trigger] candidates_spec(
                            *camera_matrix,
                            *filtered_segments,
                            *image,
                            *params,
                        )[k],
                    )->Some_0
            },
            r is Ok ==> {
                let out = r->Ok_0;
                &&& out.line_data.lines_in_robot@.len() <= params.maximum_number_of_lines
                &&& forall|k: int|
                    0 <= k < out.line_data.lines_in_robot@.len() ==> line_accepted_by_gates(
                        *params,
                        #[trigger] out.line_data.lines_in_robot@[k],
                    )
                &&& forall|k: int|
                    0 <= k < out.line_data.lines_in_robot@.len() ==> line_from_candidates(
                        candidates_spec(*camera_matrix, *filtered_segments, *image, *params),
                        *params,
                        #[trigger] out.line_data.lines_in_robot@[k],
                    )
                &&& out.line_data.used_vertical_filtered_segments@.no_duplicates()
                &&& forall|k: int|
                    0 <= k < out.line_data.used_vertical_filtered_segments@.len()
                        ==> origin_admissible(
                        *camera_matrix,
                        *filtered_segments,
                        *image,
                        *params,
                        #[trigger] out.line_data.used_vertical_filtered_segments@[k],
                    )
                &&& forall|i: int, j: int|
                    #[trigger] segment_produces_candidate(
                        *camera_matrix,
                        *filtered_segments,
                        *image,
                        *params,
                        i,
                        j,
                    ) ==> out.line_data.used_vertical_filtered_segments@.contains(
                        origin_of(*filtered_segments, *params, i, j),
                    )
                &&& filtered_segments.vertical_scan_lines@.len() == 0
                    ==> out.line_data.lines_in_robot@.len() == 0
                        && out.line_data.used_vertical_filtered_segments@.len() == 0
            },
    {
        let (line_points, used_vertical_filtered_segments) = filter_segments_for_lines(
            camera_matrix,
            filtered_segments,
            image,
            params,
        );
        let ghost candidates = line_points@;
        let debug_points: Option<Vec<SubPixelPoint>> = if subscribed {
            match reproject_points(camera_matrix, &line_points) {
                Ok(px) => Some(px),
                Err(e) => {
                    return Err(e);
                },
            }
        } else {
            None
        };
        let fit = detect_lines(line_points, params, seed);
        let line_data = LineData {
            lines_in_robot: fit.lines_in_robot,
            used_vertical_filtered_segments,
        };
        if !subscribed {
        proof {
            assert forall|k: int| 0 <= k < line_data.lines_in_robot@.len() implies
                line_from_candidates(
                    candidates_spec(*camera_matrix, *filtered_segments, *image, *params),
                    *params,
                    #[trigger] line_data.lines_in_robot@[k],
                ) by {
                assert(accepted_line_provenance(
                    candidates_spec(*camera_matrix, *filtered_segments, *image, *params),
                    *params,
                    line_data.lines_in_robot@[k],
                    fit.support_lines@[k],
                ));
            }
        }
            return Ok(CycleOutput { line_data, lines_in_image: None });
        }
        let points = match debug_points {
            Some(px) => px,
            None => Vec::new(),
        };
        let mut lines: Vec<PixelLine> = Vec::new();
        let mut i: usize = 0;
        while i < fit.support_lines.len()
            invariant
                subscribed,
                i <= fit.support_lines@.len(),
                camera_matrix.wf(),
                forall|k: int|
                    0 <= k < candidates.len() ==> crate::camera::ground_to_pixel_spec(
                        *camera_matrix,
                        #[trigger] candidates[k],
                    ) is Some,
                forall|k: int|
                    0 <= k < fit.support_lines@.len() ==> candidates.contains(
                        (#[trigger] fit.support_lines@[k]).start,
                    ) && candidates.contains(fit.support_lines@[k].end) && in_range(
                        fit.support_lines@[k].start,
                    ) && in_range(fit.support_lines@[k].end),
            decreases fit.support_lines@.len() - i,
        {
            let support_line = &fit.support_lines[i];
            proof {
                let si = choose|si: int|
                    0 <= si < candidates.len() && candidates[si] == support_line.start;
                let ei = choose|ei: int|
                    0 <= ei < candidates.len() && candidates[ei] == support_line.end;
                assert(crate::camera::ground_to_pixel_spec(*camera_matrix, candidates[si]) is Some);
                assert(crate::camera::ground_to_pixel_spec(*camera_matrix, candidates[ei]) is Some);
            }
            match reproject_line(camera_matrix, support_line) {
                Ok(pl) => lines.push(pl),
                Err(e) => {
                    proof {
                        assert(false);
                    }
                    return Err(e);
                },
            }
            i = i + 1;
        }
        let mut discarded_lines: Vec<(PixelLine, LineDiscardReason)> = Vec::new();
        let mut j: usize = 0;
        while j < fit.discarded_lines.len()
            invariant
                subscribed,
                j <= fit.discarded_lines@.len(),
                camera_matrix.wf(),
                forall|k: int|
                    0 <= k < candidates.len() ==> crate::camera::ground_to_pixel_spec(
                        *camera_matrix,
                        #[trigger] candidates[k],
                    ) is Some,
                forall|k: int|
                    0 <= k < fit.discarded_lines@.len() ==> candidates.contains(
                        (#[trigger] fit.discarded_lines@[k]).0.start,
                    ) && candidates.contains(fit.discarded_lines@[k].0.end) && in_range(
                        fit.discarded_lines@[k].0.start,
                    ) && in_range(fit.discarded_lines@[k].0.end),
            decreases fit.discarded_lines@.len() - j,
        {
            let (ground_line, reason) = fit.discarded_lines[j];
            proof {
                let si = choose|si: int|
                    0 <= si < candidates.len() && candidates[si] == ground_line.start;
                let ei = choose|ei: int|
                    0 <= ei < candidates.len() && candidates[ei] == ground_line.end;
                assert(crate::camera::ground_to_pixel_spec(*camera_matrix, candidates[si]) is Some);
                assert(crate::camera::ground_to_pixel_spec(*camera_matrix, candidates[ei]) is Some);
            }
            match reproject_line(camera_matrix, &ground_line) {
                Ok(pl) => discarded_lines.push((pl, reason)),
                Err(e) => {
                    proof {
                        assert(false);
                    }
                    return Err(e);
                },
            }
            j = j + 1;
        }
        proof {
            assert forall|k: int| 0 <= k < line_data.lines_in_robot@.len() implies
                line_from_candidates(
                    candidates_spec(*camera_matrix, *filtered_segments, *image, *params),
                    *params,
                    #[trigger] line_data.lines_in_robot@[k],
                ) by {
                assert(accepted_line_provenance(
                    candidates_spec(*camera_matrix, *filtered_segments, *image, *params),
                    *params,
                    line_data.lines_in_robot@[k],
                    fit.support_lines@[k],
                ));
            }
        }
        Ok(
            CycleOutput {
                line_data,
                lines_in_image: Some(ImageLines { points, lines, discarded_lines }),
            },
        )
    }
}


} // verus!
