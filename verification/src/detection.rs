//! The per-frame line-detection pipeline.
//!
//! Scanline segments are merged, tested for admissibility as line
//! cross-sections, projected to the ground, fitted by iterated RANSAC,
//! gap-split and gated on length and distance.  One invocation handles one
//! camera frame and keeps no state.

use vstd::prelude::*;
use crate::camera::CameraMatrix;
use crate::geometry::{
    GroundPoint, Line, PixelLine, PixelPoint, SubPixelPoint, center_spec, dist_sq_spec, foot_spec,
    in_foot_range, in_range, line_in_foot_range, norm_sq_spec, sq,
};
use crate::image::{Gradient, LumaImage, gradient_spec, lemma_gradient_bounds};
use crate::math::{COORD_LIMIT, SCALE, lemma_mul_bound, mul_i128};
use crate::ransac::points_in_range;
use crate::segments::{
    EdgeType, FilteredSegments, ScanLine, Segment, filtered_segments_wf, merge_spec,
    merge_segments,
};

verus! {

/// Why a raw RANSAC line was not accepted.
#[derive(Clone, Copy, Debug, PartialEq, Eq, Structural)]
pub enum LineDiscardReason {
    TooFewPoints,
    LineTooShort,
    LineTooLong,
    TooFarAway,
}

/// The per-cycle configuration; lengths and distances are in `SCALE` units.
#[derive(Clone, Copy, Debug)]
pub struct Parameters {
    pub allowed_line_length_min: i64,
    pub allowed_line_length_max: i64,
    pub check_line_distance: bool,
    pub check_line_length: bool,
    pub check_edge_gradient: bool,
    pub check_line_segments_projection: bool,
    pub gradient_alignment: i64,
    pub maximum_distance_to_robot: i64,
    pub maximum_fit_distance_in_ground: i64,
    pub maximum_gap_on_line: i64,
    pub maximum_number_of_lines: usize,
    pub maximum_projected_segment_length: i64,
    pub minimum_number_of_points_on_line: usize,
    pub maximum_merge_gap_in_pixels: u16,
}

impl Parameters {
    pub open spec fn wf(&self) -> bool {
        &&& 0 <= self.allowed_line_length_min <= COORD_LIMIT
        &&& 0 <= self.allowed_line_length_max <= COORD_LIMIT
        &&& -COORD_LIMIT <= self.gradient_alignment <= COORD_LIMIT
        &&& 0 <= self.maximum_distance_to_robot <= COORD_LIMIT
        &&& 0 <= self.maximum_fit_distance_in_ground <= COORD_LIMIT
        &&& 0 <= self.maximum_gap_on_line <= COORD_LIMIT
        &&& 0 <= self.maximum_projected_segment_length <= COORD_LIMIT
    }
}

/// The always-produced output of one cycle.
pub struct LineData {
    pub lines_in_robot: Vec<Line>,
    pub used_vertical_filtered_segments: Vec<PixelPoint>,
}

/// The debug output of one cycle, in image coordinates.
pub struct ImageLines {
    pub points: Vec<SubPixelPoint>,
    pub lines: Vec<PixelLine>,
    pub discarded_lines: Vec<(PixelLine, LineDiscardReason)>,
}

/// The sub-pixel image position of a whole-pixel coordinate pair.
pub open spec fn sub_pixel_of(x: u16, y: u16) -> SubPixelPoint {
    SubPixelPoint { x: (x as int * SCALE as int) as i64, y: (y as int * SCALE as int) as i64 }
}

/// Whether the ground distance between two projected pixels is within
/// `maximum_length`; `None` when either projection fails.
pub open spec fn segment_shorter_than_spec(
    cam: CameraMatrix,
    start: SubPixelPoint,
    end: SubPixelPoint,
    maximum_length: i64,
) -> Option<bool> {
    let a = crate::camera::pixel_to_ground_spec(cam, start);
    let b = crate::camera::pixel_to_ground_spec(cam, end);
    if a is Some && b is Some {
        Some(dist_sq_spec(a->Some_0, b->Some_0) <= sq(maximum_length as int))
    } else {
        None
    }
}

/// Whether the unit gradients behind two raw Sobel responses have a dot
/// product below `alignment / SCALE`, decided exactly on squared integers.
/// A zero response counts as a zero vector, whose dot product is zero.
pub open spec fn below_alignment_spec(a: Gradient, b: Gradient, alignment: i64) -> bool {
    let dot = a.x * b.x + a.y * b.y;
    let na = a.x * a.x + a.y * a.y;
    let nb = b.x * b.x + b.y * b.y;
    if na == 0 || nb == 0 {
        0 < alignment
    } else if alignment >= 0 {
        dot < 0 || dot * dot * (SCALE as int * SCALE as int) < alignment as int * alignment as int
            * na * nb
    } else {
        dot < 0 && alignment as int * alignment as int * na * nb < dot * dot * (SCALE as int
            * SCALE as int)
    }
}

/// Admissibility of a merged segment as a field-line cross-section: Rising
/// start and Falling end; if enabled, a projected ground length within
/// bounds (a failed projection does not disqualify); if enabled, luma
/// gradients at the two ends anti-aligned below the threshold.
pub open spec fn is_line_segment_spec(
    segment: Segment,
    scan_line_position: u16,
    image: LumaImage,
    cam: CameraMatrix,
    params: Parameters,
) -> bool {
    if segment.start_edge_type != EdgeType::Rising || segment.end_edge_type != EdgeType::Falling {
        false
    } else {
        let shorter = segment_shorter_than_spec(
            cam,
            sub_pixel_of(scan_line_position, segment.start),
            sub_pixel_of(scan_line_position, segment.end),
            params.maximum_projected_segment_length,
        );
        let too_long = params.check_line_segments_projection && shorter == Some(false);
        if too_long {
            false
        } else if !params.check_edge_gradient {
            true
        } else {
            below_alignment_spec(
                gradient_spec(image, scan_line_position as int, segment.start as int),
                gradient_spec(image, scan_line_position as int, segment.end as int),
                params.gradient_alignment,
            )
        }
    }
}

/// A used-segment origin is justified by some admissible merged segment of
/// some scanline.
pub open spec fn origin_admissible(
    cam: CameraMatrix,
    fs: FilteredSegments,
    image: LumaImage,
    params: Parameters,
    origin: PixelPoint,
) -> bool {
    exists|i: int, j: int|
        {
            &&& 0 <= i < fs.vertical_scan_lines@.len()
            &&& 0 <= j < merge_spec(
                fs.vertical_scan_lines@[i].segments@,
                params.maximum_merge_gap_in_pixels,
            ).len()
            &&& is_line_segment_spec(
                #[trigger] merge_spec(
                    fs.vertical_scan_lines@[i].segments@,
                    params.maximum_merge_gap_in_pixels,
                )[j],
                fs.vertical_scan_lines@[i].position,
                image,
                cam,
                params,
            )
            &&& origin == (PixelPoint {
                x: fs.vertical_scan_lines@[i].position,
                y: merge_spec(
                    fs.vertical_scan_lines@[i].segments@,
                    params.maximum_merge_gap_in_pixels,
                )[j].start,
            })
        }
}

/// The sub-pixel midpoint of a merged segment on its scanline.
pub open spec fn mid_sub_pixel(position: u16, seg: Segment) -> SubPixelPoint {
    SubPixelPoint {
        x: (position as int * SCALE as int) as i64,
        y: ((seg.start as int + seg.end as int) * (SCALE as int / 2)) as i64,
    }
}

/// Whether the merged segment at index `j` of scanline `i` contributes a
/// candidate: it is admissible and its midpoint projects to the ground.
pub open spec fn segment_produces_candidate(
    cam: CameraMatrix,
    fs: FilteredSegments,
    image: LumaImage,
    params: Parameters,
    i: int,
    j: int,
) -> bool {
    &&& 0 <= i < fs.vertical_scan_lines@.len()
    &&& 0 <= j < merge_spec(
        fs.vertical_scan_lines@[i].segments@,
        params.maximum_merge_gap_in_pixels,
    ).len()
    &&& is_line_segment_spec(
        merge_spec(fs.vertical_scan_lines@[i].segments@, params.maximum_merge_gap_in_pixels)[j],
        fs.vertical_scan_lines@[i].position,
        image,
        cam,
        params,
    )
    &&& crate::camera::pixel_to_ground_spec(
        cam,
        mid_sub_pixel(
            fs.vertical_scan_lines@[i].position,
            merge_spec(
                fs.vertical_scan_lines@[i].segments@,
                params.maximum_merge_gap_in_pixels,
            )[j],
        ),
    ) is Some
}

/// The used-segment origin of the merged segment at index `j` of scanline
/// `i`.
pub open spec fn origin_of(fs: FilteredSegments, params: Parameters, i: int, j: int) -> PixelPoint {
    PixelPoint {
        x: fs.vertical_scan_lines@[i].position,
        y: merge_spec(
            fs.vertical_scan_lines@[i].segments@,
            params.maximum_merge_gap_in_pixels,
        )[j].start,
    }
}

/// The candidate ground point of one merged segment: its midpoint's ground
/// projection, if the segment is admissible and the projection succeeds.
pub open spec fn segment_candidate(
    cam: CameraMatrix,
    image: LumaImage,
    params: Parameters,
    position: u16,
    seg: Segment,
) -> Option<GroundPoint> {
    if is_line_segment_spec(seg, position, image, cam, params) {
        crate::camera::pixel_to_ground_spec(cam, mid_sub_pixel(position, seg))
    } else {
        None
    }
}

/// The candidate ground points of a run of merged segments, in order.
pub open spec fn candidates_in(
    cam: CameraMatrix,
    image: LumaImage,
    params: Parameters,
    position: u16,
    segs: Seq<Segment>,
) -> Seq<GroundPoint>
    decreases segs.len(),
{
    if segs.len() == 0 {
        Seq::empty()
    } else {
        let rest = candidates_in(cam, image, params, position, segs.skip(1));
        match segment_candidate(cam, image, params, position, segs[0]) {
            Some(g) => seq![g] + rest,
            None => rest,
        }
    }
}

/// The candidate ground points of a run of scanlines, in scanline order,
/// each scanline's segments first merged.
pub open spec fn candidates_from(
    cam: CameraMatrix,
    image: LumaImage,
    params: Parameters,
    sls: Seq<ScanLine>,
) -> Seq<GroundPoint>
    decreases sls.len(),
{
    if sls.len() == 0 {
        Seq::empty()
    } else {
        candidates_in(
            cam,
            image,
            params,
            sls[0].position,
            merge_spec(sls[0].segments@, params.maximum_merge_gap_in_pixels),
        ) + candidates_from(cam, image, params, sls.skip(1))
    }
}

/// The full candidate cloud of one frame.
pub open spec fn candidates_spec(
    cam: CameraMatrix,
    fs: FilteredSegments,
    image: LumaImage,
    params: Parameters,
) -> Seq<GroundPoint> {
    candidates_from(cam, image, params, fs.vertical_scan_lines@)
}

/// A pushed element does not remove earlier members.
proof fn lemma_push_keeps_contains(s: Seq<PixelPoint>, x: PixelPoint, y: PixelPoint)
    requires
        s.contains(y),
    ensures
        s.push(x).contains(y),
{
    let w = choose|w: int| 0 <= w < s.len() && s[w] == y;
    assert(s.push(x)[w] == y);
}

/// Projects two pixel rows of one scanline to the ground and compares their
/// distance against `maximum_length`; `None` when either projection fails.
pub fn is_segment_shorter_than(
    cam: &CameraMatrix,
    start: SubPixelPoint,
    end: SubPixelPoint,
    maximum_length: i64,
) -> (r: Option<bool>)
    requires
        cam.wf(),
        crate::camera::sub_pixel_in_range(start),
        crate::camera::sub_pixel_in_range(end),
        0 <= maximum_length <= COORD_LIMIT,
    ensures
        r == segment_shorter_than_spec(*cam, start, end, maximum_length),
{
    let a = cam.pixel_to_ground(start);
    let b = cam.pixel_to_ground(end);
    match (a, b) {
        (Some(a), Some(b)) => {
            let d = a.dist_sq(&b);
            let m2 = mul_i128(maximum_length as i128, maximum_length as i128);
            Some(d <= m2)
        },
        _ => None,
    }
}

/// Exact test of the gradient-alignment condition on raw Sobel responses.
fn below_alignment(a: Gradient, b: Gradient, alignment: i64) -> (r: bool)
    requires
        -1020 <= a.x <= 1020,
        -1020 <= a.y <= 1020,
        -1020 <= b.x <= 1020,
        -1020 <= b.y <= 1020,
        -COORD_LIMIT <= alignment <= COORD_LIMIT,
    ensures
        r == below_alignment_spec(a, b, alignment),
{
    proof {
        lemma_mul_bound(a.x as int, b.x as int, 1020, 1020);
        lemma_mul_bound(a.y as int, b.y as int, 1020, 1020);
        lemma_mul_bound(a.x as int, a.x as int, 1020, 1020);
        lemma_mul_bound(a.y as int, a.y as int, 1020, 1020);
        lemma_mul_bound(b.x as int, b.x as int, 1020, 1020);
        lemma_mul_bound(b.y as int, b.y as int, 1020, 1020);
    }
    let dot: i64 = a.x * b.x + a.y * b.y;
    let na: i64 = a.x * a.x + a.y * a.y;
    let nb: i64 = b.x * b.x + b.y * b.y;
    if na == 0 || nb == 0 {
        return 0 < alignment;
    }
    let dots = mul_i128(dot as i128, dot as i128);
    proof {
        lemma_mul_bound(SCALE as int, SCALE as int, 1_000_000, 1_000_000);
        lemma_mul_bound(dot as int, dot as int, 2_080_800, 2_080_800);
        lemma_mul_bound(alignment as int, alignment as int, 1_000_000_000, 1_000_000_000);
        lemma_mul_bound(na as int, nb as int, 2_080_800, 2_080_800);
        lemma_mul_bound(
            (alignment as int * alignment as int) as int,
            (na as int * nb as int) as int,
            1_000_000_000_000_000_000,
            4_329_728_640_000,
        );
    }
    let scales: i128 = (SCALE as i128) * (SCALE as i128);
    let lhs = mul_i128(dots, scales);
    let al2 = mul_i128(alignment as i128, alignment as i128);
    let nanb = mul_i128(na as i128, nb as i128);
    let rhs = mul_i128(al2, nanb);
    proof {
        assert(rhs == alignment as int * alignment as int * (na as int) * (nb as int))
            by (nonlinear_arith)
            requires
                rhs == (alignment as int * alignment as int) * ((na as int) * (nb as int)),
        ;
    }
    if alignment >= 0 {
        dot < 0 || lhs < rhs
    } else {
        dot < 0 && rhs < lhs
    }
}

/// Admissibility of a merged segment, exactly `is_line_segment_spec`.
pub fn is_line_segment(
    segment: Segment,
    scan_line_position: u16,
    image: &LumaImage,
    cam: &CameraMatrix,
    params: &Parameters,
) -> (r: bool)
    requires
        image.wf(),
        cam.wf(),
        params.wf(),
    ensures
        r == is_line_segment_spec(segment, scan_line_position, *image, *cam, *params),
{
    if !(matches!(segment.start_edge_type, EdgeType::Rising)) || !(matches!(
        segment.end_edge_type,
        EdgeType::Falling,
    )) {
        return false;
    }
    if params.check_line_segments_projection {
        let start = SubPixelPoint {
            x: scan_line_position as i64 * SCALE,
            y: segment.start as i64 * SCALE,
        };
        let end = SubPixelPoint {
            x: scan_line_position as i64 * SCALE,
            y: segment.end as i64 * SCALE,
        };
        let shorter = is_segment_shorter_than(
            cam,
            start,
            end,
            params.maximum_projected_segment_length,
        );
        if let Some(false) = shorter {
            return false;
        }
    }
    if !params.check_edge_gradient {
        return true;
    }
    let gradient_at_start = crate::image::get_gradient(
        image,
        PixelPoint { x: scan_line_position, y: segment.start },
    );
    let gradient_at_end = crate::image::get_gradient(
        image,
        PixelPoint { x: scan_line_position, y: segment.end },
    );
    proof {
        lemma_gradient_bounds(*image, scan_line_position as int, segment.start as int);
        lemma_gradient_bounds(*image, scan_line_position as int, segment.end as int);
    }
    below_alignment(gradient_at_start, gradient_at_end, params.gradient_alignment)
}

/// Whether `origin` already stands in the used set.
fn origin_present(used: &Vec<PixelPoint>, origin: PixelPoint) -> (r: bool)
    ensures
        r == used@.contains(origin),
{
    let mut i: usize = 0;
    while i < used.len()
        invariant
            i <= used@.len(),
            forall|k: int| 0 <= k < i ==> used@[k] != origin,
        decreases used@.len() - i,
    {
        if used[i].x == origin.x && used[i].y == origin.y {
            return true;
        }
        i = i + 1;
    }
    false
}

/// Merges each scanline's segments, keeps the admissible ones, and projects
/// their midpoints to the ground.  Returns the candidate ground points and
/// the distinct origins of the segments that produced them.
pub fn filter_segments_for_lines(
    cam: &CameraMatrix,
    filtered_segments: &FilteredSegments,
    image: &LumaImage,
    params: &Parameters,
) -> (r: (Vec<GroundPoint>, Vec<PixelPoint>))
    requires
        cam.wf(),
        image.wf(),
        params.wf(),
        filtered_segments_wf(*filtered_segments),
    ensures
        points_in_range(r.0@),
        r.0@ == candidates_spec(*cam, *filtered_segments, *image, *params),
        r.1@.no_duplicates(),
        forall|k: int|
            0 <= k < r.1@.len() ==> origin_admissible(
                *cam,
                *filtered_segments,
                *image,
                *params,
                #[trigger] r.1@[k],
            ),
        forall|i: int, j: int|
            #[trigger] segment_produces_candidate(*cam, *filtered_segments, *image, *params, i, j)
                ==> r.1@.contains(origin_of(*filtered_segments, *params, i, j)),
        filtered_segments.vertical_scan_lines@.len() == 0 ==> r.0@.len() == 0 && r.1@.len() == 0,
{
    let mut line_points: Vec<GroundPoint> = Vec::new();
    let mut used: Vec<PixelPoint> = Vec::new();
    proof {
        assert(filtered_segments.vertical_scan_lines@.skip(0)
            =~= filtered_segments.vertical_scan_lines@);
        assert(line_points@ + candidates_from(
            *cam,
            *image,
            *params,
            filtered_segments.vertical_scan_lines@,
        ) =~= candidates_from(*cam, *image, *params, filtered_segments.vertical_scan_lines@));
    }
    let mut i: usize = 0;
    while i < filtered_segments.vertical_scan_lines.len()
        invariant
            i <= filtered_segments.vertical_scan_lines@.len(),
            line_points@ + candidates_from(
                *cam,
                *image,
                *params,
                filtered_segments.vertical_scan_lines@.skip(i as int),
            ) == candidates_spec(*cam, *filtered_segments, *image, *params),
            cam.wf(),
            image.wf(),
            params.wf(),
            filtered_segments_wf(*filtered_segments),
            points_in_range(line_points@),
            used@.no_duplicates(),
            forall|k: int|
                0 <= k < used@.len() ==> origin_admissible(
                    *cam,
                    *filtered_segments,
                    *image,
                    *params,
                    #[trigger] used@[k],
                ),
            forall|i2: int, j2: int|
                i2 < i as int && #[trigger] segment_produces_candidate(
                    *cam,
                    *filtered_segments,
                    *image,
                    *params,
                    i2,
                    j2,
                ) ==> used@.contains(origin_of(*filtered_segments, *params, i2, j2)),
            i > 0 ==> filtered_segments.vertical_scan_lines@.len() > 0,
            line_points@.len() > 0 ==> filtered_segments.vertical_scan_lines@.len() > 0,
            used@.len() > 0 ==> filtered_segments.vertical_scan_lines@.len() > 0,
        decreases filtered_segments.vertical_scan_lines@.len() - i,
    {
        let scan_line = &filtered_segments.vertical_scan_lines[i];
        let position = scan_line.position;
        let merged = merge_segments(&scan_line.segments, params.maximum_merge_gap_in_pixels);
        let ghost scan_index = i as int;
        proof {
            let sls = filtered_segments.vertical_scan_lines@;
            assert(sls.skip(scan_index)[0] == sls[scan_index]);
            assert(sls.skip(scan_index).skip(1) =~= sls.skip(scan_index + 1));
            assert(merged@.skip(0) =~= merged@);
            assert((line_points@ + candidates_in(*cam, *image, *params, position, merged@))
                + candidates_from(*cam, *image, *params, sls.skip(scan_index + 1))
                =~= line_points@ + (candidates_in(*cam, *image, *params, position, merged@)
                + candidates_from(*cam, *image, *params, sls.skip(scan_index + 1))));
        }
        let mut j: usize = 0;
        while j < merged.len()
            invariant
                j <= merged@.len(),
                line_points@ + candidates_in(*cam, *image, *params, position, merged@.skip(
                    j as int,
                )) + candidates_from(
                    *cam,
                    *image,
                    *params,
                    filtered_segments.vertical_scan_lines@.skip(scan_index + 1),
                ) == candidates_spec(*cam, *filtered_segments, *image, *params),
                cam.wf(),
                image.wf(),
                params.wf(),
                filtered_segments_wf(*filtered_segments),
                0 <= scan_index < filtered_segments.vertical_scan_lines@.len(),
                position == filtered_segments.vertical_scan_lines@[scan_index].position,
                merged@ == merge_spec(
                    filtered_segments.vertical_scan_lines@[scan_index].segments@,
                    params.maximum_merge_gap_in_pixels,
                ),
                points_in_range(line_points@),
                used@.no_duplicates(),
                forall|k: int|
                    0 <= k < used@.len() ==> origin_admissible(
                        *cam,
                        *filtered_segments,
                        *image,
                        *params,
                        #[trigger] used@[k],
                    ),
                forall|i2: int, j2: int|
                    (i2 < scan_index || (i2 == scan_index && j2 < j as int))
                        && #[trigger] segment_produces_candidate(
                        *cam,
                        *filtered_segments,
                        *image,
                        *params,
                        i2,
                        j2,
                    ) ==> used@.contains(origin_of(*filtered_segments, *params, i2, j2)),
                line_points@.len() > 0 ==> filtered_segments.vertical_scan_lines@.len() > 0,
                used@.len() > 0 ==> filtered_segments.vertical_scan_lines@.len() > 0,
            decreases merged@.len() - j,
        {
            let segment = merged[j];
            proof {
                assert(merged@.skip(j as int)[0] == merged@[j as int]);
                assert(merged@.skip(j as int).skip(1) =~= merged@.skip(j as int + 1));
            }
            let ghost lp_old = line_points@;
            if is_line_segment(segment, position, image, cam, params) {
                let mid = SubPixelPoint {
                    x: position as i64 * SCALE,
                    y: (segment.start as i64 + segment.end as i64) * 500_000,
                };
                proof {
                    assert(mid == mid_sub_pixel(position, segment));
                }
                match cam.pixel_to_ground(mid) {
                None => {
                    proof {
                        assert(candidates_in(*cam, *image, *params, position, merged@.skip(
                            j as int,
                        )) =~= candidates_in(*cam, *image, *params, position, merged@.skip(
                            j as int + 1,
                        )));
                    }
                },
                Some(ground) => {
                    line_points.push(ground);
                    proof {
                        assert(candidates_in(*cam, *image, *params, position, merged@.skip(
                            j as int,
                        )) =~= seq![ground] + candidates_in(
                            *cam,
                            *image,
                            *params,
                            position,
                            merged@.skip(j as int + 1),
                        ));
                        assert(line_points@ + candidates_in(
                            *cam,
                            *image,
                            *params,
                            position,
                            merged@.skip(j as int + 1),
                        ) =~= lp_old + candidates_in(*cam, *image, *params, position, merged@.skip(
                            j as int,
                        )));
                    }
                    let origin = PixelPoint { x: position, y: segment.start };
                    proof {
                        assert(origin_admissible(
                            *cam,
                            *filtered_segments,
                            *image,
                            *params,
                            origin,
                        )) by {
                            assert(0 <= scan_index
                                < filtered_segments.vertical_scan_lines@.len());
                            assert((j as int) < merge_spec(
                                fs_sl(*filtered_segments, scan_index).segments@,
                                params.maximum_merge_gap_in_pixels,
                            ).len());
                        }
                        assert(origin == origin_of(*filtered_segments, *params, scan_index, j as int));
                    }
                    let already = origin_present(&used, origin);
                    let ghost used_before = used@;
                    if !already {
                        used.push(origin);
                    }
                    proof {
                        if !already {
                            assert(used@[used_before.len() as int] == origin);
                            assert forall|y: PixelPoint| used_before.contains(y) implies used@
                                .contains(y) by {
                                lemma_push_keeps_contains(used_before, origin, y);
                            }
                        }
                        assert(used@.contains(origin));
                    }
                },
                }
            } else {
                proof {
                    assert(candidates_in(*cam, *image, *params, position, merged@.skip(j as int))
                        =~= candidates_in(*cam, *image, *params, position, merged@.skip(
                        j as int + 1,
                    )));
                }
            }
            j = j + 1;
        }
        proof {
            assert(candidates_in(*cam, *image, *params, position, merged@.skip(merged@.len() as int))
                =~= Seq::<GroundPoint>::empty());
            assert(line_points@ + candidates_in(
                *cam,
                *image,
                *params,
                position,
                merged@.skip(merged@.len() as int),
            ) =~= line_points@);
        }
        i = i + 1;
    }
    proof {
        assert(candidates_from(
            *cam,
            *image,
            *params,
            filtered_segments.vertical_scan_lines@.skip(i as int),
        ) =~= Seq::<GroundPoint>::empty());
        assert(line_points@ + candidates_from(
            *cam,
            *image,
            *params,
            filtered_segments.vertical_scan_lines@.skip(i as int),
        ) =~= line_points@);
    }
    (line_points, used)
}

/// The scanline at an index, as a spec shorthand.
pub open spec fn fs_sl(fs: FilteredSegments, i: int) -> ScanLine {
    fs.vertical_scan_lines@[i]
}

} // verus!
