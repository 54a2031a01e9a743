//! Relations between configurations, stated and proved once for all inputs.

use vstd::prelude::*;
use crate::detection::{Parameters, is_line_segment_spec};
use crate::fitting::line_accepted_by_gates;
use crate::geometry::Line;
use crate::image::LumaImage;
use crate::camera::CameraMatrix;
use crate::segments::Segment;

verus! {

/// With both output gates disabled, every line the fitter produces is
/// accepted: the output is the RANSAC result alone.
pub proof fn lemma_disabled_gates_accept_all(params: Parameters, l: Line)
    requires
        !params.check_line_length,
        !params.check_line_distance,
    ensures
        line_accepted_by_gates(params, l),
{
}

/// Enabling an output gate can only shrink the set of accepted lines: a
/// line accepted under more checks is accepted under fewer, thresholds
/// unchanged.
pub proof fn lemma_enabling_gates_only_reduces(more: Parameters, fewer: Parameters, l: Line)
    requires
        fewer.allowed_line_length_min == more.allowed_line_length_min,
        fewer.allowed_line_length_max == more.allowed_line_length_max,
        fewer.maximum_distance_to_robot == more.maximum_distance_to_robot,
        fewer.check_line_length ==> more.check_line_length,
        fewer.check_line_distance ==> more.check_line_distance,
        line_accepted_by_gates(more, l),
    ensures
        line_accepted_by_gates(fewer, l),
{
}

/// Enabling an admissibility check can only shrink the set of admissible
/// segments, thresholds unchanged.
pub proof fn lemma_enabling_segment_checks_only_reduces(
    more: Parameters,
    fewer: Parameters,
    segment: Segment,
    scan_line_position: u16,
    image: LumaImage,
    cam: CameraMatrix,
)
    requires
        fewer.maximum_projected_segment_length == more.maximum_projected_segment_length,
        fewer.gradient_alignment == more.gradient_alignment,
        fewer.check_line_segments_projection ==> more.check_line_segments_projection,
        fewer.check_edge_gradient ==> more.check_edge_gradient,
        is_line_segment_spec(segment, scan_line_position, image, cam, more),
    ensures
        is_line_segment_spec(segment, scan_line_position, image, cam, fewer),
{
}

} // verus!
