use line_detection::camera::CameraMatrix;
use line_detection::detection::{is_line_segment, is_segment_shorter_than, Parameters};
use line_detection::fitting::{detect_lines, LineDetection, CreationContext};
use line_detection::geometry::{GroundPoint, PixelPoint, SubPixelPoint};
use line_detection::image::{get_gradient, Gradient, LumaImage};
use line_detection::detection::LineDiscardReason;
use line_detection::segments::{merge_segments, EdgeType, FilteredSegments, ScanLine, Segment};

const SCALE: i64 = 1_000_000;

/// The camera of the classification scenario: normalized focal (2, 2) and
/// center (1, 1) on a 1x1 image, pitched down by a quarter turn, half a
/// meter above the ground.
fn test_camera() -> CameraMatrix {
    let angle = std::f64::consts::PI / 4.0;
    let c = (angle.cos() * SCALE as f64).round() as i64;
    let s = (angle.sin() * SCALE as f64).round() as i64;
    CameraMatrix {
        focal_x: 2 * SCALE,
        focal_y: 2 * SCALE,
        center_x: SCALE,
        center_y: SCALE,
        r00: c,
        r01: 0,
        r02: s,
        r10: 0,
        r11: SCALE,
        r12: 0,
        r20: -s,
        r21: 0,
        r22: c,
        trans_x: 0,
        trans_y: 0,
        trans_z: SCALE / 2,
    }
}

fn base_parameters() -> Parameters {
    Parameters {
        allowed_line_length_min: 100_000,
        allowed_line_length_max: 3_000_000,
        check_line_distance: false,
        check_line_length: false,
        check_edge_gradient: false,
        check_line_segments_projection: false,
        gradient_alignment: 0,
        maximum_distance_to_robot: 3_000_000,
        maximum_fit_distance_in_ground: 100_000,
        maximum_gap_on_line: 500_000,
        maximum_number_of_lines: 4,
        maximum_projected_segment_length: 300_000,
        minimum_number_of_points_on_line: 3,
        maximum_merge_gap_in_pixels: 3,
    }
}

fn ground(x: i64, y: i64) -> GroundPoint {
    GroundPoint { x, y }
}

#[test]
fn check_fixed_segment_size() {
    let camera_matrix = test_camera();
    let start = SubPixelPoint { x: 40 * SCALE, y: 2 * SCALE };
    let end = SubPixelPoint { x: 40 * SCALE, y: 202 * SCALE };
    assert!(!is_segment_shorter_than(&camera_matrix, start, end, 300_000).unwrap_or(false));
    let start2 = SubPixelPoint { x: 40 * SCALE, y: 364 * SCALE };
    let end2 = SubPixelPoint { x: 40 * SCALE, y: 366 * SCALE };
    assert!(is_segment_shorter_than(&camera_matrix, start2, end2, 300_000).unwrap_or(false));
}

#[test]
fn gradient_of_zero_image() {
    let image = LumaImage::zero(4, 4);
    let point = PixelPoint { x: 1, y: 1 };
    assert_eq!(get_gradient(&image, point), Gradient { x: 0, y: 0 });
}

#[test]
fn gradient_is_zero_on_every_border_pixel() {
    let image = LumaImage {
        width: 4,
        height: 4,
        data: vec![200u8; 16],
    };
    for k in 0..4u16 {
        assert_eq!(get_gradient(&image, PixelPoint { x: 0, y: k }), Gradient { x: 0, y: 0 });
        assert_eq!(get_gradient(&image, PixelPoint { x: k, y: 0 }), Gradient { x: 0, y: 0 });
        assert_eq!(get_gradient(&image, PixelPoint { x: 3, y: k }), Gradient { x: 0, y: 0 });
        assert_eq!(get_gradient(&image, PixelPoint { x: k, y: 3 }), Gradient { x: 0, y: 0 });
    }
}

fn segment(start: u16, end: u16, se: EdgeType, ee: EdgeType) -> Segment {
    Segment { start, end, start_edge_type: se, end_edge_type: ee }
}

#[test]
fn merger_closes_small_gaps() {
    let segs = vec![
        segment(10, 20, EdgeType::Rising, EdgeType::Falling),
        segment(22, 30, EdgeType::Rising, EdgeType::Falling),
    ];
    let merged = merge_segments(&segs, 3);
    assert_eq!(merged.len(), 1);
    assert_eq!(merged[0], segment(10, 30, EdgeType::Rising, EdgeType::Falling));

    let unmerged = merge_segments(&segs, 1);
    assert_eq!(unmerged.len(), 2);
    assert_eq!(unmerged[0], segs[0]);
    assert_eq!(unmerged[1], segs[1]);
}

#[test]
fn border_polarity_is_rejected() {
    let image = LumaImage::zero(8, 8);
    let camera_matrix = test_camera();
    let params = base_parameters();
    let seg = segment(2, 5, EdgeType::Border, EdgeType::Falling);
    assert!(!is_line_segment(seg, 2, &image, &camera_matrix, &params));
    let seg2 = segment(2, 5, EdgeType::Rising, EdgeType::Falling);
    assert!(is_line_segment(seg2, 2, &image, &camera_matrix, &params));
}

/// A bright band on a dark background: anti-parallel gradients at its two
/// edges pass the alignment check, a probe of one edge against itself fails.
#[test]
fn gradient_alignment_check() {
    let mut data = vec![0u8; 64];
    for y in 2..6usize {
        for x in 0..8usize {
            data[y * 8 + x] = 200;
        }
    }
    let image = LumaImage { width: 8, height: 8, data };
    let camera_matrix = test_camera();
    let mut params = base_parameters();
    params.check_edge_gradient = true;
    let seg = segment(2, 5, EdgeType::Rising, EdgeType::Falling);
    assert!(is_line_segment(seg, 2, &image, &camera_matrix, &params));
    let degenerate = segment(2, 2, EdgeType::Rising, EdgeType::Falling);
    assert!(!is_line_segment(degenerate, 2, &image, &camera_matrix, &params));
}

#[test]
fn ransac_splits_on_gap() {
    let points = vec![
        ground(0, 0),
        ground(100_000, 0),
        ground(200_000, 0),
        ground(300_000, 0),
        ground(2_000_000, 0),
        ground(2_100_000, 0),
        ground(2_200_000, 0),
    ];
    let params = base_parameters();
    let fit = detect_lines(points, &params, 42);
    assert_eq!(fit.lines_in_robot.len(), 2);
    assert_eq!(fit.lines_in_robot[0].start, ground(0, 0));
    assert_eq!(fit.lines_in_robot[0].end, ground(300_000, 0));
    assert_eq!(fit.lines_in_robot[1].start, ground(2_000_000, 0));
    assert_eq!(fit.lines_in_robot[1].end, ground(2_200_000, 0));
}

#[test]
fn line_cap_limits_output() {
    let points = vec![
        ground(0, 0),
        ground(100_000, 0),
        ground(200_000, 0),
        ground(300_000, 0),
        ground(2_000_000, 0),
        ground(2_100_000, 0),
        ground(2_200_000, 0),
    ];
    let mut params = base_parameters();
    params.maximum_number_of_lines = 1;
    let fit = detect_lines(points, &params, 42);
    assert_eq!(fit.lines_in_robot.len(), 1);
}

#[test]
fn single_point_yields_no_lines() {
    let params = base_parameters();
    let fit = detect_lines(vec![ground(5, 5)], &params, 7);
    assert_eq!(fit.lines_in_robot.len(), 0);
}

#[test]
fn minimum_support_of_zero_is_graceful() {
    let mut params = base_parameters();
    params.minimum_number_of_points_on_line = 0;
    let none = detect_lines(vec![], &params, 7);
    assert_eq!(none.lines_in_robot.len(), 0);
    let lone = detect_lines(vec![ground(5, 5)], &params, 7);
    assert_eq!(lone.lines_in_robot.len(), 0);
    let two = detect_lines(vec![ground(0, 0), ground(100_000, 0)], &params, 7);
    assert_eq!(two.lines_in_robot.len(), 1);
}

#[test]
fn short_line_is_discarded() {
    let points = vec![ground(0, 0), ground(20_000, 0), ground(30_000, 0), ground(50_000, 0)];
    let mut params = base_parameters();
    params.check_line_length = true;
    let fit = detect_lines(points, &params, 3);
    assert_eq!(fit.lines_in_robot.len(), 0);
    assert!(fit
        .discarded_lines
        .iter()
        .any(|(_, reason)| *reason == LineDiscardReason::LineTooShort));
}

#[test]
fn distant_line_is_discarded() {
    let points = vec![
        ground(8_000_000, 0),
        ground(8_100_000, 0),
        ground(8_200_000, 0),
        ground(8_300_000, 0),
    ];
    let mut params = base_parameters();
    params.check_line_distance = true;
    let fit = detect_lines(points, &params, 3);
    assert_eq!(fit.lines_in_robot.len(), 0);
    assert!(fit
        .discarded_lines
        .iter()
        .any(|(_, reason)| *reason == LineDiscardReason::TooFarAway));
}

#[test]
fn empty_scan_lines_give_empty_output() {
    let mut stage = LineDetection::new(CreationContext {});
    let camera_matrix = test_camera();
    let filtered_segments = FilteredSegments { vertical_scan_lines: vec![] };
    let image = LumaImage::zero(4, 4);
    let params = base_parameters();
    let out = stage
        .cycle(&camera_matrix, &filtered_segments, &image, &params, 1, false)
        .expect("cycle cannot fail without a subscriber");
    assert_eq!(out.line_data.lines_in_robot.len(), 0);
    assert_eq!(out.line_data.used_vertical_filtered_segments.len(), 0);
    assert!(out.lines_in_image.is_none());
}

#[test]
fn identical_seeds_give_identical_outputs() {
    let points = vec![
        ground(0, 0),
        ground(100_000, 40_000),
        ground(200_000, -30_000),
        ground(300_000, 10_000),
        ground(2_000_000, 0),
        ground(2_100_000, 20_000),
        ground(2_200_000, -10_000),
    ];
    let params = base_parameters();
    let a = detect_lines(points.clone(), &params, 99);
    let b = detect_lines(points, &params, 99);
    assert_eq!(a.lines_in_robot, b.lines_in_robot);
    assert_eq!(a.support_lines, b.support_lines);
}

#[test]
fn pixel_ground_round_trip() {
    let camera_matrix = test_camera();
    for &(u, v) in &[(5i64, 5i64), (3, 6), (10, 20)] {
        let pixel = SubPixelPoint { x: u * SCALE, y: v * SCALE };
        let on_ground = camera_matrix.pixel_to_ground(pixel).expect("below the horizon");
        let back = camera_matrix.ground_to_pixel(on_ground).expect("in front of the camera");
        assert!((back.x - pixel.x).abs() <= SCALE, "u drifted: {} vs {}", back.x, pixel.x);
        assert!((back.y - pixel.y).abs() <= SCALE, "v drifted: {} vs {}", back.y, pixel.y);
    }
}

/// One full cycle on a synthetic frame: a bright vertical band crossing two
/// scanlines yields candidate points and a used-segment set.
#[test]
fn cycle_on_synthetic_frame() {
    let mut stage = LineDetection::new(CreationContext {});
    let camera_matrix = test_camera();
    let image = LumaImage::zero(64, 64);
    let scan_lines = vec![
        ScanLine {
            position: 10,
            segments: vec![segment(40, 42, EdgeType::Rising, EdgeType::Falling)],
        },
        ScanLine {
            position: 20,
            segments: vec![segment(40, 42, EdgeType::Rising, EdgeType::Falling)],
        },
    ];
    let filtered_segments = FilteredSegments { vertical_scan_lines: scan_lines };
    let mut params = base_parameters();
    params.minimum_number_of_points_on_line = 2;
    let out = stage
        .cycle(&camera_matrix, &filtered_segments, &image, &params, 5, false)
        .expect("cycle cannot fail without a subscriber");
    assert_eq!(out.line_data.used_vertical_filtered_segments.len(), 2);
    assert!(out
        .line_data
        .used_vertical_filtered_segments
        .contains(&PixelPoint { x: 10, y: 40 }));
    let out2 = stage
        .cycle(&camera_matrix, &filtered_segments, &image, &params, 5, false)
        .expect("cycle cannot fail without a subscriber");
    assert_eq!(out.line_data.lines_in_robot, out2.line_data.lines_in_robot);
}

#[test]
fn subscribed_cycle_fills_debug_record() {
    let mut stage = LineDetection::new(CreationContext {});
    let camera_matrix = test_camera();
    let image = LumaImage::zero(64, 64);
    let scan_lines = vec![
        ScanLine {
            position: 10,
            segments: vec![segment(40, 42, EdgeType::Rising, EdgeType::Falling)],
        },
        ScanLine {
            position: 20,
            segments: vec![segment(40, 42, EdgeType::Rising, EdgeType::Falling)],
        },
    ];
    let filtered_segments = FilteredSegments { vertical_scan_lines: scan_lines };
    let mut params = base_parameters();
    params.minimum_number_of_points_on_line = 2;
    let out = stage
        .cycle(&camera_matrix, &filtered_segments, &image, &params, 5, true)
        .expect("all candidates lie below the horizon");
    let debug = out.lines_in_image.expect("a subscriber was attached");
    assert_eq!(debug.points.len(), 2);
    assert_eq!(debug.lines.len(), out.line_data.lines_in_robot.len());
}

#[test]
fn projection_check_rejects_long_segments() {
    let image = LumaImage::zero(512, 512);
    let camera_matrix = test_camera();
    let mut params = base_parameters();
    params.check_line_segments_projection = true;
    let long = segment(2, 202, EdgeType::Rising, EdgeType::Falling);
    assert!(!is_line_segment(long, 40, &image, &camera_matrix, &params));
    let short = segment(364, 366, EdgeType::Rising, EdgeType::Falling);
    assert!(is_line_segment(short, 40, &image, &camera_matrix, &params));
}

#[test]
fn zero_image_has_zero_gradient_everywhere() {
    let image = LumaImage::zero(6, 6);
    for x in 0..6u16 {
        for y in 0..6u16 {
            assert_eq!(get_gradient(&image, PixelPoint { x, y }), Gradient { x: 0, y: 0 });
        }
    }
}
