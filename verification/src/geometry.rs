//! Points and line segments in fixed-point coordinates.
//!
//! Ground-plane coordinates are robot-relative meters times `SCALE`; pixel
//! coordinates are either whole pixels (`PixelPoint`) or pixels times `SCALE`
//! (`SubPixelPoint`).  Distances enter the pipeline only through comparisons,
//! which are carried out exactly on squared values.

use vstd::prelude::*;
use crate::math::{COORD_LIMIT, div_i128, div_trunc, lemma_mul_bound, mul_i128};

verus! {

/// A point of the robot-relative ground plane, in meters times `SCALE`.
#[derive(Clone, Copy, Debug, PartialEq, Eq, Structural)]
pub struct GroundPoint {
    pub x: i64,
    pub y: i64,
}

/// A whole-pixel image position; `x` runs across, `y` down.
#[derive(Clone, Copy, Debug, PartialEq, Eq, Structural)]
pub struct PixelPoint {
    pub x: u16,
    pub y: u16,
}

/// A sub-pixel image position, in pixels times `SCALE`.
#[derive(Clone, Copy, Debug, PartialEq, Eq, Structural)]
pub struct SubPixelPoint {
    pub x: i64,
    pub y: i64,
}

/// A directed line segment of the ground plane.
#[derive(Clone, Copy, Debug, PartialEq, Eq, Structural)]
pub struct Line {
    pub start: GroundPoint,
    pub end: GroundPoint,
}

/// A directed line segment in sub-pixel image coordinates.
#[derive(Clone, Copy, Debug, PartialEq, Eq, Structural)]
pub struct PixelLine {
    pub start: SubPixelPoint,
    pub end: SubPixelPoint,
}

/// Coordinates produced by the camera projection stay within this magnitude.
pub open spec fn in_range(p: GroundPoint) -> bool {
    -COORD_LIMIT <= p.x <= COORD_LIMIT && -COORD_LIMIT <= p.y <= COORD_LIMIT
}

/// Perpendicular feet on a line with in-range endpoints stay within four
/// times the coordinate limit.
pub open spec fn in_foot_range(p: GroundPoint) -> bool {
    -4 * COORD_LIMIT <= p.x <= 4 * COORD_LIMIT && -4 * COORD_LIMIT <= p.y <= 4
        * COORD_LIMIT
}

pub open spec fn line_in_foot_range(l: Line) -> bool {
    in_foot_range(l.start) && in_foot_range(l.end)
}

pub open spec fn sq(x: int) -> int {
    x * x
}

/// Squared Euclidean distance between two ground points.
pub open spec fn dist_sq_spec(a: GroundPoint, b: GroundPoint) -> int {
    sq(b.x - a.x) + sq(b.y - a.y)
}

/// Squared norm of a ground point seen as a vector from the robot.
pub open spec fn norm_sq_spec(p: GroundPoint) -> int {
    sq(p.x as int) + sq(p.y as int)
}

/// Dot product of the line direction with the vector from `l.start` to `p`.
pub open spec fn dot_dir_spec(l: Line, p: GroundPoint) -> int {
    (l.end.x - l.start.x) * (p.x - l.start.x) + (l.end.y - l.start.y) * (p.y - l.start.y)
}

/// Cross product of the line direction with the vector from `l.start` to `p`.
pub open spec fn cross_dir_spec(l: Line, p: GroundPoint) -> int {
    (l.end.x - l.start.x) * (p.y - l.start.y) - (l.end.y - l.start.y) * (p.x - l.start.x)
}

/// Whether `p` lies within distance `threshold` of the infinite line through
/// `l`; for a degenerate line, of the point `l.start`.
pub open spec fn within_line_distance_spec(l: Line, p: GroundPoint, threshold: i64) -> bool {
    if l.end == l.start {
        dist_sq_spec(l.start, p) <= sq(threshold as int)
    } else {
        sq(cross_dir_spec(l, p)) <= sq(threshold as int) * dist_sq_spec(l.start, l.end)
    }
}

/// The perpendicular foot of `p` on the infinite line through `l`, rounded
/// toward `l.start`; `l.start` itself for a degenerate line.
pub open spec fn foot_spec(l: Line, p: GroundPoint) -> GroundPoint {
    if l.end == l.start {
        l.start
    } else {
        let dx = l.end.x - l.start.x;
        let dy = l.end.y - l.start.y;
        let d2 = dist_sq_spec(l.start, l.end);
        let t = dot_dir_spec(l, p);
        GroundPoint {
            x: (l.start.x + div_trunc(t * dx, d2)) as i64,
            y: (l.start.y + div_trunc(t * dy, d2)) as i64,
        }
    }
}

/// Midpoint of a line, each coordinate rounded toward zero.
pub open spec fn center_spec(l: Line) -> GroundPoint {
    GroundPoint {
        x: div_trunc(l.start.x + l.end.x, 2) as i64,
        y: div_trunc(l.start.y + l.end.y, 2) as i64,
    }
}

/// Two-dimensional Cauchy-Schwarz inequality.
proof fn lemma_cauchy_schwarz(ex: int, ey: int, dx: int, dy: int)
    ensures
        (ex * dx + ey * dy) * (ex * dx + ey * dy) <= (ex * ex + ey * ey) * (dx * dx + dy * dy),
{
    let p = ex * dx;
    let q = ey * dy;
    let u = ex * dy;
    let v = ey * dx;
    assert(p * p == (ex * ex) * (dx * dx)) by (nonlinear_arith)
        requires
            p == ex * dx,
    ;
    assert(q * q == (ey * ey) * (dy * dy)) by (nonlinear_arith)
        requires
            q == ey * dy,
    ;
    assert(u * u == (ex * ex) * (dy * dy)) by (nonlinear_arith)
        requires
            u == ex * dy,
    ;
    assert(v * v == (ey * ey) * (dx * dx)) by (nonlinear_arith)
        requires
            v == ey * dx,
    ;
    assert(p * q == u * v) by (nonlinear_arith)
        requires
            p == ex * dx,
            q == ey * dy,
            u == ex * dy,
            v == ey * dx,
    ;
    assert((p + q) * (p + q) == p * p + 2 * (p * q) + q * q) by (nonlinear_arith);
    assert((u - v) * (u - v) == u * u - 2 * (u * v) + v * v) by (nonlinear_arith);
    assert((u - v) * (u - v) >= 0) by (nonlinear_arith);
    assert((ex * ex + ey * ey) * (dx * dx + dy * dy) == (ex * ex) * (dx * dx) + (ex * ex) * (dy
        * dy) + (ey * ey) * (dx * dx) + (ey * ey) * (dy * dy)) by (nonlinear_arith);
}

/// From a squared bound to a bound: `x * x <= b * b` gives `|x| <= b`.
proof fn lemma_sq_le(x: int, b: int)
    requires
        x * x <= b * b,
        0 <= b,
    ensures
        -b <= x <= b,
{
    assert(-b <= x <= b) by (nonlinear_arith)
        requires
            x * x <= b * b,
            0 <= b,
    ;
}

/// The numerator of a perpendicular-foot coordinate is at most three
/// coordinate limits times the squared direction length, so the foot of an
/// in-range point on a line with in-range endpoints stays in `in_foot_range`.
proof fn lemma_foot_numerator_bound(l: Line, p: GroundPoint, dc: int)
    requires
        in_range(l.start),
        in_range(l.end),
        in_range(p),
        l.end != l.start,
        dc == l.end.x - l.start.x || dc == l.end.y - l.start.y,
    ensures
        -3_000_000_000 * dist_sq_spec(l.start, l.end) <= dot_dir_spec(l, p) * dc
            <= 3_000_000_000 * dist_sq_spec(l.start, l.end),
{
    let ex = p.x - l.start.x;
    let ey = p.y - l.start.y;
    let dx = l.end.x - l.start.x;
    let dy = l.end.y - l.start.y;
    let d2 = dist_sq_spec(l.start, l.end);
    let t = dot_dir_spec(l, p);
    assert(0 <= dx * dx && 0 <= dy * dy && 0 <= ex * ex && 0 <= ey * ey && 0 <= t * t)
        by (nonlinear_arith);
    assert(d2 == dx * dx + dy * dy);
    assert(t == dx * ex + dy * ey);
    lemma_cauchy_schwarz(ex, ey, dx, dy);
    assert(t * t <= (ex * ex + ey * ey) * d2) by (nonlinear_arith)
        requires
            t == ex * dx + ey * dy,
            d2 == dx * dx + dy * dy,
            (ex * dx + ey * dy) * (ex * dx + ey * dy) <= (ex * ex + ey * ey) * (dx * dx + dy
                * dy),
    ;
    assert(ex * ex + ey * ey <= 9_000_000_000_000_000_000) by (nonlinear_arith)
        requires
            -2_000_000_000 <= ex <= 2_000_000_000,
            -2_000_000_000 <= ey <= 2_000_000_000,
    ;
    assert(t * t <= 9_000_000_000_000_000_000 * d2) by (nonlinear_arith)
        requires
            t * t <= (ex * ex + ey * ey) * d2,
            ex * ex + ey * ey <= 9_000_000_000_000_000_000,
            0 <= d2,
    ;
    assert(dc * dc <= d2);
    assert((t * dc) * (t * dc) <= (3_000_000_000 * d2) * (3_000_000_000 * d2))
        by (nonlinear_arith)
        requires
            t * t <= 9_000_000_000_000_000_000 * d2,
            dc * dc <= d2,
            0 <= d2,
            0 <= t * t,
            0 <= dc * dc,
    ;
    assert(0 <= 3_000_000_000 * d2);
    lemma_sq_le(t * dc, 3_000_000_000 * d2);
}

impl GroundPoint {
    /// Squared distance to another ground point, exact.
    pub fn dist_sq(&self, other: &GroundPoint) -> (d: i128)
        requires
            in_foot_range(*self),
            in_foot_range(*other),
        ensures
            d == dist_sq_spec(*self, *other),
            0 <= d,
    {
        let dx: i128 = other.x as i128 - self.x as i128;
        let dy: i128 = other.y as i128 - self.y as i128;
        let sx = mul_i128(dx, dx);
        let sy = mul_i128(dy, dy);
        proof {
            lemma_mul_bound(dx as int, dx as int, 8_000_000_000, 8_000_000_000);
            lemma_mul_bound(dy as int, dy as int, 8_000_000_000, 8_000_000_000);
            assert(0 <= sx) by (nonlinear_arith)
                requires
                    sx == dx * dx,
            ;
            assert(0 <= sy) by (nonlinear_arith)
                requires
                    sy == dy * dy,
            ;
        }
        sx + sy
    }

    /// Squared distance from the robot origin, exact.
    pub fn norm_sq(&self) -> (d: i128)
        requires
            in_foot_range(*self),
        ensures
            d == norm_sq_spec(*self),
            0 <= d,
    {
        let origin = GroundPoint { x: 0, y: 0 };
        let r = origin.dist_sq(self);
        proof {
            assert(dist_sq_spec(origin, *self) == norm_sq_spec(*self));
        }
        r
    }
}

impl Line {
    /// Squared length of the segment, exact.
    pub fn length_sq(&self) -> (d: i128)
        requires
            line_in_foot_range(*self),
        ensures
            d == dist_sq_spec(self.start, self.end),
            0 <= d,
    {
        self.start.dist_sq(&self.end)
    }

    /// Midpoint of the segment, each coordinate rounded toward zero.
    pub fn center(&self) -> (c: GroundPoint)
        requires
            line_in_foot_range(*self),
        ensures
            c == center_spec(*self),
            in_foot_range(c),
    {
        let sx: i128 = self.start.x as i128 + self.end.x as i128;
        let sy: i128 = self.start.y as i128 + self.end.y as i128;
        let cx = div_i128(sx, 2);
        let cy = div_i128(sy, 2);
        proof {
            crate::math::lemma_div_trunc_le_mul(sx as int, 2, 4_000_000_000);
            crate::math::lemma_div_trunc_le_mul(sy as int, 2, 4_000_000_000);
        }
        GroundPoint { x: cx as i64, y: cy as i64 }
    }

    /// Whether `point` lies within `threshold` of the infinite line through
    /// this segment, decided exactly on squared values.
    pub fn within_distance(&self, point: &GroundPoint, threshold: i64) -> (r: bool)
        requires
            in_range(self.start),
            in_range(self.end),
            in_range(*point),
            0 <= threshold <= COORD_LIMIT,
        ensures
            r == within_line_distance_spec(*self, *point, threshold),
    {
        let t2 = mul_i128(threshold as i128, threshold as i128);
        proof {
            lemma_mul_bound(threshold as int, threshold as int, 1_000_000_000, 1_000_000_000);
        }
        if self.start.x == self.end.x && self.start.y == self.end.y {
            let d = self.start.dist_sq(point);
            d <= t2
        } else {
            let dx: i128 = self.end.x as i128 - self.start.x as i128;
            let dy: i128 = self.end.y as i128 - self.start.y as i128;
            let ex: i128 = point.x as i128 - self.start.x as i128;
            let ey: i128 = point.y as i128 - self.start.y as i128;
            proof {
                lemma_mul_bound(dx as int, ey as int, 2_000_000_000, 2_000_000_000);
                lemma_mul_bound(dy as int, ex as int, 2_000_000_000, 2_000_000_000);
                lemma_mul_bound(dx as int, dx as int, 2_000_000_000, 2_000_000_000);
                lemma_mul_bound(dy as int, dy as int, 2_000_000_000, 2_000_000_000);
            }
            let cross = mul_i128(dx, ey) - mul_i128(dy, ex);
            let d2 = self.start.dist_sq(&self.end);
            let cross2 = mul_i128(cross, cross);
            let rhs = mul_i128(t2, d2);
            cross2 <= rhs
        }
    }

    /// The perpendicular foot of `point` on the infinite line through this
    /// segment, rounded toward `self.start`.
    pub fn project_point(&self, point: &GroundPoint) -> (f: GroundPoint)
        requires
            in_range(self.start),
            in_range(self.end),
            in_range(*point),
        ensures
            f == foot_spec(*self, *point),
            in_foot_range(f),
    {
        if self.start.x == self.end.x && self.start.y == self.end.y {
            self.start
        } else {
            let dx: i128 = self.end.x as i128 - self.start.x as i128;
            let dy: i128 = self.end.y as i128 - self.start.y as i128;
            let ex: i128 = point.x as i128 - self.start.x as i128;
            let ey: i128 = point.y as i128 - self.start.y as i128;
            proof {
                lemma_mul_bound(dx as int, ex as int, 2_000_000_000, 2_000_000_000);
                lemma_mul_bound(dy as int, ey as int, 2_000_000_000, 2_000_000_000);
            }
            let t = mul_i128(dx, ex) + mul_i128(dy, ey);
            let d2 = self.start.dist_sq(&self.end);
            proof {
                assert(d2 >= 1) by (nonlinear_arith)
                    requires
                        d2 == dx * dx + dy * dy,
                        dx != 0 || dy != 0,
                ;
                lemma_foot_numerator_bound(*self, *point, dx as int);
                lemma_foot_numerator_bound(*self, *point, dy as int);
            }
            let nx = mul_i128(t, dx);
            let ny = mul_i128(t, dy);
            let qx = div_i128(nx, d2);
            let qy = div_i128(ny, d2);
            proof {
                crate::math::lemma_div_trunc_le_mul(nx as int, d2 as int, 3_000_000_000);
                crate::math::lemma_div_trunc_le_mul(ny as int, d2 as int, 3_000_000_000);
            }
            GroundPoint { x: self.start.x + qx as i64, y: self.start.y + qy as i64 }
        }
    }
}

} // verus!
