//! The camera model: pixel-to-ground and ground-to-pixel projection.
//!
//! The camera looks along its local x axis; a pixel `(u, v)` maps to the ray
//! `(1, (cx - u) / fx, (cy - v) / fy)` in camera coordinates, which the
//! camera-to-ground rotation and translation carry into the robot frame,
//! where it is intersected with the ground plane `z = 0`.  All values are
//! fixed point at `SCALE` units; both projections are partial and answer
//! `None` for rays at or above the horizon, points behind the camera, or
//! results out of numeric range.

use vstd::prelude::*;
use crate::geometry::{GroundPoint, SubPixelPoint};
use crate::math::{COORD_LIMIT, SCALE, div_i128, div_trunc, lemma_mul_bound, mul_i128};

verus! {

/// Largest admissible magnitude of a sub-pixel image coordinate.
pub const PIXEL_LIMIT: i64 = 100_000_000_000;

/// A calibrated camera: intrinsics in pixels times `SCALE`, and the
/// camera-to-ground isometry with rotation entries and translation in
/// `SCALE` units (translation in meters).
#[derive(Clone, Copy, Debug, PartialEq, Eq, Structural)]
pub struct CameraMatrix {
    pub focal_x: i64,
    pub focal_y: i64,
    pub center_x: i64,
    pub center_y: i64,
    pub r00: i64,
    pub r01: i64,
    pub r02: i64,
    pub r10: i64,
    pub r11: i64,
    pub r12: i64,
    pub r20: i64,
    pub r21: i64,
    pub r22: i64,
    pub trans_x: i64,
    pub trans_y: i64,
    pub trans_z: i64,
}

pub open spec fn rot_entry_ok(r: i64) -> bool {
    -2_000_000 <= r <= 2_000_000
}

impl CameraMatrix {
    /// Focal lengths positive, rotation entries within twice unit length,
    /// optical center and translation within range.
    pub open spec fn wf(&self) -> bool {
        &&& 1 <= self.focal_x <= COORD_LIMIT
        &&& 1 <= self.focal_y <= COORD_LIMIT
        &&& -PIXEL_LIMIT <= self.center_x <= PIXEL_LIMIT
        &&& -PIXEL_LIMIT <= self.center_y <= PIXEL_LIMIT
        &&& rot_entry_ok(self.r00) && rot_entry_ok(self.r01) && rot_entry_ok(self.r02)
        &&& rot_entry_ok(self.r10) && rot_entry_ok(self.r11) && rot_entry_ok(self.r12)
        &&& rot_entry_ok(self.r20) && rot_entry_ok(self.r21) && rot_entry_ok(self.r22)
        &&& -COORD_LIMIT <= self.trans_x <= COORD_LIMIT
        &&& -COORD_LIMIT <= self.trans_y <= COORD_LIMIT
        &&& -COORD_LIMIT <= self.trans_z <= COORD_LIMIT
    }
}

pub open spec fn sub_pixel_in_range(p: SubPixelPoint) -> bool {
    -PIXEL_LIMIT <= p.x <= PIXEL_LIMIT && -PIXEL_LIMIT <= p.y <= PIXEL_LIMIT
}

/// The camera-frame ray through a pixel, scaled so its x component is
/// `SCALE`: `(SCALE, (cx - px) * SCALE / fx, (cy - py) * SCALE / fy)`.
pub open spec fn camera_ray_spec(cam: CameraMatrix, p: SubPixelPoint) -> (int, int, int) {
    (
        SCALE as int,
        div_trunc((cam.center_x - p.x) * SCALE, cam.focal_x as int),
        div_trunc((cam.center_y - p.y) * SCALE, cam.focal_y as int),
    )
}

/// The pixel ray rotated into the robot frame.
pub open spec fn ground_ray_spec(cam: CameraMatrix, p: SubPixelPoint) -> (int, int, int) {
    let (rx, ry, rz) = camera_ray_spec(cam, p);
    (
        div_trunc(cam.r00 * rx + cam.r01 * ry + cam.r02 * rz, SCALE as int),
        div_trunc(cam.r10 * rx + cam.r11 * ry + cam.r12 * rz, SCALE as int),
        div_trunc(cam.r20 * rx + cam.r21 * ry + cam.r22 * rz, SCALE as int),
    )
}

/// Ground-plane intersection of the pixel ray: `None` iff the rotated ray
/// does not point downward or the intersection leaves the coordinate range.
pub open spec fn pixel_to_ground_spec(cam: CameraMatrix, p: SubPixelPoint) -> Option<GroundPoint> {
    let (gx, gy, gz) = ground_ray_spec(cam, p);
    if gz >= 0 {
        None
    } else {
        let s = div_trunc(cam.trans_z * SCALE, -gz);
        let x = cam.trans_x + div_trunc(gx * s, SCALE as int);
        let y = cam.trans_y + div_trunc(gy * s, SCALE as int);
        if -COORD_LIMIT <= x <= COORD_LIMIT && -COORD_LIMIT <= y <= COORD_LIMIT {
            Some(GroundPoint { x: x as i64, y: y as i64 })
        } else {
            None
        }
    }
}

/// The ground point carried back into camera coordinates (transposed
/// rotation applied to the offset from the camera).
pub open spec fn camera_view_spec(cam: CameraMatrix, g: GroundPoint) -> (int, int, int) {
    let dx = g.x - cam.trans_x;
    let dy = g.y - cam.trans_y;
    let dz = 0 - cam.trans_z;
    (
        div_trunc(cam.r00 * dx + cam.r10 * dy + cam.r20 * dz, SCALE as int),
        div_trunc(cam.r01 * dx + cam.r11 * dy + cam.r21 * dz, SCALE as int),
        div_trunc(cam.r02 * dx + cam.r12 * dy + cam.r22 * dz, SCALE as int),
    )
}

/// Projection back into the image: `None` iff the point is not strictly in
/// front of the camera or the pixel leaves the sub-pixel range.
pub open spec fn ground_to_pixel_spec(cam: CameraMatrix, g: GroundPoint) -> Option<SubPixelPoint> {
    let (vx, vy, vz) = camera_view_spec(cam, g);
    if vx <= 0 {
        None
    } else {
        let u = cam.center_x - div_trunc(cam.focal_x * vy, vx);
        let v = cam.center_y - div_trunc(cam.focal_y * vz, vx);
        if -PIXEL_LIMIT <= u <= PIXEL_LIMIT && -PIXEL_LIMIT <= v <= PIXEL_LIMIT {
            Some(SubPixelPoint { x: u as i64, y: v as i64 })
        } else {
            None
        }
    }
}

impl CameraMatrix {
    /// Projects a sub-pixel image point onto the ground plane.
    pub fn pixel_to_ground(&self, p: SubPixelPoint) -> (r: Option<GroundPoint>)
        requires
            self.wf(),
            sub_pixel_in_range(p),
        ensures
            r == pixel_to_ground_spec(*self, p),
            r is Some ==> crate::geometry::in_range(r->Some_0),
    {
        let nx: i128 = SCALE as i128;
        let ny = div_i128(
            mul_i128(self.center_x as i128 - p.x as i128, SCALE as i128),
            self.focal_x as i128,
        );
        let nz = div_i128(
            mul_i128(self.center_y as i128 - p.y as i128, SCALE as i128),
            self.focal_y as i128,
        );
        proof {
            lemma_mul_bound(
                self.center_x as int - p.x as int,
                SCALE as int,
                200_000_000_000,
                1_000_000,
            );
            lemma_mul_bound(
                self.center_y as int - p.y as int,
                SCALE as int,
                200_000_000_000,
                1_000_000,
            );
            lemma_mul_bound(self.r00 as int, nx as int, 2_000_000, 200_000_000_000_000_000);
            lemma_mul_bound(self.r01 as int, ny as int, 2_000_000, 200_000_000_000_000_000);
            lemma_mul_bound(self.r02 as int, nz as int, 2_000_000, 200_000_000_000_000_000);
            lemma_mul_bound(self.r10 as int, nx as int, 2_000_000, 200_000_000_000_000_000);
            lemma_mul_bound(self.r11 as int, ny as int, 2_000_000, 200_000_000_000_000_000);
            lemma_mul_bound(self.r12 as int, nz as int, 2_000_000, 200_000_000_000_000_000);
            lemma_mul_bound(self.r20 as int, nx as int, 2_000_000, 200_000_000_000_000_000);
            lemma_mul_bound(self.r21 as int, ny as int, 2_000_000, 200_000_000_000_000_000);
            lemma_mul_bound(self.r22 as int, nz as int, 2_000_000, 200_000_000_000_000_000);
        }
        let gx = div_i128(
            mul_i128(self.r00 as i128, nx) + mul_i128(self.r01 as i128, ny) + mul_i128(
                self.r02 as i128,
                nz,
            ),
            SCALE as i128,
        );
        let gy = div_i128(
            mul_i128(self.r10 as i128, nx) + mul_i128(self.r11 as i128, ny) + mul_i128(
                self.r12 as i128,
                nz,
            ),
            SCALE as i128,
        );
        let gz = div_i128(
            mul_i128(self.r20 as i128, nx) + mul_i128(self.r21 as i128, ny) + mul_i128(
                self.r22 as i128,
                nz,
            ),
            SCALE as i128,
        );
        if gz >= 0 {
            return None;
        }
        let s = div_i128(mul_i128(self.trans_z as i128, SCALE as i128), -gz);
        proof {
            crate::math::lemma_div_trunc_le_mul(
                (self.r00 * SCALE + self.r01 as int * ny + self.r02 as int * nz) as int,
                SCALE as int,
                1_210_000_000_000_000_000,
            );
            crate::math::lemma_div_trunc_le_mul(
                (self.r10 * SCALE + self.r11 as int * ny + self.r12 as int * nz) as int,
                SCALE as int,
                1_210_000_000_000_000_000,
            );
            lemma_mul_bound(self.trans_z as int, SCALE as int, 1_000_000_000, 1_000_000);
            lemma_mul_bound(gx as int, s as int, 1_210_000_000_000_000_000, 1_000_000_000_000_000);
            lemma_mul_bound(gy as int, s as int, 1_210_000_000_000_000_000, 1_000_000_000_000_000);
        }
        let x = self.trans_x as i128 + div_i128(mul_i128(gx, s), SCALE as i128);
        let y = self.trans_y as i128 + div_i128(mul_i128(gy, s), SCALE as i128);
        if -(COORD_LIMIT as i128) <= x && x <= COORD_LIMIT as i128 && -(COORD_LIMIT as i128) <= y
            && y <= COORD_LIMIT as i128 {
            Some(GroundPoint { x: x as i64, y: y as i64 })
        } else {
            None
        }
    }

    /// Projects a ground point (or a perpendicular foot) back into the image.
    pub fn ground_to_pixel(&self, g: GroundPoint) -> (r: Option<SubPixelPoint>)
        requires
            self.wf(),
            crate::geometry::in_foot_range(g),
        ensures
            r == ground_to_pixel_spec(*self, g),
            r is Some ==> sub_pixel_in_range(r->Some_0),
    {
        let dx: i128 = g.x as i128 - self.trans_x as i128;
        let dy: i128 = g.y as i128 - self.trans_y as i128;
        let dz: i128 = 0 - self.trans_z as i128;
        proof {
            lemma_mul_bound(self.r00 as int, dx as int, 2_000_000, 5_000_000_000);
            lemma_mul_bound(self.r10 as int, dy as int, 2_000_000, 5_000_000_000);
            lemma_mul_bound(self.r20 as int, dz as int, 2_000_000, 5_000_000_000);
            lemma_mul_bound(self.r01 as int, dx as int, 2_000_000, 5_000_000_000);
            lemma_mul_bound(self.r11 as int, dy as int, 2_000_000, 5_000_000_000);
            lemma_mul_bound(self.r21 as int, dz as int, 2_000_000, 5_000_000_000);
            lemma_mul_bound(self.r02 as int, dx as int, 2_000_000, 5_000_000_000);
            lemma_mul_bound(self.r12 as int, dy as int, 2_000_000, 5_000_000_000);
            lemma_mul_bound(self.r22 as int, dz as int, 2_000_000, 5_000_000_000);
        }
        let vx = div_i128(
            mul_i128(self.r00 as i128, dx) + mul_i128(self.r10 as i128, dy) + mul_i128(
                self.r20 as i128,
                dz,
            ),
            SCALE as i128,
        );
        let vy = div_i128(
            mul_i128(self.r01 as i128, dx) + mul_i128(self.r11 as i128, dy) + mul_i128(
                self.r21 as i128,
                dz,
            ),
            SCALE as i128,
        );
        let vz = div_i128(
            mul_i128(self.r02 as i128, dx) + mul_i128(self.r12 as i128, dy) + mul_i128(
                self.r22 as i128,
                dz,
            ),
            SCALE as i128,
        );
        if vx <= 0 {
            return None;
        }
        proof {
            crate::math::lemma_div_trunc_le_mul(
                (self.r01 as int * dx + self.r11 as int * dy + self.r21 as int * dz) as int,
                SCALE as int,
                31_000_000_000,
            );
            crate::math::lemma_div_trunc_le_mul(
                (self.r02 as int * dx + self.r12 as int * dy + self.r22 as int * dz) as int,
                SCALE as int,
                31_000_000_000,
            );
            lemma_mul_bound(self.focal_x as int, vy as int, 1_000_000_000, 31_000_000_000);
            lemma_mul_bound(self.focal_y as int, vz as int, 1_000_000_000, 31_000_000_000);
        }
        let u = self.center_x as i128 - div_i128(mul_i128(self.focal_x as i128, vy), vx);
        let v = self.center_y as i128 - div_i128(mul_i128(self.focal_y as i128, vz), vx);
        if -(PIXEL_LIMIT as i128) <= u && u <= PIXEL_LIMIT as i128 && -(PIXEL_LIMIT as i128) <= v
            && v <= PIXEL_LIMIT as i128 {
            Some(SubPixelPoint { x: u as i64, y: v as i64 })
        } else {
            None
        }
    }
}

} // verus!
