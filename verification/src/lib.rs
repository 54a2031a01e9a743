//! Line detection for a humanoid robot's vision pipeline.
//!
//! Once per camera frame, straight field-marking segments are extracted from a
//! pre-segmented image and reported as 2D line segments in the robot-relative
//! ground plane.  All geometry is carried out in fixed-point arithmetic: a
//! coordinate stores `SCALE` units per meter (or per pixel), so every
//! comparison the pipeline makes is exact integer arithmetic.

pub mod camera;
pub mod detection;
pub mod fitting;
pub mod laws;
pub mod motion;
pub mod robot_state;
pub mod geometry;
pub mod image;
pub mod math;
pub mod ransac;
pub mod segments;
