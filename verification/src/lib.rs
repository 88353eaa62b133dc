//! A minimal 3D scene-geometry and transform core for a real-time renderer.
//!
//! Scalars throughout are signed 64-bit fixed-point numbers at scale
//! [`fixed::SCALE`]: the integer `n` stands for the real number `n / SCALE`.
//! All arithmetic is exact integer arithmetic with truncation toward zero,
//! so every operation carries a precise contract.

pub mod fixed;
pub mod angle;
pub mod matrix;
pub mod transform;
pub mod buffers;
pub mod mesh;
pub mod model;
pub mod obj;
pub mod camera;
pub mod vector;
