//! Deterministic 3D math core for a particle physics engine.
//!
//! Scalars are signed 48.16 fixed-point numbers, so every operation is exact
//! integer arithmetic and simulation runs are bit-for-bit reproducible.
//! The crate provides three-component vectors, 4x4 homogeneous transform
//! matrices (translation, rotation, scale, view and projection factories),
//! a point-mass particle with force accumulation and explicit Euler
//! integration, and the `Integratable` capability that lets a driver loop
//! advance heterogeneous entities uniformly.

pub mod integrator;
pub mod laws;
pub mod matrix;
pub mod particle;
pub mod render;
pub mod scalar;
pub mod vector3;

pub use integrator::Integratable;
pub use matrix::Matrix4x4;
pub use particle::Particle;
pub use render::WindowInfo;
pub use scalar::MathError;
pub use scalar::Scalar;
pub use vector3::Vector3;
