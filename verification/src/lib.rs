//! A recursive Monte-Carlo ray tracer kernel over exact fixed-point
//! arithmetic: ray-sphere intersection, closest-hit selection, material
//! scattering (diffuse, metal, dielectric), thin-lens camera rays, and the
//! recursive radiance integrator.
//!
//! Every scalar is a signed 16.16 fixed-point number carried in an `i64`
//! (the real value times [`fixed::FX_ONE`]), kept inside the symmetric range
//! [`fixed::FX_MIN`] ..= [`fixed::FX_MAX`]; arithmetic saturates at that
//! range instead of overflowing.

pub mod camera;
pub mod fixed;
pub mod material;
pub mod ray;
pub mod render;
pub mod rng;
pub mod sphere;
pub mod vec3;
pub mod world;

pub use fixed::FX_ONE;
