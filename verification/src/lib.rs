//! A small ray tracer built on exact fixed-point arithmetic: vectors, rays,
//! sphere intersection, material scattering, a positionable camera, a
//! recursive colour integrator and a tiled renderer.

pub mod camera;
pub mod chunk;
pub mod color;
pub mod demos;
pub mod fixed;
pub mod hitable;
pub mod material;
pub mod ppm;
pub mod ray;
pub mod render;
pub mod rng;
pub mod sphere;
pub mod vec3;
