//! A recursive Monte Carlo ray tracer for scenes of spheres, built on a
//! saturating fixed-point scalar so that every stage of the pipeline --
//! vector algebra, ray/sphere intersection, material scattering, the camera
//! model and the light-transport recursion -- carries a proved contract.

pub mod camera;
pub mod fx;
pub mod hittable;
pub mod material;
pub mod ray;
pub mod render;
pub mod rng;
pub mod vec3;
