//! The decisions of a path tracer for scenes of spheres: which intersection
//! of a ray is the nearest, which way a surface faces, where a material sends
//! a ray, when a path ends, and how colors become the bytes of an image.
pub mod camera;
pub mod hittable;
pub mod material;
pub mod ray;
pub mod scalar;
pub mod shape;
pub mod vec3;
