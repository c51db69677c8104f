//! A recursive ray tracer over axis-aligned box primitives.
//!
//! All geometry and shading arithmetic is carried out in signed fixed-point
//! numbers (`fx`), so that the whole evaluation pipeline — slab-method
//! intersection, hierarchical bounding-volume traversal, shadowing, the
//! recursive color integration and environment sampling — is verified.

pub mod fx;
pub mod vec3;
pub mod material;
pub mod ray_intersect;
pub mod cube;
pub mod bvh;
pub mod snell;
pub mod camera;
pub mod textures;
pub mod render;
pub mod laws;
