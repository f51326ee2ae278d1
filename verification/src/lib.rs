//! The verified core of a path tracer.
//!
//! A renderer does two kinds of work. It computes with real numbers: where a
//! ray meets a sphere, how a mirror turns a direction. And it decides: which
//! of two hits is the nearer, which objects a ray can pass without being
//! asked, how a scene is split into a hierarchy, when a path ends. This
//! library holds the second kind, with a contract for each decision, and
//! leaves the first kind to the program around it. Numbers pass between the
//! two as [`Scalar`]s, doubles by their bits, on which comparing, selecting
//! and negating are exact.
//!
//! - [`scalar`], [`vec3`], [`ray`]: numbers, triples of them, rays.
//! - [`aabb`]: bounding boxes, their unions, and the slab test.
//! - [`hit`], [`material`], [`texture`]: what objects, materials and
//!   textures owe their callers, and those of them that need no arithmetic.
//! - [`world`]: the scan of a list of objects for the nearest hit.
//! - [`bvh`]: the bounding volume hierarchy, built and walked.
//! - [`rect`], [`cube`], [`sphere`], [`constant_medium`]: the decisions in
//!   the shapes.
//! - [`perlin`]: the tables of gradient noise.
//! - [`render`]: the path of a ray through the scene.

pub mod aabb;
pub mod bvh;
pub mod constant_medium;
pub mod cube;
pub mod hit;
pub mod material;
pub mod perlin;
mod random;
pub mod ray;
pub mod rect;
pub mod render;
pub mod scalar;
pub mod sphere;
pub mod texture;
pub mod vec3;
pub mod world;

pub use aabb::{Slab, AABB};
pub use bvh::{far_limit, prefer, BVHNode, BvhItem, BVH};
pub use cube::Cube;
pub use hit::{HitRecord, Hitable, Surface};
pub use material::{DiffuseLight, Material};
pub use perlin::Perlin;
pub use ray::Ray;
pub use rect::{Plane, PlaneOrientation};
pub use render::{trace, Path, PathEnd};
pub use scalar::Scalar;
pub use texture::{CheckerTexture, ImageTexture, SolidColor, Texture};
pub use vec3::{Color, Point3, Vec3};
pub use world::{HittableList, World};
