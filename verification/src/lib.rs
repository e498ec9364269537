//! A path tracer whose logic is verified.
//!
//! The renderer casts rays from a camera into a scene, follows each path from
//! bounce to bounce, and averages the light that the paths bring into pixels.
//!
//! The numbers of the renderer are abstract: every function is generic over a
//! [`scalar::Scalar`], of which it uses the operations and the order and
//! nothing else. What is proved here therefore holds for every such scalar,
//! for the fixed-point numbers of [`fixed`] as for floating point numbers. The
//! contracts say what each function returns in terms of the scalar's own
//! operations; the laws of [`aabb`], [`bvh`] and [`closest`] say what holds of
//! bounding boxes, of the hierarchy and of the closest hit whatever those
//! operations compute.
//!
//! Random choices are drawn from a generator that the caller hands in, so
//! that each task of a parallel render can own its stream.

pub mod scalar;
pub mod fixed;
pub mod rtweekend;
pub mod vec3;
pub mod ray;
pub mod interval;
pub mod aabb;
pub mod rtw_image;
pub mod shared;
pub mod permute;
pub mod texture;
pub mod onb;
pub mod material;
pub mod pdf;
pub mod hittable;
pub mod sphere;
pub mod quad;
pub mod constant_medium;
pub mod hittable_list;
pub mod bvh;
pub mod closest;
pub mod color;
pub mod camera;
pub mod config;
pub mod render_io;
pub mod in_one_weekend;
pub mod gpu;
pub mod the_rest_of_your_life;
