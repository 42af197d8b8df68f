//! The scene-intersection and light-transport core of an offline path tracer.
//!
//! Numbers are IEEE-754 doubles held by their bit patterns (`scalar::Scalar`), so
//! that every comparison the renderer makes is decided exactly. Arithmetic on
//! them is supplied by the caller, as plain values or as functions.

pub mod scalar;
pub mod vec3;
pub mod ray;
pub mod interval;
pub mod aabb;
pub mod random;
pub mod perlin;
pub mod texture;
pub mod material;
pub mod materials;
pub mod hit_record;
mod shared;
pub mod sphere;
pub mod quad;
pub mod translation;
pub mod constant_medium;
pub mod hittables;
pub mod bvh;
pub mod agreement;
pub mod camera;
pub mod light;
