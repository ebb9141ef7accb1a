//! A signed-distance-field ray marching engine over 16.16 fixed-point
//! arithmetic.
//!
//! The engine turns a scene graph (primitives composed by union, smooth
//! union and similarity transforms) and a list of lights into one linear-RGB
//! color per camera ray, by walking each ray through the distance field,
//! shading hits with diffuse lighting and shadow tests, and recursing for
//! reflections.  Every scalar is a signed 16.16 fixed-point value held in an
//! `i64`, so every routine has an exact integer specification.

pub mod fixed;
pub mod vec3;
pub mod material;
pub mod primitives;
pub mod combinators;
pub mod shape;
pub mod marcher;
pub mod light;
pub mod camera;
