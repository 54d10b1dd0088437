//! A ray tracer for scenes of implicit-surface primitives (planes and
//! spheres). One ray is cast per pixel from a camera; specular reflections
//! are followed until a bounce budget runs out or the ray escapes, and the
//! pixel takes a colour derived from the accumulated path length.
//!
//! All geometry is carried in fixed-point scalars (see [`fp`]), so every
//! step of the arithmetic has an exact, machine-checked meaning.

pub mod fp;
pub mod vec3;
pub mod ray;
pub mod world;
pub mod scene;
pub mod camera;
pub mod canvas;
pub mod tracer;
pub mod laws;
