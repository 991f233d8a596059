//! Decision and bookkeeping logic of a stochastic path tracer.
//!
//! The floating-point arithmetic of the tracer (vectors, roots, colours) is
//! done by the caller; this crate holds the parts that decide: which root of a
//! sphere counts, which primitive is nearest, whether a surface scatters, when a
//! path ends, and how the output buffer is laid out.
pub mod material;
pub mod hittable_list;
pub mod ray;
pub mod sphere;
pub mod path;
pub mod img;
