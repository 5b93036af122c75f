//! The verified core of a path tracer.
//!
//! Numbers are IEEE 754 binary32 values carried by their bit patterns, so
//! that every comparison, selection and buffer write of the renderer is
//! decided here, on integers, exactly as the hardware would decide it. The
//! arithmetic that produces those numbers is left to the caller.

pub mod color;
pub mod hittable;
pub mod hittable_list;
pub mod interval;
pub mod material;
pub mod ray;
pub mod scalar;
pub mod scene;
pub mod sphere;
pub mod vec3;
