//! The discrete side of a ray tracer: every decision that a stochastic
//! sphere tracer takes on the numbers it has computed, together with the
//! text of the image it writes.
//!
//! Numbers are IEEE-754 binary64 values held by their bit patterns. The
//! library compares them, flips their signs and truncates them to integers;
//! sums, products, roots and random draws are supplied by the caller.

pub mod scalar;
pub mod interval;
pub mod ray;
pub mod vec3;
pub mod color;
pub mod hit_record;
pub mod hittable;
pub mod material;
pub mod hittable_list;
pub mod sphere;
pub mod ppm;
pub mod camera;
