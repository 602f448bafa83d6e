//! The discrete core of a sphere ray tracer: the scene model, the search for
//! the surface that a ray meets first, the rules by which lights and
//! reflections contribute, and the layout of the rendered frame.
//!
//! Numbers cross the boundary of this crate as single-precision bit patterns
//! ([`scalar::Scalar`]). The crate compares them, selects among them and
//! turns them into bytes, all of which is exact on patterns; it leaves
//! arithmetic to its caller.

pub mod color;
pub mod frame;
pub mod light;
pub mod scalar;
pub mod scene;
pub mod shape;
pub mod trace;
pub mod vector;
