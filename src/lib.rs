//! Strip-based adaptive sampling and shading decisions for a small
//! Whitted-style ray tracer.
pub mod layout;
pub mod sampling;
pub mod scene;
pub mod shading;
