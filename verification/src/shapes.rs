//! Value types for the shapes that the sketches place and draw.

pub mod circle;
pub mod circular;
