//! Shapes: how the outline of an asteroid is generated and made fit for the
//! physics engine.

pub mod polygon;
