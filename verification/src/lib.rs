//! Whole-number side of a software planet renderer: pixel commands for the
//! overlay primitives (lines, bitmap text, background stars), colour
//! packing, the shader selector, triangle assembly, the scan order of a
//! bounding box and the camera's travel state machine.
//!
//! Every function here works on whole numbers only; the numeric shading
//! and projection code lives with the frame driver.

pub mod color;
pub mod font;
pub mod line;
pub mod plot;
pub mod skybox;
pub mod text;
pub mod triangle;
pub mod warp;
