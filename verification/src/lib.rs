//! Display logic for a split-keyboard dongle: a Bongo Cat animation state
//! machine, the layout of the peripheral status header, battery labels and the
//! decoding of page-format monochrome bitmaps into pixels.

pub mod text;
pub mod frames;
pub mod draw;
pub mod battery;
pub mod bitmap;
pub mod renderer;
pub mod laws;
