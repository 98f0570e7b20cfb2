//! Placing several images on one canvas, each at its own offset.
//!
//! `args` validates the coordinates and image files of a run, `layout`
//! sizes the canvas, `compose` paints the images onto it, and `pixels` is
//! the pixel buffer they are painted from and onto. `text` reads and writes
//! decimal numbers, and `error` holds the failures.

pub mod args;
pub mod compose;
pub mod error;
pub mod layout;
pub mod pixels;
pub mod text;
