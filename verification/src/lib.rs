//! Painting core of a raster image editor.
//!
//! The crate maps display coordinates onto a backing pixel canvas,
//! rasterizes brush strokes along drag gestures, and keeps an exact,
//! memory-bounded undo/redo history of every edit.
//!
//! All pixel channels and sub-pixel coordinates are fixed-point integers:
//! a colour channel is a `u32` in `0 ..= CHANNEL_ONE`, a sub-pixel
//! coordinate is an `i64` counted in thousandths of a display unit, and
//! the zoom factor is counted in tenths. This keeps every computation in
//! machine integers with exact, provable semantics.

pub mod application;
pub mod brush;
pub mod command;
pub mod config;
pub mod diff;
pub mod gui;
pub mod history;
pub mod image;
pub mod ops;
pub mod pixel;
pub mod view;
