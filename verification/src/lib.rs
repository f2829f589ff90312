//! The verified core of a small interactive graphics demo: a render loop
//! that reacts to quit, escape and scroll-wheel events, a circle rasterizer
//! that follows the mouse cursor, and a frames-per-second counter whose
//! label refreshes once per second. Windowing, drawing and timing I/O stay
//! with the caller; every decision and computation in between is specified
//! and proved here.

pub mod digits;
pub mod driver;
pub mod error;
pub mod events;
pub mod fps;
pub mod raster;
