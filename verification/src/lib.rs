//! A shaping-and-compositing pipeline for rendering pre-justified lines of
//! calligraphic text onto a shared RGBA canvas.
//!
//! Each line arrives as a byte range into a source text together with two
//! variation values, one for glyph elongation ("stretch") and one for
//! inter-word spacing. The library turns shaped glyph records into absolute
//! pixel positions, resolves each glyph to either a monochrome coverage mask
//! or an embedded full-color bitmap, and composites them in a well-defined
//! order: all monochrome masks of a line first, then the line's colored
//! bitmaps, in insertion order.
//!
//! The canvas itself is an `image::RgbaImage`; the library reads and writes
//! its pixels through a small set of trusted declarations in [`canvas`] and
//! proves everything else about the pipeline.

pub mod canvas;
pub mod compositor;
pub mod layout;
pub mod pixel;
pub mod render;
pub mod shaper;
