//! Turns raster images into text: ASCII shading, block elements or braille
//! patterns, one glyph per sampled cell.

pub mod codec;
pub mod glyphs;
pub mod raster;
pub mod render;
