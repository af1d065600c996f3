//! Drawing primitives, screen validation and ST7796 panel protocol logic for
//! a 480x320 SPI LCD, verified with Verus.

pub mod color;
pub mod geometry;
pub mod screen;
pub mod shape;
pub mod lcd;
