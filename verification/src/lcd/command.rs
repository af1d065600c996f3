use vstd::prelude::*;

verus! {

/// Software reset.
pub const SWRESET: u8 = 0x01;

/// Sleep out.
pub const SLPOUT: u8 = 0x11;

/// Normal display mode on.
pub const NORON: u8 = 0x13;

/// Display inversion off.
pub const INVOFF: u8 = 0x20;

/// Display on.
pub const DISPON: u8 = 0x29;

/// Column address set.
pub const CASET: u8 = 0x2A;

/// Row address set.
pub const RASET: u8 = 0x2B;

/// Memory write.
pub const RAMWR: u8 = 0x2C;

/// Memory data access control.
pub const MADCTL: u8 = 0x36;

/// Interface pixel format.
pub const COLMOD: u8 = 0x3A;

/// Positive gamma control.
pub const PGC: u8 = 0xE0;

/// Negative gamma control.
pub const NGC: u8 = 0xE1;

/// Command set control.
pub const CSCON: u8 = 0xF0;

} // verus!
