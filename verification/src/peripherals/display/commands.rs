//! Command bytes of the panel controller.

use vstd::prelude::*;

verus! {

/// Read display ID.
pub const RDDID: u8 = 0x04;

/// Read display status.
pub const RDDST: u8 = 0x09;

/// Sleep in.
pub const SLPIN: u8 = 0x10;

/// Sleep out.
pub const SLPOUT: u8 = 0x11;

/// Partial mode on.
pub const PTLON: u8 = 0x12;

/// Normal display mode.
pub const NORON: u8 = 0x13;

/// Display inversion off.
pub const INVOFF: u8 = 0x20;

/// Display inversion on.
pub const INVON: u8 = 0x21;

/// Display off.
pub const DISPOFF: u8 = 0x28;

/// Display on.
pub const DISPON: u8 = 0x29;

/// Column address set.
pub const CASET: u8 = 0x2A;

/// Row address set.
pub const RASET: u8 = 0x2B;

/// Memory write.
pub const RAMWR: u8 = 0x2C;

/// Memory read.
pub const RAMRD: u8 = 0x2E;

/// Partial area.
pub const PTLAR: u8 = 0x30;

/// Vertical scroll definition.
pub const VSCDEF: u8 = 0x33;

/// Tearing effect line off.
pub const TEOFF: u8 = 0x34;

/// Tearing effect line on.
pub const TEON: u8 = 0x35;

/// Memory access control.
pub const MADCTL: u8 = 0x36;

/// Vertical scrolling start address.
pub const VSCSAD: u8 = 0x37;

/// Idle mode off.
pub const IDMOFF: u8 = 0x38;

/// Idle mode on.
pub const IDMON: u8 = 0x39;

/// Interface pixel format.
pub const COLMOD: u8 = 0x3A;

/// Write display brightness.
pub const WRDISBV: u8 = 0x3C;

} // verus!
