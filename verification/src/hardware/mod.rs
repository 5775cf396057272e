//! The bus transport: transfer validation, chip-select framing and the
//! signals that reach the hardware.

pub mod error;
pub mod playback;
pub mod signal;
pub mod spi;
