//! Devices attached to the bus.

pub mod display;
