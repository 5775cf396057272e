//! Driver core for a 240x240 colour panel on a serial bus.
//!
//! The crate computes everything the panel has to be told: the reset and
//! initialisation sequence, addressing windows, pixel streams and the
//! framebuffer they come from. It never touches hardware itself. Every
//! operation appends the line changes and bus transfers it stands for to the
//! display's outbox; a [`hardware::playback::Playback`] then walks the outbox
//! one signal at a time while the caller performs each signal on the real
//! pins and bus and reports how it went.
//!
//! - [`hardware`]: the bus transport, the signals that reach the hardware,
//!   and their playback.
//! - [`peripherals::display`]: the panel protocol, the framebuffer, and
//!   drawing, into the framebuffer or straight to the panel.
//! - [`ui`]: whole screens, drawn one at a time.
//! - [`error`]: the failures of all of these.

pub mod error;
pub mod hardware;
pub mod peripherals;
pub mod ui;
