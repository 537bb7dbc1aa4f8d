//! Vantage is a remote desktop: a host captures its screen, encodes it as H.264
//! and streams it to a viewer, which shows it and sends back what its user does.
//!
//! This library holds what host and viewer decide and compute. Reading from and
//! writing to the network, the screen, the window and the operating system is left
//! to the program around it.
//!
//! - [`picture`]: pictures of the screen and their conversions.
//! - [`annexb`]: H.264 byte streams.
//! - [`codec`]: the codec of the `openh264` crate, as far as it is used.
//! - [`encoder`]: what encoders promise, and the one in software.
//! - [`startup`] and [`hardware`]: the encoder in hardware.
//! - [`protocol`]: messages and their framing.
//! - [`handoff`] and [`host`]: the host's side of a session.
//! - [`viewer`] and [`window`]: the viewer's side.
//! - [`bench`]: the encoder benchmark.
//! - [`bytes`] and [`error`]: what the others share.
pub mod annexb;
pub mod bench;
pub mod bytes;
pub mod codec;
pub mod encoder;
pub mod error;
pub mod handoff;
pub mod hardware;
pub mod host;
pub mod picture;
pub mod protocol;
pub mod startup;
pub mod viewer;
pub mod window;
