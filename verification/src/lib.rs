//! Verified protocol and pixel-codec layer for a set of small desk
//! peripherals: line-oriented serial microcontrollers (macro pad, e-ink
//! display controller, soil sensor) and Bluetooth-Low-Energy accessories.
//!
//! The crate owns the parts of the system that must be bit-exact against
//! hardware contracts: converting abstract frames into the byte layouts the
//! LED matrix, LED shim and e-ink display expect, framing and de-framing the
//! newline-delimited serial protocol, and building and parsing the binary
//! BLE command envelopes. All I/O stays outside; this library computes.

pub mod ble;
pub mod chunking;
pub mod codec;
pub mod ext;
pub mod gamma;
pub mod i2c;
pub mod line;
pub mod mac;
pub mod message;
pub mod probe;
pub mod remap;
pub mod session;
pub mod sink;
pub mod switch;
pub mod transfer;

