//! Driver logic for a four-digit seven-segment display controller on a
//! bit-banged two-wire bus: glyph encoding, bus framing and the command
//! sequence that programs the display, all as pure functions that yield the
//! line operations to perform.

pub mod bus;
pub mod display;
pub mod segments;
pub mod wire;

pub use bus::{BusOp, Line};
pub use display::{Brightness, BrightnessOutOfRange, TM1637};
pub use segments::{
    byte_to_segments, bytestring_to_segments, char_to_segments, string_to_segments,
    EncodeError,
};
