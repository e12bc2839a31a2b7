//! Codec for MIDI 2.0 messages in their two wire encodings: the legacy byte
//! stream and the 32-bit Universal MIDI Packet (UMP) word stream.
//!
//! The crate interprets caller memory as typed, validated messages and
//! builds messages into caller-supplied buffers. Every executable function
//! carries a contract over a mathematical model of the data it touches.

pub mod buffer;
pub mod channel_voice2;
pub mod detail;
pub mod error;
pub mod message;
pub mod numeric_types;
pub mod packet;
pub mod representation;
pub mod sysex7;
pub mod ump_stream;
pub mod util;

pub use error::{BufferOverflow, Error, InvalidData};
pub use numeric_types::{U10, U2, U4, U7};
