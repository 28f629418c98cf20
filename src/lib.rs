//! Decoding of Baichuan protocol messages, the binary framing spoken by a
//! family of IP cameras and recorders.
//!
//! Decoding is split in two stages. `message::bc_msg` is a total function
//! from a byte buffer to a framed message, a byte deficit, or a hard error.
//! `message::modern_msg` then interprets the segments of a modern body once
//! the caller has run them through the decryption transform and the XML codec.
use vstd::prelude::*;

pub mod body;
pub mod error;
pub mod header;
pub mod laws;
pub mod message;
pub mod text;
