//! Frame codec for the MCP3208 analog-to-digital converter.
//!
//! The converter is driven over a synchronous serial bus with one 32-bit
//! frame in each direction, sent most significant byte first. This crate
//! builds the outbound command frame and validates and decodes the inbound
//! response frame. It performs no I/O: the caller exchanges the four bytes
//! of [`encode`] for the four bytes that [`decode`] takes.

pub mod bus;
pub mod channel;
pub mod codec;
pub mod error;
pub mod laws;
pub mod layout;

pub use channel::{Channel, ConversionMode};
pub use codec::{
    build_request, decode, encode, frame_from_bytes, frame_to_bytes, parse_response,
    response_frame, reverse_bits,
};
pub use error::Mcp3208Error;
pub use layout::{mask, zero_validation_mask};
