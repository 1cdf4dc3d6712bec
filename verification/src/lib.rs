//! A verified codec for the PostgreSQL frontend/backend wire protocol.
//!
//! The library frames messages (type tag plus length-prefixed payload),
//! decodes backend messages into structured variants, and encodes frontend
//! messages into their exact on-wire byte layout. All decoding and encoding
//! works over in-memory byte buffers; the transport (a TCP stream) is a
//! collaborator that reads and writes those buffers.

pub mod bytes;
pub mod cursor;
pub mod encode;
pub mod laws;
pub mod msg;
pub mod parse;
