//! Reassembly of IPv4 datagrams from a chunked byte stream, and the
//! length-prefixed framing that carries them over a byte-oriented transport.

pub mod args;
pub mod endpoint;
pub mod error;
pub mod frame;
pub mod packet;
pub mod parse;
pub mod stream_laws;
pub mod text;
