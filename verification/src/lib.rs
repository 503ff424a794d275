//! Verified client-side HTTP/3 logic, independent of any QUIC backend or runtime.

pub mod bench;
pub mod body;
pub mod buffer;
pub mod conn;
pub mod error;
pub mod h3;
pub mod interop;
pub mod laws;
pub mod progress;
pub mod rt;
pub mod text;
pub mod varint;
