//! HTTP/3 over externally established QUIC connections.

pub mod code;
pub mod datagram;
pub mod download;
pub mod driver;
pub mod exchange;
pub mod failure;
pub mod fields;
pub mod length;
pub mod options;
pub mod pace;
pub mod packet;
pub mod request;
pub mod transport;
pub mod tunnel;
pub mod upload;
