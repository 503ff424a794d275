//! What a caller of an HTTP/3 connection holds.

pub mod datagram;
