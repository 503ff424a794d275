//! Streaming bodies of received messages.
//!
//! A body only advances when it is polled. Processing each frame before polling for the
//! next one preserves back-pressure on the connection.

pub mod chan;
pub mod incoming;
pub mod length;
