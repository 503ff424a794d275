//! What the operations of the library do, stated apart from how they are carried out.
//!
//! Each module takes the transition functions of some part of the library and says, over all
//! inputs, what their results must satisfy.

pub mod bench;
pub mod datagram;
pub mod driver;
pub mod exchange;
pub mod interop;
pub mod request;
pub mod stream;
pub mod text;
pub mod transfer;
pub mod tunnel;
pub mod wire;
