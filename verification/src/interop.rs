//! Observing and judging a client's traffic with an independent peer.

pub mod churn;
pub mod fixture;
pub mod observe;
pub mod peer;
