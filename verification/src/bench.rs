//! Measuring clients: latency histograms and the cases that are measured.

pub mod accuracy;
pub mod comparison;
pub mod matrix;
pub mod samples;
