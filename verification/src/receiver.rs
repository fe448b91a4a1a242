//! The receiving side: configuration, render-queue policing, decoding and
//! metrics.

pub mod config;
pub mod metrics;
pub mod pipeline;
pub mod render;
