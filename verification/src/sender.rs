//! The sending side: configuration, frame preparation and metrics.

pub mod config;
pub mod metrics;
pub mod pipeline;
pub mod ui;
