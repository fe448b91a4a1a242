//! Building blocks of a desktop streaming pipeline: wire framing and jitter
//! buffering for UDP transport, Annex-B NAL scanning, sender and receiver
//! configuration, frame scaling, render-queue latency policing and the
//! bookkeeping that surrounds them.

pub mod capture;
pub mod clock;
pub mod codec;
pub mod error;
pub mod text;
pub mod network;
pub mod perf;
pub mod receiver;
pub mod sender;
