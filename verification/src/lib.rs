//! Verified core of a telemetry node: the store of latest readings and its
//! exposition text, the sampling step that feeds it, and the guard that keeps
//! at most one discovery advertiser alive.
pub mod http;
pub mod mac;
pub mod mdns;
pub mod sampler;
pub mod stats;
pub mod text;
