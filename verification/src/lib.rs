//! A checked wrapper model for a native audio engine's studio layer.
//!
//! The native engine hands out opaque handles and reports every outcome as an
//! integer status code. This crate models the observable state of that engine
//! as an explicit value and proves the wrapper layer against it: status-code
//! classification, two-phase size-discovery queries, asynchronous bank
//! loading, sample-data reference counting, and the userdata side table.

pub mod bank;
pub mod dsp;
pub mod error;
pub mod geometry;
pub mod event;
pub mod flags;
pub mod handles;
pub mod ids;
pub mod laws;
pub mod loading;
pub mod model;
pub mod protocol;
pub mod system;
pub mod text;
pub mod userdata;
