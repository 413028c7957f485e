//! Verified core of an EVE-record ingestion writer: classification and
//! decoding of heterogeneous network-telemetry records, flow/filename
//! correlation, and idempotent batch persistence into an in-memory model
//! of the relational store.
pub mod correlate;
pub mod decode;
pub mod models;
pub mod record;
pub mod store;
pub mod timefmt;
pub mod writer;
