//! Verified core of a logging proxy for OpenAI-compatible APIs: header
//! filtering and redaction, transaction file naming, markdown export of
//! conversations, dashboard fragments and metrics bookkeeping.
pub mod text;
pub mod store;
pub mod download;
pub mod proxy;
pub mod logging;
pub mod fragments;
pub mod metrics;
pub mod access;
