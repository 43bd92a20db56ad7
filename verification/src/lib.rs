//! Library for a single-shot pipeline that obtains the caller's public IPv4
//! address from a web page and appends a timestamped record to a local store.
//!
//! The page-markup extraction, the dotted-decimal address parsing, the record
//! encoding and the orchestration decisions live here, each with a contract.

pub mod domain;
pub mod error;
pub mod source;
pub mod store;
pub mod usecase;
