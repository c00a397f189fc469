//! Verified core of the Rack Validation Service.
//!
//! The service polls an inventory API for racks, caches the artifacts that the
//! loaded scenarios need, validates each partition and keeps the `rv.*` labels
//! of the machines up to date. This library holds the decisions of the service:
//! what is asked of the inventory API, what is made of the answers, how an
//! artifact download proceeds and what a validation cycle does next. It does no
//! I/O of its own.

pub mod artifact;
pub mod client;
pub mod ctx;
pub mod digest;
pub mod download;
pub mod error;
pub mod ids;
pub mod json;
pub mod label;
pub mod nicc;
pub mod scenario;
mod seqs;
pub mod service;
pub mod text;
