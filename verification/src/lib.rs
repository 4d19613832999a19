//! Background task scheduling support for a server application: a periodic
//! task scheduler with a handler registry, an ordered backlog of outbound
//! mail jobs drained against an external transport, an expiring in-process
//! key/value store, and the configuration and error types around them.
//!
//! The concurrency plumbing (runtime loops, locks, wake primitives) lives in
//! the application around this crate; here every state transition of the
//! scheduler and of the queues is a plain function with a proved contract,
//! driven by explicit time values and wake signals.
use vstd::prelude::*;

pub mod common_search;
pub mod config;
pub mod errors;
pub mod global_data;
pub mod gpt_sdk;
pub mod mail;
pub mod queue;
pub mod utils;
pub mod wechat;

verus! {

/// Result alias used throughout the library.
pub type ChimesResult<T> = Result<T, crate::errors::ChimesError>;

} // verus!
