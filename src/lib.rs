//! Event classification and dispatch for a host-based file integrity monitor:
//! path matching against monitored roots, ignore rules, operation
//! classification, audit record construction and its line-delimited JSON form.

pub mod config;
pub mod dispatch;
pub mod entry;
pub mod utils;
