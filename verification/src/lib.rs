//! Chunked download planning and coordination for wordlist archives.
//!
//! A resource of known size is split into contiguous byte ranges, the ranges
//! are handed to a bounded set of workers, and the outcome of every fetch
//! attempt is folded into per-chunk state until the download is complete,
//! partially failed, or failed. Everything here is pure bookkeeping: callers
//! perform the network and disk work and report back what happened.

pub mod args;
pub mod coordinator;
pub mod data;
pub mod fetch;
pub mod planner;
pub mod progress;
pub mod repo;
pub mod units;
