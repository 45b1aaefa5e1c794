//! Subdomain enumeration: the decisions of the resolution pipeline.
//!
//! Candidate names are formed from a wordlist and a root domain, each is
//! looked up once by one of a fixed number of workers, the hits are gathered
//! into a report, and a progress aggregator counts what was processed and
//! what was found. This crate holds the rules of that pipeline as functions
//! from plain values to plain values; the caller owns the channels, the tasks
//! and the network.

pub mod model;
pub mod pipeline;
pub mod pool;
pub mod progress;
pub mod queue;
pub mod report;
pub mod resolver;
pub mod worker;
