//! Turns the output of operator-configured shell commands into Prometheus
//! metrics, one scrape at a time.
//!
//! The crate holds the decisions of a scrape: which command runs next, how its
//! output becomes a number's text, when a metric is accepted, and in which
//! order the exposition lists the metrics. Running processes and handling
//! floating-point values is left to the caller.

pub mod config;
pub mod error;
pub mod metrics;
pub mod number;
pub mod output;
pub mod registry;
pub mod scrape;
