//! Connection-scaling latency benchmark engine for a publish/subscribe
//! notification channel.
//!
//! The library holds the verified core of the benchmark: the statistics
//! aggregator with outlier-aware quantile computation, the idle-pool model,
//! the scaling state machine, the probe-pair protocol checker, and the
//! command-line configuration parser.  The unverified shell (process
//! management, network connections, the tabular output file) lives outside
//! and drives this engine with plain values.

pub mod config;
pub mod engine;
pub mod errors;
pub mod names;
pub mod pool;
pub mod probe;
pub mod session;
pub mod stats;
