//! Verified core of a regression-reproduction harness.
//!
//! For each recorded issue the harness checks out a source revision and runs
//! a simulation workload many times, capturing each run's complete output so
//! that intermittent failures can be reproduced and inspected. The modules
//! here hold everything that can be decided without touching the outside
//! world: classification of a run's outcome, derivation of its on-disk
//! artifacts, construction of result-store paths and run commands, and the
//! sequencing of one issue's pipeline. The surrounding tool layer performs
//! the actual process control, stream draining and file writes, and feeds
//! every observation back in as plain values.

pub mod bytes;
pub mod outcome;
pub mod pipeline;
pub mod record;
pub mod store;
