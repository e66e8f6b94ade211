//! Verified core of a local orchestration layer for model-server
//! subprocesses: executable-version resolution with fallback discovery,
//! port selection, argument building, and a process registry with
//! bounded output logs and a monotonic lifecycle state machine.
//!
//! All I/O (filesystem scans, port probes, spawning, stream reads,
//! kills) lives outside this crate; the functions here take the
//! observations of that I/O as plain values and are verified for every
//! such value.

pub mod host;
pub mod models;
pub mod text;
pub mod args;
pub mod ports;
pub mod registry;
pub mod resolver;
