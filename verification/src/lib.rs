//! Decoding, discovery and scrape logic for NVMe controller telemetry.
//!
//! The crate holds everything about an NVMe metrics exporter that can be
//! decided without touching the machine: how admin commands are framed, how
//! the returned log pages are decoded, which device nodes count as
//! controllers, how snapshots of successive scrapes are merged, and which
//! metric samples a report consists of. Reading directories, opening device
//! nodes and submitting commands is left to the caller, who hands the bytes
//! and listings it obtained to the functions here.

pub mod collection;
pub mod collector;
pub mod config;
pub mod metrics;
pub mod nvme;
pub mod ordered;
