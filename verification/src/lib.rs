//! Ingestion pipeline and incremental aggregation engine for homeserver
//! usage-telemetry reports.
//!
//! Raw reports arrive at a network boundary, pass through a bounded FIFO
//! ingest queue to a single writer, and land in an append-only report store.
//! A periodic aggregator deduplicates the reports of a calendar day (keeping
//! the latest report per homeserver), sums the numeric counters into a
//! per-day rollup row, and maintains running cumulative message totals both
//! globally and per tenant context.

use vstd::prelude::*;

pub mod aggregate;
pub mod dedup;
pub mod laws;
pub mod model;
pub mod pipeline;
pub mod queue;
pub mod reader;
pub mod rollup;
pub mod settings;
pub mod store;
pub mod sums;

verus! {

/// Number of seconds in a calendar day; reports are assigned to days by
/// their receipt timestamp in UTC.
pub const SECONDS_PER_DAY: u64 = 86400;

} // verus!
