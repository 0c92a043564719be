//! The rollup reader: the read path serving one day's (optionally
//! context-scoped) rollup row.
//!
//! A day with no row yields "not found" rather than a zeroed row, so that
//! callers can distinguish "zero activity" from "not computed". A caller may
//! ask for an on-demand synchronous aggregation pass before the read — the
//! aggregator's exact procedure, not a shortcut. A read-path failure is
//! surfaced to the caller and never fatal to the process.

use vstd::prelude::*;
use crate::aggregate::{
    aggregate_spec, aggregate_stats, aggregate_stats_by_context, context_views, counters_blocked,
    ctx_aggregate_spec, ctx_phase1_rec, ctx_sums_fit, ctx_totals_blocked, phase1_spec,
    totals_blocked, AggregateError,
};
use crate::dedup::contexts_of_day;
use crate::model::{AggregatedStats, AggregatedStatsByContext};
use crate::rollup::{ctx_row, day_row, CtxStatsTable, StatsTable};
use crate::store::ReportStore;

verus! {

/// Query flags of a rollup read: `generate` asks for an on-demand
/// aggregation pass for the requested day before the lookup.
#[derive(Clone, Copy, Debug, Default)]
pub struct QueryParams {
    pub generate: Option<bool>,
}

impl QueryParams {
    /// Whether the caller asked for on-demand recomputation; only an
    /// explicit `true` does.
    pub fn should_generate(&self) -> (b: bool)
        ensures
            b == (self.generate == Some(true)),
    {
        matches!(self.generate, Some(true))
    }
}

/// Reads the global rollup row for `day`; with the `generate` flag set, the
/// exact global aggregation pass for `day` runs first.
///
/// Returns `Ok(None)` exactly when no row for the day exists (after the
/// optional pass): aggregation has not yet run for it. An aggregation
/// failure is handed to the caller, who reports it on this one request
/// without affecting the process.
pub fn read_aggregated_stats(
    store: &ReportStore,
    table: &mut StatsTable,
    day: u64,
    params: &QueryParams,
) -> (r: Result<Option<AggregatedStats>, AggregateError>)
    requires
        old(table).inv(),
    ensures
        final(table).inv(),
        params.generate != Some(true) ==> final(table).rows() == old(table).rows() && r
            == Ok::<Option<AggregatedStats>, AggregateError>(day_row(old(table).rows(), day)),
        params.generate == Some(true) && !counters_blocked(store.rows(), day) && !totals_blocked(
            store.rows(),
            old(table).rows(),
            day,
        ) ==> final(table).rows() == aggregate_spec(store.rows(), old(table).rows(), day) && r
            == Ok::<Option<AggregatedStats>, AggregateError>(day_row(final(table).rows(), day)),
        params.generate == Some(true) && counters_blocked(store.rows(), day) ==> r == Err::<
            Option<AggregatedStats>,
            AggregateError,
        >(AggregateError::CounterOverflow) && final(table).rows() == old(table).rows(),
        params.generate == Some(true) && !counters_blocked(store.rows(), day) && totals_blocked(
            store.rows(),
            old(table).rows(),
            day,
        ) ==> r == Err::<Option<AggregatedStats>, AggregateError>(AggregateError::TotalOverflow)
            && final(table).rows() == phase1_spec(old(table).rows(), store.rows(), day),
{
    if params.should_generate() {
        match aggregate_stats(store, table, day) {
            Ok(_) => {},
            Err(e) => {
                return Err(e);
            },
        }
    }
    Ok(table.get(day))
}

/// Reads the per-context rollup row for `(day, context)`; with the
/// `generate` flag set, the exact per-context aggregation pass for `day`
/// runs first.
///
/// Returns `Ok(None)` exactly when no row for the pair exists (after the
/// optional pass).
pub fn read_aggregated_stats_by_context(
    store: &ReportStore,
    table: &mut CtxStatsTable,
    day: u64,
    context: &String,
    params: &QueryParams,
) -> (r: Result<Option<AggregatedStatsByContext>, AggregateError>)
    requires
        old(table).inv(),
    ensures
        final(table).inv(),
        params.generate != Some(true) ==> final(table).rows() == old(table).rows() && r
            == Ok::<Option<AggregatedStatsByContext>, AggregateError>(
            ctx_row(old(table).rows(), day, context@),
        ),
        params.generate == Some(true) && ctx_sums_fit(store.rows(), day) && !ctx_totals_blocked(
            store.rows(),
            old(table).rows(),
            day,
        ) ==> (exists|ctxs: Seq<String>|
            #[trigger] context_views(ctxs) == contexts_of_day(store.rows(), day)
                && final(table).rows() == ctx_aggregate_spec(
                store.rows(),
                old(table).rows(),
                day,
                ctxs,
            )) && r == Ok::<Option<AggregatedStatsByContext>, AggregateError>(
            ctx_row(final(table).rows(), day, context@),
        ),
        params.generate == Some(true) && !ctx_sums_fit(store.rows(), day) ==> r == Err::<
            Option<AggregatedStatsByContext>,
            AggregateError,
        >(AggregateError::CounterOverflow) && final(table).rows() == old(table).rows(),
        params.generate == Some(true) && ctx_sums_fit(store.rows(), day) && ctx_totals_blocked(
            store.rows(),
            old(table).rows(),
            day,
        ) ==> r == Err::<Option<AggregatedStatsByContext>, AggregateError>(
            AggregateError::TotalOverflow,
        ) && exists|ctxs: Seq<String>|
            #[trigger] context_views(ctxs) == contexts_of_day(store.rows(), day)
                && final(table).rows() == ctx_phase1_rec(
                old(table).rows(),
                store.rows(),
                day,
                ctxs,
            ),
{
    if params.should_generate() {
        match aggregate_stats_by_context(store, table, day) {
            Ok(_) => {},
            Err(e) => {
                return Err(e);
            },
        }
    }
    match table.get(day, context) {
        Some(row) => Ok(Some(row.duplicate())),
        None => Ok(None),
    }
}

/// The HTTP status of a rollup read: `200` with the row, `404` when the day
/// (or pair) has not been aggregated yet — not an error — and `500` on a
/// storage failure, which affects only this request.
pub fn read_status<T>(r: &Result<Option<T>, AggregateError>) -> (code: u16)
    ensures
        (code == 200) == (r matches Ok(Some(_))),
        (code == 404) == (r matches Ok(None::<T>)),
        (code == 500) == (r matches Err(_)),
{
    match r {
        Ok(Some(_)) => 200,
        Ok(None) => 404,
        Err(_) => 500,
    }
}

/// The health endpoint's status: `200` while storage is reachable, `500`
/// otherwise.
pub fn health_status(storage_reachable: bool) -> (code: u16)
    ensures
        code == if storage_reachable {
            200u16
        } else {
            500u16
        },
{
    if storage_reachable {
        200
    } else {
        500
    }
}

} // verus!
