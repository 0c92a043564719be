//! The report writer and the periodic aggregation tick.
//!
//! The writer is the single consumer of the ingest queue: it drains reports
//! strictly in order and performs exactly one store insert per report. A
//! failure is never retried — the step reports it and the supervisor
//! terminates the process, because silently dropping or reordering
//! telemetry would corrupt later aggregation.

use vstd::prelude::*;
use crate::aggregate::{
    aggregate_spec, aggregate_stats, aggregate_stats_by_context, context_views, counters_blocked,
    ctx_aggregate_spec, ctx_phase1_rec, ctx_sums_fit, ctx_totals_blocked, phase1_spec,
    totals_blocked, AggregateError,
};
use crate::dedup::contexts_of_day;
use crate::queue::IngestQueue;
use crate::rollup::{CtxStatsTable, StatsTable};
use crate::store::ReportStore;

verus! {

/// What one writer step did.
pub enum WriterStep {
    /// One report was dequeued and stored under the returned identifier.
    Wrote(u64),
    /// The queue is empty but still open: the writer suspends until a
    /// producer enqueues.
    Empty,
    /// The queue is empty and closed: no report can ever arrive again, the
    /// writer stops and the process terminates.
    Stopped,
}

/// One step of the report writer: moves the oldest queued report into the
/// store, preserving arrival order, with exactly one insert per report.
pub fn writer_step(queue: &mut IngestQueue, store: &mut ReportStore) -> (r: WriterStep)
    requires
        old(queue).inv(),
        old(store).rows().len() < u64::MAX,
    ensures
        final(queue).inv(),
        final(queue).cap() == old(queue).cap(),
        final(queue).is_closed() == old(queue).is_closed(),
        match r {
            WriterStep::Wrote(id) => old(queue).contents().len() > 0 && final(queue).contents()
                == old(queue).contents().drop_first() && final(store).rows() == old(
                store,
            ).rows().push(old(queue).contents().first()) && id == old(store).rows().len(),
            WriterStep::Empty => old(queue).contents().len() == 0 && !old(queue).is_closed()
                && final(queue).contents() == old(queue).contents() && final(store).rows() == old(
                store,
            ).rows(),
            WriterStep::Stopped => old(queue).contents().len() == 0 && old(queue).is_closed()
                && final(queue).contents() == old(queue).contents() && final(store).rows() == old(
                store,
            ).rows(),
        },
{
    match queue.dequeue() {
        Some(report) => WriterStep::Wrote(store.insert(report)),
        None => {
            if queue.check_closed() {
                WriterStep::Stopped
            } else {
                WriterStep::Empty
            }
        },
    }
}

/// One periodic aggregation tick: the global pass for `day`, then the
/// per-context pass. The first failure stops the tick — it is fatal to the
/// process — so a failing global pass leaves the per-context table
/// untouched.
pub fn aggregate_tick(
    store: &ReportStore,
    stats: &mut StatsTable,
    ctx_stats: &mut CtxStatsTable,
    day: u64,
) -> (r: Result<(), AggregateError>)
    requires
        old(stats).inv(),
        old(ctx_stats).inv(),
    ensures
        final(stats).inv(),
        final(ctx_stats).inv(),
        (r == Ok::<(), AggregateError>(())) == (!counters_blocked(store.rows(), day)
            && !totals_blocked(store.rows(), old(stats).rows(), day) && ctx_sums_fit(
            store.rows(),
            day,
        ) && !ctx_totals_blocked(store.rows(), old(ctx_stats).rows(), day)),
        r == Ok::<(), AggregateError>(()) ==> final(stats).rows() == aggregate_spec(
            store.rows(),
            old(stats).rows(),
            day,
        ),
        r == Ok::<(), AggregateError>(()) ==> exists|ctxs: Seq<String>|
            #[trigger] context_views(ctxs) == contexts_of_day(store.rows(), day)
                && final(ctx_stats).rows() == ctx_aggregate_spec(
                store.rows(),
                old(ctx_stats).rows(),
                day,
                ctxs,
            ),
        counters_blocked(store.rows(), day) ==> r == Err::<(), AggregateError>(
            AggregateError::CounterOverflow,
        ) && final(stats).rows() == old(stats).rows() && final(ctx_stats).rows() == old(
            ctx_stats,
        ).rows(),
        !counters_blocked(store.rows(), day) && totals_blocked(store.rows(), old(stats).rows(), day)
            ==> r == Err::<(), AggregateError>(AggregateError::TotalOverflow) && final(stats).rows()
            == phase1_spec(old(stats).rows(), store.rows(), day) && final(ctx_stats).rows() == old(
            ctx_stats,
        ).rows(),
        !counters_blocked(store.rows(), day) && !totals_blocked(
            store.rows(),
            old(stats).rows(),
            day,
        ) && !ctx_sums_fit(store.rows(), day) ==> r == Err::<(), AggregateError>(
            AggregateError::CounterOverflow,
        ) && final(stats).rows() == aggregate_spec(store.rows(), old(stats).rows(), day)
            && final(ctx_stats).rows() == old(ctx_stats).rows(),
        !counters_blocked(store.rows(), day) && !totals_blocked(
            store.rows(),
            old(stats).rows(),
            day,
        ) && ctx_sums_fit(store.rows(), day) && ctx_totals_blocked(
            store.rows(),
            old(ctx_stats).rows(),
            day,
        ) ==> r == Err::<(), AggregateError>(AggregateError::TotalOverflow) && final(stats).rows()
            == aggregate_spec(store.rows(), old(stats).rows(), day) && exists|ctxs: Seq<String>|
            #[trigger] context_views(ctxs) == contexts_of_day(store.rows(), day)
                && final(ctx_stats).rows() == ctx_phase1_rec(
                old(ctx_stats).rows(),
                store.rows(),
                day,
                ctxs,
            ),
{
    match aggregate_stats(store, stats, day) {
        Ok(_) => {},
        Err(e) => {
            return Err(e);
        },
    }
    match aggregate_stats_by_context(store, ctx_stats, day) {
        Ok(_) => Ok(()),
        Err(e) => Err(e),
    }
}

} // verus!
