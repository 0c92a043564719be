//! The aggregator: recomputes a day's rollup rows from the raw report store.
//!
//! For a target day the pass selects that day's reports, deduplicates them
//! (latest report per homeserver, per `(homeserver, context)` for the
//! per-context rollup), sums every numeric counter across the survivors,
//! upserts the resulting row, and then recomputes the cumulative message
//! totals for the day as a prefix sum over the whole rollup history.
//!
//! The procedure is deterministic and self-contained, so re-running it for
//! the same day over the same store reproduces the same rows. A sum that no
//! longer fits its `i64` column is the one persistence failure this model
//! can exhibit; it is reported as a typed error and, like every persistence
//! failure of the writer or the aggregator, is fatal to the process by
//! policy — the caller terminates rather than retry or drop data.

use vstd::prelude::*;
use crate::dedup::{
    collect_contexts, collect_counter_values, collect_ctx_winner_indices, collect_winner_indices,
    contexts_of_day, count_named_homeservers, counter_vals, ctx_day_active_homeservers,
    ctx_winner_indices, day_active_homeservers, winner_indices,
};
use crate::model::{AggregatedStatsByContext, CounterId, CounterSums, Report};
use crate::rollup::{
    ctx_total_upto, ctx_upsert_spec, has_ctx, has_day, set_totals_spec, total_upto,
    upsert_sums_spec, with_ctx_totals, CtxStatsTable, StatsTable,
};
use crate::store::ReportStore;
use crate::sums::{opt_fits_i64, stored, sum_opt, SumOutcome, sum_values};

verus! {

/// A persistence failure inside an aggregation pass. Both variants are
/// fatal to the process by the crash-only policy.
#[derive(Clone, Copy, Debug, PartialEq, Eq)]
pub enum AggregateError {
    /// A deduplicated per-day counter sum does not fit its `i64` column;
    /// nothing was written.
    CounterOverflow,
    /// A cumulative total does not fit its `i64` column; the per-day sums
    /// were already committed, the totals were not.
    TotalOverflow,
}

/// Whether any report at all contributes to `day`.
pub open spec fn has_contribution(s: Seq<Report>, day: u64) -> bool {
    winner_indices(s, day).len() > 0
}

/// The sums of every counter across the reports of `s` at `idxs`, as
/// stored in a rollup row. Meaningful when `sums_from_fit` holds.
pub open spec fn sums_from(s: Seq<Report>, idxs: Seq<int>) -> CounterSums {
    CounterSums {
        total_users: stored(sum_opt(counter_vals(s, idxs, CounterId::TotalUsers))),
        total_nonbridged_users: stored(sum_opt(counter_vals(s, idxs, CounterId::TotalNonbridgedUsers))),
        total_room_count: stored(sum_opt(counter_vals(s, idxs, CounterId::TotalRoomCount))),
        daily_active_users: stored(sum_opt(counter_vals(s, idxs, CounterId::DailyActiveUsers))),
        daily_active_rooms: stored(sum_opt(counter_vals(s, idxs, CounterId::DailyActiveRooms))),
        daily_messages: stored(sum_opt(counter_vals(s, idxs, CounterId::DailyMessages))),
        daily_sent_messages: stored(sum_opt(counter_vals(s, idxs, CounterId::DailySentMessages))),
        daily_active_e2ee_rooms: stored(sum_opt(counter_vals(s, idxs, CounterId::DailyActiveE2eeRooms))),
        daily_e2ee_messages: stored(sum_opt(counter_vals(s, idxs, CounterId::DailyE2eeMessages))),
        daily_sent_e2ee_messages: stored(sum_opt(counter_vals(s, idxs, CounterId::DailySentE2eeMessages))),
        monthly_active_users: stored(sum_opt(counter_vals(s, idxs, CounterId::MonthlyActiveUsers))),
        r30_users_all: stored(sum_opt(counter_vals(s, idxs, CounterId::R30UsersAll))),
        r30_users_android: stored(sum_opt(counter_vals(s, idxs, CounterId::R30UsersAndroid))),
        r30_users_ios: stored(sum_opt(counter_vals(s, idxs, CounterId::R30UsersIos))),
        r30_users_electron: stored(sum_opt(counter_vals(s, idxs, CounterId::R30UsersElectron))),
        r30_users_web: stored(sum_opt(counter_vals(s, idxs, CounterId::R30UsersWeb))),
        r30v2_users_all: stored(sum_opt(counter_vals(s, idxs, CounterId::R30v2UsersAll))),
        r30v2_users_android: stored(sum_opt(counter_vals(s, idxs, CounterId::R30v2UsersAndroid))),
        r30v2_users_ios: stored(sum_opt(counter_vals(s, idxs, CounterId::R30v2UsersIos))),
        r30v2_users_electron: stored(sum_opt(counter_vals(s, idxs, CounterId::R30v2UsersElectron))),
        r30v2_users_web: stored(sum_opt(counter_vals(s, idxs, CounterId::R30v2UsersWeb))),
        daily_user_type_native: stored(sum_opt(counter_vals(s, idxs, CounterId::DailyUserTypeNative))),
        daily_user_type_bridged: stored(sum_opt(counter_vals(s, idxs, CounterId::DailyUserTypeBridged))),
        daily_user_type_guest: stored(sum_opt(counter_vals(s, idxs, CounterId::DailyUserTypeGuest))),
    }
}

/// Whether every counter sum over the reports at `idxs` fits its `i64`
/// column.
pub open spec fn sums_from_fit(s: Seq<Report>, idxs: Seq<int>) -> bool {
    forall|id: CounterId| opt_fits_i64(#[trigger] sum_opt(counter_vals(s, idxs, id)))
}

/// The per-day sums of every counter across the reports surviving global
/// deduplication for `day`. Meaningful when `sums_fit` holds.
pub open spec fn day_counter_sums(s: Seq<Report>, day: u64) -> CounterSums {
    sums_from(s, winner_indices(s, day))
}

/// Whether every per-day counter sum for `day` fits its `i64` column.
pub open spec fn sums_fit(s: Seq<Report>, day: u64) -> bool {
    sums_from_fit(s, winner_indices(s, day))
}

/// The first aggregation phase: when `day` has contributing reports, their
/// deduplicated sums are upserted; otherwise the table is untouched.
pub open spec fn phase1_spec(t: Seq<crate::model::AggregatedStats>, s: Seq<Report>, day: u64) -> Seq<
    crate::model::AggregatedStats,
> {
    if has_contribution(s, day) {
        upsert_sums_spec(t, day, day_counter_sums(s, day), day_active_homeservers(s, day) as u64)
    } else {
        t
    }
}

/// Whether both cumulative totals for `day` over table `t` fit their `i64`
/// columns.
pub open spec fn totals_fit(t: Seq<crate::model::AggregatedStats>, day: u64) -> bool {
    opt_fits_i64(total_upto(t, day, CounterId::DailyMessages)) && opt_fits_i64(
        total_upto(t, day, CounterId::DailyE2eeMessages),
    )
}

/// The second aggregation phase: the cumulative totals of the row for `day`
/// (if present) are recomputed as prefix sums over the whole table.
pub open spec fn phase2_spec(t: Seq<crate::model::AggregatedStats>, day: u64) -> Seq<
    crate::model::AggregatedStats,
> {
    set_totals_spec(
        t,
        day,
        stored(total_upto(t, day, CounterId::DailyMessages)),
        stored(total_upto(t, day, CounterId::DailyE2eeMessages)),
    )
}

/// The complete global aggregation pass for `day`, as a function of the
/// report-store snapshot and the previous table.
pub open spec fn aggregate_spec(
    s: Seq<Report>,
    t: Seq<crate::model::AggregatedStats>,
    day: u64,
) -> Seq<crate::model::AggregatedStats> {
    phase2_spec(phase1_spec(t, s, day), day)
}

/// Whether the first phase fails on a counter sum outside the `i64` range.
pub open spec fn counters_blocked(s: Seq<Report>, day: u64) -> bool {
    has_contribution(s, day) && !sums_fit(s, day)
}

/// Whether the second phase fails on a cumulative total outside the `i64`
/// range.
pub open spec fn totals_blocked(
    s: Seq<Report>,
    t: Seq<crate::model::AggregatedStats>,
    day: u64,
) -> bool {
    has_day(phase1_spec(t, s, day), day) && !totals_fit(phase1_spec(t, s, day), day)
}

/// Computes the counter sums across the reports at `idxs` (one
/// deduplicated group), or reports that some counter's sum does not fit.
fn compute_sums(reports: &Vec<Report>, idxs: &Vec<usize>) -> (r: Result<
    CounterSums,
    AggregateError,
>)
    requires
        forall|k: int| 0 <= k < idxs@.len() ==> #[trigger] idxs@[k] < reports@.len(),
    ensures
        (r matches Ok(_)) == sums_from_fit(reports@, idxs@.map_values(|u: usize| u as int)),
        r matches Ok(cs) ==> cs == sums_from(reports@, idxs@.map_values(|u: usize| u as int)),
        r matches Err(e) ==> e == AggregateError::CounterOverflow,
{
    let total_users = match sum_values(&collect_counter_values(reports, idxs, CounterId::TotalUsers)) {
        SumOutcome::Sum(v) => v,
        SumOutcome::Overflow => { return Err(AggregateError::CounterOverflow); },
    };
    let total_nonbridged_users = match sum_values(
        &collect_counter_values(reports, idxs, CounterId::TotalNonbridgedUsers),
    ) {
        SumOutcome::Sum(v) => v,
        SumOutcome::Overflow => { return Err(AggregateError::CounterOverflow); },
    };
    let total_room_count = match sum_values(
        &collect_counter_values(reports, idxs, CounterId::TotalRoomCount),
    ) {
        SumOutcome::Sum(v) => v,
        SumOutcome::Overflow => { return Err(AggregateError::CounterOverflow); },
    };
    let daily_active_users = match sum_values(
        &collect_counter_values(reports, idxs, CounterId::DailyActiveUsers),
    ) {
        SumOutcome::Sum(v) => v,
        SumOutcome::Overflow => { return Err(AggregateError::CounterOverflow); },
    };
    let daily_active_rooms = match sum_values(
        &collect_counter_values(reports, idxs, CounterId::DailyActiveRooms),
    ) {
        SumOutcome::Sum(v) => v,
        SumOutcome::Overflow => { return Err(AggregateError::CounterOverflow); },
    };
    let daily_messages = match sum_values(
        &collect_counter_values(reports, idxs, CounterId::DailyMessages),
    ) {
        SumOutcome::Sum(v) => v,
        SumOutcome::Overflow => { return Err(AggregateError::CounterOverflow); },
    };
    let daily_sent_messages = match sum_values(
        &collect_counter_values(reports, idxs, CounterId::DailySentMessages),
    ) {
        SumOutcome::Sum(v) => v,
        SumOutcome::Overflow => { return Err(AggregateError::CounterOverflow); },
    };
    let daily_active_e2ee_rooms = match sum_values(
        &collect_counter_values(reports, idxs, CounterId::DailyActiveE2eeRooms),
    ) {
        SumOutcome::Sum(v) => v,
        SumOutcome::Overflow => { return Err(AggregateError::CounterOverflow); },
    };
    let daily_e2ee_messages = match sum_values(
        &collect_counter_values(reports, idxs, CounterId::DailyE2eeMessages),
    ) {
        SumOutcome::Sum(v) => v,
        SumOutcome::Overflow => { return Err(AggregateError::CounterOverflow); },
    };
    let daily_sent_e2ee_messages = match sum_values(
        &collect_counter_values(reports, idxs, CounterId::DailySentE2eeMessages),
    ) {
        SumOutcome::Sum(v) => v,
        SumOutcome::Overflow => { return Err(AggregateError::CounterOverflow); },
    };
    let monthly_active_users = match sum_values(
        &collect_counter_values(reports, idxs, CounterId::MonthlyActiveUsers),
    ) {
        SumOutcome::Sum(v) => v,
        SumOutcome::Overflow => { return Err(AggregateError::CounterOverflow); },
    };
    let r30_users_all = match sum_values(
        &collect_counter_values(reports, idxs, CounterId::R30UsersAll),
    ) {
        SumOutcome::Sum(v) => v,
        SumOutcome::Overflow => { return Err(AggregateError::CounterOverflow); },
    };
    let r30_users_android = match sum_values(
        &collect_counter_values(reports, idxs, CounterId::R30UsersAndroid),
    ) {
        SumOutcome::Sum(v) => v,
        SumOutcome::Overflow => { return Err(AggregateError::CounterOverflow); },
    };
    let r30_users_ios = match sum_values(
        &collect_counter_values(reports, idxs, CounterId::R30UsersIos),
    ) {
        SumOutcome::Sum(v) => v,
        SumOutcome::Overflow => { return Err(AggregateError::CounterOverflow); },
    };
    let r30_users_electron = match sum_values(
        &collect_counter_values(reports, idxs, CounterId::R30UsersElectron),
    ) {
        SumOutcome::Sum(v) => v,
        SumOutcome::Overflow => { return Err(AggregateError::CounterOverflow); },
    };
    let r30_users_web = match sum_values(
        &collect_counter_values(reports, idxs, CounterId::R30UsersWeb),
    ) {
        SumOutcome::Sum(v) => v,
        SumOutcome::Overflow => { return Err(AggregateError::CounterOverflow); },
    };
    let r30v2_users_all = match sum_values(
        &collect_counter_values(reports, idxs, CounterId::R30v2UsersAll),
    ) {
        SumOutcome::Sum(v) => v,
        SumOutcome::Overflow => { return Err(AggregateError::CounterOverflow); },
    };
    let r30v2_users_android = match sum_values(
        &collect_counter_values(reports, idxs, CounterId::R30v2UsersAndroid),
    ) {
        SumOutcome::Sum(v) => v,
        SumOutcome::Overflow => { return Err(AggregateError::CounterOverflow); },
    };
    let r30v2_users_ios = match sum_values(
        &collect_counter_values(reports, idxs, CounterId::R30v2UsersIos),
    ) {
        SumOutcome::Sum(v) => v,
        SumOutcome::Overflow => { return Err(AggregateError::CounterOverflow); },
    };
    let r30v2_users_electron = match sum_values(
        &collect_counter_values(reports, idxs, CounterId::R30v2UsersElectron),
    ) {
        SumOutcome::Sum(v) => v,
        SumOutcome::Overflow => { return Err(AggregateError::CounterOverflow); },
    };
    let r30v2_users_web = match sum_values(
        &collect_counter_values(reports, idxs, CounterId::R30v2UsersWeb),
    ) {
        SumOutcome::Sum(v) => v,
        SumOutcome::Overflow => { return Err(AggregateError::CounterOverflow); },
    };
    let daily_user_type_native = match sum_values(
        &collect_counter_values(reports, idxs, CounterId::DailyUserTypeNative),
    ) {
        SumOutcome::Sum(v) => v,
        SumOutcome::Overflow => { return Err(AggregateError::CounterOverflow); },
    };
    let daily_user_type_bridged = match sum_values(
        &collect_counter_values(reports, idxs, CounterId::DailyUserTypeBridged),
    ) {
        SumOutcome::Sum(v) => v,
        SumOutcome::Overflow => { return Err(AggregateError::CounterOverflow); },
    };
    let daily_user_type_guest = match sum_values(
        &collect_counter_values(reports, idxs, CounterId::DailyUserTypeGuest),
    ) {
        SumOutcome::Sum(v) => v,
        SumOutcome::Overflow => { return Err(AggregateError::CounterOverflow); },
    };
    let cs = CounterSums {
        total_users,
        total_nonbridged_users,
        total_room_count,
        daily_active_users,
        daily_active_rooms,
        daily_messages,
        daily_sent_messages,
        daily_active_e2ee_rooms,
        daily_e2ee_messages,
        daily_sent_e2ee_messages,
        monthly_active_users,
        r30_users_all,
        r30_users_android,
        r30_users_ios,
        r30_users_electron,
        r30_users_web,
        r30v2_users_all,
        r30v2_users_android,
        r30v2_users_ios,
        r30v2_users_electron,
        r30v2_users_web,
        daily_user_type_native,
        daily_user_type_bridged,
        daily_user_type_guest,
    };
    proof {
        let midxs = idxs@.map_values(|u: usize| u as int);
        assert forall|id: CounterId| opt_fits_i64(
            #[trigger] sum_opt(counter_vals(reports@, midxs, id)),
        ) by {
            match id {
                CounterId::TotalUsers => {},
                CounterId::TotalNonbridgedUsers => {},
                CounterId::TotalRoomCount => {},
                CounterId::DailyActiveUsers => {},
                CounterId::DailyActiveRooms => {},
                CounterId::DailyMessages => {},
                CounterId::DailySentMessages => {},
                CounterId::DailyActiveE2eeRooms => {},
                CounterId::DailyE2eeMessages => {},
                CounterId::DailySentE2eeMessages => {},
                CounterId::MonthlyActiveUsers => {},
                CounterId::R30UsersAll => {},
                CounterId::R30UsersAndroid => {},
                CounterId::R30UsersIos => {},
                CounterId::R30UsersElectron => {},
                CounterId::R30UsersWeb => {},
                CounterId::R30v2UsersAll => {},
                CounterId::R30v2UsersAndroid => {},
                CounterId::R30v2UsersIos => {},
                CounterId::R30v2UsersElectron => {},
                CounterId::R30v2UsersWeb => {},
                CounterId::DailyUserTypeNative => {},
                CounterId::DailyUserTypeBridged => {},
                CounterId::DailyUserTypeGuest => {},
            }
        }
        assert(cs == sums_from(reports@, midxs));
    }
    Ok(cs)
}

/// One global aggregation pass for `day`.
///
/// On success the table becomes exactly `aggregate_spec` of the store
/// snapshot, the previous table and the day: the day's deduplicated sums
/// are upserted (a day without reports stays absent), and the cumulative
/// totals of the day's row are recomputed over the whole history.
///
/// `CounterOverflow` is returned, with the table untouched, exactly when a
/// per-day counter sum falls outside the `i64` range; `TotalOverflow`, with
/// only the first phase committed, exactly when the sums fit but a
/// cumulative total does not. Either error is fatal to the process under
/// the crash-only policy.
pub fn aggregate_stats(store: &ReportStore, table: &mut StatsTable, day: u64) -> (r: Result<
    (),
    AggregateError,
>)
    requires
        old(table).inv(),
    ensures
        final(table).inv(),
        (r == Ok::<(), AggregateError>(())) == (!counters_blocked(store.rows(), day)
            && !totals_blocked(store.rows(), old(table).rows(), day)),
        r == Ok::<(), AggregateError>(()) ==> final(table).rows() == aggregate_spec(
            store.rows(),
            old(table).rows(),
            day,
        ),
        (r == Err::<(), AggregateError>(AggregateError::CounterOverflow)) == counters_blocked(
            store.rows(),
            day,
        ),
        r == Err::<(), AggregateError>(AggregateError::CounterOverflow) ==> final(table).rows()
            == old(table).rows(),
        (r == Err::<(), AggregateError>(AggregateError::TotalOverflow)) == (!counters_blocked(
            store.rows(),
            day,
        ) && totals_blocked(store.rows(), old(table).rows(), day)),
        r == Err::<(), AggregateError>(AggregateError::TotalOverflow) ==> final(table).rows()
            == phase1_spec(old(table).rows(), store.rows(), day),
{
    let ghost s = store.rows();
    let ghost t0 = old(table).rows();
    let reports = store.all();
    let idxs = collect_winner_indices(reports, day);

    if idxs.len() > 0 {
        let cs = match compute_sums(reports, &idxs) {
            Ok(cs) => cs,
            Err(e) => {
                return Err(e);
            },
        };
        let dah = count_named_homeservers(reports, &idxs);
        proof {
            assert(dah == day_active_homeservers(s, day) as u64);
        }
        table.upsert_sums(day, cs, dah);
    }
    proof {
        assert(table.rows() == phase1_spec(t0, s, day));
    }
    let ghost p1 = table.rows();

    match table.get(day) {
        Some(_) => {
            let tm = match table.compute_total(day, CounterId::DailyMessages) {
                SumOutcome::Sum(v) => v,
                SumOutcome::Overflow => {
                    return Err(AggregateError::TotalOverflow);
                },
            };
            let te = match table.compute_total(day, CounterId::DailyE2eeMessages) {
                SumOutcome::Sum(v) => v,
                SumOutcome::Overflow => {
                    return Err(AggregateError::TotalOverflow);
                },
            };
            table.set_totals(day, tm, te);
            Ok(())
        },
        None => {
            proof {
                crate::rollup::lemma_day_row_none_pointwise(p1, day);
                assert(phase2_spec(p1, day) =~= p1);
            }
            Ok(())
        },
    }
}

/// The texts of a sequence of context labels.
pub open spec fn context_views(ctxs: Seq<String>) -> Seq<Seq<char>> {
    ctxs.map_values(|x: String| x@)
}

/// The per-day sums of every counter across the reports surviving
/// per-context deduplication for `day` under context `c`.
pub open spec fn ctx_counter_sums(s: Seq<Report>, day: u64, c: Seq<char>) -> CounterSums {
    sums_from(s, ctx_winner_indices(s, day, c))
}

/// Whether every per-context counter sum for `day` fits its `i64` column.
pub open spec fn ctx_sums_fit(s: Seq<Report>, day: u64) -> bool {
    forall|c: Seq<char>|
        contexts_of_day(s, day).contains(c) ==> sums_from_fit(
            s,
            #[trigger] ctx_winner_indices(s, day, c),
        )
}

/// The first per-context phase: the deduplicated sums of each contributing
/// context, in order of first appearance, are upserted one after another.
pub open spec fn ctx_phase1_rec(
    t: Seq<AggregatedStatsByContext>,
    s: Seq<Report>,
    day: u64,
    ctxs: Seq<String>,
) -> Seq<AggregatedStatsByContext>
    decreases ctxs.len(),
{
    if ctxs.len() == 0 {
        t
    } else {
        let prev = ctx_phase1_rec(t, s, day, ctxs.drop_last());
        let c = ctxs.last();
        ctx_upsert_spec(
            prev,
            day,
            c,
            ctx_counter_sums(s, day, c@),
            ctx_day_active_homeservers(s, day, c@) as u64,
        )
    }
}

/// The second per-context phase: every row of the target day gets its
/// cumulative totals recomputed as a prefix sum over its own context's
/// days.
pub open spec fn ctx_phase2_spec(t: Seq<AggregatedStatsByContext>, day: u64) -> Seq<
    AggregatedStatsByContext,
> {
    t.map(
        |i: int, r: AggregatedStatsByContext|
            if r.day == day {
                with_ctx_totals(
                    r,
                    stored(ctx_total_upto(t, day, r.server_context@, CounterId::DailyMessages)),
                    stored(ctx_total_upto(t, day, r.server_context@, CounterId::DailyE2eeMessages)),
                )
            } else {
                r
            },
    )
}

/// The complete per-context aggregation pass for `day`. The context labels
/// `ctxs` are the contributing contexts in order of first appearance; only
/// their texts matter to every observable field.
pub open spec fn ctx_aggregate_spec(
    s: Seq<Report>,
    t: Seq<AggregatedStatsByContext>,
    day: u64,
    ctxs: Seq<String>,
) -> Seq<AggregatedStatsByContext> {
    ctx_phase2_spec(ctx_phase1_rec(t, s, day, ctxs), day)
}

/// Whether both cumulative totals of every row of `day` fit their `i64`
/// columns.
pub open spec fn ctx_totals_ok(t: Seq<AggregatedStatsByContext>, day: u64) -> bool {
    forall|i: int|
        0 <= i < t.len() && #[trigger] t[i].day == day ==> opt_fits_i64(
            ctx_total_upto(t, day, t[i].server_context@, CounterId::DailyMessages),
        ) && opt_fits_i64(ctx_total_upto(t, day, t[i].server_context@, CounterId::DailyE2eeMessages))
}

/// Whether the second per-context phase fails on a cumulative total outside
/// the `i64` range, for any (equivalently, by `lemma_ctx_phase1_view_eq`,
/// every) choice of label values carrying the contributing contexts' texts.
pub open spec fn ctx_totals_blocked(
    s: Seq<Report>,
    t: Seq<AggregatedStatsByContext>,
    day: u64,
) -> bool {
    exists|ctxs: Seq<String>|
        #[trigger] context_views(ctxs) == contexts_of_day(s, day) && !ctx_totals_ok(
            ctx_phase1_rec(t, s, day, ctxs),
            day,
        )
}

/// Computes every contributing context's sums and homeserver count for
/// `day` before anything is written, so that the upsert of all contexts
/// stays all-or-nothing, as one statement.
fn plan_ctx_sums(reports: &Vec<Report>, ctxs: &Vec<String>, day: u64) -> (r: Result<
    (Vec<CounterSums>, Vec<u64>),
    AggregateError,
>)
    requires
        context_views(ctxs@) == contexts_of_day(reports@, day),
    ensures
        (r matches Ok(_)) == ctx_sums_fit(reports@, day),
        r matches Err(e) ==> e == AggregateError::CounterOverflow,
        r matches Ok(p) ==> p.0@.len() == ctxs@.len() && p.1@.len() == ctxs@.len(),
        r matches Ok(p) ==> forall|m: int|
            0 <= m < ctxs@.len() ==> #[trigger] p.0@[m] == ctx_counter_sums(
                reports@,
                day,
                ctxs@[m]@,
            ),
        r matches Ok(p) ==> forall|m: int|
            0 <= m < ctxs@.len() ==> #[trigger] p.1@[m] == ctx_day_active_homeservers(
                reports@,
                day,
                ctxs@[m]@,
            ) as u64,
{
    let ghost s = reports@;
    let mut plan_sums: Vec<CounterSums> = Vec::new();
    let mut plan_dah: Vec<u64> = Vec::new();
    let mut k: usize = 0;
    while k < ctxs.len()
        invariant
            0 <= k <= ctxs@.len(),
            s == reports@,
            context_views(ctxs@) == contexts_of_day(s, day),
            plan_sums@.len() == k as int,
            plan_dah@.len() == k as int,
            forall|m: int|
                0 <= m < k ==> #[trigger] plan_sums@[m] == ctx_counter_sums(s, day, ctxs@[m]@),
            forall|m: int|
                0 <= m < k ==> #[trigger] plan_dah@[m] == ctx_day_active_homeservers(
                    s,
                    day,
                    ctxs@[m]@,
                ) as u64,
            forall|m: int|
                0 <= m < k ==> sums_from_fit(s, #[trigger] ctx_winner_indices(s, day, ctxs@[m]@)),
        decreases ctxs@.len() - k,
    {
        let idxs = collect_ctx_winner_indices(reports, day, &ctxs[k]);
        match compute_sums(reports, &idxs) {
            Ok(cs) => {
                plan_sums.push(cs);
                proof {
                    assert(plan_sums@[k as int] == ctx_counter_sums(s, day, ctxs@[k as int]@));
                }
            },
            Err(_) => {
                proof {
                    assert(context_views(ctxs@)[k as int] == ctxs@[k as int]@);
                    assert(contexts_of_day(s, day)[k as int] == ctxs@[k as int]@);
                    assert(contexts_of_day(s, day).contains(ctxs@[k as int]@));
                    assert(!ctx_sums_fit(s, day));
                }
                return Err(AggregateError::CounterOverflow);
            },
        }
        let dah = count_named_homeservers(reports, &idxs);
        plan_dah.push(dah);
        k = k + 1;
    }
    proof {
        assert forall|c: Seq<char>| contexts_of_day(s, day).contains(c) implies sums_from_fit(
            s,
            #[trigger] ctx_winner_indices(s, day, c),
        ) by {
            let m = choose|m: int|
                0 <= m < contexts_of_day(s, day).len() && contexts_of_day(s, day)[m] == c;
            assert(context_views(ctxs@)[m] == ctxs@[m]@);
            assert(ctxs@[m]@ == c);
            assert(sums_from_fit(s, ctx_winner_indices(s, day, ctxs@[m]@)));
        }
        assert(ctx_sums_fit(s, day));
    }
    Ok((plan_sums, plan_dah))
}

/// Upserts every planned context row for `day`, in order of first
/// appearance of the contexts.
fn apply_ctx_sums(
    table: &mut CtxStatsTable,
    reports: &Vec<Report>,
    ctxs: &Vec<String>,
    day: u64,
    plan_sums: &Vec<CounterSums>,
    plan_dah: &Vec<u64>,
)
    requires
        old(table).inv(),
        plan_sums@.len() == ctxs@.len(),
        plan_dah@.len() == ctxs@.len(),
        forall|m: int|
            0 <= m < ctxs@.len() ==> #[trigger] plan_sums@[m] == ctx_counter_sums(
                reports@,
                day,
                ctxs@[m]@,
            ),
        forall|m: int|
            0 <= m < ctxs@.len() ==> #[trigger] plan_dah@[m] == ctx_day_active_homeservers(
                reports@,
                day,
                ctxs@[m]@,
            ) as u64,
    ensures
        final(table).inv(),
        final(table).rows() == ctx_phase1_rec(old(table).rows(), reports@, day, ctxs@),
{
    let ghost s = reports@;
    let ghost t0 = old(table).rows();
    let ghost cseq = ctxs@;
    let mut k: usize = 0;
    while k < ctxs.len()
        invariant
            0 <= k <= cseq.len(),
            cseq == ctxs@,
            s == reports@,
            plan_sums@.len() == cseq.len(),
            plan_dah@.len() == cseq.len(),
            forall|m: int|
                0 <= m < cseq.len() ==> #[trigger] plan_sums@[m] == ctx_counter_sums(
                    s,
                    day,
                    cseq[m]@,
                ),
            forall|m: int|
                0 <= m < cseq.len() ==> #[trigger] plan_dah@[m] == ctx_day_active_homeservers(
                    s,
                    day,
                    cseq[m]@,
                ) as u64,
            table.inv(),
            table.rows() == ctx_phase1_rec(t0, s, day, cseq.take(k as int)),
        decreases cseq.len() - k,
    {
        let c = ctxs[k].clone();
        proof {
            assert(c == cseq[k as int]);
            assert(cseq.take(k as int + 1).drop_last() =~= cseq.take(k as int));
            assert(cseq.take(k as int + 1).last() == cseq[k as int]);
        }
        table.upsert_sums(day, c, plan_sums[k], plan_dah[k]);
        proof {
            assert(table.rows() == ctx_phase1_rec(t0, s, day, cseq.take(k as int + 1)));
        }
        k = k + 1;
    }
    proof {
        assert(cseq.take(cseq.len() as int) =~= cseq);
    }
}

/// Computes the cumulative totals of every row of the target day before any
/// is written, so that the totals pass stays all-or-nothing, as one
/// statement. Returns the row positions with their two totals.
fn plan_ctx_totals(table: &CtxStatsTable, day: u64) -> (r: Result<
    (Vec<usize>, Vec<Option<i64>>, Vec<Option<i64>>),
    AggregateError,
>)
    requires
        table.inv(),
    ensures
        (r matches Ok(_)) == ctx_totals_ok(table.rows(), day),
        r matches Err(e) ==> e == AggregateError::TotalOverflow,
        r matches Ok(p) ==> p.0@.len() == p.1@.len() && p.0@.len() == p.2@.len(),
        r matches Ok(p) ==> forall|a: int, b: int|
            0 <= a < b < p.0@.len() ==> p.0@[a] < p.0@[b],
        r matches Ok(p) ==> forall|m: int|
            0 <= m < p.0@.len() ==> #[trigger] p.0@[m] < table.rows().len() && table.rows()[p.0@[m] as int].day
                == day && p.1@[m] == stored(
                ctx_total_upto(
                    table.rows(),
                    day,
                    table.rows()[p.0@[m] as int].server_context@,
                    CounterId::DailyMessages,
                ),
            ) && p.2@[m] == stored(
                ctx_total_upto(
                    table.rows(),
                    day,
                    table.rows()[p.0@[m] as int].server_context@,
                    CounterId::DailyE2eeMessages,
                ),
            ),
        r matches Ok(p) ==> forall|j: int|
            0 <= j < table.rows().len() && #[trigger] table.rows()[j].day == day ==> exists|m: int|
                0 <= m < p.0@.len() && p.0@[m] == j,
{
    let ghost t = table.rows();
    let mut plan_idx: Vec<usize> = Vec::new();
    let mut plan_tm: Vec<Option<i64>> = Vec::new();
    let mut plan_te: Vec<Option<i64>> = Vec::new();
    let n = table.len();
    let mut i: usize = 0;
    while i < n
        invariant
            0 <= i <= n,
            n == t.len(),
            t == table.rows(),
            table.inv(),
            plan_idx@.len() == plan_tm@.len(),
            plan_idx@.len() == plan_te@.len(),
            forall|m: int| 0 <= m < plan_idx@.len() ==> #[trigger] plan_idx@[m] < i,
            forall|a: int, b: int|
                0 <= a < b < plan_idx@.len() ==> plan_idx@[a] < plan_idx@[b],
            forall|m: int|
                0 <= m < plan_idx@.len() ==> t[#[trigger] plan_idx@[m] as int].day == day
                    && plan_tm@[m] == stored(
                    ctx_total_upto(
                        t,
                        day,
                        t[plan_idx@[m] as int].server_context@,
                        CounterId::DailyMessages,
                    ),
                ) && plan_te@[m] == stored(
                    ctx_total_upto(
                        t,
                        day,
                        t[plan_idx@[m] as int].server_context@,
                        CounterId::DailyE2eeMessages,
                    ),
                ) && opt_fits_i64(
                    ctx_total_upto(
                        t,
                        day,
                        t[plan_idx@[m] as int].server_context@,
                        CounterId::DailyMessages,
                    ),
                ) && opt_fits_i64(
                    ctx_total_upto(
                        t,
                        day,
                        t[plan_idx@[m] as int].server_context@,
                        CounterId::DailyE2eeMessages,
                    ),
                ),
            forall|j: int|
                0 <= j < i && #[trigger] t[j].day == day ==> exists|m: int|
                    0 <= m < plan_idx@.len() && plan_idx@[m] == j,
        decreases n - i,
    {
        let row = table.row_at(i);
        if row.day == day {
            let tm = match table.compute_total(day, &row.server_context, CounterId::DailyMessages) {
                SumOutcome::Sum(v) => v,
                SumOutcome::Overflow => {
                    proof {
                        assert(t[i as int].day == day);
                        assert(!ctx_totals_ok(t, day));
                    }
                    return Err(AggregateError::TotalOverflow);
                },
            };
            let te = match table.compute_total(
                day,
                &row.server_context,
                CounterId::DailyE2eeMessages,
            ) {
                SumOutcome::Sum(v) => v,
                SumOutcome::Overflow => {
                    proof {
                        assert(t[i as int].day == day);
                        assert(!ctx_totals_ok(t, day));
                    }
                    return Err(AggregateError::TotalOverflow);
                },
            };
            let ghost old_plan = plan_idx@;
            plan_idx.push(i);
            plan_tm.push(tm);
            plan_te.push(te);
            proof {
                assert(plan_idx@[plan_idx@.len() - 1] == i);
                assert forall|j: int|
                    0 <= j < i + 1 && #[trigger] t[j].day == day implies exists|m: int|
                    0 <= m < plan_idx@.len() && plan_idx@[m] == j by {
                    if j < i {
                        let m = choose|m: int| 0 <= m < old_plan.len() && old_plan[m] == j;
                        assert(plan_idx@[m] == j);
                    } else {
                        assert(plan_idx@[plan_idx@.len() - 1] == j);
                    }
                }
            }
        }
        i = i + 1;
    }
    proof {
        assert forall|j: int| 0 <= j < t.len() && #[trigger] t[j].day == day implies opt_fits_i64(
            ctx_total_upto(t, day, t[j].server_context@, CounterId::DailyMessages),
        ) && opt_fits_i64(
            ctx_total_upto(t, day, t[j].server_context@, CounterId::DailyE2eeMessages),
        ) by {
            let m = choose|m: int| 0 <= m < plan_idx@.len() && plan_idx@[m] == j;
            assert(t[plan_idx@[m] as int].day == day);
        }
        assert(ctx_totals_ok(t, day));
    }
    Ok((plan_idx, plan_tm, plan_te))
}

/// Writes every planned cumulative total of the target day.
fn apply_ctx_totals(
    table: &mut CtxStatsTable,
    day: u64,
    plan_idx: &Vec<usize>,
    plan_tm: &Vec<Option<i64>>,
    plan_te: &Vec<Option<i64>>,
)
    requires
        old(table).inv(),
        plan_idx@.len() == plan_tm@.len(),
        plan_idx@.len() == plan_te@.len(),
        forall|a: int, b: int| 0 <= a < b < plan_idx@.len() ==> plan_idx@[a] < plan_idx@[b],
        forall|m: int|
            0 <= m < plan_idx@.len() ==> #[trigger] plan_idx@[m] < old(table).rows().len() && old(
                table,
            ).rows()[plan_idx@[m] as int].day == day && plan_tm@[m] == stored(
                ctx_total_upto(
                    old(table).rows(),
                    day,
                    old(table).rows()[plan_idx@[m] as int].server_context@,
                    CounterId::DailyMessages,
                ),
            ) && plan_te@[m] == stored(
                ctx_total_upto(
                    old(table).rows(),
                    day,
                    old(table).rows()[plan_idx@[m] as int].server_context@,
                    CounterId::DailyE2eeMessages,
                ),
            ),
        forall|j: int|
            0 <= j < old(table).rows().len() && #[trigger] old(table).rows()[j].day == day
                ==> exists|m: int| 0 <= m < plan_idx@.len() && plan_idx@[m] == j,
    ensures
        final(table).inv(),
        final(table).rows() == ctx_phase2_spec(old(table).rows(), day),
{
    let ghost p1 = old(table).rows();
    let mut m: usize = 0;
    while m < plan_idx.len()
        invariant
            0 <= m <= plan_idx@.len(),
            plan_idx@.len() == plan_tm@.len(),
            plan_idx@.len() == plan_te@.len(),
            forall|a: int, b: int| 0 <= a < b < plan_idx@.len() ==> plan_idx@[a] < plan_idx@[b],
            forall|mm: int|
                0 <= mm < plan_idx@.len() ==> #[trigger] plan_idx@[mm] < p1.len()
                    && p1[plan_idx@[mm] as int].day == day && plan_tm@[mm] == stored(
                    ctx_total_upto(
                        p1,
                        day,
                        p1[plan_idx@[mm] as int].server_context@,
                        CounterId::DailyMessages,
                    ),
                ) && plan_te@[mm] == stored(
                    ctx_total_upto(
                        p1,
                        day,
                        p1[plan_idx@[mm] as int].server_context@,
                        CounterId::DailyE2eeMessages,
                    ),
                ),
            table.inv(),
            table.rows().len() == p1.len(),
            forall|mm: int|
                0 <= mm < m ==> #[trigger] table.rows()[plan_idx@[mm] as int] == with_ctx_totals(
                    p1[plan_idx@[mm] as int],
                    plan_tm@[mm],
                    plan_te@[mm],
                ),
            forall|j: int|
                0 <= j < p1.len() && !(exists|mm: int| 0 <= mm < m && plan_idx@[mm] == j)
                    ==> #[trigger] table.rows()[j] == p1[j],
        decreases plan_idx@.len() - m,
    {
        proof {
            assert forall|mm: int| 0 <= mm < m implies plan_idx@[mm] != plan_idx@[m as int] by {
                assert(plan_idx@[mm] < plan_idx@[m as int]);
            }
            assert(table.rows()[plan_idx@[m as int] as int] == p1[plan_idx@[m as int] as int]);
        }
        table.set_row_totals(plan_idx[m], plan_tm[m], plan_te[m]);
        m = m + 1;
    }
    proof {
        let coverage = plan_idx@;
        assert forall|j: int| 0 <= j < p1.len() implies table.rows()[j] == ctx_phase2_spec(
            p1,
            day,
        )[j] by {
            if p1[j].day == day {
                let mm = choose|mm: int| 0 <= mm < coverage.len() && coverage[mm] == j;
                assert(table.rows()[coverage[mm] as int] == with_ctx_totals(
                    p1[coverage[mm] as int],
                    plan_tm@[mm],
                    plan_te@[mm],
                ));
            } else {
                if exists|mm: int| 0 <= mm < coverage.len() && coverage[mm] == j {
                    let mm = choose|mm: int| 0 <= mm < coverage.len() && coverage[mm] == j;
                    assert(p1[coverage[mm] as int].day == day);
                }
            }
        }
        assert(table.rows() =~= ctx_phase2_spec(p1, day));
    }
}

/// One per-context aggregation pass for `day`.
///
/// On success the table becomes `ctx_aggregate_spec` of the store snapshot,
/// the previous table, the day and the contributing context labels: every
/// context carried by a surviving report of the day gets its `(day,
/// context)` row upserted with that context's deduplicated sums (reports
/// without a context are excluded entirely), and every row of the day then
/// gets its cumulative totals recomputed as a prefix sum over its own
/// context's days.
///
/// `CounterOverflow` is returned, with the table untouched, exactly when
/// some context's per-day counter sum falls outside the `i64` range;
/// `TotalOverflow`, with only the first phase committed, exactly when the
/// sums fit but some cumulative total of the day does not. Either error is
/// fatal to the process under the crash-only policy.
pub fn aggregate_stats_by_context(store: &ReportStore, table: &mut CtxStatsTable, day: u64) -> (r:
    Result<(), AggregateError>)
    requires
        old(table).inv(),
    ensures
        final(table).inv(),
        (r == Ok::<(), AggregateError>(())) == (ctx_sums_fit(store.rows(), day)
            && !ctx_totals_blocked(store.rows(), old(table).rows(), day)),
        (r == Err::<(), AggregateError>(AggregateError::CounterOverflow)) == !ctx_sums_fit(
            store.rows(),
            day,
        ),
        r == Err::<(), AggregateError>(AggregateError::CounterOverflow) ==> final(table).rows()
            == old(table).rows(),
        (r == Err::<(), AggregateError>(AggregateError::TotalOverflow)) == (ctx_sums_fit(
            store.rows(),
            day,
        ) && ctx_totals_blocked(store.rows(), old(table).rows(), day)),
        r == Ok::<(), AggregateError>(()) ==> exists|ctxs: Seq<String>|
            #[trigger] context_views(ctxs) == contexts_of_day(store.rows(), day)
                && final(table).rows() == ctx_aggregate_spec(
                store.rows(),
                old(table).rows(),
                day,
                ctxs,
            ),
        r == Err::<(), AggregateError>(AggregateError::TotalOverflow) ==> exists|ctxs: Seq<String>|
            #[trigger] context_views(ctxs) == contexts_of_day(store.rows(), day)
                && final(table).rows() == ctx_phase1_rec(
                old(table).rows(),
                store.rows(),
                day,
                ctxs,
            ),
{
    let ghost s = store.rows();
    let ghost t0 = old(table).rows();
    let reports = store.all();
    let ctxs = collect_contexts(reports, day);
    let ghost cseq = ctxs@;

    let plans = match plan_ctx_sums(reports, &ctxs, day) {
        Ok(p) => p,
        Err(e) => {
            return Err(e);
        },
    };
    let (plan_sums, plan_dah) = plans;
    apply_ctx_sums(table, reports, &ctxs, day, &plan_sums, &plan_dah);
    let ghost p1 = table.rows();

    let totals = match plan_ctx_totals(table, day) {
        Ok(p) => p,
        Err(e) => {
            proof {
                assert(context_views(cseq) == contexts_of_day(s, day) && !ctx_totals_ok(
                    ctx_phase1_rec(t0, s, day, cseq),
                    day,
                ));
                assert(ctx_totals_blocked(s, t0, day));
                assert(context_views(cseq) == contexts_of_day(s, day) && table.rows()
                    == ctx_phase1_rec(t0, s, day, cseq));
            }
            return Err(e);
        },
    };
    let (plan_idx, plan_tm, plan_te) = totals;
    apply_ctx_totals(table, day, &plan_idx, &plan_tm, &plan_te);
    proof {
        assert(table.rows() == ctx_aggregate_spec(s, t0, day, cseq));
        assert forall|other: Seq<String>|
            #[trigger] context_views(other) == contexts_of_day(s, day) implies ctx_totals_ok(
            ctx_phase1_rec(t0, s, day, other),
            day,
        ) by {
            assert(rows_view_eq(t0, t0));
            lemma_ctx_phase1_view_eq(t0, t0, s, day, cseq, other);
            lemma_ctx_totals_ok_view_eq(p1, ctx_phase1_rec(t0, s, day, other), day);
        }
        assert(!ctx_totals_blocked(s, t0, day));
        assert(context_views(cseq) == contexts_of_day(s, day) && table.rows()
            == ctx_aggregate_spec(s, t0, day, cseq));
    }
    Ok(())
}

/// Two per-context rows that agree on everything observable: the key (with
/// the context compared by text), the sums, the homeserver count and the
/// totals.
pub open spec fn row_view_eq(a: AggregatedStatsByContext, b: AggregatedStatsByContext) -> bool {
    a.day == b.day && a.server_context@ == b.server_context@ && a.sums == b.sums
        && a.daily_active_homeservers == b.daily_active_homeservers && a.total_messages
        == b.total_messages && a.total_e2ee_messages == b.total_e2ee_messages
}

/// Two per-context tables whose rows agree pairwise on everything
/// observable.
pub open spec fn rows_view_eq(a: Seq<AggregatedStatsByContext>, b: Seq<AggregatedStatsByContext>) -> bool {
    a.len() == b.len() && forall|i: int| 0 <= i < a.len() ==> row_view_eq(#[trigger] a[i], b[i])
}

/// Observably equal tables agree on which keys have rows.
pub proof fn lemma_ctx_has_view_eq(
    a: Seq<AggregatedStatsByContext>,
    b: Seq<AggregatedStatsByContext>,
    day: u64,
    c: Seq<char>,
)
    requires
        rows_view_eq(a, b),
    ensures
        has_ctx(a, day, c) == has_ctx(b, day, c),
    decreases a.len(),
{
    if a.len() > 0 {
        assert(row_view_eq(a[a.len() - 1], b[a.len() - 1]));
        assert(rows_view_eq(a.drop_last(), b.drop_last()));
        lemma_ctx_has_view_eq(a.drop_last(), b.drop_last(), day, c);
    }
}

/// One upsert of the same sums under labels with equal texts keeps two
/// observably equal tables observably equal.
pub proof fn lemma_ctx_upsert_view_eq(
    a: Seq<AggregatedStatsByContext>,
    b: Seq<AggregatedStatsByContext>,
    day: u64,
    c1: String,
    c2: String,
    sums: CounterSums,
    dah: u64,
)
    requires
        rows_view_eq(a, b),
        c1@ == c2@,
    ensures
        rows_view_eq(ctx_upsert_spec(a, day, c1, sums, dah), ctx_upsert_spec(b, day, c2, sums, dah)),
{
    lemma_ctx_has_view_eq(a, b, day, c1@);
    let ra = ctx_upsert_spec(a, day, c1, sums, dah);
    let rb = ctx_upsert_spec(b, day, c2, sums, dah);
    if has_ctx(a, day, c1@) {
        assert forall|i: int| 0 <= i < ra.len() implies row_view_eq(#[trigger] ra[i], rb[i]) by {
            assert(row_view_eq(a[i], b[i]));
        }
    } else {
        assert forall|i: int| 0 <= i < ra.len() implies row_view_eq(#[trigger] ra[i], rb[i]) by {
            if i < a.len() {
                assert(row_view_eq(a[i], b[i]));
            }
        }
    }
}

/// The first per-context phase maps observably equal tables and label
/// sequences with equal texts to observably equal tables: nothing
/// observable depends on which label values carried the texts.
pub proof fn lemma_ctx_phase1_view_eq(
    ta: Seq<AggregatedStatsByContext>,
    tb: Seq<AggregatedStatsByContext>,
    s: Seq<Report>,
    day: u64,
    ctxs1: Seq<String>,
    ctxs2: Seq<String>,
)
    requires
        rows_view_eq(ta, tb),
        context_views(ctxs1) == context_views(ctxs2),
    ensures
        rows_view_eq(ctx_phase1_rec(ta, s, day, ctxs1), ctx_phase1_rec(tb, s, day, ctxs2)),
    decreases ctxs1.len(),
{
    assert(ctxs1.len() == context_views(ctxs1).len());
    assert(ctxs2.len() == context_views(ctxs2).len());
    if ctxs1.len() == 0 {
    } else {
        assert forall|i: int| 0 <= i < ctxs1.len() - 1 implies context_views(ctxs1.drop_last())[i]
            == context_views(ctxs2.drop_last())[i] by {
            assert(ctxs1.drop_last()[i] == ctxs1[i]);
            assert(ctxs2.drop_last()[i] == ctxs2[i]);
            assert(context_views(ctxs1)[i] == ctxs1[i]@);
            assert(context_views(ctxs2)[i] == ctxs2[i]@);
        }
        assert(context_views(ctxs1.drop_last()) =~= context_views(ctxs2.drop_last()));
        lemma_ctx_phase1_view_eq(ta, tb, s, day, ctxs1.drop_last(), ctxs2.drop_last());
        let c1 = ctxs1.last();
        let c2 = ctxs2.last();
        assert(context_views(ctxs1)[ctxs1.len() - 1] == c1@);
        assert(c1@ == c2@);
        lemma_ctx_upsert_view_eq(
            ctx_phase1_rec(ta, s, day, ctxs1.drop_last()),
            ctx_phase1_rec(tb, s, day, ctxs2.drop_last()),
            day,
            c1,
            c2,
            ctx_counter_sums(s, day, c1@),
            ctx_day_active_homeservers(s, day, c1@) as u64,
        );
    }
}

/// A context's totals prefix sum is the same over observably equal tables.
pub proof fn lemma_ctx_total_vals_view_eq(
    a: Seq<AggregatedStatsByContext>,
    b: Seq<AggregatedStatsByContext>,
    day: u64,
    c: Seq<char>,
    id: CounterId,
)
    requires
        rows_view_eq(a, b),
    ensures
        crate::rollup::ctx_total_vals(a, day, c, id) == crate::rollup::ctx_total_vals(b, day, c, id),
    decreases a.len(),
{
    if a.len() > 0 {
        assert(row_view_eq(a[a.len() - 1], b[a.len() - 1]));
        assert(rows_view_eq(a.drop_last(), b.drop_last()));
        lemma_ctx_total_vals_view_eq(a.drop_last(), b.drop_last(), day, c, id);
    }
}

/// Whether every total of a day fits is the same question over observably
/// equal tables.
pub proof fn lemma_ctx_totals_ok_view_eq(
    a: Seq<AggregatedStatsByContext>,
    b: Seq<AggregatedStatsByContext>,
    day: u64,
)
    requires
        rows_view_eq(a, b),
    ensures
        ctx_totals_ok(a, day) == ctx_totals_ok(b, day),
{
    if ctx_totals_ok(a, day) {
        assert forall|i: int| 0 <= i < b.len() && #[trigger] b[i].day == day implies opt_fits_i64(
            ctx_total_upto(b, day, b[i].server_context@, CounterId::DailyMessages),
        ) && opt_fits_i64(
            ctx_total_upto(b, day, b[i].server_context@, CounterId::DailyE2eeMessages),
        ) by {
            assert(row_view_eq(a[i], b[i]));
            assert(a[i].day == day);
            lemma_ctx_total_vals_view_eq(a, b, day, b[i].server_context@, CounterId::DailyMessages);
            lemma_ctx_total_vals_view_eq(
                a,
                b,
                day,
                b[i].server_context@,
                CounterId::DailyE2eeMessages,
            );
        }
    }
    if ctx_totals_ok(b, day) {
        assert forall|i: int| 0 <= i < a.len() && #[trigger] a[i].day == day implies opt_fits_i64(
            ctx_total_upto(a, day, a[i].server_context@, CounterId::DailyMessages),
        ) && opt_fits_i64(
            ctx_total_upto(a, day, a[i].server_context@, CounterId::DailyE2eeMessages),
        ) by {
            assert(row_view_eq(a[i], b[i]));
            assert(b[i].day == day);
            lemma_ctx_total_vals_view_eq(a, b, day, a[i].server_context@, CounterId::DailyMessages);
            lemma_ctx_total_vals_view_eq(
                a,
                b,
                day,
                a[i].server_context@,
                CounterId::DailyE2eeMessages,
            );
        }
    }
}

} // verus!
