//! The library's stated laws: idempotence of aggregation, cumulative
//! correctness of the running totals, and isolation of the per-context
//! rollups. Each is proved against the same specifications the executable
//! functions are verified against.

use vstd::prelude::*;
use crate::aggregate::{
    aggregate_spec, context_views, ctx_aggregate_spec, ctx_counter_sums, ctx_phase1_rec,
    ctx_phase2_spec, day_counter_sums, has_contribution, phase1_spec, phase2_spec,
};
use crate::dedup::{
    beats, contexts_of_day, contexts_upto, ctx_day_active_homeservers, ctx_day_sum, ctx_key,
    ctx_winner_indices, ctx_winner_indices_upto, counter_vals, day_active_homeservers, hs_key,
    is_ctx_winner, on_day, some_key_count,
};
use crate::model::{AggregatedStats, AggregatedStatsByContext, CounterId, CounterSums, Report};
use crate::rollup::{
    ctx_row, ctx_total_upto, ctx_upsert_spec, day_row, has_ctx, has_day, lemma_ctx_row_found,
    lemma_ctx_row_none_pointwise, lemma_ctx_row_some, lemma_ctx_total_vals_ignore_totals,
    lemma_day_row_found, lemma_day_row_none, lemma_day_row_none_pointwise, lemma_day_row_some,
    lemma_total_vals_ignore_totals, set_totals_spec, total_upto, upsert_sums_spec, wf_ctx_keys,
    wf_days, with_ctx_totals, with_totals,
};

verus! {

/// An upsert keeps the table well-formed: it never creates a second row for
/// a day.
pub proof fn lemma_upsert_wf(
    t: Seq<AggregatedStats>,
    day: u64,
    sums: crate::model::CounterSums,
    dah: u64,
)
    requires
        wf_days(t),
    ensures
        wf_days(upsert_sums_spec(t, day, sums, dah)),
{
    let res = upsert_sums_spec(t, day, sums, dah);
    if has_day(t, day) {
        assert forall|i: int, j: int| 0 <= i < j < res.len() implies res[i].day != res[j].day by {
            assert(res[i].day == t[i].day && res[j].day == t[j].day);
        }
    } else {
        lemma_day_row_none_pointwise(t, day);
        assert forall|i: int, j: int| 0 <= i < j < res.len() implies res[i].day != res[j].day by {
            if j < t.len() {
            } else {
                assert(res[j].day == day && res[i].day == t[i].day);
            }
        }
    }
}

/// The totals pass keeps the table well-formed and touches neither the days
/// nor the sums of any row.
pub proof fn lemma_set_totals_preserves(
    t: Seq<AggregatedStats>,
    day: u64,
    tm: Option<i64>,
    te: Option<i64>,
)
    ensures
        set_totals_spec(t, day, tm, te).len() == t.len(),
        forall|i: int|
            0 <= i < t.len() ==> #[trigger] set_totals_spec(t, day, tm, te)[i].day == t[i].day
                && set_totals_spec(t, day, tm, te)[i].sums == t[i].sums && set_totals_spec(
                t,
                day,
                tm,
                te,
            )[i].daily_active_homeservers == t[i].daily_active_homeservers,
        wf_days(t) ==> wf_days(set_totals_spec(t, day, tm, te)),
{
    let res = set_totals_spec(t, day, tm, te);
    if wf_days(t) {
        assert forall|i: int, j: int| 0 <= i < j < res.len() implies res[i].day != res[j].day by {
            assert(res[i].day == t[i].day && res[j].day == t[j].day);
        }
    }
}

/// The first phase keeps the table well-formed.
pub proof fn lemma_phase1_wf(t: Seq<AggregatedStats>, s: Seq<Report>, day: u64)
    requires
        wf_days(t),
    ensures
        wf_days(phase1_spec(t, s, day)),
{
    if has_contribution(s, day) {
        lemma_upsert_wf(t, day, day_counter_sums(s, day), day_active_homeservers(s, day) as u64);
    }
}

/// **Idempotence.** For any day and any fixed report-store snapshot,
/// running the aggregation procedure twice in a row over a well-formed
/// table yields the same table — in particular the same rollup row — as
/// running it once.
pub proof fn lemma_aggregate_idempotent(s: Seq<Report>, t: Seq<AggregatedStats>, day: u64)
    requires
        wf_days(t),
    ensures
        aggregate_spec(s, aggregate_spec(s, t, day), day) == aggregate_spec(s, t, day),
{
    let p1 = phase1_spec(t, s, day);
    let t1 = phase2_spec(p1, day);
    lemma_phase1_wf(t, s, day);
    let tm1 = crate::sums::stored(total_upto(p1, day, crate::model::CounterId::DailyMessages));
    let te1 = crate::sums::stored(total_upto(p1, day, crate::model::CounterId::DailyE2eeMessages));
    lemma_set_totals_preserves(p1, day, tm1, te1);

    // the second first-phase rewrites the day row with the sums it already
    // holds and keeps its totals: the table does not change
    let p1b = phase1_spec(t1, s, day);
    if has_contribution(s, day) {
        let cs = day_counter_sums(s, day);
        let dah = day_active_homeservers(s, day) as u64;
        // the first run surely left a row for the day
        if has_day(t, day) {
            lemma_day_row_some(t, day);
            let i = choose|i: int|
                0 <= i < t.len() && t[i] == day_row(t, day).unwrap() && #[trigger] t[i].day == day;
            assert(p1[i].day == day);
            assert(exists|w: int| 0 <= w < p1.len() && #[trigger] p1[w].day == day);
        } else {
            lemma_day_row_none_pointwise(t, day);
            assert(p1[p1.len() - 1].day == day);
            assert(exists|w: int| 0 <= w < p1.len() && #[trigger] p1[w].day == day);
        }
        let w = choose|w: int| 0 <= w < p1.len() && #[trigger] p1[w].day == day;
        assert(t1[w].day == day);
        lemma_day_row_found(t1, day, w);
        assert(has_day(t1, day));
        // every day row of t1 already carries these sums and this count
        assert forall|i: int| 0 <= i < t1.len() implies #[trigger] p1b[i] == t1[i] by {
            if t1[i].day == day {
                assert(p1[i].day == day);
                if has_day(t, day) {
                    assert(p1[i].sums == cs && p1[i].daily_active_homeservers == dah);
                } else {
                    lemma_day_row_none_pointwise(t, day);
                    assert(i == t.len());
                    assert(p1[i].sums == cs && p1[i].daily_active_homeservers == dah);
                }
                assert(t1[i].sums == cs && t1[i].daily_active_homeservers == dah);
            }
        }
        assert(p1b =~= t1);
    } else {
        assert(p1b == t1);
    }

    // the second totals pass recomputes the same totals, because the first
    // one changed no day and no sums
    lemma_total_vals_ignore_totals(p1, t1, day, crate::model::CounterId::DailyMessages);
    lemma_total_vals_ignore_totals(p1, t1, day, crate::model::CounterId::DailyE2eeMessages);
    let res = phase2_spec(p1b, day);
    assert forall|i: int| 0 <= i < t1.len() implies #[trigger] res[i] == t1[i] by {
        assert(p1b[i] == t1[i]);
        if t1[i].day == day {
            assert(t1[i] == with_totals(p1[i], tm1, te1));
            assert(res[i] == with_totals(p1b[i], tm1, te1));
        }
    }
    assert(res =~= t1);
}

/// The global rollup table after aggregating each of `days` in turn,
/// starting from an empty table.
pub open spec fn aggregate_days(s: Seq<Report>, days: Seq<u64>) -> Seq<AggregatedStats>
    decreases days.len(),
{
    if days.len() == 0 {
        Seq::empty()
    } else {
        aggregate_spec(s, aggregate_days(s, days.drop_last()), days.last())
    }
}

/// The stored per-day sums of counter `id` for the first `n` of `days`: the
/// values a cumulative total adds up.
pub open spec fn day_total_prefix(s: Seq<Report>, days: Seq<u64>, n: int, id: CounterId) -> Seq<
    Option<i64>,
> {
    Seq::new(n as nat, |i: int| crate::sums::stored(crate::dedup::day_sum(s, days[i], id)))
}

/// Over a table whose every row's day is at most `day`, the totals prefix
/// sum ranges over every row.
proof fn lemma_total_vals_all(t: Seq<AggregatedStats>, day: u64, id: CounterId)
    requires
        forall|i: int| 0 <= i < t.len() ==> #[trigger] t[i].day <= day,
    ensures
        crate::rollup::total_vals(t, day, id) == Seq::new(
            t.len(),
            |i: int| crate::model::sum_of(t[i].sums, id),
        ),
    decreases t.len(),
{
    if t.len() > 0 {
        lemma_total_vals_all(t.drop_last(), day, id);
        assert(crate::rollup::total_vals(t, day, id) =~= Seq::new(
            t.len(),
            |i: int| crate::model::sum_of(t[i].sums, id),
        ));
    } else {
        assert(crate::rollup::total_vals(t, day, id) =~= Seq::new(
            t.len(),
            |i: int| crate::model::sum_of(t[i].sums, id),
        ));
    }
}

/// **Cumulative correctness.** Aggregating a strictly increasing sequence
/// of days, each with contributing reports, in order over an initially
/// empty table leaves one row per day, in order; the row of the `k`-th day
/// carries that day's deduplicated sums and homeserver count, and its
/// cumulative totals are the sum of the daily message counts of the days up
/// to and including it.
pub proof fn lemma_cumulative_totals(s: Seq<Report>, days: Seq<u64>)
    requires
        forall|i: int, j: int| 0 <= i < j < days.len() ==> days[i] < days[j],
        forall|i: int| 0 <= i < days.len() ==> has_contribution(s, #[trigger] days[i]),
    ensures
        aggregate_days(s, days).len() == days.len(),
        forall|k: int|
            0 <= k < days.len() ==> (#[trigger] aggregate_days(s, days)[k]).day == days[k],
        forall|k: int|
            0 <= k < days.len() ==> (#[trigger] aggregate_days(s, days)[k]).sums
                == day_counter_sums(s, days[k]) && aggregate_days(
                s,
                days,
            )[k].daily_active_homeservers == day_active_homeservers(s, days[k]) as u64,
        forall|k: int|
            0 <= k < days.len() ==> (#[trigger] aggregate_days(s, days)[k]).total_messages
                == crate::sums::stored(
                crate::sums::sum_opt(day_total_prefix(s, days, k + 1, CounterId::DailyMessages)),
            ) && aggregate_days(s, days)[k].total_e2ee_messages == crate::sums::stored(
                crate::sums::sum_opt(
                    day_total_prefix(s, days, k + 1, CounterId::DailyE2eeMessages),
                ),
            ),
    decreases days.len(),
{
    if days.len() == 0 {
    } else {
        let days0 = days.drop_last();
        let d = days.last();
        let n0 = days0.len() as int;
        assert forall|i: int| 0 <= i < days0.len() implies has_contribution(
            s,
            #[trigger] days0[i],
        ) by {
            assert(days0[i] == days[i]);
        }
        lemma_cumulative_totals(s, days0);
        let t0 = aggregate_days(s, days0);
        let cs = day_counter_sums(s, d);
        let dah = day_active_homeservers(s, d) as u64;
        let p1 = phase1_spec(t0, s, d);
        let t = aggregate_days(s, days);

        assert(has_contribution(s, d)) by {
            assert(days[days.len() - 1] == d);
        }
        assert forall|k: int| 0 <= k < t0.len() implies #[trigger] t0[k].day != d by {
            assert(t0[k].day == days0[k] && days0[k] == days[k] && days[k] < d);
        }
        lemma_day_row_none(t0, d);
        assert(p1 == t0.push(crate::rollup::fresh_row(d, cs, dah)));
        assert forall|i: int| 0 <= i < p1.len() implies #[trigger] p1[i].day <= d by {
            if i < n0 {
                assert(p1[i] == t0[i]);
                assert(t0[i].day == days[i] && days[i] < d);
            }
        }
        lemma_total_vals_all(p1, d, CounterId::DailyMessages);
        lemma_total_vals_all(p1, d, CounterId::DailyE2eeMessages);
        assert(Seq::new(p1.len(), |i: int| crate::model::sum_of(p1[i].sums, CounterId::DailyMessages))
            =~= day_total_prefix(s, days, days.len() as int, CounterId::DailyMessages)) by {
            assert forall|i: int| 0 <= i < p1.len() implies crate::model::sum_of(
                p1[i].sums,
                CounterId::DailyMessages,
            ) == crate::sums::stored(crate::dedup::day_sum(s, days[i], CounterId::DailyMessages)) by {
                if i < n0 {
                    assert(p1[i] == t0[i]);
                    assert(t0[i].sums == day_counter_sums(s, days0[i]) && days0[i] == days[i]);
                } else {
                    assert(p1[i].sums == cs);
                }
            }
        }
        assert(Seq::new(
            p1.len(),
            |i: int| crate::model::sum_of(p1[i].sums, CounterId::DailyE2eeMessages),
        ) =~= day_total_prefix(s, days, days.len() as int, CounterId::DailyE2eeMessages)) by {
            assert forall|i: int| 0 <= i < p1.len() implies crate::model::sum_of(
                p1[i].sums,
                CounterId::DailyE2eeMessages,
            ) == crate::sums::stored(
                crate::dedup::day_sum(s, days[i], CounterId::DailyE2eeMessages),
            ) by {
                if i < n0 {
                    assert(p1[i] == t0[i]);
                    assert(t0[i].sums == day_counter_sums(s, days0[i]) && days0[i] == days[i]);
                } else {
                    assert(p1[i].sums == cs);
                }
            }
        }
        let tm = crate::sums::stored(
            crate::sums::sum_opt(
                day_total_prefix(s, days, days.len() as int, CounterId::DailyMessages),
            ),
        );
        let te = crate::sums::stored(
            crate::sums::sum_opt(
                day_total_prefix(s, days, days.len() as int, CounterId::DailyE2eeMessages),
            ),
        );
        assert(t == set_totals_spec(p1, d, tm, te));

        assert forall|k: int| 0 <= k < days.len() implies (#[trigger] t[k]).day == days[k] && t[k].sums
            == day_counter_sums(s, days[k]) && t[k].daily_active_homeservers
            == day_active_homeservers(s, days[k]) as u64 by {
            if k < n0 {
                assert(p1[k] == t0[k]);
                assert(t0[k].day == days0[k] && days0[k] == days[k]);
                assert(t[k] == t0[k]);
            } else {
                assert(p1[k].day == d);
                assert(t[k] == with_totals(p1[k], tm, te));
            }
        }
        assert forall|k: int| 0 <= k < days.len() implies (#[trigger] t[k]).total_messages
            == crate::sums::stored(
            crate::sums::sum_opt(day_total_prefix(s, days, k + 1, CounterId::DailyMessages)),
        ) && t[k].total_e2ee_messages == crate::sums::stored(
            crate::sums::sum_opt(day_total_prefix(s, days, k + 1, CounterId::DailyE2eeMessages)),
        ) by {
            if k < n0 {
                assert(p1[k] == t0[k]);
                assert(t0[k].day == days0[k] && days0[k] == days[k] && days[k] < d);
                assert(t[k] == t0[k]);
                assert(day_total_prefix(s, days0, k + 1, CounterId::DailyMessages)
                    =~= day_total_prefix(s, days, k + 1, CounterId::DailyMessages)) by {
                    assert forall|i: int| 0 <= i < k + 1 implies days0[i] == days[i] by {}
                }
                assert(day_total_prefix(s, days0, k + 1, CounterId::DailyE2eeMessages)
                    =~= day_total_prefix(s, days, k + 1, CounterId::DailyE2eeMessages)) by {
                    assert forall|i: int| 0 <= i < k + 1 implies days0[i] == days[i] by {}
                }
            } else {
                assert(p1[k].day == d);
                assert(t[k] == with_totals(p1[k], tm, te));
                assert(k + 1 == days.len());
            }
        }
    }
}

/// Appending a report whose context key differs from that of the report at
/// `i` never changes whether `i` survives per-context deduplication.
proof fn lemma_ctx_winner_push(s: Seq<Report>, r: Report, day: u64, i: int)
    requires
        0 <= i < s.len(),
        ctx_key(s[i]) != ctx_key(r),
    ensures
        is_ctx_winner(s.push(r), day, i) == is_ctx_winner(s, day, i),
{
    let s2 = s.push(r);
    assert(s2[i] == s[i]);
    if is_ctx_winner(s, day, i) {
        assert forall|j: int|
            0 <= j < s2.len() && #[trigger] on_day(s2[j], day) && hs_key(s2[j]) == hs_key(s2[i])
                && ctx_key(s2[j]) == ctx_key(s2[i]) implies beats(s2, i, j) by {
            if j < s.len() {
                assert(s2[j] == s[j]);
            } else {
                assert(s2[j] == r);
            }
        }
        assert(is_ctx_winner(s2, day, i));
    }
    if is_ctx_winner(s2, day, i) {
        assert forall|j: int|
            0 <= j < s.len() && #[trigger] on_day(s[j], day) && hs_key(s[j]) == hs_key(s[i])
                && ctx_key(s[j]) == ctx_key(s[i]) implies beats(s, i, j) by {
            assert(s2[j] == s[j]);
            assert(on_day(s2[j], day));
        }
        assert(is_ctx_winner(s, day, i));
    }
}

/// Every index selected for a day's per-context group lies below the scan
/// bound.
proof fn lemma_ctx_winner_indices_upto_bounds(s: Seq<Report>, day: u64, c: Seq<char>, n: int)
    ensures
        forall|k: int|
            0 <= k < ctx_winner_indices_upto(s, day, c, n).len() ==> 0
                <= #[trigger] ctx_winner_indices_upto(s, day, c, n)[k] < n,
    decreases n,
{
    if n > 0 {
        lemma_ctx_winner_indices_upto_bounds(s, day, c, n - 1);
        let prev = ctx_winner_indices_upto(s, day, c, n - 1);
        let cur = ctx_winner_indices_upto(s, day, c, n);
        assert forall|k: int| 0 <= k < cur.len() implies 0 <= #[trigger] cur[k] < n by {
            if is_ctx_winner(s, day, n - 1) && ctx_key(s[n - 1]) == Some(c) {
                assert(cur == prev.push(n - 1));
                if k < prev.len() {
                    assert(cur[k] == prev[k]);
                }
            } else {
                assert(cur == prev);
            }
        }
    }
}

/// Appending a report with a different context key leaves a context's group
/// of surviving reports untouched, index for index.
proof fn lemma_ctx_winner_indices_push(s: Seq<Report>, r: Report, day: u64, c: Seq<char>, n: int)
    requires
        ctx_key(r) != Some(c),
        0 <= n <= s.len(),
    ensures
        ctx_winner_indices_upto(s.push(r), day, c, n) == ctx_winner_indices_upto(s, day, c, n),
    decreases n,
{
    let s2 = s.push(r);
    if n > 0 {
        lemma_ctx_winner_indices_push(s, r, day, c, n - 1);
        assert(s2[n - 1] == s[n - 1]);
        if ctx_key(s[n - 1]) == Some(c) {
            lemma_ctx_winner_push(s, r, day, n - 1);
        }
    }
}

/// Counter reads at fixed indices do not see an appended report.
proof fn lemma_counter_vals_push(s: Seq<Report>, r: Report, idxs: Seq<int>, id: CounterId)
    requires
        forall|k: int| 0 <= k < idxs.len() ==> 0 <= #[trigger] idxs[k] < s.len(),
    ensures
        counter_vals(s.push(r), idxs, id) == counter_vals(s, idxs, id),
{
    let s2 = s.push(r);
    assert forall|k: int| 0 <= k < idxs.len() implies #[trigger] counter_vals(s2, idxs, id)[k]
        == counter_vals(s, idxs, id)[k] by {
        assert(s2[idxs[k]] == s[idxs[k]]);
    }
    assert(counter_vals(s2, idxs, id) =~= counter_vals(s, idxs, id));
}

/// Homeserver counting at fixed indices does not see an appended report.
proof fn lemma_some_key_count_push(s: Seq<Report>, r: Report, idxs: Seq<int>)
    requires
        forall|k: int| 0 <= k < idxs.len() ==> 0 <= #[trigger] idxs[k] < s.len(),
    ensures
        some_key_count(s.push(r), idxs) == some_key_count(s, idxs),
    decreases idxs.len(),
{
    if idxs.len() > 0 {
        lemma_some_key_count_push(s, r, idxs.drop_last());
        assert(s.push(r)[idxs.last()] == s[idxs.last()]);
    }
}

/// **Context isolation, cross-contamination half.** Appending a report that
/// does not carry context `c` — whether it carries another context or none —
/// changes neither the deduplicated sums nor the homeserver count that the
/// `(day, c)` rollup row is built from: per-context rows never
/// cross-contaminate.
pub proof fn lemma_context_isolation(s: Seq<Report>, r: Report, day: u64, c: Seq<char>)
    requires
        ctx_key(r) != Some(c),
    ensures
        forall|id: CounterId|
            #[trigger] ctx_day_sum(s.push(r), day, c, id) == ctx_day_sum(s, day, c, id),
        ctx_day_active_homeservers(s.push(r), day, c) == ctx_day_active_homeservers(s, day, c),
        crate::aggregate::ctx_counter_sums(s.push(r), day, c) == crate::aggregate::ctx_counter_sums(
            s,
            day,
            c,
        ),
{
    let s2 = s.push(r);
    lemma_ctx_winner_indices_push(s, r, day, c, s.len() as int);
    let tail_cond = is_ctx_winner(s2, day, s.len() as int) && ctx_key(s2[s.len() as int]) == Some(
        c,
    );
    assert(s2[s.len() as int] == r);
    assert(!tail_cond);
    assert(ctx_winner_indices(s2, day, c) == ctx_winner_indices_upto(s2, day, c, s.len() as int));
    assert(ctx_winner_indices(s2, day, c) == ctx_winner_indices(s, day, c));
    lemma_ctx_winner_indices_upto_bounds(s, day, c, s.len() as int);
    let idxs = ctx_winner_indices(s, day, c);
    assert forall|id: CounterId| #[trigger] ctx_day_sum(s2, day, c, id) == ctx_day_sum(
        s,
        day,
        c,
        id,
    ) by {
        lemma_counter_vals_push(s, r, idxs, id);
    }
    lemma_some_key_count_push(s, r, idxs);
    assert forall|id: CounterId| #[trigger] counter_vals(s2, idxs, id) == counter_vals(
        s,
        idxs,
        id,
    ) by {
        lemma_counter_vals_push(s, r, idxs, id);
    }
    assert(crate::aggregate::ctx_counter_sums(s2, day, c) == crate::aggregate::ctx_counter_sums(
        s,
        day,
        c,
    ));
}

/// **Context isolation, null half.** A report without a `server_context`
/// still contributes to the global rollup like any other report, but it
/// never appears in any per-context quantity: it adds no context to the
/// day's context list, and it changes no context's sums or homeserver
/// count.
pub proof fn lemma_null_context_excluded(s: Seq<Report>, r: Report, day: u64)
    requires
        r.server_context == None::<String>,
    ensures
        contexts_of_day(s.push(r), day) == contexts_of_day(s, day),
        forall|c: Seq<char>, id: CounterId|
            #[trigger] ctx_day_sum(s.push(r), day, c, id) == ctx_day_sum(s, day, c, id),
        forall|c: Seq<char>|
            #[trigger] ctx_day_active_homeservers(s.push(r), day, c)
                == ctx_day_active_homeservers(s, day, c),
{
    let s2 = s.push(r);
    lemma_contexts_upto_push_none(s, r, day, s.len() as int);
    assert(s2[s.len() as int] == r);
    assert(!(is_ctx_winner(s2, day, s.len() as int)));
    assert(contexts_of_day(s2, day) == contexts_upto(s2, day, s.len() as int));
    assert forall|c: Seq<char>, id: CounterId| #[trigger] ctx_day_sum(s2, day, c, id)
        == ctx_day_sum(s, day, c, id) by {
        lemma_context_isolation(s, r, day, c);
    }
    assert forall|c: Seq<char>| #[trigger] ctx_day_active_homeservers(s2, day, c)
        == ctx_day_active_homeservers(s, day, c) by {
        lemma_context_isolation(s, r, day, c);
    }
}

/// A report without a context adds nothing to the day's context list.
proof fn lemma_contexts_upto_push_none(s: Seq<Report>, r: Report, day: u64, n: int)
    requires
        r.server_context == None::<String>,
        0 <= n <= s.len(),
    ensures
        contexts_upto(s.push(r), day, n) == contexts_upto(s, day, n),
    decreases n,
{
    let s2 = s.push(r);
    if n > 0 {
        lemma_contexts_upto_push_none(s, r, day, n - 1);
        assert(s2[n - 1] == s[n - 1]);
        if ctx_key(s[n - 1]) matches Some(_) {
            lemma_ctx_winner_push(s, r, day, n - 1);
        }
    }
}

/// One upsert keeps the per-context table well-formed.
proof fn lemma_ctx_upsert_wf(
    u: Seq<AggregatedStatsByContext>,
    day: u64,
    c: String,
    sums: CounterSums,
    dah: u64,
)
    requires
        wf_ctx_keys(u),
    ensures
        wf_ctx_keys(ctx_upsert_spec(u, day, c, sums, dah)),
{
    let res = ctx_upsert_spec(u, day, c, sums, dah);
    if has_ctx(u, day, c@) {
        assert forall|i: int, j: int| 0 <= i < j < res.len() implies !(res[i].day == res[j].day
            && res[i].server_context@ == res[j].server_context@) by {
            assert(res[i].day == u[i].day && res[i].server_context@ == u[i].server_context@);
            assert(res[j].day == u[j].day && res[j].server_context@ == u[j].server_context@);
        }
    } else {
        lemma_ctx_row_none_pointwise(u, day, c@);
        assert forall|i: int, j: int| 0 <= i < j < res.len() implies !(res[i].day == res[j].day
            && res[i].server_context@ == res[j].server_context@) by {
            if j == u.len() {
                assert(res[j].day == day && res[j].server_context@ == c@);
                assert(res[i] == u[i]);
            }
        }
    }
}

/// What one upsert pins down: every row carrying the upserted key holds the
/// new sums and count, at least one such row exists, rows with other keys
/// are untouched, and the keys (with their very label values) of old rows
/// are kept.
proof fn lemma_ctx_upsert_pins(
    u: Seq<AggregatedStatsByContext>,
    day: u64,
    c: String,
    sums: CounterSums,
    dah: u64,
)
    requires
        wf_ctx_keys(u),
    ensures
        wf_ctx_keys(ctx_upsert_spec(u, day, c, sums, dah)),
        ctx_upsert_spec(u, day, c, sums, dah).len() >= u.len(),
        forall|i: int|
            0 <= i < ctx_upsert_spec(u, day, c, sums, dah).len() && (#[trigger] ctx_upsert_spec(
                u,
                day,
                c,
                sums,
                dah,
            )[i]).day == day && ctx_upsert_spec(u, day, c, sums, dah)[i].server_context@ == c@
                ==> ctx_upsert_spec(u, day, c, sums, dah)[i].sums == sums && ctx_upsert_spec(
                u,
                day,
                c,
                sums,
                dah,
            )[i].daily_active_homeservers == dah,
        exists|i: int|
            0 <= i < ctx_upsert_spec(u, day, c, sums, dah).len() && (#[trigger] ctx_upsert_spec(
                u,
                day,
                c,
                sums,
                dah,
            )[i]).day == day && ctx_upsert_spec(u, day, c, sums, dah)[i].server_context@ == c@,
        forall|i: int|
            0 <= i < u.len() && !(#[trigger] u[i].day == day && u[i].server_context@ == c@)
                ==> ctx_upsert_spec(u, day, c, sums, dah)[i] == u[i],
        forall|i: int|
            0 <= i < u.len() ==> (#[trigger] ctx_upsert_spec(u, day, c, sums, dah)[i]).day
                == u[i].day && ctx_upsert_spec(u, day, c, sums, dah)[i].server_context
                == u[i].server_context,
        forall|i: int|
            u.len() <= i < ctx_upsert_spec(u, day, c, sums, dah).len() ==> (
            #[trigger] ctx_upsert_spec(u, day, c, sums, dah)[i]).day == day && ctx_upsert_spec(
                u,
                day,
                c,
                sums,
                dah,
            )[i].server_context@ == c@,
{
    lemma_ctx_upsert_wf(u, day, c, sums, dah);
    let res = ctx_upsert_spec(u, day, c, sums, dah);
    if has_ctx(u, day, c@) {
        lemma_ctx_row_some(u, day, c@);
        let w = choose|w: int|
            0 <= w < u.len() && u[w] == ctx_row(u, day, c@).unwrap() && #[trigger] u[w].day == day
                && u[w].server_context@ == c@;
        assert(res[w].day == day && res[w].server_context@ == c@);
    } else {
        lemma_ctx_row_none_pointwise(u, day, c@);
        assert(res[u.len() as int].day == day && res[u.len() as int].server_context@ == c@);
    }
}

/// The day's context list never repeats a context.
proof fn lemma_contexts_distinct(s: Seq<Report>, day: u64, n: int)
    ensures
        forall|i: int, j: int|
            0 <= i < j < contexts_upto(s, day, n).len() ==> contexts_upto(s, day, n)[i]
                != contexts_upto(s, day, n)[j],
    decreases n,
{
    if n > 0 {
        lemma_contexts_distinct(s, day, n - 1);
        let prev = contexts_upto(s, day, n - 1);
        let cur = contexts_upto(s, day, n);
        assert forall|i: int, j: int| 0 <= i < j < cur.len() implies cur[i] != cur[j] by {
            if j < prev.len() {
                assert(cur[i] == prev[i] && cur[j] == prev[j]);
            } else {
                assert(cur[i] == prev[i]);
                assert(!prev.contains(cur[j]));
            }
        }
    }
}

/// What the whole first per-context phase pins down, for contexts with
/// pairwise distinct texts: every row keyed by the day and a processed
/// context holds that context's sums and count, such a row exists for each
/// processed context, rows with other keys are untouched, old keys are
/// kept, and appended rows are keyed by the day and processed contexts.
proof fn lemma_ctx_phase1_pins(
    t: Seq<AggregatedStatsByContext>,
    s: Seq<Report>,
    day: u64,
    ctxs: Seq<String>,
)
    requires
        wf_ctx_keys(t),
        forall|m1: int, m2: int| 0 <= m1 < m2 < ctxs.len() ==> ctxs[m1]@ != ctxs[m2]@,
    ensures
        wf_ctx_keys(ctx_phase1_rec(t, s, day, ctxs)),
        ctx_phase1_rec(t, s, day, ctxs).len() >= t.len(),
        forall|i: int, m: int|
            0 <= i < ctx_phase1_rec(t, s, day, ctxs).len() && 0 <= m < ctxs.len()
                && (#[trigger] ctx_phase1_rec(t, s, day, ctxs)[i]).day == day && ctx_phase1_rec(
                t,
                s,
                day,
                ctxs,
            )[i].server_context@ == #[trigger] ctxs[m]@ ==> ctx_phase1_rec(t, s, day, ctxs)[i].sums
                == ctx_counter_sums(s, day, ctxs[m]@) && ctx_phase1_rec(
                t,
                s,
                day,
                ctxs,
            )[i].daily_active_homeservers == ctx_day_active_homeservers(s, day, ctxs[m]@) as u64,
        forall|m: int|
            0 <= m < ctxs.len() ==> exists|i: int|
                0 <= i < ctx_phase1_rec(t, s, day, ctxs).len() && (#[trigger] ctx_phase1_rec(
                    t,
                    s,
                    day,
                    ctxs,
                )[i]).day == day && ctx_phase1_rec(t, s, day, ctxs)[i].server_context@
                    == #[trigger] ctxs[m]@,
        forall|i: int|
            0 <= i < t.len() && !(#[trigger] t[i].day == day && context_views(ctxs).contains(
                t[i].server_context@,
            )) ==> ctx_phase1_rec(t, s, day, ctxs)[i] == t[i],
        forall|i: int|
            0 <= i < t.len() ==> (#[trigger] ctx_phase1_rec(t, s, day, ctxs)[i]).day == t[i].day
                && ctx_phase1_rec(t, s, day, ctxs)[i].server_context == t[i].server_context,
        forall|i: int|
            t.len() <= i < ctx_phase1_rec(t, s, day, ctxs).len() ==> (#[trigger] ctx_phase1_rec(
                t,
                s,
                day,
                ctxs,
            )[i]).day == day && context_views(ctxs).contains(
                ctx_phase1_rec(t, s, day, ctxs)[i].server_context@,
            ),
    decreases ctxs.len(),
{
    if ctxs.len() == 0 {
    } else {
        let ctxs0 = ctxs.drop_last();
        let c = ctxs.last();
        lemma_ctx_phase1_pins(t, s, day, ctxs0);
        let prev = ctx_phase1_rec(t, s, day, ctxs0);
        let res = ctx_phase1_rec(t, s, day, ctxs);
        let sums = ctx_counter_sums(s, day, c@);
        let dah = ctx_day_active_homeservers(s, day, c@) as u64;
        lemma_ctx_upsert_pins(prev, day, c, sums, dah);
        assert(res == ctx_upsert_spec(prev, day, c, sums, dah));

        // texts of earlier contexts differ from the last one
        assert forall|m: int| 0 <= m < ctxs0.len() implies #[trigger] ctxs0[m]@ != c@ by {
            assert(ctxs0[m] == ctxs[m] && c == ctxs[ctxs.len() - 1]);
        }

        // pinned sums: rows of the last context got them now; rows of
        // earlier contexts kept them, their key differing from the last
        assert forall|i: int, m: int|
            0 <= i < res.len() && 0 <= m < ctxs.len() && (#[trigger] res[i]).day == day
                && res[i].server_context@ == #[trigger] ctxs[m]@ implies res[i].sums
            == ctx_counter_sums(s, day, ctxs[m]@) && res[i].daily_active_homeservers
            == ctx_day_active_homeservers(s, day, ctxs[m]@) as u64 by {
            if m < ctxs0.len() {
                if i < prev.len() {
                    assert(prev[i].day == day && prev[i].server_context@ == ctxs0[m]@);
                    assert(!(prev[i].day == day && prev[i].server_context@ == c@));
                    assert(res[i] == prev[i]);
                } else {
                    assert(res[i].server_context@ == c@);
                }
            } else {
                assert(ctxs[m] == c);
            }
        }

        // a row exists for every processed context
        assert forall|m: int| 0 <= m < ctxs.len() implies exists|i: int|
            0 <= i < res.len() && (#[trigger] res[i]).day == day && res[i].server_context@
                == #[trigger] ctxs[m]@ by {
            if m < ctxs0.len() {
                let i = choose|i: int|
                    0 <= i < prev.len() && (#[trigger] prev[i]).day == day
                        && prev[i].server_context@ == ctxs0[m]@;
                assert(!(prev[i].day == day && prev[i].server_context@ == c@));
                assert(res[i] == prev[i]);
                assert(res[i].day == day && res[i].server_context@ == ctxs[m]@);
            } else {
                let i = choose|i: int|
                    0 <= i < res.len() && (#[trigger] res[i]).day == day && res[i].server_context@
                        == c@;
                assert(res[i].day == day && res[i].server_context@ == ctxs[m]@);
            }
        }

        // untouched rows
        assert forall|i: int|
            0 <= i < t.len() && !(#[trigger] t[i].day == day && context_views(ctxs).contains(
                t[i].server_context@,
            )) implies res[i] == t[i] by {
            assert forall|m: int| 0 <= m < ctxs0.len() implies !(t[i].day == day
                && t[i].server_context@ == #[trigger] ctxs0[m]@) by {
                if t[i].day == day && t[i].server_context@ == ctxs0[m]@ {
                    assert(context_views(ctxs)[m] == ctxs[m]@);
                    assert(context_views(ctxs).contains(t[i].server_context@));
                }
            }
            assert(!(t[i].day == day && context_views(ctxs0).contains(t[i].server_context@)))
                by {
                if context_views(ctxs0).contains(t[i].server_context@) && t[i].day == day {
                    let m = choose|m: int|
                        0 <= m < ctxs0.len() && #[trigger] context_views(ctxs0)[m]
                            == t[i].server_context@;
                    assert(context_views(ctxs0)[m] == ctxs0[m]@);
                }
            }
            assert(prev[i] == t[i]);
            if t[i].day == day && t[i].server_context@ == c@ {
                assert(context_views(ctxs)[ctxs.len() - 1] == c@);
                assert(context_views(ctxs).contains(t[i].server_context@));
            }
            assert(!(prev[i].day == day && prev[i].server_context@ == c@));
        }

        // appended rows carry the day and a processed context
        assert forall|i: int|
            t.len() <= i < res.len() implies (#[trigger] res[i]).day == day && context_views(
            ctxs,
        ).contains(res[i].server_context@) by {
            if i < prev.len() {
                assert(prev[i].day == day && context_views(ctxs0).contains(
                    prev[i].server_context@,
                ));
                let m = choose|m: int|
                    0 <= m < ctxs0.len() && #[trigger] context_views(ctxs0)[m]
                        == prev[i].server_context@;
                assert(context_views(ctxs0)[m] == ctxs0[m]@);
                assert(ctxs0[m]@ != c@);
                assert(!(prev[i].day == day && prev[i].server_context@ == c@));
                assert(res[i] == prev[i]);
                assert(context_views(ctxs)[m] == ctxs[m]@);
                assert(context_views(ctxs).contains(res[i].server_context@));
            } else {
                assert(res[i].server_context@ == c@);
                assert(context_views(ctxs)[ctxs.len() - 1] == c@);
                assert(context_views(ctxs).contains(res[i].server_context@));
            }
        }
    }
}

/// The per-context totals pass keeps the length, the keys (with their very
/// label values), the sums and the homeserver counts of every row, and
/// keeps the table well-formed.
proof fn lemma_ctx_phase2_preserves(t: Seq<AggregatedStatsByContext>, day: u64)
    ensures
        ctx_phase2_spec(t, day).len() == t.len(),
        forall|i: int|
            0 <= i < t.len() ==> (#[trigger] ctx_phase2_spec(t, day)[i]).day == t[i].day
                && ctx_phase2_spec(t, day)[i].server_context == t[i].server_context
                && ctx_phase2_spec(t, day)[i].sums == t[i].sums && ctx_phase2_spec(
                t,
                day,
            )[i].daily_active_homeservers == t[i].daily_active_homeservers,
        wf_ctx_keys(t) ==> wf_ctx_keys(ctx_phase2_spec(t, day)),
{
    let res = ctx_phase2_spec(t, day);
    if wf_ctx_keys(t) {
        assert forall|i: int, j: int| 0 <= i < j < res.len() implies !(res[i].day == res[j].day
            && res[i].server_context@ == res[j].server_context@) by {
            assert(res[i].day == t[i].day && res[i].server_context@ == t[i].server_context@);
            assert(res[j].day == t[j].day && res[j].server_context@ == t[j].server_context@);
        }
    }
}

/// Upserting the sums a key's rows already hold changes nothing.
proof fn lemma_ctx_upsert_noop(
    u: Seq<AggregatedStatsByContext>,
    day: u64,
    c: String,
    sums: CounterSums,
    dah: u64,
)
    requires
        wf_ctx_keys(u),
        has_ctx(u, day, c@),
        forall|i: int|
            0 <= i < u.len() && (#[trigger] u[i]).day == day && u[i].server_context@ == c@
                ==> u[i].sums == sums && u[i].daily_active_homeservers == dah,
    ensures
        ctx_upsert_spec(u, day, c, sums, dah) == u,
{
    let res = ctx_upsert_spec(u, day, c, sums, dah);
    assert forall|i: int| 0 <= i < u.len() implies #[trigger] res[i] == u[i] by {
        if u[i].day == day && u[i].server_context@ == c@ {
            assert(u[i].sums == sums && u[i].daily_active_homeservers == dah);
        }
    }
    assert(res =~= u);
}

/// Running the first per-context phase over a table whose rows already hold
/// every processed context's sums changes nothing.
proof fn lemma_ctx_phase1_noop(
    u: Seq<AggregatedStatsByContext>,
    s: Seq<Report>,
    day: u64,
    ctxs: Seq<String>,
)
    requires
        wf_ctx_keys(u),
        forall|m: int|
            0 <= m < ctxs.len() ==> exists|i: int|
                0 <= i < u.len() && (#[trigger] u[i]).day == day && u[i].server_context@
                    == #[trigger] ctxs[m]@,
        forall|i: int, m: int|
            0 <= i < u.len() && 0 <= m < ctxs.len() && (#[trigger] u[i]).day == day
                && u[i].server_context@ == #[trigger] ctxs[m]@ ==> u[i].sums == ctx_counter_sums(
                s,
                day,
                ctxs[m]@,
            ) && u[i].daily_active_homeservers == ctx_day_active_homeservers(s, day, ctxs[m]@) as u64,
    ensures
        ctx_phase1_rec(u, s, day, ctxs) == u,
    decreases ctxs.len(),
{
    if ctxs.len() == 0 {
    } else {
        let ctxs0 = ctxs.drop_last();
        let c = ctxs.last();
        assert forall|m: int| 0 <= m < ctxs0.len() implies exists|i: int|
            0 <= i < u.len() && (#[trigger] u[i]).day == day && u[i].server_context@
                == #[trigger] ctxs0[m]@ by {
            assert(ctxs0[m] == ctxs[m]);
        }
        assert forall|i: int, m: int|
            0 <= i < u.len() && 0 <= m < ctxs0.len() && (#[trigger] u[i]).day == day
                && u[i].server_context@ == #[trigger] ctxs0[m]@ implies u[i].sums
            == ctx_counter_sums(s, day, ctxs0[m]@) && u[i].daily_active_homeservers
            == ctx_day_active_homeservers(s, day, ctxs0[m]@) as u64 by {
            assert(ctxs0[m] == ctxs[m]);
        }
        lemma_ctx_phase1_noop(u, s, day, ctxs0);
        assert(c == ctxs[ctxs.len() - 1]);
        let w = choose|i: int|
            0 <= i < u.len() && (#[trigger] u[i]).day == day && u[i].server_context@ == c@;
        lemma_ctx_row_found(u, day, c@, w);
        assert(has_ctx(u, day, c@));
        lemma_ctx_upsert_noop(
            u,
            day,
            c,
            ctx_counter_sums(s, day, c@),
            ctx_day_active_homeservers(s, day, c@) as u64,
        );
    }
}

/// **Idempotence, per context.** For any day and any fixed report-store
/// snapshot, running the per-context aggregation procedure twice in a row
/// over a well-formed table — with any label values carrying the
/// contributing contexts' texts in either run — yields the same table, row
/// for row, as running it once.
pub proof fn lemma_ctx_aggregate_idempotent(
    s: Seq<Report>,
    t: Seq<AggregatedStatsByContext>,
    day: u64,
    ctxs1: Seq<String>,
    ctxs2: Seq<String>,
)
    requires
        wf_ctx_keys(t),
        context_views(ctxs1) == contexts_of_day(s, day),
        context_views(ctxs2) == contexts_of_day(s, day),
    ensures
        ctx_aggregate_spec(s, ctx_aggregate_spec(s, t, day, ctxs1), day, ctxs2)
            == ctx_aggregate_spec(s, t, day, ctxs1),
{
    let views = contexts_of_day(s, day);
    lemma_contexts_distinct(s, day, s.len() as int);
    assert forall|m1: int, m2: int| 0 <= m1 < m2 < ctxs1.len() implies ctxs1[m1]@ != ctxs1[m2]@ by {
        assert(context_views(ctxs1)[m1] == ctxs1[m1]@ && context_views(ctxs1)[m2] == ctxs1[m2]@);
    }
    lemma_ctx_phase1_pins(t, s, day, ctxs1);
    let p1 = ctx_phase1_rec(t, s, day, ctxs1);
    let t1 = ctx_phase2_spec(p1, day);
    lemma_ctx_phase2_preserves(p1, day);

    // the first run's table already holds every contributing context's row
    // with its final sums, so the second first-phase changes nothing
    assert(ctxs1.len() == ctxs2.len()) by {
        assert(context_views(ctxs1).len() == ctxs1.len());
        assert(context_views(ctxs2).len() == ctxs2.len());
    }
    assert forall|m: int| 0 <= m < ctxs2.len() implies exists|i: int|
        0 <= i < t1.len() && (#[trigger] t1[i]).day == day && t1[i].server_context@
            == #[trigger] ctxs2[m]@ by {
        assert(ctxs2[m]@ == context_views(ctxs2)[m] && ctxs1[m]@ == context_views(ctxs1)[m]);
        let i = choose|i: int|
            0 <= i < p1.len() && (#[trigger] p1[i]).day == day && p1[i].server_context@
                == ctxs1[m]@;
        assert(t1[i].day == day && t1[i].server_context@ == ctxs1[m]@);
    }
    assert forall|i: int, m: int|
        0 <= i < t1.len() && 0 <= m < ctxs2.len() && (#[trigger] t1[i]).day == day
            && t1[i].server_context@ == #[trigger] ctxs2[m]@ implies t1[i].sums == ctx_counter_sums(
        s,
        day,
        ctxs2[m]@,
    ) && t1[i].daily_active_homeservers == ctx_day_active_homeservers(s, day, ctxs2[m]@) as u64 by {
        assert(ctxs2[m]@ == context_views(ctxs2)[m] && ctxs1[m]@ == context_views(ctxs1)[m]);
        assert(p1[i].day == day && p1[i].server_context@ == ctxs1[m]@);
        assert(p1[i].sums == ctx_counter_sums(s, day, ctxs1[m]@));
        assert(t1[i].sums == p1[i].sums && t1[i].daily_active_homeservers
            == p1[i].daily_active_homeservers);
    }
    lemma_ctx_phase1_noop(t1, s, day, ctxs2);
    assert(ctx_phase1_rec(t1, s, day, ctxs2) == t1);

    // the second totals pass recomputes the same totals, because the first
    // one changed no key and no sums
    let res = ctx_phase2_spec(t1, day);
    assert forall|i: int| 0 <= i < t1.len() implies #[trigger] res[i] == t1[i] by {
        if t1[i].day == day {
            assert(p1[i].day == day);
            let c = p1[i].server_context@;
            assert(t1[i].server_context@ == c);
            lemma_ctx_total_vals_ignore_totals(p1, t1, day, c, CounterId::DailyMessages);
            lemma_ctx_total_vals_ignore_totals(p1, t1, day, c, CounterId::DailyE2eeMessages);
            assert(t1[i] == with_ctx_totals(
                p1[i],
                crate::sums::stored(ctx_total_upto(p1, day, c, CounterId::DailyMessages)),
                crate::sums::stored(ctx_total_upto(p1, day, c, CounterId::DailyE2eeMessages)),
            ));
            assert(res[i] == with_ctx_totals(
                t1[i],
                crate::sums::stored(ctx_total_upto(t1, day, c, CounterId::DailyMessages)),
                crate::sums::stored(ctx_total_upto(t1, day, c, CounterId::DailyE2eeMessages)),
            ));
        }
    }
    assert(res =~= t1);
}

/// A report with its context label replaced; every other field — everything
/// the global rollup reads — is untouched.
pub open spec fn with_context(r: Report, c: Option<String>) -> Report {
    Report { server_context: c, ..r }
}

/// Whether two store snapshots differ at most in their reports' contexts.
pub open spec fn eq_except_contexts(s1: Seq<Report>, s2: Seq<Report>) -> bool {
    s1.len() == s2.len() && forall|i: int|
        0 <= i < s1.len() ==> #[trigger] s2[i] == with_context(s1[i], s2[i].server_context)
}

/// Global deduplication reads no context, so winner-hood is untouched by
/// replacing contexts.
proof fn lemma_winner_eq_except_contexts(s1: Seq<Report>, s2: Seq<Report>, day: u64, i: int)
    requires
        eq_except_contexts(s1, s2),
        0 <= i < s1.len(),
    ensures
        crate::dedup::is_winner(s1, day, i) == crate::dedup::is_winner(s2, day, i),
{
    assert(s2[i] == with_context(s1[i], s2[i].server_context));
    if crate::dedup::is_winner(s1, day, i) {
        assert forall|j: int|
            0 <= j < s2.len() && #[trigger] on_day(s2[j], day) && hs_key(s2[j]) == hs_key(s2[i])
                implies beats(s2, i, j) by {
            assert(s2[j] == with_context(s1[j], s2[j].server_context));
            assert(on_day(s1[j], day) && hs_key(s1[j]) == hs_key(s1[i]));
        }
        assert(crate::dedup::is_winner(s2, day, i));
    }
    if crate::dedup::is_winner(s2, day, i) {
        assert forall|j: int|
            0 <= j < s1.len() && #[trigger] on_day(s1[j], day) && hs_key(s1[j]) == hs_key(s1[i])
                implies beats(s1, i, j) by {
            assert(s2[j] == with_context(s1[j], s2[j].server_context));
            assert(on_day(s2[j], day) && hs_key(s2[j]) == hs_key(s2[i]));
        }
        assert(crate::dedup::is_winner(s1, day, i));
    }
}

/// Every index selected for a day's global group lies below the scan bound.
proof fn lemma_winner_indices_upto_bounds(s: Seq<Report>, day: u64, n: int)
    ensures
        forall|k: int|
            0 <= k < crate::dedup::winner_indices_upto(s, day, n).len() ==> 0
                <= #[trigger] crate::dedup::winner_indices_upto(s, day, n)[k] < n,
    decreases n,
{
    if n > 0 {
        lemma_winner_indices_upto_bounds(s, day, n - 1);
        let prev = crate::dedup::winner_indices_upto(s, day, n - 1);
        let cur = crate::dedup::winner_indices_upto(s, day, n);
        assert forall|k: int| 0 <= k < cur.len() implies 0 <= #[trigger] cur[k] < n by {
            if crate::dedup::is_winner(s, day, n - 1) {
                assert(cur == prev.push(n - 1));
                if k < prev.len() {
                    assert(cur[k] == prev[k]);
                }
            } else {
                assert(cur == prev);
            }
        }
    }
}

/// Replacing contexts selects the same global group, index for index.
proof fn lemma_winner_indices_eq_except_contexts(
    s1: Seq<Report>,
    s2: Seq<Report>,
    day: u64,
    n: int,
)
    requires
        eq_except_contexts(s1, s2),
        0 <= n <= s1.len(),
    ensures
        crate::dedup::winner_indices_upto(s1, day, n) == crate::dedup::winner_indices_upto(
            s2,
            day,
            n,
        ),
    decreases n,
{
    if n > 0 {
        lemma_winner_indices_eq_except_contexts(s1, s2, day, n - 1);
        lemma_winner_eq_except_contexts(s1, s2, day, n - 1);
    }
}

/// **Context isolation, global half.** The global rollup is blind to
/// contexts: replacing every report's context label — in particular taking
/// it away — changes nothing the global aggregation computes. A report
/// without a context therefore contributes to the global row exactly like
/// any other report.
pub proof fn lemma_global_blind_to_contexts(s1: Seq<Report>, s2: Seq<Report>, day: u64)
    requires
        eq_except_contexts(s1, s2),
    ensures
        forall|id: CounterId|
            #[trigger] crate::dedup::day_sum(s1, day, id) == crate::dedup::day_sum(s2, day, id),
        day_active_homeservers(s1, day) == day_active_homeservers(s2, day),
        forall|t: Seq<AggregatedStats>|
            #[trigger] aggregate_spec(s1, t, day) == aggregate_spec(s2, t, day),
{
    lemma_winner_indices_eq_except_contexts(s1, s2, day, s1.len() as int);
    let idxs = crate::dedup::winner_indices(s1, day);
    assert(crate::dedup::winner_indices(s2, day) == idxs);
    lemma_winner_indices_upto_bounds(s1, day, s1.len() as int);

    assert forall|id: CounterId| #[trigger] counter_vals(s1, idxs, id) == counter_vals(
        s2,
        idxs,
        id,
    ) by {
        assert forall|k: int| 0 <= k < idxs.len() implies #[trigger] counter_vals(s1, idxs, id)[k]
            == counter_vals(s2, idxs, id)[k] by {
            assert(s2[idxs[k]] == with_context(s1[idxs[k]], s2[idxs[k]].server_context));
        }
        assert(counter_vals(s1, idxs, id) =~= counter_vals(s2, idxs, id));
    }

    lemma_some_key_count_eq_except_contexts(s1, s2, idxs);

    assert forall|t: Seq<AggregatedStats>| #[trigger] aggregate_spec(s1, t, day)
        == aggregate_spec(s2, t, day) by {
        assert(day_counter_sums(s1, day) == day_counter_sums(s2, day));
        assert(phase1_spec(t, s1, day) == phase1_spec(t, s2, day));
    }
}

/// Homeserver counting at fixed indices reads no context.
proof fn lemma_some_key_count_eq_except_contexts(s1: Seq<Report>, s2: Seq<Report>, idxs: Seq<int>)
    requires
        eq_except_contexts(s1, s2),
        forall|k: int| 0 <= k < idxs.len() ==> 0 <= #[trigger] idxs[k] < s1.len(),
    ensures
        some_key_count(s1, idxs) == some_key_count(s2, idxs),
    decreases idxs.len(),
{
    if idxs.len() > 0 {
        lemma_some_key_count_eq_except_contexts(s1, s2, idxs.drop_last());
        assert(s2[idxs.last()] == with_context(s1[idxs.last()], s2[idxs.last()].server_context));
    }
}

} // verus!
