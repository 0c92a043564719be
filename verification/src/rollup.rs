//! The rollup store: derived, idempotently recomputable per-day statistics,
//! globally and per context.
//!
//! Rows are created on the first aggregation pass for a day and
//! non-destructively overwritten (upsert) on every later pass; they are
//! never deleted. The upsert that writes a day's sums deliberately leaves
//! the cumulative totals of the row alone — a separate pass recomputes them
//! as a prefix sum over all days up to and including the target day.

use vstd::prelude::*;
use crate::model::{AggregatedStats, AggregatedStatsByContext, CounterId, CounterSums, sum_of};
use crate::sums::{sum_opt, SumOutcome, sum_values};

verus! {

/// The global table never holds two rows for one day.
pub open spec fn wf_days(t: Seq<AggregatedStats>) -> bool {
    forall|i: int, j: int| 0 <= i < j < t.len() ==> t[i].day != t[j].day
}

/// The row stored for `day`, if any.
pub open spec fn day_row(t: Seq<AggregatedStats>, day: u64) -> Option<AggregatedStats>
    decreases t.len(),
{
    if t.len() == 0 {
        None
    } else if t.last().day == day {
        Some(t.last())
    } else {
        day_row(t.drop_last(), day)
    }
}

/// Whether a row for `day` exists.
pub open spec fn has_day(t: Seq<AggregatedStats>, day: u64) -> bool {
    day_row(t, day) matches Some(_)
}

/// A stored row with its sums and homeserver count replaced and its
/// cumulative totals kept.
pub open spec fn merge_sums_row(r: AggregatedStats, sums: CounterSums, dah: u64) -> AggregatedStats {
    AggregatedStats {
        day: r.day,
        sums,
        daily_active_homeservers: dah,
        total_messages: r.total_messages,
        total_e2ee_messages: r.total_e2ee_messages,
    }
}

/// A first row for a day; the cumulative totals are absent until the totals
/// pass fills them.
pub open spec fn fresh_row(day: u64, sums: CounterSums, dah: u64) -> AggregatedStats {
    AggregatedStats {
        day,
        sums,
        daily_active_homeservers: dah,
        total_messages: None,
        total_e2ee_messages: None,
    }
}

/// A stored row with its cumulative totals replaced.
pub open spec fn with_totals(r: AggregatedStats, tm: Option<i64>, te: Option<i64>) -> AggregatedStats {
    AggregatedStats {
        day: r.day,
        sums: r.sums,
        daily_active_homeservers: r.daily_active_homeservers,
        total_messages: tm,
        total_e2ee_messages: te,
    }
}

/// The table after a day's sums are upserted: the existing row is
/// overwritten in place (keeping its totals), or a fresh row is appended.
pub open spec fn upsert_sums_spec(
    t: Seq<AggregatedStats>,
    day: u64,
    sums: CounterSums,
    dah: u64,
) -> Seq<AggregatedStats> {
    if has_day(t, day) {
        t.map(
            |i: int, r: AggregatedStats|
                if r.day == day {
                    merge_sums_row(r, sums, dah)
                } else {
                    r
                },
        )
    } else {
        t.push(fresh_row(day, sums, dah))
    }
}

/// The table after the totals of the row for `day` (if present) are
/// replaced.
pub open spec fn set_totals_spec(
    t: Seq<AggregatedStats>,
    day: u64,
    tm: Option<i64>,
    te: Option<i64>,
) -> Seq<AggregatedStats> {
    t.map(
        |i: int, r: AggregatedStats|
            if r.day == day {
                with_totals(r, tm, te)
            } else {
                r
            },
    )
}

/// The per-day sums selected by `id` of every row whose day is at most
/// `day`, in storage order: the values the cumulative-totals prefix sum
/// ranges over.
pub open spec fn total_vals(t: Seq<AggregatedStats>, day: u64, id: CounterId) -> Seq<Option<i64>>
    decreases t.len(),
{
    if t.len() == 0 {
        Seq::empty()
    } else {
        let rest = total_vals(t.drop_last(), day, id);
        if t.last().day <= day {
            rest.push(sum_of(t.last().sums, id))
        } else {
            rest
        }
    }
}

/// The cumulative total for `day`: the sum of the per-day sums selected by
/// `id` over all days up to and including `day`.
pub open spec fn total_upto(t: Seq<AggregatedStats>, day: u64, id: CounterId) -> Option<int> {
    sum_opt(total_vals(t, day, id))
}

/// A row stored anywhere in a well-formed table is the row `day_row` finds.
pub proof fn lemma_day_row_found(t: Seq<AggregatedStats>, day: u64, i: int)
    requires
        wf_days(t),
        0 <= i < t.len(),
        t[i].day == day,
    ensures
        day_row(t, day) == Some(t[i]),
    decreases t.len(),
{
    if i == t.len() - 1 {
        assert(t.last() == t[i]);
    } else {
        assert(t.last().day != day);
        lemma_day_row_found(t.drop_last(), day, i);
    }
}

/// A day matching no stored row has no row.
pub proof fn lemma_day_row_none(t: Seq<AggregatedStats>, day: u64)
    requires
        forall|k: int| 0 <= k < t.len() ==> t[k].day != day,
    ensures
        day_row(t, day) == None::<AggregatedStats>,
    decreases t.len(),
{
    if t.len() > 0 {
        lemma_day_row_none(t.drop_last(), day);
    }
}

/// The row `day_row` finds is stored in the table and carries the day it
/// was looked up under.
pub proof fn lemma_day_row_some(t: Seq<AggregatedStats>, day: u64)
    requires
        day_row(t, day) matches Some(_),
    ensures
        exists|i: int|
            0 <= i < t.len() && t[i] == day_row(t, day).unwrap() && #[trigger] t[i].day == day,
    decreases t.len(),
{
    if t.last().day == day {
        assert(t[t.len() - 1].day == day);
    } else {
        lemma_day_row_some(t.drop_last(), day);
        let i = choose|i: int|
            0 <= i < t.len() - 1 && t.drop_last()[i] == day_row(t.drop_last(), day).unwrap()
                && #[trigger] t.drop_last()[i].day == day;
        assert(t[i].day == day);
    }
}

/// In a well-formed table, a day without a row matches no stored row.
pub proof fn lemma_day_row_none_pointwise(t: Seq<AggregatedStats>, day: u64)
    requires
        wf_days(t),
        day_row(t, day) == None::<AggregatedStats>,
    ensures
        forall|k: int| 0 <= k < t.len() ==> t[k].day != day,
{
    assert forall|k: int| 0 <= k < t.len() implies t[k].day != day by {
        if t[k].day == day {
            lemma_day_row_found(t, day, k);
        }
    }
}

/// The totals prefix sum reads only the day and sums of each row, so a pass
/// that rewrites totals never changes it.
pub proof fn lemma_total_vals_ignore_totals(
    t1: Seq<AggregatedStats>,
    t2: Seq<AggregatedStats>,
    day: u64,
    id: CounterId,
)
    requires
        t1.len() == t2.len(),
        forall|i: int|
            0 <= i < t1.len() ==> #[trigger] t2[i].day == t1[i].day && t2[i].sums == t1[i].sums,
    ensures
        total_vals(t2, day, id) == total_vals(t1, day, id),
    decreases t1.len(),
{
    if t1.len() > 0 {
        assert(t2[t1.len() - 1].day == t1[t1.len() - 1].day);
        lemma_total_vals_ignore_totals(t1.drop_last(), t2.drop_last(), day, id);
    }
}

/// The globally derived rollup table, keyed by day.
pub struct StatsTable {
    rows: Vec<AggregatedStats>,
}

impl StatsTable {
    /// The stored rows, in insertion order.
    pub closed spec fn rows(&self) -> Seq<AggregatedStats> {
        self.rows@
    }

    /// Well-formedness: one row per day.
    pub open spec fn inv(&self) -> bool {
        wf_days(self.rows())
    }

    /// An empty table.
    pub fn new() -> (t: StatsTable)
        ensures
            t.inv(),
            t.rows() == Seq::<AggregatedStats>::empty(),
    {
        StatsTable { rows: Vec::new() }
    }

    /// Number of stored rows.
    pub fn len(&self) -> (n: usize)
        ensures
            n == self.rows().len(),
    {
        self.rows.len()
    }

    /// The index of the row for `day`, if one exists.
    fn find_day(&self, day: u64) -> (r: Option<usize>)
        ensures
            match r {
                Some(i) => i < self.rows().len() && self.rows()[i as int].day == day,
                None => forall|k: int| 0 <= k < self.rows().len() ==> self.rows()[k].day != day,
            },
    {
        let mut i: usize = 0;
        while i < self.rows.len()
            invariant
                0 <= i <= self.rows@.len(),
                forall|k: int| 0 <= k < i ==> self.rows@[k].day != day,
            decreases self.rows@.len() - i,
        {
            if self.rows[i].day == day {
                return Some(i);
            }
            i = i + 1;
        }
        None
    }

    /// The row for `day`, or `None` when no aggregation pass has created
    /// one: callers must distinguish "zero activity" from "not computed".
    pub fn get(&self, day: u64) -> (r: Option<AggregatedStats>)
        requires
            self.inv(),
        ensures
            r == day_row(self.rows(), day),
    {
        match self.find_day(day) {
            Some(i) => {
                proof {
                    lemma_day_row_found(self.rows(), day, i as int);
                }
                Some(self.rows[i])
            },
            None => {
                proof {
                    lemma_day_row_none(self.rows(), day);
                }
                None
            },
        }
    }

    /// Upserts the freshly computed sums for `day`: overwrites every summed
    /// field of an existing row (not merging, and leaving its totals alone),
    /// or appends a fresh row.
    pub fn upsert_sums(&mut self, day: u64, sums: CounterSums, dah: u64)
        requires
            old(self).inv(),
        ensures
            final(self).inv(),
            final(self).rows() == upsert_sums_spec(old(self).rows(), day, sums, dah),
    {
        let ghost t0 = self.rows();
        match self.find_day(day) {
            Some(i) => {
                proof {
                    lemma_day_row_found(t0, day, i as int);
                }
                let tm = self.rows[i].total_messages;
                let te = self.rows[i].total_e2ee_messages;
                let row = AggregatedStats {
                    day,
                    sums,
                    daily_active_homeservers: dah,
                    total_messages: tm,
                    total_e2ee_messages: te,
                };
                self.rows.set(i, row);
                proof {
                    assert(self.rows() =~= upsert_sums_spec(t0, day, sums, dah));
                }
            },
            None => {
                proof {
                    lemma_day_row_none(t0, day);
                }
                self.rows.push(
                    AggregatedStats {
                        day,
                        sums,
                        daily_active_homeservers: dah,
                        total_messages: None,
                        total_e2ee_messages: None,
                    },
                );
                proof {
                    assert(self.rows() =~= upsert_sums_spec(t0, day, sums, dah));
                }
            },
        }
    }

    /// Replaces the cumulative totals of the row for `day`; a day with no
    /// row is left untouched.
    pub fn set_totals(&mut self, day: u64, tm: Option<i64>, te: Option<i64>)
        requires
            old(self).inv(),
        ensures
            final(self).inv(),
            final(self).rows() == set_totals_spec(old(self).rows(), day, tm, te),
    {
        let ghost t0 = self.rows();
        match self.find_day(day) {
            Some(i) => {
                let r = self.rows[i];
                self.rows.set(i, with_totals_exec(r, tm, te));
                proof {
                    assert(self.rows() =~= set_totals_spec(t0, day, tm, te));
                }
            },
            None => {
                proof {
                    assert(self.rows() =~= set_totals_spec(t0, day, tm, te));
                }
            },
        }
    }

    /// Reads the per-day sums selected by `id` of every row whose day is at
    /// most `day`, the inputs of the cumulative-totals prefix sum.
    pub fn collect_total_values(&self, day: u64, id: CounterId) -> (vals: Vec<Option<i64>>)
        ensures
            vals@ == total_vals(self.rows(), day, id),
    {
        let ghost t = self.rows();
        let mut vals: Vec<Option<i64>> = Vec::new();
        let mut i: usize = 0;
        while i < self.rows.len()
            invariant
                0 <= i <= t.len(),
                t == self.rows(),
                vals@ == total_vals(t.take(i as int), day, id),
            decreases t.len() - i,
        {
            proof {
                assert(t.take(i as int + 1).drop_last() =~= t.take(i as int));
            }
            let r = &self.rows[i];
            if r.day <= day {
                vals.push(sum_of_exec(&r.sums, id));
            }
            i = i + 1;
        }
        proof {
            assert(t.take(t.len() as int) =~= t);
        }
        vals
    }

    /// Computes the cumulative total for `day` under `id` directly.
    pub fn compute_total(&self, day: u64, id: CounterId) -> (r: SumOutcome)
        ensures
            (r == SumOutcome::Overflow) == !crate::sums::opt_fits_i64(
                total_upto(self.rows(), day, id),
            ),
            r != SumOutcome::Overflow ==> r == SumOutcome::Sum(
                crate::sums::stored(total_upto(self.rows(), day, id)),
            ),
    {
        let vals = self.collect_total_values(day, id);
        sum_values(&vals)
    }
}

/// The sum stored in `cs` for `id`, as `sum_of` describes.
pub fn sum_of_exec(cs: &CounterSums, id: CounterId) -> (v: Option<i64>)
    ensures
        v == sum_of(*cs, id),
{
    match id {
        CounterId::TotalUsers => cs.total_users,
        CounterId::TotalNonbridgedUsers => cs.total_nonbridged_users,
        CounterId::TotalRoomCount => cs.total_room_count,
        CounterId::DailyActiveUsers => cs.daily_active_users,
        CounterId::DailyActiveRooms => cs.daily_active_rooms,
        CounterId::DailyMessages => cs.daily_messages,
        CounterId::DailySentMessages => cs.daily_sent_messages,
        CounterId::DailyActiveE2eeRooms => cs.daily_active_e2ee_rooms,
        CounterId::DailyE2eeMessages => cs.daily_e2ee_messages,
        CounterId::DailySentE2eeMessages => cs.daily_sent_e2ee_messages,
        CounterId::MonthlyActiveUsers => cs.monthly_active_users,
        CounterId::R30UsersAll => cs.r30_users_all,
        CounterId::R30UsersAndroid => cs.r30_users_android,
        CounterId::R30UsersIos => cs.r30_users_ios,
        CounterId::R30UsersElectron => cs.r30_users_electron,
        CounterId::R30UsersWeb => cs.r30_users_web,
        CounterId::R30v2UsersAll => cs.r30v2_users_all,
        CounterId::R30v2UsersAndroid => cs.r30v2_users_android,
        CounterId::R30v2UsersIos => cs.r30v2_users_ios,
        CounterId::R30v2UsersElectron => cs.r30v2_users_electron,
        CounterId::R30v2UsersWeb => cs.r30v2_users_web,
        CounterId::DailyUserTypeNative => cs.daily_user_type_native,
        CounterId::DailyUserTypeBridged => cs.daily_user_type_bridged,
        CounterId::DailyUserTypeGuest => cs.daily_user_type_guest,
    }
}

/// `with_totals`, executably.
fn with_totals_exec(r: AggregatedStats, tm: Option<i64>, te: Option<i64>) -> (out: AggregatedStats)
    ensures
        out == with_totals(r, tm, te),
{
    AggregatedStats {
        day: r.day,
        sums: r.sums,
        daily_active_homeservers: r.daily_active_homeservers,
        total_messages: tm,
        total_e2ee_messages: te,
    }
}

/// The per-context table never holds two rows for one `(day, context)`
/// pair; contexts compare by text.
pub open spec fn wf_ctx_keys(t: Seq<AggregatedStatsByContext>) -> bool {
    forall|i: int, j: int|
        0 <= i < j < t.len() ==> !(t[i].day == t[j].day && t[i].server_context@
            == t[j].server_context@)
}

/// The row stored for `(day, c)`, if any.
pub open spec fn ctx_row(t: Seq<AggregatedStatsByContext>, day: u64, c: Seq<char>) -> Option<
    AggregatedStatsByContext,
>
    decreases t.len(),
{
    if t.len() == 0 {
        None
    } else if t.last().day == day && t.last().server_context@ == c {
        Some(t.last())
    } else {
        ctx_row(t.drop_last(), day, c)
    }
}

/// Whether a row for `(day, c)` exists.
pub open spec fn has_ctx(t: Seq<AggregatedStatsByContext>, day: u64, c: Seq<char>) -> bool {
    ctx_row(t, day, c) matches Some(_)
}

/// A stored per-context row with its sums and homeserver count replaced and
/// its key and totals kept.
pub open spec fn merge_ctx_row(
    r: AggregatedStatsByContext,
    sums: CounterSums,
    dah: u64,
) -> AggregatedStatsByContext {
    AggregatedStatsByContext {
        day: r.day,
        server_context: r.server_context,
        sums,
        daily_active_homeservers: dah,
        total_messages: r.total_messages,
        total_e2ee_messages: r.total_e2ee_messages,
    }
}

/// A stored per-context row with its cumulative totals replaced.
pub open spec fn with_ctx_totals(
    r: AggregatedStatsByContext,
    tm: Option<i64>,
    te: Option<i64>,
) -> AggregatedStatsByContext {
    AggregatedStatsByContext {
        day: r.day,
        server_context: r.server_context,
        sums: r.sums,
        daily_active_homeservers: r.daily_active_homeservers,
        total_messages: tm,
        total_e2ee_messages: te,
    }
}

/// The per-context table after one context's sums for a day are upserted:
/// the existing `(day, context)` row is overwritten in place (keeping its
/// totals), or a fresh row with absent totals is appended.
pub open spec fn ctx_upsert_spec(
    t: Seq<AggregatedStatsByContext>,
    day: u64,
    context: String,
    sums: CounterSums,
    dah: u64,
) -> Seq<AggregatedStatsByContext> {
    if has_ctx(t, day, context@) {
        t.map(
            |i: int, r: AggregatedStatsByContext|
                if r.day == day && r.server_context@ == context@ {
                    merge_ctx_row(r, sums, dah)
                } else {
                    r
                },
        )
    } else {
        t.push(
            AggregatedStatsByContext {
                day,
                server_context: context,
                sums,
                daily_active_homeservers: dah,
                total_messages: None,
                total_e2ee_messages: None,
            },
        )
    }
}

/// The per-day sums selected by `id` of every row of context `c` whose day
/// is at most `day`, in storage order: the inputs of that context's
/// cumulative prefix sum.
pub open spec fn ctx_total_vals(
    t: Seq<AggregatedStatsByContext>,
    day: u64,
    c: Seq<char>,
    id: CounterId,
) -> Seq<Option<i64>>
    decreases t.len(),
{
    if t.len() == 0 {
        Seq::empty()
    } else {
        let rest = ctx_total_vals(t.drop_last(), day, c, id);
        if t.last().day <= day && t.last().server_context@ == c {
            rest.push(sum_of(t.last().sums, id))
        } else {
            rest
        }
    }
}

/// The cumulative total for `(day, c)`: a prefix sum restricted to that
/// context's days.
pub open spec fn ctx_total_upto(
    t: Seq<AggregatedStatsByContext>,
    day: u64,
    c: Seq<char>,
    id: CounterId,
) -> Option<int> {
    sum_opt(ctx_total_vals(t, day, c, id))
}

/// A row stored anywhere in a well-formed per-context table is the row
/// `ctx_row` finds.
pub proof fn lemma_ctx_row_found(t: Seq<AggregatedStatsByContext>, day: u64, c: Seq<char>, i: int)
    requires
        wf_ctx_keys(t),
        0 <= i < t.len(),
        t[i].day == day,
        t[i].server_context@ == c,
    ensures
        ctx_row(t, day, c) == Some(t[i]),
    decreases t.len(),
{
    if i == t.len() - 1 {
        assert(t.last() == t[i]);
    } else {
        assert(!(t.last().day == day && t.last().server_context@ == c));
        lemma_ctx_row_found(t.drop_last(), day, c, i);
    }
}

/// A key matching no stored row has no row.
pub proof fn lemma_ctx_row_none(t: Seq<AggregatedStatsByContext>, day: u64, c: Seq<char>)
    requires
        forall|k: int|
            0 <= k < t.len() ==> !(#[trigger] t[k].day == day && t[k].server_context@ == c),
    ensures
        ctx_row(t, day, c) == None::<AggregatedStatsByContext>,
    decreases t.len(),
{
    if t.len() > 0 {
        assert(!(t[t.len() - 1].day == day && t[t.len() - 1].server_context@ == c));
        lemma_ctx_row_none(t.drop_last(), day, c);
    }
}

/// The row `ctx_row` finds is stored in the table and carries the key it
/// was looked up under.
pub proof fn lemma_ctx_row_some(t: Seq<AggregatedStatsByContext>, day: u64, c: Seq<char>)
    requires
        ctx_row(t, day, c) matches Some(_),
    ensures
        exists|i: int|
            0 <= i < t.len() && t[i] == ctx_row(t, day, c).unwrap() && #[trigger] t[i].day == day
                && t[i].server_context@ == c,
    decreases t.len(),
{
    if t.last().day == day && t.last().server_context@ == c {
        assert(t[t.len() - 1].day == day && t[t.len() - 1].server_context@ == c);
    } else {
        lemma_ctx_row_some(t.drop_last(), day, c);
        let i = choose|i: int|
            0 <= i < t.len() - 1 && t.drop_last()[i] == ctx_row(t.drop_last(), day, c).unwrap()
                && #[trigger] t.drop_last()[i].day == day && t.drop_last()[i].server_context@ == c;
        assert(t[i].day == day && t[i].server_context@ == c);
    }
}

/// In a well-formed per-context table, a key without a row matches no
/// stored row.
pub proof fn lemma_ctx_row_none_pointwise(t: Seq<AggregatedStatsByContext>, day: u64, c: Seq<char>)
    requires
        wf_ctx_keys(t),
        ctx_row(t, day, c) == None::<AggregatedStatsByContext>,
    ensures
        forall|k: int|
            0 <= k < t.len() ==> !(#[trigger] t[k].day == day && t[k].server_context@ == c),
{
    assert forall|k: int| 0 <= k < t.len() implies !(#[trigger] t[k].day == day
        && t[k].server_context@ == c) by {
        if t[k].day == day && t[k].server_context@ == c {
            lemma_ctx_row_found(t, day, c, k);
        }
    }
}

/// The per-context totals prefix sum reads only the key and sums of each
/// row, so a pass that rewrites totals never changes it.
pub proof fn lemma_ctx_total_vals_ignore_totals(
    t1: Seq<AggregatedStatsByContext>,
    t2: Seq<AggregatedStatsByContext>,
    day: u64,
    c: Seq<char>,
    id: CounterId,
)
    requires
        t1.len() == t2.len(),
        forall|i: int|
            0 <= i < t1.len() ==> #[trigger] t2[i].day == t1[i].day && t2[i].server_context@
                == t1[i].server_context@ && t2[i].sums == t1[i].sums,
    ensures
        ctx_total_vals(t2, day, c, id) == ctx_total_vals(t1, day, c, id),
    decreases t1.len(),
{
    if t1.len() > 0 {
        assert(t2[t1.len() - 1].day == t1[t1.len() - 1].day);
        lemma_ctx_total_vals_ignore_totals(t1.drop_last(), t2.drop_last(), day, c, id);
    }
}

/// The per-context rollup table, keyed by `(day, server_context)`.
pub struct CtxStatsTable {
    rows: Vec<AggregatedStatsByContext>,
}

impl CtxStatsTable {
    /// The stored rows, in insertion order.
    pub closed spec fn rows(&self) -> Seq<AggregatedStatsByContext> {
        self.rows@
    }

    /// Well-formedness: one row per `(day, context)` pair.
    pub open spec fn inv(&self) -> bool {
        wf_ctx_keys(self.rows())
    }

    /// An empty table.
    pub fn new() -> (t: CtxStatsTable)
        ensures
            t.inv(),
            t.rows() == Seq::<AggregatedStatsByContext>::empty(),
    {
        CtxStatsTable { rows: Vec::new() }
    }

    /// Number of stored rows.
    pub fn len(&self) -> (n: usize)
        ensures
            n == self.rows().len(),
    {
        self.rows.len()
    }

    /// The stored row at position `i`.
    pub fn row_at(&self, i: usize) -> (r: &AggregatedStatsByContext)
        requires
            i < self.rows().len(),
        ensures
            *r == self.rows()[i as int],
    {
        &self.rows[i]
    }

    /// The index of the row for `(day, c)`, if one exists.
    fn find_ctx(&self, day: u64, c: &String) -> (r: Option<usize>)
        ensures
            match r {
                Some(i) => i < self.rows().len() && self.rows()[i as int].day == day
                    && self.rows()[i as int].server_context@ == c@,
                None => forall|k: int|
                    0 <= k < self.rows().len() ==> !(#[trigger] self.rows()[k].day == day
                        && self.rows()[k].server_context@ == c@),
            },
    {
        let mut i: usize = 0;
        while i < self.rows.len()
            invariant
                0 <= i <= self.rows@.len(),
                forall|k: int|
                    0 <= k < i ==> !(#[trigger] self.rows@[k].day == day
                        && self.rows@[k].server_context@ == c@),
            decreases self.rows@.len() - i,
        {
            if self.rows[i].day == day && self.rows[i].server_context.eq(c) {
                return Some(i);
            }
            i = i + 1;
        }
        None
    }

    /// The row for `(day, c)`, or `None` when no aggregation pass has
    /// created one.
    pub fn get(&self, day: u64, c: &String) -> (r: Option<&AggregatedStatsByContext>)
        requires
            self.inv(),
        ensures
            match r {
                Some(row) => ctx_row(self.rows(), day, c@) == Some(*row),
                None => ctx_row(self.rows(), day, c@) == None::<AggregatedStatsByContext>,
            },
    {
        match self.find_ctx(day, c) {
            Some(i) => {
                proof {
                    lemma_ctx_row_found(self.rows(), day, c@, i as int);
                }
                Some(&self.rows[i])
            },
            None => {
                proof {
                    lemma_ctx_row_none(self.rows(), day, c@);
                }
                None
            },
        }
    }

    /// Upserts one context's freshly computed sums for `day`, overwriting
    /// every summed field of an existing row (keeping its totals) or
    /// appending a fresh one.
    pub fn upsert_sums(&mut self, day: u64, context: String, sums: CounterSums, dah: u64)
        requires
            old(self).inv(),
        ensures
            final(self).inv(),
            final(self).rows() == ctx_upsert_spec(old(self).rows(), day, context, sums, dah),
    {
        let ghost t0 = self.rows();
        match self.find_ctx(day, &context) {
            Some(i) => {
                proof {
                    lemma_ctx_row_found(t0, day, context@, i as int);
                }
                let old_row = &self.rows[i];
                let row = AggregatedStatsByContext {
                    day: old_row.day,
                    server_context: old_row.server_context.clone(),
                    sums,
                    daily_active_homeservers: dah,
                    total_messages: old_row.total_messages,
                    total_e2ee_messages: old_row.total_e2ee_messages,
                };
                self.rows.set(i, row);
                proof {
                    assert(self.rows() =~= ctx_upsert_spec(t0, day, context, sums, dah));
                }
            },
            None => {
                proof {
                    lemma_ctx_row_none(t0, day, context@);
                }
                self.rows.push(
                    AggregatedStatsByContext {
                        day,
                        server_context: context,
                        sums,
                        daily_active_homeservers: dah,
                        total_messages: None,
                        total_e2ee_messages: None,
                    },
                );
                proof {
                    assert(self.rows() =~= ctx_upsert_spec(
                        t0,
                        day,
                        self.rows@.last().server_context,
                        sums,
                        dah,
                    ));
                }
            },
        }
    }

    /// Replaces the cumulative totals of the row at position `i`; the key
    /// and sums are untouched.
    pub fn set_row_totals(&mut self, i: usize, tm: Option<i64>, te: Option<i64>)
        requires
            old(self).inv(),
            i < old(self).rows().len(),
        ensures
            final(self).inv(),
            final(self).rows() == old(self).rows().update(
                i as int,
                with_ctx_totals(old(self).rows()[i as int], tm, te),
            ),
    {
        let old_row = &self.rows[i];
        let row = AggregatedStatsByContext {
            day: old_row.day,
            server_context: old_row.server_context.clone(),
            sums: old_row.sums,
            daily_active_homeservers: old_row.daily_active_homeservers,
            total_messages: tm,
            total_e2ee_messages: te,
        };
        self.rows.set(i, row);
    }

    /// Reads the per-day sums selected by `id` of every row of context `c`
    /// whose day is at most `day`, the inputs of that context's cumulative
    /// prefix sum.
    pub fn collect_total_values(&self, day: u64, c: &String, id: CounterId) -> (vals: Vec<
        Option<i64>,
    >)
        ensures
            vals@ == ctx_total_vals(self.rows(), day, c@, id),
    {
        let ghost t = self.rows();
        let mut vals: Vec<Option<i64>> = Vec::new();
        let mut i: usize = 0;
        while i < self.rows.len()
            invariant
                0 <= i <= t.len(),
                t == self.rows(),
                vals@ == ctx_total_vals(t.take(i as int), day, c@, id),
            decreases t.len() - i,
        {
            proof {
                assert(t.take(i as int + 1).drop_last() =~= t.take(i as int));
            }
            let r = &self.rows[i];
            if r.day <= day && r.server_context.eq(c) {
                vals.push(sum_of_exec(&r.sums, id));
            }
            i = i + 1;
        }
        proof {
            assert(t.take(t.len() as int) =~= t);
        }
        vals
    }

    /// Computes the cumulative total for `(day, c)` under `id` directly.
    pub fn compute_total(&self, day: u64, c: &String, id: CounterId) -> (r: SumOutcome)
        ensures
            (r == SumOutcome::Overflow) == !crate::sums::opt_fits_i64(
                ctx_total_upto(self.rows(), day, c@, id),
            ),
            r != SumOutcome::Overflow ==> r == SumOutcome::Sum(
                crate::sums::stored(ctx_total_upto(self.rows(), day, c@, id)),
            ),
    {
        let vals = self.collect_total_values(day, c, id);
        sum_values(&vals)
    }
}

} // verus!
