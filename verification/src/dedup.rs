//! Per-day deduplication of reports.
//!
//! For a given day, at most one report per homeserver contributes to the
//! rollup sums: the one with the latest receipt timestamp among that day's
//! reports from that homeserver, ties broken deterministically in favour of
//! the later insertion. The relation is recomputed from the full report
//! store on every aggregation pass, never cached.
//!
//! The per-context rollup groups by `(homeserver, server_context)` instead
//! and considers only reports that carry a context.

use vstd::prelude::*;
use crate::model::{CounterId, Report, counter_of};
use crate::sums::sum_opt;
use crate::SECONDS_PER_DAY;

verus! {

/// An optional string key, abstracted to its character sequence, so that two
/// distinct allocations with equal text are the same key.
pub open spec fn key_view(s: Option<String>) -> Option<Seq<char>> {
    match s {
        Some(x) => Some(x@),
        None => None,
    }
}

/// The calendar day (days since the Unix epoch, in UTC) on which a receipt
/// timestamp falls.
pub open spec fn day_of(ts: u64) -> u64 {
    ts / SECONDS_PER_DAY
}

/// Whether `r` was received on `day`.
pub open spec fn on_day(r: Report, day: u64) -> bool {
    day_of(r.local_timestamp) == day
}

/// The homeserver grouping key of a report.
pub open spec fn hs_key(r: Report) -> Option<Seq<char>> {
    key_view(r.homeserver)
}

/// The context grouping key of a report.
pub open spec fn ctx_key(r: Report) -> Option<Seq<char>> {
    key_view(r.server_context)
}

/// Whether the report at `i` takes precedence over the one at `j` (both
/// indices into `s`): a strictly later receipt timestamp, or an equal
/// timestamp and an insertion no earlier.
pub open spec fn beats(s: Seq<Report>, i: int, j: int) -> bool {
    s[j].local_timestamp < s[i].local_timestamp || (s[j].local_timestamp == s[i].local_timestamp
        && j <= i)
}

/// Whether the report at `i` is the surviving report of its homeserver for
/// `day` in the global rollup: it was received on `day` and takes precedence
/// over every same-day report with the same homeserver key.
pub open spec fn is_winner(s: Seq<Report>, day: u64, i: int) -> bool {
    &&& 0 <= i < s.len()
    &&& on_day(s[i], day)
    &&& forall|j: int|
        0 <= j < s.len() && #[trigger] on_day(s[j], day) && hs_key(s[j]) == hs_key(s[i]) ==> beats(
            s,
            i,
            j,
        )
}

/// Whether the report at `i` survives for `day` in the per-context rollup:
/// it carries a context, and it takes precedence over every same-day report
/// with the same `(homeserver, context)` key pair.
pub open spec fn is_ctx_winner(s: Seq<Report>, day: u64, i: int) -> bool {
    &&& 0 <= i < s.len()
    &&& on_day(s[i], day)
    &&& ctx_key(s[i]) matches Some(_)
    &&& forall|j: int|
        0 <= j < s.len() && #[trigger] on_day(s[j], day) && hs_key(s[j]) == hs_key(s[i]) && ctx_key(
            s[j],
        ) == ctx_key(s[i]) ==> beats(s, i, j)
}

/// Indices below `n` of the reports surviving global deduplication for
/// `day`, in increasing order.
pub open spec fn winner_indices_upto(s: Seq<Report>, day: u64, n: int) -> Seq<int>
    decreases n,
{
    if n <= 0 {
        Seq::empty()
    } else if is_winner(s, day, n - 1) {
        winner_indices_upto(s, day, n - 1).push(n - 1)
    } else {
        winner_indices_upto(s, day, n - 1)
    }
}

/// Indices of the reports surviving global deduplication for `day`.
pub open spec fn winner_indices(s: Seq<Report>, day: u64) -> Seq<int> {
    winner_indices_upto(s, day, s.len() as int)
}

/// Indices below `n` of the reports surviving per-context deduplication for
/// `day` whose context is `c`, in increasing order.
pub open spec fn ctx_winner_indices_upto(s: Seq<Report>, day: u64, c: Seq<char>, n: int) -> Seq<
    int,
>
    decreases n,
{
    if n <= 0 {
        Seq::empty()
    } else if is_ctx_winner(s, day, n - 1) && ctx_key(s[n - 1]) == Some(c) {
        ctx_winner_indices_upto(s, day, c, n - 1).push(n - 1)
    } else {
        ctx_winner_indices_upto(s, day, c, n - 1)
    }
}

/// Indices of the reports surviving per-context deduplication for `day`
/// whose context is `c`.
pub open spec fn ctx_winner_indices(s: Seq<Report>, day: u64, c: Seq<char>) -> Seq<int> {
    ctx_winner_indices_upto(s, day, c, s.len() as int)
}

/// The distinct contexts below `n` carried by reports surviving per-context
/// deduplication for `day`, in order of first appearance.
pub open spec fn contexts_upto(s: Seq<Report>, day: u64, n: int) -> Seq<Seq<char>>
    decreases n,
{
    if n <= 0 {
        Seq::empty()
    } else {
        let rest = contexts_upto(s, day, n - 1);
        match ctx_key(s[n - 1]) {
            Some(c) => if is_ctx_winner(s, day, n - 1) && !rest.contains(c) {
                rest.push(c)
            } else {
                rest
            },
            None => rest,
        }
    }
}

/// The distinct contexts contributing to `day`, in order of first
/// appearance.
pub open spec fn contexts_of_day(s: Seq<Report>, day: u64) -> Seq<Seq<char>> {
    contexts_upto(s, day, s.len() as int)
}

/// The counters selected by `id` of the reports of `s` at `idxs`.
pub open spec fn counter_vals(s: Seq<Report>, idxs: Seq<int>, id: CounterId) -> Seq<Option<i64>> {
    idxs.map_values(|i: int| counter_of(s[i], id))
}

/// The mathematical sum of the counter `id` across the reports surviving
/// global deduplication for `day`: the value the rollup row stores when it
/// fits.
pub open spec fn day_sum(s: Seq<Report>, day: u64, id: CounterId) -> Option<int> {
    sum_opt(counter_vals(s, winner_indices(s, day), id))
}

/// The per-context analogue of `day_sum`, restricted to context `c`.
pub open spec fn ctx_day_sum(s: Seq<Report>, day: u64, c: Seq<char>, id: CounterId) -> Option<
    int,
> {
    sum_opt(counter_vals(s, ctx_winner_indices(s, day, c), id))
}

/// How many of the reports of `s` at `idxs` name their homeserver.
pub open spec fn some_key_count(s: Seq<Report>, idxs: Seq<int>) -> int
    decreases idxs.len(),
{
    if idxs.len() == 0 {
        0
    } else {
        some_key_count(s, idxs.drop_last()) + match s[idxs.last()].homeserver {
            Some(_) => 1int,
            None => 0int,
        }
    }
}

/// Count of distinct homeservers contributing to `day`: surviving reports
/// have pairwise distinct keys, so counting the named ones among them counts
/// the distinct named homeservers.
pub open spec fn day_active_homeservers(s: Seq<Report>, day: u64) -> int {
    some_key_count(s, winner_indices(s, day))
}

/// Count of distinct homeservers contributing to `day` under context `c`.
pub open spec fn ctx_day_active_homeservers(s: Seq<Report>, day: u64, c: Seq<char>) -> int {
    some_key_count(s, ctx_winner_indices(s, day, c))
}

/// Two surviving reports of one day never share a homeserver key.
pub proof fn lemma_winners_distinct_keys(s: Seq<Report>, day: u64, i: int, j: int)
    requires
        is_winner(s, day, i),
        is_winner(s, day, j),
        i != j,
    ensures
        hs_key(s[i]) != hs_key(s[j]),
{
    if hs_key(s[i]) == hs_key(s[j]) {
        assert(beats(s, i, j));
        assert(beats(s, j, i));
    }
}

/// The day a receipt timestamp falls on, as `day_of` describes.
pub fn day_of_timestamp(ts: u64) -> (d: u64)
    ensures
        d == day_of(ts),
{
    ts / SECONDS_PER_DAY
}

/// Whether two optional string keys are the same key.
pub fn opt_str_eq(a: &Option<String>, b: &Option<String>) -> (r: bool)
    ensures
        r == (key_view(*a) == key_view(*b)),
{
    match (a, b) {
        (Some(x), Some(y)) => x.eq(y),
        (None, None) => true,
        _ => false,
    }
}

/// Whether the report at `i` survives global deduplication for `day`.
pub fn check_winner(s: &Vec<Report>, day: u64, i: usize) -> (b: bool)
    requires
        i < s@.len(),
    ensures
        b == is_winner(s@, day, i as int),
{
    if day_of_timestamp(s[i].local_timestamp) != day {
        return false;
    }
    let mut j: usize = 0;
    while j < s.len()
        invariant
            i < s@.len(),
            0 <= j <= s@.len(),
            on_day(s@[i as int], day),
            forall|k: int|
                0 <= k < j && #[trigger] on_day(s@[k], day) && hs_key(s@[k]) == hs_key(
                    s@[i as int],
                ) ==> beats(s@, i as int, k),
        decreases s@.len() - j,
    {
        if day_of_timestamp(s[j].local_timestamp) == day && opt_str_eq(
            &s[j].homeserver,
            &s[i].homeserver,
        ) {
            let loses = s[j].local_timestamp < s[i].local_timestamp || (s[j].local_timestamp
                == s[i].local_timestamp && j <= i);
            if !loses {
                proof {
                    assert(on_day(s@[j as int], day) && hs_key(s@[j as int]) == hs_key(
                        s@[i as int],
                    ) && !beats(s@, i as int, j as int));
                }
                return false;
            }
        }
        j = j + 1;
    }
    true
}

/// Whether the report at `i` survives per-context deduplication for `day`.
pub fn check_ctx_winner(s: &Vec<Report>, day: u64, i: usize) -> (b: bool)
    requires
        i < s@.len(),
    ensures
        b == is_ctx_winner(s@, day, i as int),
{
    if day_of_timestamp(s[i].local_timestamp) != day {
        return false;
    }
    if s[i].server_context.is_none() {
        return false;
    }
    let mut j: usize = 0;
    while j < s.len()
        invariant
            i < s@.len(),
            0 <= j <= s@.len(),
            on_day(s@[i as int], day),
            ctx_key(s@[i as int]) matches Some(_),
            forall|k: int|
                0 <= k < j && #[trigger] on_day(s@[k], day) && hs_key(s@[k]) == hs_key(s@[i as int])
                    && ctx_key(s@[k]) == ctx_key(s@[i as int]) ==> beats(s@, i as int, k),
        decreases s@.len() - j,
    {
        if day_of_timestamp(s[j].local_timestamp) == day && opt_str_eq(
            &s[j].homeserver,
            &s[i].homeserver,
        ) && opt_str_eq(&s[j].server_context, &s[i].server_context) {
            let loses = s[j].local_timestamp < s[i].local_timestamp || (s[j].local_timestamp
                == s[i].local_timestamp && j <= i);
            if !loses {
                proof {
                    assert(on_day(s@[j as int], day) && hs_key(s@[j as int]) == hs_key(
                        s@[i as int],
                    ) && ctx_key(s@[j as int]) == ctx_key(s@[i as int]) && !beats(
                        s@,
                        i as int,
                        j as int,
                    ));
                }
                return false;
            }
        }
        j = j + 1;
    }
    true
}

/// Collects the indices of the reports surviving global deduplication for
/// `day`, in increasing order.
pub fn collect_winner_indices(s: &Vec<Report>, day: u64) -> (w: Vec<usize>)
    ensures
        w@.map_values(|u: usize| u as int) == winner_indices(s@, day),
        forall|k: int| 0 <= k < w@.len() ==> #[trigger] w@[k] < s@.len(),
{
    let mut w: Vec<usize> = Vec::new();
    let mut i: usize = 0;
    while i < s.len()
        invariant
            0 <= i <= s@.len(),
            w@.map_values(|u: usize| u as int) == winner_indices_upto(s@, day, i as int),
            forall|k: int| 0 <= k < w@.len() ==> #[trigger] w@[k] < s@.len(),
        decreases s@.len() - i,
    {
        if check_winner(s, day, i) {
            let ghost prev = w@;
            w.push(i);
            proof {
                assert(w@.map_values(|u: usize| u as int) =~= prev.map_values(
                    |u: usize| u as int,
                ).push(i as int));
            }
        }
        i = i + 1;
    }
    w
}

/// Collects the indices of the reports surviving per-context deduplication
/// for `day` whose context equals `c`, in increasing order.
pub fn collect_ctx_winner_indices(s: &Vec<Report>, day: u64, c: &String) -> (w: Vec<usize>)
    ensures
        w@.map_values(|u: usize| u as int) == ctx_winner_indices(s@, day, c@),
        forall|k: int| 0 <= k < w@.len() ==> #[trigger] w@[k] < s@.len(),
{
    let mut w: Vec<usize> = Vec::new();
    let mut i: usize = 0;
    while i < s.len()
        invariant
            0 <= i <= s@.len(),
            w@.map_values(|u: usize| u as int) == ctx_winner_indices_upto(s@, day, c@, i as int),
            forall|k: int| 0 <= k < w@.len() ==> #[trigger] w@[k] < s@.len(),
        decreases s@.len() - i,
    {
        if check_ctx_winner(s, day, i) {
            let same = match &s[i].server_context {
                Some(x) => x.eq(c),
                None => false,
            };
            if same {
                let ghost prev = w@;
                w.push(i);
                proof {
                    assert(w@.map_values(|u: usize| u as int) =~= prev.map_values(
                        |u: usize| u as int,
                    ).push(i as int));
                }
            }
        }
        i = i + 1;
    }
    w
}

/// Collects the distinct contexts contributing to `day`, in order of first
/// appearance.
pub fn collect_contexts(s: &Vec<Report>, day: u64) -> (cs: Vec<String>)
    ensures
        cs@.map_values(|x: String| x@) == contexts_of_day(s@, day),
{
    let mut cs: Vec<String> = Vec::new();
    let mut i: usize = 0;
    while i < s.len()
        invariant
            0 <= i <= s@.len(),
            cs@.map_values(|x: String| x@) == contexts_upto(s@, day, i as int),
        decreases s@.len() - i,
    {
        if check_ctx_winner(s, day, i) {
            match &s[i].server_context {
                Some(c) => {
                    if !contains_string(&cs, c) {
                        let ghost prev = cs@;
                        cs.push(c.clone());
                        proof {
                            assert(cs@.map_values(|x: String| x@) =~= prev.map_values(
                                |x: String| x@,
                            ).push(c@));
                        }
                    }
                },
                None => {
                    proof {
                        assert(false);
                    }
                },
            }
        }
        i = i + 1;
    }
    cs
}

/// Whether `c` already occurs (by text) in `cs`.
fn contains_string(cs: &Vec<String>, c: &String) -> (b: bool)
    ensures
        b == cs@.map_values(|x: String| x@).contains(c@),
{
    let ghost views = cs@.map_values(|x: String| x@);
    let mut i: usize = 0;
    while i < cs.len()
        invariant
            0 <= i <= cs@.len(),
            views == cs@.map_values(|x: String| x@),
            forall|k: int| 0 <= k < i ==> views[k] != c@,
        decreases cs@.len() - i,
    {
        if cs[i].eq(c) {
            proof {
                assert(views[i as int] == c@);
            }
            return true;
        }
        i = i + 1;
    }
    proof {
        if views.contains(c@) {
            let k = choose|k: int| 0 <= k < views.len() && views[k] == c@;
            assert(views[k] != c@);
        }
    }
    false
}

/// Reads the counters selected by `id` of the reports at `idxs`.
pub fn collect_counter_values(s: &Vec<Report>, idxs: &Vec<usize>, id: CounterId) -> (vals: Vec<
    Option<i64>,
>)
    requires
        forall|k: int| 0 <= k < idxs@.len() ==> #[trigger] idxs@[k] < s@.len(),
    ensures
        vals@ == counter_vals(s@, idxs@.map_values(|u: usize| u as int), id),
{
    let ghost mapped = idxs@.map_values(|u: usize| u as int);
    let mut vals: Vec<Option<i64>> = Vec::new();
    let mut k: usize = 0;
    while k < idxs.len()
        invariant
            0 <= k <= idxs@.len(),
            mapped == idxs@.map_values(|u: usize| u as int),
            forall|m: int| 0 <= m < idxs@.len() ==> #[trigger] idxs@[m] < s@.len(),
            vals@ == counter_vals(s@, mapped.take(k as int), id),
        decreases idxs@.len() - k,
    {
        let r = &s[idxs[k]];
        vals.push(r.counter(id));
        proof {
            assert(counter_vals(s@, mapped.take(k as int + 1), id) =~= counter_vals(
                s@,
                mapped.take(k as int),
                id,
            ).push(counter_of(s@[mapped[k as int]], id)));
        }
        k = k + 1;
    }
    proof {
        assert(mapped.take(mapped.len() as int) =~= mapped);
    }
    vals
}

/// Counts how many reports at `idxs` name their homeserver.
pub fn count_named_homeservers(s: &Vec<Report>, idxs: &Vec<usize>) -> (n: u64)
    requires
        forall|k: int| 0 <= k < idxs@.len() ==> #[trigger] idxs@[k] < s@.len(),
    ensures
        n == some_key_count(s@, idxs@.map_values(|u: usize| u as int)),
{
    let ghost mapped = idxs@.map_values(|u: usize| u as int);
    let mut n: usize = 0;
    let mut k: usize = 0;
    while k < idxs.len()
        invariant
            0 <= k <= idxs@.len(),
            n <= k,
            mapped == idxs@.map_values(|u: usize| u as int),
            forall|m: int| 0 <= m < idxs@.len() ==> #[trigger] idxs@[m] < s@.len(),
            n == some_key_count(s@, mapped.take(k as int)),
        decreases idxs@.len() - k,
    {
        proof {
            assert(mapped.take(k as int + 1).drop_last() =~= mapped.take(k as int));
        }
        if s[idxs[k]].homeserver.is_some() {
            n = n + 1;
        }
        k = k + 1;
    }
    proof {
        assert(mapped.take(mapped.len() as int) =~= mapped);
    }
    n as u64
}

} // verus!
