use barad_dur::aggregate::{aggregate_stats, aggregate_stats_by_context, AggregateError};
use barad_dur::model::Report;
use barad_dur::rollup::{CtxStatsTable, StatsTable};
use barad_dur::store::ReportStore;

const DAY: u64 = 19000;
const DAY_SECS: u64 = 86400;

fn report_at(second_of_day: u64) -> Report {
    Report::new(DAY * DAY_SECS + second_of_day)
}

fn named_report(homeserver: &str, second_of_day: u64, daily_messages: i64) -> Report {
    let mut r = report_at(second_of_day);
    r.homeserver = Some(homeserver.to_owned());
    r.daily_messages = Some(daily_messages);
    r
}

#[test]
fn dedup_keeps_latest_report_per_homeserver() {
    let mut store = ReportStore::new();
    let mut table = StatsTable::new();
    store.insert(named_report("a.example", 100, 5));
    store.insert(named_report("a.example", 200, 8));
    store.insert(named_report("b.example", 150, 3));

    aggregate_stats(&store, &mut table, DAY).unwrap();
    let row = table.get(DAY).expect("row for the day");
    assert_eq!(row.day, DAY);
    assert_eq!(row.sums.daily_messages, Some(11));
    assert_eq!(row.daily_active_homeservers, 2);
    assert_eq!(row.total_messages, Some(11));
}

#[test]
fn dedup_tie_on_timestamp_prefers_later_insertion() {
    let mut store = ReportStore::new();
    let mut table = StatsTable::new();
    store.insert(named_report("a.example", 100, 5));
    store.insert(named_report("a.example", 100, 8));

    aggregate_stats(&store, &mut table, DAY).unwrap();
    let row = table.get(DAY).unwrap();
    assert_eq!(row.sums.daily_messages, Some(8));
    assert_eq!(row.daily_active_homeservers, 1);
}

#[test]
fn unnamed_homeservers_sum_but_do_not_count() {
    let mut store = ReportStore::new();
    let mut table = StatsTable::new();
    // two anonymous reports form one group: only the later one survives
    let mut r1 = report_at(100);
    r1.daily_messages = Some(4);
    let mut r2 = report_at(200);
    r2.daily_messages = Some(6);
    store.insert(r1);
    store.insert(r2);
    store.insert(named_report("a.example", 150, 1));

    aggregate_stats(&store, &mut table, DAY).unwrap();
    let row = table.get(DAY).unwrap();
    assert_eq!(row.sums.daily_messages, Some(7));
    assert_eq!(row.daily_active_homeservers, 1);
}

#[test]
fn absent_counters_stay_absent() {
    let mut store = ReportStore::new();
    let mut table = StatsTable::new();
    store.insert(named_report("a.example", 100, 5));

    aggregate_stats(&store, &mut table, DAY).unwrap();
    let row = table.get(DAY).unwrap();
    // nothing reported total_users, so the sum is absent, not zero
    assert_eq!(row.sums.total_users, None);
    assert_eq!(row.sums.daily_messages, Some(5));
    // an absent daily count still yields an absent cumulative total
    assert_eq!(row.total_e2ee_messages, None);
}

#[test]
fn day_without_reports_creates_no_row() {
    let store = ReportStore::new();
    let mut table = StatsTable::new();
    aggregate_stats(&store, &mut table, DAY).unwrap();
    assert!(table.get(DAY).is_none());
}

#[test]
fn aggregation_is_idempotent() {
    let mut store = ReportStore::new();
    let mut table = StatsTable::new();
    let mut ctx_table = CtxStatsTable::new();
    store.insert(named_report("a.example", 100, 5));
    store.insert(named_report("b.example", 200, 3));
    let mut ctx = named_report("c.example", 300, 9);
    ctx.server_context = Some("tenant".to_owned());
    ctx.daily_e2ee_messages = Some(2);
    store.insert(ctx);

    aggregate_stats(&store, &mut table, DAY).unwrap();
    aggregate_stats_by_context(&store, &mut ctx_table, DAY).unwrap();
    let first = table.get(DAY).unwrap();
    let first_ctx = ctx_table
        .get(DAY, &"tenant".to_owned())
        .expect("context row")
        .duplicate();

    aggregate_stats(&store, &mut table, DAY).unwrap();
    aggregate_stats_by_context(&store, &mut ctx_table, DAY).unwrap();
    let second = table.get(DAY).unwrap();
    let second_ctx = ctx_table.get(DAY, &"tenant".to_owned()).unwrap();

    assert_eq!(first, second);
    assert_eq!(&first_ctx, second_ctx);
}

#[test]
fn cumulative_totals_are_prefix_sums() {
    let mut store = ReportStore::new();
    let mut table = StatsTable::new();
    let counts = [10i64, 20, 30, 40];
    for (i, m) in counts.iter().enumerate() {
        let mut r = Report::new((DAY + i as u64) * DAY_SECS + 50);
        r.homeserver = Some("a.example".to_owned());
        r.daily_messages = Some(*m);
        r.daily_e2ee_messages = Some(*m / 10);
        store.insert(r);
    }
    for i in 0..counts.len() as u64 {
        aggregate_stats(&store, &mut table, DAY + i).unwrap();
    }
    let mut running = 0i64;
    let mut running_e2ee = 0i64;
    for (i, m) in counts.iter().enumerate() {
        running += m;
        running_e2ee += m / 10;
        let row = table.get(DAY + i as u64).unwrap();
        assert_eq!(row.sums.daily_messages, Some(*m));
        assert_eq!(row.total_messages, Some(running));
        assert_eq!(row.total_e2ee_messages, Some(running_e2ee));
    }
}

#[test]
fn late_report_ripples_forward_on_reaggregation() {
    let mut store = ReportStore::new();
    let mut table = StatsTable::new();
    store.insert(named_report("a.example", 100, 10));
    let mut next = Report::new((DAY + 1) * DAY_SECS + 100);
    next.homeserver = Some("a.example".to_owned());
    next.daily_messages = Some(20);
    store.insert(next);
    aggregate_stats(&store, &mut table, DAY).unwrap();
    aggregate_stats(&store, &mut table, DAY + 1).unwrap();
    assert_eq!(table.get(DAY + 1).unwrap().total_messages, Some(30));

    // a late-arriving report for the earlier day changes that day's sums;
    // re-running the later day ripples the change into its total
    store.insert(named_report("b.example", 500, 5));
    aggregate_stats(&store, &mut table, DAY).unwrap();
    assert_eq!(table.get(DAY).unwrap().sums.daily_messages, Some(15));
    assert_eq!(table.get(DAY).unwrap().total_messages, Some(15));
    aggregate_stats(&store, &mut table, DAY + 1).unwrap();
    assert_eq!(table.get(DAY + 1).unwrap().total_messages, Some(35));
}

#[test]
fn context_isolation() {
    let mut store = ReportStore::new();
    let mut table = StatsTable::new();
    let mut ctx_table = CtxStatsTable::new();

    // a report without a context counts globally but in no context row
    store.insert(named_report("a.example", 100, 5));
    let mut left = named_report("b.example", 200, 7);
    left.server_context = Some("left".to_owned());
    store.insert(left);
    let mut right = named_report("c.example", 300, 11);
    right.server_context = Some("right".to_owned());
    store.insert(right);

    aggregate_stats(&store, &mut table, DAY).unwrap();
    aggregate_stats_by_context(&store, &mut ctx_table, DAY).unwrap();

    let global = table.get(DAY).unwrap();
    assert_eq!(global.sums.daily_messages, Some(23));
    assert_eq!(global.daily_active_homeservers, 3);

    let left_row = ctx_table.get(DAY, &"left".to_owned()).unwrap();
    assert_eq!(left_row.sums.daily_messages, Some(7));
    assert_eq!(left_row.daily_active_homeservers, 1);
    assert_eq!(left_row.total_messages, Some(7));

    let right_row = ctx_table.get(DAY, &"right".to_owned()).unwrap();
    assert_eq!(right_row.sums.daily_messages, Some(11));
    assert_eq!(right_row.total_messages, Some(11));

    // the null-context report created no row of its own
    assert_eq!(ctx_table.len(), 2);
}

#[test]
fn per_context_totals_are_partitioned() {
    let mut store = ReportStore::new();
    let mut ctx_table = CtxStatsTable::new();
    for i in 0..2u64 {
        let mut a = Report::new((DAY + i) * DAY_SECS + 100);
        a.homeserver = Some("a.example".to_owned());
        a.server_context = Some("left".to_owned());
        a.daily_messages = Some(10 + i as i64);
        store.insert(a);
        let mut b = Report::new((DAY + i) * DAY_SECS + 100);
        b.homeserver = Some("b.example".to_owned());
        b.server_context = Some("right".to_owned());
        b.daily_messages = Some(100 + i as i64);
        store.insert(b);
    }
    aggregate_stats_by_context(&store, &mut ctx_table, DAY).unwrap();
    aggregate_stats_by_context(&store, &mut ctx_table, DAY + 1).unwrap();

    let left = ctx_table.get(DAY + 1, &"left".to_owned()).unwrap();
    assert_eq!(left.total_messages, Some(21));
    let right = ctx_table.get(DAY + 1, &"right".to_owned()).unwrap();
    assert_eq!(right.total_messages, Some(201));
}

#[test]
fn counter_overflow_is_fatal_and_writes_nothing() {
    let mut store = ReportStore::new();
    let mut table = StatsTable::new();
    store.insert(named_report("a.example", 100, i64::MAX));
    store.insert(named_report("b.example", 200, 1));

    let err = aggregate_stats(&store, &mut table, DAY).unwrap_err();
    assert_eq!(err, AggregateError::CounterOverflow);
    assert!(table.get(DAY).is_none());
}

#[test]
fn total_overflow_is_fatal_after_sums_commit() {
    let mut store = ReportStore::new();
    let mut table = StatsTable::new();
    store.insert(named_report("a.example", 100, i64::MAX));
    let mut next = Report::new((DAY + 1) * DAY_SECS + 100);
    next.homeserver = Some("a.example".to_owned());
    next.daily_messages = Some(1);
    store.insert(next);

    aggregate_stats(&store, &mut table, DAY).unwrap();
    assert_eq!(table.get(DAY).unwrap().total_messages, Some(i64::MAX));

    let err = aggregate_stats(&store, &mut table, DAY + 1).unwrap_err();
    assert_eq!(err, AggregateError::TotalOverflow);
    // the per-day sums of the second day were committed, its totals not
    let row = table.get(DAY + 1).unwrap();
    assert_eq!(row.sums.daily_messages, Some(1));
    assert_eq!(row.total_messages, None);
}

#[test]
fn context_counter_overflow_is_fatal_and_writes_nothing() {
    let mut store = ReportStore::new();
    let mut ctx_table = CtxStatsTable::new();
    let mut a = named_report("a.example", 100, i64::MAX);
    a.server_context = Some("tenant".to_owned());
    store.insert(a);
    let mut b = named_report("b.example", 200, 1);
    b.server_context = Some("tenant".to_owned());
    store.insert(b);

    let err = aggregate_stats_by_context(&store, &mut ctx_table, DAY).unwrap_err();
    assert_eq!(err, AggregateError::CounterOverflow);
    assert_eq!(ctx_table.len(), 0);
}

#[test]
fn dedup_groups_by_homeserver_and_context() {
    // one homeserver reporting under two contexts contributes to both
    let mut store = ReportStore::new();
    let mut ctx_table = CtxStatsTable::new();
    let mut a1 = named_report("a.example", 100, 5);
    a1.server_context = Some("left".to_owned());
    store.insert(a1);
    let mut a2 = named_report("a.example", 200, 7);
    a2.server_context = Some("right".to_owned());
    store.insert(a2);

    aggregate_stats_by_context(&store, &mut ctx_table, DAY).unwrap();
    let left = ctx_table.get(DAY, &"left".to_owned()).unwrap();
    assert_eq!(left.sums.daily_messages, Some(5));
    let right = ctx_table.get(DAY, &"right".to_owned()).unwrap();
    assert_eq!(right.sums.daily_messages, Some(7));
}
