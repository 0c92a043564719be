use barad_dur::aggregate::AggregateError;
use barad_dur::model::Report;
use barad_dur::pipeline::{aggregate_tick, writer_step, WriterStep};
use barad_dur::queue::{EnqueueResult, IngestQueue};
use barad_dur::reader::{
    health_status, read_aggregated_stats, read_aggregated_stats_by_context, read_status,
    QueryParams,
};
use barad_dur::rollup::{CtxStatsTable, StatsTable};
use barad_dur::settings::{DBSettings, ServerSettings, Settings};
use barad_dur::store::ReportStore;

const DAY: u64 = 19000;
const DAY_SECS: u64 = 86400;

fn named_report(homeserver: &str, second_of_day: u64, daily_messages: i64) -> Report {
    let mut r = Report::new(DAY * DAY_SECS + second_of_day);
    r.homeserver = Some(homeserver.to_owned());
    r.daily_messages = Some(daily_messages);
    r
}

#[test]
fn backpressure_full_queue_rejects_until_drained() {
    let mut q = IngestQueue::new(1);
    assert!(matches!(
        q.try_enqueue(named_report("a.example", 100, 5)),
        EnqueueResult::Accepted
    ));
    // the queue is at capacity: the second report is handed back and the
    // producer must suspend
    let second = named_report("b.example", 200, 3);
    match q.try_enqueue(second) {
        EnqueueResult::Full(back) => {
            assert_eq!(back.homeserver.as_deref(), Some("b.example"));
            // once the writer drains one item, the retry succeeds
            let first = q.dequeue().expect("queued report");
            assert_eq!(first.homeserver.as_deref(), Some("a.example"));
            assert!(matches!(q.try_enqueue(back), EnqueueResult::Accepted));
        }
        _ => panic!("a full queue must signal Full"),
    }
    assert_eq!(q.len(), 1);
}

#[test]
fn queue_is_fifo() {
    let mut q = IngestQueue::new(8);
    for (name, i) in [("a.example", 0u64), ("b.example", 1), ("c.example", 2)] {
        assert!(matches!(
            q.try_enqueue(named_report(name, 100 + i, 1)),
            EnqueueResult::Accepted
        ));
    }
    let names: Vec<String> = (0..3)
        .map(|_| q.dequeue().unwrap().homeserver.unwrap())
        .collect();
    assert_eq!(names, ["a.example", "b.example", "c.example"]);
    assert!(q.dequeue().is_none());
}

#[test]
fn closed_queue_fails_enqueue_fatally() {
    let mut q = IngestQueue::new(4);
    q.close();
    match q.try_enqueue(named_report("a.example", 100, 5)) {
        EnqueueResult::Closed(back) => {
            assert_eq!(back.daily_messages, Some(5));
        }
        _ => panic!("a closed queue must signal Closed"),
    }
    assert_eq!(q.len(), 0);
}

#[test]
fn writer_drains_in_order_and_stops_when_closed() {
    let mut q = IngestQueue::new(4);
    let mut store = ReportStore::new();
    q.try_enqueue(named_report("a.example", 100, 5));
    q.try_enqueue(named_report("b.example", 200, 3));

    match writer_step(&mut q, &mut store) {
        WriterStep::Wrote(id) => assert_eq!(id, 0),
        _ => panic!("a queued report must be written"),
    }
    match writer_step(&mut q, &mut store) {
        WriterStep::Wrote(id) => assert_eq!(id, 1),
        _ => panic!("a queued report must be written"),
    }
    assert!(matches!(writer_step(&mut q, &mut store), WriterStep::Empty));
    q.close();
    assert!(matches!(writer_step(&mut q, &mut store), WriterStep::Stopped));

    assert_eq!(store.len(), 2);
    assert_eq!(
        store.get(0).unwrap().homeserver.as_deref(),
        Some("a.example")
    );
    assert_eq!(
        store.get(1).unwrap().homeserver.as_deref(),
        Some("b.example")
    );
    assert!(store.get(2).is_none());
}

#[test]
fn not_found_before_aggregation_and_found_with_generate() {
    let mut store = ReportStore::new();
    let mut table = StatsTable::new();
    store.insert(named_report("a.example", 100, 5));

    // without the flag: no row yet, the read reports "not computed"
    let plain = QueryParams { generate: None };
    let r = read_aggregated_stats(&store, &mut table, DAY, &plain);
    assert_eq!(read_status(&r), 404);
    assert!(r.unwrap().is_none());

    // with the flag: the pass runs inline and the row is served
    let generate = QueryParams {
        generate: Some(true),
    };
    let r = read_aggregated_stats(&store, &mut table, DAY, &generate);
    assert_eq!(read_status(&r), 200);
    let row = r.unwrap().unwrap();
    assert_eq!(row.sums.daily_messages, Some(5));

    // an explicit false does not recompute
    let off = QueryParams {
        generate: Some(false),
    };
    let r = read_aggregated_stats(&store, &mut table, DAY + 1, &off);
    assert_eq!(read_status(&r), 404);
}

#[test]
fn context_read_path_and_statuses() {
    let mut store = ReportStore::new();
    let mut ctx_table = CtxStatsTable::new();
    let mut r = named_report("a.example", 100, 5);
    r.server_context = Some("tenant".to_owned());
    store.insert(r);

    let generate = QueryParams {
        generate: Some(true),
    };
    let tenant = "tenant".to_owned();
    let got = read_aggregated_stats_by_context(&store, &mut ctx_table, DAY, &tenant, &generate);
    assert_eq!(read_status(&got), 200);
    let row = got.unwrap().unwrap();
    assert_eq!(row.server_context, "tenant");
    assert_eq!(row.sums.daily_messages, Some(5));

    // another context has no row, even after the pass
    let other = "other".to_owned();
    let plain = QueryParams { generate: None };
    let got = read_aggregated_stats_by_context(&store, &mut ctx_table, DAY, &other, &plain);
    assert_eq!(read_status(&got), 404);
}

#[test]
fn read_status_reports_failures_per_request() {
    let mut store = ReportStore::new();
    let mut table = StatsTable::new();
    store.insert(named_report("a.example", 100, i64::MAX));
    store.insert(named_report("b.example", 200, 1));

    let generate = QueryParams {
        generate: Some(true),
    };
    let r = read_aggregated_stats(&store, &mut table, DAY, &generate);
    assert_eq!(read_status(&r), 500);
    assert_eq!(r.unwrap_err(), AggregateError::CounterOverflow);
}

#[test]
fn end_to_end_push_write_aggregate_read() {
    // the three dedup-example reports travel the whole pipeline: queue,
    // writer, aggregation tick, read path
    let mut q = IngestQueue::new(64);
    let mut store = ReportStore::new();
    let mut stats = StatsTable::new();
    let mut ctx_stats = CtxStatsTable::new();

    for r in [
        named_report("a.example", 100, 5),
        named_report("a.example", 200, 8),
        named_report("b.example", 150, 3),
    ] {
        assert!(matches!(q.try_enqueue(r), EnqueueResult::Accepted));
    }
    while let WriterStep::Wrote(_) = writer_step(&mut q, &mut store) {}
    assert_eq!(store.len(), 3);

    aggregate_tick(&store, &mut stats, &mut ctx_stats, DAY).unwrap();

    let plain = QueryParams { generate: None };
    let r = read_aggregated_stats(&store, &mut stats, DAY, &plain);
    assert_eq!(read_status(&r), 200);
    let row = r.unwrap().unwrap();
    assert_eq!(row.sums.daily_messages, Some(11));
    assert_eq!(row.daily_active_homeservers, 2);
}

#[test]
fn health_status_mapping() {
    assert_eq!(health_status(true), 200);
    assert_eq!(health_status(false), 500);
}

#[test]
fn settings_redact_database_url() {
    let settings = Settings {
        server: ServerSettings {
            host: "[::]:8080".to_owned(),
        },
        database: DBSettings {
            url: "postgres://user:SECRET-REDACTED@db/stats".to_owned(),
        },
    };
    let shown = settings.database.describe();
    assert_eq!(shown, "DBSettings { url: <redacted> }");
    assert!(!shown.contains("SECRET-REDACTED"));
    assert_eq!(settings.server.host, "[::]:8080");
}
