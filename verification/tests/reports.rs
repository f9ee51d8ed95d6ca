use table_digest::catalog::{
    clamp_estimate, effective_workers, parse_table_arg, total_bytes, total_rows, RunConfig,
    TableDescriptor,
};
use table_digest::partition::partition_round_robin;
use table_digest::progress::{
    combine_summaries, progress_line, set_size, single_table_line, summary_line, table_line,
    DigestResult, ProgressReporter, ProgressTick, WorkerSummary,
};

fn table(schema: &str, name: &str, rows: i64, bytes: i64) -> TableDescriptor {
    TableDescriptor::from_catalog(schema.to_string(), name.to_string(), rows, bytes)
}

#[test]
fn table_argument_with_schema() {
    assert_eq!(parse_table_arg("sales.orders"), ("sales".to_string(), "orders".to_string()));
}

#[test]
fn table_argument_without_schema() {
    assert_eq!(parse_table_arg("orders"), ("public".to_string(), "orders".to_string()));
    assert_eq!(parse_table_arg(""), ("public".to_string(), "".to_string()));
}

#[test]
fn table_argument_is_cut_at_the_first_dot() {
    assert_eq!(parse_table_arg("a.b.c"), ("a".to_string(), "b.c".to_string()));
    assert_eq!(parse_table_arg(".t"), ("".to_string(), "t".to_string()));
    assert_eq!(parse_table_arg("s."), ("s".to_string(), "".to_string()));
    assert_eq!(parse_table_arg("."), ("".to_string(), "".to_string()));
    assert_eq!(parse_table_arg("größe.maß"), ("größe".to_string(), "maß".to_string()));
}

#[test]
fn negative_estimates_count_as_zero() {
    assert_eq!(clamp_estimate(-1), 0);
    assert_eq!(clamp_estimate(i64::MIN), 0);
    assert_eq!(clamp_estimate(0), 0);
    assert_eq!(clamp_estimate(42), 42);
    assert_eq!(clamp_estimate(i64::MAX), i64::MAX as u64);
    let t = table("s", "t", -7, 100);
    assert_eq!(t.schema, "s");
    assert_eq!(t.name, "t");
    assert_eq!(t.estimated_row_count, 0);
    assert_eq!(t.total_byte_size, 100);
}

#[test]
fn totals_of_a_table_list() {
    let tables = vec![table("a", "x", 10, 1000), table("a", "y", 5, 24), table("b", "z", 0, 0)];
    assert_eq!(total_rows(&tables), Some(15));
    assert_eq!(total_bytes(&tables), Some(1024));
    assert_eq!(total_rows(&Vec::new()), Some(0));
    assert_eq!(total_bytes(&Vec::new()), Some(0));
}

#[test]
fn totals_that_do_not_fit() {
    let tables = vec![
        table("a", "x", i64::MAX, 1),
        table("a", "y", i64::MAX, 2),
        table("a", "z", 1, 3),
    ];
    assert_eq!(total_rows(&tables), Some(u64::MAX));
    let mut more = tables.clone();
    more.push(table("a", "w", 1, i64::MAX));
    assert_eq!(total_rows(&more), None);
    assert_eq!(total_bytes(&more), Some(i64::MAX as u64 + 6));
}

#[test]
fn at_least_one_worker() {
    assert_eq!(effective_workers(0), 1);
    assert_eq!(effective_workers(1), 1);
    assert_eq!(effective_workers(8), 8);
}

#[test]
fn workers_cover_the_table_list_once() {
    let tables: Vec<TableDescriptor> =
        (0..11).map(|i| table("s", &format!("t{}", i), i * 10, i * 1000 + 1)).collect();
    let set_rows = total_rows(&tables).unwrap();
    let set_bytes = total_bytes(&tables).unwrap();
    for k in 1..6 {
        let parts = partition_round_robin(tables.clone(), k);
        let mut summaries = Vec::new();
        for part in parts.iter().rev() {
            let mut summary = WorkerSummary::new();
            for t in part {
                summary.record_table(t, 5);
            }
            summaries.push(summary);
        }
        let total = combine_summaries(&summaries).unwrap();
        assert_eq!(total.rows_done, set_rows);
        assert_eq!(total.bytes_done, set_bytes);
        assert_eq!(total.time_spent_nanos, 55);
    }
}

#[test]
fn summaries_add_up_in_any_order() {
    let a = WorkerSummary { bytes_done: 1, rows_done: 10, time_spent_nanos: 100 };
    let b = WorkerSummary { bytes_done: 2, rows_done: 20, time_spent_nanos: 200 };
    let c = WorkerSummary { bytes_done: 3, rows_done: 30, time_spent_nanos: 300 };
    let expected = WorkerSummary { bytes_done: 6, rows_done: 60, time_spent_nanos: 600 };
    assert_eq!(combine_summaries(&vec![a, b, c]), Some(expected));
    assert_eq!(combine_summaries(&vec![c, a, b]), Some(expected));
    assert_eq!(combine_summaries(&Vec::new()), Some(WorkerSummary::new()));
}

#[test]
fn summaries_that_do_not_fit() {
    let a = WorkerSummary { bytes_done: u64::MAX, rows_done: 0, time_spent_nanos: 0 };
    let b = WorkerSummary { bytes_done: 1, rows_done: 0, time_spent_nanos: 0 };
    assert_eq!(combine_summaries(&vec![a, b]), None);
    let c = WorkerSummary { bytes_done: 0, rows_done: 0, time_spent_nanos: u64::MAX };
    let d = WorkerSummary { bytes_done: 0, rows_done: 0, time_spent_nanos: 1 };
    assert_eq!(combine_summaries(&vec![c, d]), None);
    assert_eq!(combine_summaries(&vec![a, c]), Some(WorkerSummary {
        bytes_done: u64::MAX,
        rows_done: 0,
        time_spent_nanos: u64::MAX
    }));
}

#[test]
fn set_size_falls_back_to_the_workers() {
    assert_eq!(set_size(500, 400), 500);
    assert_eq!(set_size(0, 400), 400);
    assert_eq!(set_size(0, 0), 0);
}

#[test]
fn silent_reporter_never_reports() {
    let mut reporter = ProgressReporter::new(0);
    assert!(!reporter.enabled());
    assert_eq!(reporter.record_read(100, 1_000, u64::MAX), None);
    assert_eq!(reporter.record_read(100, 1_000, 0), None);
    assert_eq!(reporter.streamed(), 200);
    assert_eq!(reporter.read_nanos(), 2_000);
}

#[test]
fn report_when_the_interval_has_passed() {
    let mut reporter = ProgressReporter::new(2);
    assert!(reporter.enabled());
    assert_eq!(reporter.record_read(1000, 500_000_000, 1_999_999_999), None);
    let tick = reporter.record_read(3000, 500_000_000, 2_000_000_000).unwrap();
    assert_eq!(tick, ProgressTick { instant_rate: 2000, average_rate: 4000, total_bytes: 4000 });
    assert_eq!(reporter.record_read(1000, 1_000_000_000, 10), None);
    let tick = reporter.record_read(1000, 1_000_000_000, 4_000_000_000).unwrap();
    assert_eq!(tick, ProgressTick { instant_rate: 500, average_rate: 2000, total_bytes: 6000 });
}

#[test]
fn rates_without_read_time_are_zero() {
    let mut reporter = ProgressReporter::new(1);
    let tick = reporter.record_read(1000, 0, 1_000_000_000).unwrap();
    assert_eq!(tick, ProgressTick { instant_rate: 1000, average_rate: 0, total_bytes: 1000 });
}

#[test]
fn progress_line_text() {
    let tick = ProgressTick { instant_rate: 1536, average_rate: 1024 * 1024, total_bytes: 3 << 30 };
    assert_eq!(
        progress_line("public", "orders", 12_340_000_000, tick),
        "PG public.orders t=12.3s inst 1.50 KB/s avg 1.00 MB/s total 3.00 GB"
    );
    let idle = ProgressTick { instant_rate: 0, average_rate: 0, total_bytes: 0 };
    assert_eq!(
        progress_line("s", "t", 0, idle),
        "PG s.t t=0.0s inst 0.00 KB/s avg 0.00 KB/s total 0.00 KB"
    );
    assert_eq!(
        progress_line("s", "t", 250_000_000, idle),
        "PG s.t t=0.2s inst 0.00 KB/s avg 0.00 KB/s total 0.00 KB"
    );
}

#[test]
fn table_line_text() {
    let t = table("public", "orders", 1000, 1536);
    let result = DigestResult::for_table(&t, "abc123".to_string(), 2048, 500_000_000);
    assert_eq!(
        table_line(&t, &result, 3072, 4000),
        "public.orders abc123 size 1.50 KB (50.00% of set) rows~1000 (25.00% of set) took 500ms rate 4.00 KB/s"
    );
    assert_eq!(
        table_line(&t, &DigestResult::nothing_to_scan(&t), 0, 0),
        "public.orders  size 1.50 KB (0.00% of set) rows~1000 (0.00% of set) took 0ms rate 0.00 KB/s"
    );
}

#[test]
fn digest_result_fields() {
    let t = table("sales", "orders", 3, 4);
    let result = DigestResult::for_table(&t, "00ff".to_string(), 3000, 2_000_000_000);
    assert_eq!(result.table_id, "sales.orders");
    assert_eq!(result.digest_hex, "00ff");
    assert_eq!(result.processed, 3000);
    assert_eq!(result.elapsed_nanos, 2_000_000_000);
    assert_eq!(result.rate(), 1500);
    let nothing = DigestResult::nothing_to_scan(&t);
    assert_eq!(nothing.table_id, "sales.orders");
    assert_eq!(nothing.digest_hex, "");
    assert_eq!(nothing.processed, 0);
    assert_eq!(nothing.elapsed_nanos, 0);
    assert_eq!(nothing.rate(), 0);
}

#[test]
fn configuration_defaults() {
    let config = RunConfig::from_options(None, None, None);
    assert_eq!(config, RunConfig { workers: 1, hash_threads: None, report_interval_secs: 0 });
    let config = RunConfig::from_options(Some(0), Some(4), Some(30));
    assert_eq!(config, RunConfig { workers: 1, hash_threads: Some(4), report_interval_secs: 30 });
    let config = RunConfig::from_options(Some(6), None, Some(0));
    assert_eq!(config, RunConfig { workers: 6, hash_threads: None, report_interval_secs: 0 });
}

#[test]
fn single_table_line_text() {
    let t = table("public", "orders", 7, 1024 * 1024);
    let result = DigestResult::for_table(&t, "ff00".to_string(), 1024 * 1024, 2_000_000_000);
    assert_eq!(
        single_table_line(&t, &result),
        "public.orders ff00 size 1.00 MB rows~7 took 2.00s rate 512.00 KB/s"
    );
}

#[test]
fn summary_line_text() {
    assert_eq!(
        summary_line(12, 1536, 3 << 30, 123456, 125_000_000_000),
        "SUMMARY tables=12 set_size=1.50 KB db_size=3.00 GB rows~123456 took 2m5s"
    );
    assert_eq!(
        summary_line(0, 0, 0, 0, 0),
        "SUMMARY tables=0 set_size=0.00 KB db_size=0.00 KB rows~0 took 0ms"
    );
}
