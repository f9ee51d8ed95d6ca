use table_digest::database::{table_identifier, tables_to_hash, CatalogRow, ResultSequence};
use table_digest::row_digest::{digest_rows, FetchedRow};
use table_digest::table_scan::{
    effective_batch_rows, ScanAction, ScanEvent, ScanPhase, TableScan, DEFAULT_BATCH_ROWS,
};

fn encoded(text: &str) -> FetchedRow {
    FetchedRow::Encoded(text.as_bytes().to_vec())
}

fn resolved() -> ScanEvent {
    ScanEvent::Resolved { schema: "public".to_string(), table: "orders".to_string() }
}

fn to_fetching(scan: &mut TableScan) {
    assert!(matches!(scan.step(ScanEvent::Start), ScanAction::Connect));
    assert!(matches!(scan.step(ScanEvent::Connected), ScanAction::ResolveName { .. }));
    assert!(matches!(scan.step(resolved()), ScanAction::OpenCursor { .. }));
    assert!(matches!(scan.step(ScanEvent::CursorOpened), ScanAction::Fetch { .. }));
}

fn finished(action: ScanAction) -> (String, u64, bool, bool) {
    match action {
        ScanAction::Finish { digest, undecodable, close_cursor, close_session } => {
            (digest, undecodable, close_cursor, close_session)
        }
        other => panic!("the scan goes on: {:?}", other),
    }
}

#[test]
fn batch_rows_default() {
    assert_eq!(DEFAULT_BATCH_ROWS, 10000);
    assert_eq!(effective_batch_rows(0), 10000);
    assert_eq!(effective_batch_rows(-5), 10000);
    assert_eq!(effective_batch_rows(i32::MIN), 10000);
    assert_eq!(effective_batch_rows(1), 1);
    assert_eq!(effective_batch_rows(250), 250);
    assert_eq!(effective_batch_rows(i32::MAX), i32::MAX as i64);
}

#[test]
fn a_whole_scan() {
    let mut scan = TableScan::new(16384, 2);
    assert_eq!(scan.phase(), ScanPhase::Idle);
    assert!(matches!(scan.step(ScanEvent::Start), ScanAction::Connect));
    assert_eq!(scan.phase(), ScanPhase::Connecting);
    match scan.step(ScanEvent::Connected) {
        ScanAction::ResolveName { query } => assert!(query.ends_with("where c.oid = 16384")),
        other => panic!("{:?}", other),
    }
    assert_eq!(scan.phase(), ScanPhase::Resolving);
    match scan.step(resolved()) {
        ScanAction::OpenCursor { query } => {
            assert_eq!(query, "select to_jsonb(t) from \"public\".\"orders\" t")
        }
        other => panic!("{:?}", other),
    }
    assert_eq!(scan.phase(), ScanPhase::Opening);
    assert!(matches!(scan.step(ScanEvent::CursorOpened), ScanAction::Fetch { max_rows: 2 }));
    assert_eq!(scan.phase(), ScanPhase::Fetching);
    let first = ScanEvent::Batch(vec![encoded("1"), encoded("2")]);
    assert!(matches!(scan.step(first), ScanAction::Fetch { max_rows: 2 }));
    let second = ScanEvent::Batch(vec![encoded("3")]);
    assert!(matches!(scan.step(second), ScanAction::Fetch { max_rows: 2 }));
    assert_eq!(scan.rows_fetched(), 3);
    let (digest, undecodable, close_cursor, close_session) =
        finished(scan.step(ScanEvent::EndOfData));
    assert_eq!(scan.phase(), ScanPhase::Finished);
    assert_eq!(undecodable, 0);
    assert!(close_cursor && close_session);
    let rows = vec![b"3".to_vec(), b"1".to_vec(), b"2".to_vec()];
    assert_eq!(digest, digest_rows(&rows));
}

#[test]
fn default_batch_size_is_asked_for() {
    let mut scan = TableScan::new(1, 0);
    scan.step(ScanEvent::Start);
    scan.step(ScanEvent::Connected);
    scan.step(resolved());
    assert!(matches!(scan.step(ScanEvent::CursorOpened), ScanAction::Fetch { max_rows: 10000 }));
}

#[test]
fn connection_failure_gives_empty_digest() {
    let mut scan = TableScan::new(1, 10);
    scan.step(ScanEvent::Start);
    let (digest, undecodable, close_cursor, close_session) =
        finished(scan.step(ScanEvent::ConnectFailed));
    assert_eq!(digest, "");
    assert_eq!(undecodable, 0);
    assert!(!close_cursor && !close_session);
}

#[test]
fn unresolved_table_gives_empty_digest() {
    let mut scan = TableScan::new(1, 10);
    scan.step(ScanEvent::Start);
    scan.step(ScanEvent::Connected);
    let (digest, _, close_cursor, close_session) = finished(scan.step(ScanEvent::Unresolved));
    assert_eq!(digest, "");
    assert!(!close_cursor && close_session);
}

#[test]
fn cursor_failure_gives_empty_digest() {
    let mut scan = TableScan::new(1, 10);
    scan.step(ScanEvent::Start);
    scan.step(ScanEvent::Connected);
    scan.step(resolved());
    let (digest, _, close_cursor, close_session) = finished(scan.step(ScanEvent::CursorFailed));
    assert_eq!(digest, "");
    assert!(!close_cursor && close_session);
}

#[test]
fn table_without_rows_has_the_empty_set_digest() {
    let mut scan = TableScan::new(1, 10);
    to_fetching(&mut scan);
    let (digest, _, _, _) = finished(scan.step(ScanEvent::EndOfData));
    assert_eq!(digest, digest_rows(&Vec::new()));
    assert_ne!(digest, "");
}

#[test]
fn empty_batch_ends_the_scan() {
    let mut scan = TableScan::new(1, 10);
    to_fetching(&mut scan);
    scan.step(ScanEvent::Batch(vec![encoded("a")]));
    let (digest, _, close_cursor, close_session) =
        finished(scan.step(ScanEvent::Batch(Vec::new())));
    assert_eq!(digest, digest_rows(&vec![b"a".to_vec()]));
    assert!(close_cursor && close_session);
}

#[test]
fn undecodable_rows_are_passed_over_and_counted() {
    let mut scan = TableScan::new(1, 10);
    to_fetching(&mut scan);
    scan.step(ScanEvent::Batch(vec![
        encoded("a"),
        FetchedRow::Undecodable,
        FetchedRow::Null,
        encoded("b"),
    ]));
    scan.step(ScanEvent::Batch(vec![FetchedRow::Undecodable]));
    assert_eq!(scan.rows_fetched(), 5);
    let (digest, undecodable, _, _) = finished(scan.step(ScanEvent::EndOfData));
    assert_eq!(undecodable, 2);
    assert_eq!(digest, digest_rows(&vec![b"a".to_vec(), b"b".to_vec()]));
}

#[test]
fn batching_does_not_change_the_digest() {
    let rows: Vec<Vec<u8>> = (0..12).map(|i| format!("{{\"id\": {}}}", i).into_bytes()).collect();
    let expected = digest_rows(&rows);
    for size in [1usize, 2, 5, 12, 100] {
        let mut scan = TableScan::new(7, size as i32);
        to_fetching(&mut scan);
        for chunk in rows.chunks(size) {
            let batch = chunk.iter().map(|r| FetchedRow::Encoded(r.clone())).collect();
            assert!(matches!(scan.step(ScanEvent::Batch(batch)), ScanAction::Fetch { .. }));
        }
        let (digest, _, _, _) = finished(scan.step(ScanEvent::EndOfData));
        assert_eq!(digest, expected);
    }
}

#[test]
fn event_out_of_turn_ends_the_scan() {
    let mut scan = TableScan::new(1, 10);
    let (digest, _, close_cursor, close_session) = finished(scan.step(ScanEvent::EndOfData));
    assert_eq!(digest, "");
    assert!(!close_cursor && !close_session);
    assert_eq!(scan.phase(), ScanPhase::Finished);

    let mut scan = TableScan::new(1, 10);
    to_fetching(&mut scan);
    scan.step(ScanEvent::Batch(vec![encoded("a")]));
    let (digest, _, close_cursor, close_session) = finished(scan.step(ScanEvent::Connected));
    assert_eq!(digest, "");
    assert!(close_cursor && close_session);
}

#[test]
fn nothing_follows_the_end() {
    let mut scan = TableScan::new(1, 10);
    to_fetching(&mut scan);
    finished(scan.step(ScanEvent::EndOfData));
    let (digest, _, close_cursor, close_session) = finished(scan.step(ScanEvent::Start));
    assert_eq!(digest, "");
    assert!(!close_cursor && !close_session);
}

#[test]
fn identifiers_are_schema_dot_table() {
    assert_eq!(table_identifier("public", "orders"), "public.orders");
    assert_eq!(table_identifier("", ""), ".");
    assert_eq!(table_identifier("a.b", "c\"d"), "a.b.c\"d");
}

#[test]
fn targets_in_catalog_order_without_undecodable_rows() {
    let listing = vec![
        CatalogRow::Table { schema: "a".to_string(), table: "t1".to_string(), oid: 10 },
        CatalogRow::Undecodable,
        CatalogRow::Table { schema: "b".to_string(), table: "t2".to_string(), oid: 11 },
    ];
    let targets = tables_to_hash(Some(&listing));
    assert_eq!(targets.len(), 2);
    assert_eq!(targets[0].identifier, "a.t1");
    assert_eq!(targets[0].oid, 10);
    assert_eq!(targets[1].identifier, "b.t2");
    assert_eq!(targets[1].oid, 11);
}

#[test]
fn no_listing_no_targets() {
    assert!(tables_to_hash(None).is_empty());
    assert!(tables_to_hash(Some(&Vec::new())).is_empty());
}

#[test]
fn results_come_once_and_in_order() {
    let mut results = ResultSequence::new(vec![
        ("a.t1".to_string(), "d1".to_string()),
        ("b.t2".to_string(), "d2".to_string()),
    ]);
    assert_eq!(results.remaining_len(), 2);
    assert_eq!(results.next_result(), Some(("a.t1".to_string(), "d1".to_string())));
    assert_eq!(results.remaining_len(), 1);
    assert_eq!(results.next_result(), Some(("b.t2".to_string(), "d2".to_string())));
    assert_eq!(results.next_result(), None);
    assert_eq!(results.next_result(), None);
    assert_eq!(results.remaining_len(), 0);
}

#[test]
fn empty_results() {
    let mut results = ResultSequence::empty();
    assert_eq!(results.remaining_len(), 0);
    assert_eq!(results.next_result(), None);
}
