use cleopatra::models::{CreateTestResult, CreateTestResultBase, Status};
use cleopatra::store::{sweep_statement, upsert_statement, Binding, ResultTable};
use cleopatra::sweeper::{expired, retention_cutoff};

fn payload(execution_id: i64, name: &str, status: Status, time_created: i64) -> CreateTestResult {
    CreateTestResult {
        execution_id,
        base: CreateTestResultBase {
            name: name.to_string(),
            platform: "web".to_string(),
            description: None,
            status,
            execution_time: None,
            log: None,
            screenshot_id: None,
            created_by: Some("u".to_string()),
            time_created,
        },
    }
}

#[test]
fn a_first_upsert_makes_a_row_with_counter_one() {
    let mut table = ResultTable::new();
    table.upsert(&payload(1, "t_a", Status::P, 5));
    assert_eq!(table.len(), 1);
    let row = table.find(1, "t_a").expect("the row");
    assert_eq!(row.id, Some(1));
    assert_eq!(row.counter, 1);
    assert_eq!(row.status, Status::P);
    assert_eq!(row.execution_id, 1);
    assert_eq!(row.platform, "web");
    assert_eq!(row.time_created, 5);
}

#[test]
fn a_second_upsert_of_the_key_overwrites_and_counts() {
    let mut table = ResultTable::new();
    table.upsert(&payload(1, "t_a", Status::P, 5));
    let mut second = payload(1, "t_a", Status::F, 9);
    second.base.execution_time = Some(99);
    second.base.description = Some("Second run".to_string());
    second.base.created_by = None;
    table.upsert(&second);
    assert_eq!(table.len(), 1);
    let row = table.find(1, "t_a").expect("the row");
    assert_eq!(row.id, Some(1));
    assert_eq!(row.counter, 2);
    assert_eq!(row.status, Status::F);
    assert_eq!(row.execution_time, Some(99));
    assert_eq!(row.description, Some("Second run".to_string()));
    assert_eq!(row.created_by, None);
    assert_eq!(row.time_created, 9);
}

#[test]
fn the_counter_counts_the_acceptances_of_a_key() {
    let mut table = ResultTable::new();
    let batch: Vec<CreateTestResult> = (0..7).map(|i| payload(3, "t", Status::I, i)).collect();
    table.flush(&batch);
    assert_eq!(table.len(), 1);
    let row = table.find(3, "t").expect("the row");
    assert_eq!(row.counter, 7);
    assert_eq!(row.time_created, 6);
}

#[test]
fn keys_differ_by_execution_and_by_name() {
    let mut table = ResultTable::new();
    table.upsert(&payload(1, "t_a", Status::P, 1));
    table.upsert(&payload(2, "t_a", Status::F, 1));
    table.upsert(&payload(1, "t_b", Status::I, 1));
    table.upsert(&payload(1, "T_A", Status::I, 1));
    assert_eq!(table.len(), 4);
    assert_eq!(table.find(1, "t_a").expect("row").id, Some(1));
    assert_eq!(table.find(2, "t_a").expect("row").id, Some(2));
    assert_eq!(table.find(1, "t_b").expect("row").id, Some(3));
    assert_eq!(table.find(1, "T_A").expect("row").id, Some(4));
    assert!(table.find(2, "t_b").is_none());
}

#[test]
fn a_batch_is_applied_in_its_order() {
    let mut table = ResultTable::new();
    let batch = vec![
        payload(1, "a", Status::P, 1),
        payload(1, "b", Status::P, 2),
        payload(1, "a", Status::F, 3),
        payload(1, "a", Status::I, 4),
        payload(1, "b", Status::F, 5),
    ];
    table.flush(&batch);
    assert_eq!(table.len(), 2);
    let a = table.find(1, "a").expect("row a");
    assert_eq!((a.counter, a.status, a.time_created), (3, Status::I, 4));
    let b = table.find(1, "b").expect("row b");
    assert_eq!((b.counter, b.status, b.time_created), (2, Status::F, 5));
}

#[test]
fn two_flushes_leave_what_one_flush_of_both_leaves() {
    let first = vec![payload(1, "a", Status::P, 1), payload(1, "b", Status::P, 2)];
    let second = vec![payload(1, "a", Status::F, 3), payload(1, "c", Status::I, 4)];
    let mut parts = ResultTable::new();
    parts.flush(&first);
    parts.flush(&second);
    let mut whole = ResultTable::new();
    let mut both = first.clone();
    both.extend(second.iter().cloned());
    whole.flush(&both);
    assert_eq!(parts.len(), whole.len());
    for name in ["a", "b", "c"] {
        let p = parts.find(1, name).expect("row");
        let w = whole.find(1, name).expect("row");
        assert_eq!((p.id, p.counter, p.status, p.time_created), (w.id, w.counter, w.status, w.time_created));
    }
}

#[test]
fn an_empty_batch_changes_nothing() {
    let mut table = ResultTable::new();
    table.upsert(&payload(1, "a", Status::P, 1));
    table.flush(&Vec::new());
    assert_eq!(table.len(), 1);
    assert_eq!(table.find(1, "a").expect("row").counter, 1);
}

#[test]
fn the_upsert_binds_every_column_of_the_payload_in_order() {
    let mut p = payload(7, "t_a", Status::F, 99);
    p.base.execution_time = Some(12);
    p.base.log = Some("l".to_string());
    let statement = upsert_statement(&p);
    assert!(statement.text.starts_with("INSERT INTO test_result (execution_id, name, platform,"));
    assert!(statement.text.contains("VALUES (?, ?, ?, ?, ?, ?, 1, ?, ?, ?, ?)"));
    assert!(statement.text.contains("ON CONFLICT(execution_id, name) DO UPDATE SET"));
    assert!(statement.text.contains("counter = test_result.counter + 1"));
    assert!(statement.text.contains("created_by = excluded.created_by"));
    assert!(statement.text.ends_with("time_created = excluded.time_created"));
    assert_eq!(statement.text.matches('?').count(), 10);
    let shown: Vec<String> = statement.bindings.iter().map(|b| format!("{:?}", b)).collect();
    assert_eq!(
        shown,
        vec![
            "Integer(7)",
            "Text(\"t_a\")",
            "Text(\"web\")",
            "Null",
            "Text(\"F\")",
            "Integer(12)",
            "Text(\"l\")",
            "Null",
            "Text(\"u\")",
            "Integer(99)",
        ]
    );
}

#[test]
fn the_sweep_deletes_by_the_cutoff() {
    let statement = sweep_statement(1234);
    assert_eq!(statement.text, "DELETE FROM test_result WHERE time_created < ?");
    assert_eq!(statement.bindings.len(), 1);
    assert!(matches!(statement.bindings[0], Binding::Integer(1234)));
}

#[test]
fn the_cutoff_lies_the_retention_before_now() {
    assert_eq!(retention_cutoff(1_000_000, 1), 1_000_000 - 86_400);
    assert_eq!(retention_cutoff(1_700_000_000, 90), 1_700_000_000 - 90 * 86_400);
    assert_eq!(retention_cutoff(500, 0), 500);
    assert_eq!(retention_cutoff(0, 2), -172_800);
}

#[test]
fn the_cutoff_stops_at_the_earliest_time() {
    assert_eq!(retention_cutoff(i64::MIN, 1), i64::MIN);
    assert_eq!(retention_cutoff(i64::MIN + 86_400, 1), i64::MIN);
    assert_eq!(retention_cutoff(i64::MIN + 86_401, 1), i64::MIN + 1);
    assert_eq!(retention_cutoff(i64::MAX, u32::MAX), i64::MAX - (u32::MAX as i64) * 86_400);
}

#[test]
fn a_row_expires_strictly_before_the_cutoff() {
    assert!(expired(9, 10));
    assert!(!expired(10, 10));
    assert!(!expired(11, 10));
}

#[test]
fn a_sweep_deletes_the_rows_before_the_cutoff() {
    let mut table = ResultTable::new();
    table.upsert(&payload(1, "old", Status::P, 100));
    table.upsert(&payload(1, "edge", Status::P, 200));
    table.upsert(&payload(1, "new", Status::P, 300));
    assert_eq!(table.sweep(200), 1);
    assert_eq!(table.len(), 2);
    assert!(table.find(1, "old").is_none());
    assert_eq!(table.find(1, "edge").expect("row").id, Some(2));
    assert_eq!(table.find(1, "new").expect("row").id, Some(3));
    table.upsert(&payload(1, "old", Status::F, 400));
    let again = table.find(1, "old").expect("row");
    assert_eq!((again.id, again.counter), (Some(4), 1));
}

#[test]
fn a_retention_of_zero_days_deletes_every_row() {
    let now = 1_700_000_000;
    let mut table = ResultTable::new();
    table.upsert(&payload(1, "a", Status::P, now - 1));
    table.upsert(&payload(1, "b", Status::F, now - 86_400));
    table.upsert(&payload(2, "a", Status::I, 0));
    let cutoff = retention_cutoff(now, 0);
    assert_eq!(table.sweep(cutoff), 3);
    assert_eq!(table.len(), 0);
}
