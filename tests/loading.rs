use sqlingest::error::IngestError;
use sqlingest::loader::{Action, Event, FailPolicy, Loader, Phase, RowFailure};
use sqlingest::schema::{resolve, TableTarget};
use sqlingest::sql::BatchMode;
use sqlingest::value::{Record, Value};

fn rec(fields: Vec<(&str, Value)>) -> Record {
    let mut r = Record::new();
    for (k, v) in fields {
        assert!(r.push(k.to_string(), v));
    }
    r
}

fn cols(names: &[&str]) -> Vec<String> {
    names.iter().map(|s| s.to_string()).collect()
}

fn loader(policy: FailPolicy) -> Loader {
    Loader::new("t".to_string(), cols(&["a", "b"]), policy, BatchMode::PerRow).unwrap()
}

fn begun(policy: FailPolicy) -> Loader {
    let mut l = loader(policy);
    assert!(matches!(l.step(Event::Begun), Action::Pull));
    l
}

fn execute(l: &mut Loader, r: Record) -> (String, Vec<Value>) {
    match l.step(Event::Next(r)) {
        Action::Execute(st) => (st.sql, st.params),
        other => panic!("expected a statement, got {:?}", other),
    }
}

#[test]
fn scenario_best_effort_two_rows() {
    let mut l = begun(FailPolicy::BestEffort);
    let (sql, params) = execute(
        &mut l,
        rec(vec![("a", Value::Integer(1)), ("b", Value::Text("x".to_string()))]),
    );
    assert_eq!(sql, "INSERT INTO t (a,b) VALUES (?,?)");
    assert_eq!(params, vec![Value::Integer(1), Value::Text("x".to_string())]);
    assert!(matches!(l.step(Event::RowDone), Action::Pull));
    let (_, params) = execute(&mut l, rec(vec![("a", Value::Integer(2))]));
    assert_eq!(params, vec![Value::Integer(2), Value::Null]);
    assert!(matches!(l.step(Event::RowDone), Action::Pull));
    assert!(matches!(l.step(Event::SourceEnd), Action::Commit));
    assert!(matches!(l.step(Event::Committed), Action::Finish));
    assert_eq!(l.phase(), Phase::Closed);
    let o = l.into_result().unwrap();
    assert_eq!((o.attempted, o.committed), (2, 2));
    assert!(o.failed.is_empty());
}

#[test]
fn empty_source_is_no_error() {
    for policy in [FailPolicy::FailFast, FailPolicy::BestEffort] {
        let mut l = begun(policy);
        assert!(matches!(l.step(Event::SourceEnd), Action::Commit));
        assert!(matches!(l.step(Event::Committed), Action::Finish));
        let o = l.into_result().unwrap();
        assert_eq!((o.attempted, o.committed, o.failed.len()), (0, 0, 0));
    }
}

#[test]
fn fail_fast_rolls_back_on_row_failure() {
    let mut l = begun(FailPolicy::FailFast);
    execute(&mut l, rec(vec![("a", Value::Integer(1))]));
    assert!(matches!(l.step(Event::RowDone), Action::Pull));
    execute(&mut l, rec(vec![("a", Value::Integer(2))]));
    assert!(matches!(l.step(Event::RowFailed), Action::Rollback));
    assert_eq!(l.phase(), Phase::RollingBack);
    // no further record is taken once the batch is aborted
    assert!(matches!(l.step(Event::Next(rec(vec![]))), Action::Ignore));
    assert!(matches!(l.step(Event::RolledBack), Action::Finish));
    assert_eq!(l.into_result().unwrap_err(), IngestError::RowExecutionFailed);
}

#[test]
fn fail_fast_commits_only_clean_batches() {
    let mut l = begun(FailPolicy::FailFast);
    execute(&mut l, rec(vec![("a", Value::Integer(1))]));
    l.step(Event::RowDone);
    execute(&mut l, rec(vec![("b", Value::Integer(2))]));
    l.step(Event::RowDone);
    assert!(matches!(l.step(Event::SourceEnd), Action::Commit));
    assert_eq!((l.attempted(), l.committed()), (2, 2));
    assert!(l.failures().is_empty());
}

#[test]
fn best_effort_accounts_for_every_row() {
    let mut l = begun(FailPolicy::BestEffort);
    for i in 0..4i64 {
        execute(&mut l, rec(vec![("a", Value::Integer(i))]));
        let ev = if i == 1 || i == 3 { Event::RowFailed } else { Event::RowDone };
        assert!(matches!(l.step(ev), Action::Pull));
    }
    l.step(Event::SourceEnd);
    l.step(Event::Committed);
    let o = l.into_result().unwrap();
    assert_eq!(o.attempted, 4);
    assert_eq!(o.committed, 2);
    assert_eq!(o.committed + o.failed.len(), o.attempted);
    assert_eq!(
        o.failed,
        vec![
            RowFailure { row: 1, error: IngestError::RowExecutionFailed },
            RowFailure { row: 3, error: IngestError::RowExecutionFailed },
        ]
    );
}

#[test]
fn unknown_column_rolls_back_under_either_policy() {
    for policy in [FailPolicy::BestEffort, FailPolicy::FailFast] {
        let mut l = begun(policy);
        execute(&mut l, rec(vec![("a", Value::Integer(1))]));
        l.step(Event::RowDone);
        let r = l.step(Event::Next(rec(vec![("c", Value::Integer(1))])));
        assert!(matches!(r, Action::Rollback));
        assert_eq!(l.failures(), &vec![RowFailure { row: 1, error: IngestError::SchemaMismatch }]);
        l.step(Event::RolledBack);
        assert_eq!(l.into_result().unwrap_err(), IngestError::SchemaMismatch);
    }
}

#[test]
fn begin_failure() {
    let mut l = loader(FailPolicy::BestEffort);
    assert!(matches!(l.step(Event::BeginFailed), Action::Finish));
    assert_eq!(l.error(), Some(IngestError::TransactionStartFailed));
    assert_eq!(l.phase(), Phase::Closed);
}

#[test]
fn commit_failure() {
    let mut l = begun(FailPolicy::BestEffort);
    l.step(Event::SourceEnd);
    assert!(matches!(l.step(Event::CommitFailed), Action::Finish));
    assert_eq!(l.into_result().unwrap_err(), IngestError::CommitFailed);
}

#[test]
fn rollback_failure() {
    let mut l = begun(FailPolicy::BestEffort);
    assert!(matches!(l.step(Event::Cancel), Action::Rollback));
    assert!(matches!(l.step(Event::RollbackFailed), Action::Finish));
    assert_eq!(l.into_result().unwrap_err(), IngestError::RollbackFailed);
}

#[test]
fn decode_failure_and_cancel() {
    let mut l = begun(FailPolicy::BestEffort);
    assert!(matches!(l.step(Event::DecodeFailed), Action::Rollback));
    l.step(Event::RolledBack);
    assert_eq!(l.into_result().unwrap_err(), IngestError::DecodeError);

    let mut l = begun(FailPolicy::BestEffort);
    assert!(matches!(l.step(Event::Cancel), Action::Rollback));
    l.step(Event::RolledBack);
    assert_eq!(l.into_result().unwrap_err(), IngestError::Cancelled);
}

#[test]
fn events_out_of_place_are_ignored() {
    let mut l = loader(FailPolicy::BestEffort);
    assert!(matches!(l.step(Event::RowDone), Action::Ignore));
    assert!(matches!(l.step(Event::Committed), Action::Ignore));
    assert_eq!(l.phase(), Phase::Idle);
    let mut l = begun(FailPolicy::BestEffort);
    l.step(Event::SourceEnd);
    l.step(Event::Committed);
    assert!(matches!(l.step(Event::Begun), Action::Ignore));
    assert_eq!(l.phase(), Phase::Closed);
}

#[test]
fn invalid_identifiers_are_refused() {
    let r = Loader::new("t; DROP TABLE x".to_string(), cols(&["a"]), FailPolicy::FailFast, BatchMode::PerRow);
    assert_eq!(r.err(), Some(IngestError::InvalidIdentifier));
    let r = Loader::new("t".to_string(), cols(&["a", "b c"]), FailPolicy::FailFast, BatchMode::PerRow);
    assert_eq!(r.err(), Some(IngestError::InvalidIdentifier));
}

#[test]
fn resolve_known_columns() {
    let target = TableTarget { name: "t".to_string(), columns: Some(cols(&["a", "b"])) };
    let rows = vec![rec(vec![("b", Value::Null)]), rec(vec![("a", Value::Integer(1))])];
    assert_eq!(resolve(&target, &rows), Ok(cols(&["a", "b"])));
    assert_eq!(resolve(&target, &Vec::new()), Ok(cols(&["a", "b"])));
    let bad = vec![rec(vec![("a", Value::Null), ("z", Value::Null)])];
    assert_eq!(resolve(&target, &bad), Err(IngestError::SchemaMismatch));
}

#[test]
fn resolve_without_known_columns() {
    let target = TableTarget { name: "t".to_string(), columns: None };
    let rows = vec![
        rec(vec![("b", Value::Null), ("a", Value::Integer(1))]),
        rec(vec![("c", Value::Null), ("a", Value::Integer(2))]),
        rec(vec![("B", Value::Null)]),
    ];
    assert_eq!(resolve(&target, &rows), Ok(cols(&["b", "a", "c", "B"])));
    assert_eq!(resolve(&target, &Vec::new()), Err(IngestError::EmptyBatch));
}

#[test]
fn prepare_validates_before_any_transaction() {
    let bad_table = TableTarget { name: "t x".to_string(), columns: Some(cols(&["a"])) };
    assert_eq!(
        Loader::prepare(&bad_table, &Vec::new(), FailPolicy::FailFast, BatchMode::PerRow).err(),
        Some(IngestError::InvalidIdentifier)
    );
    let bad_col = TableTarget { name: "t".to_string(), columns: Some(cols(&["a;"])) };
    assert_eq!(
        Loader::prepare(&bad_col, &Vec::new(), FailPolicy::FailFast, BatchMode::PerRow).err(),
        Some(IngestError::InvalidIdentifier)
    );
    let known = TableTarget { name: "t".to_string(), columns: Some(cols(&["a"])) };
    let batch = vec![rec(vec![("z", Value::Null)])];
    assert_eq!(
        Loader::prepare(&known, &batch, FailPolicy::FailFast, BatchMode::PerRow).err(),
        Some(IngestError::SchemaMismatch)
    );
}

#[test]
fn prepare_takes_union_of_batch() {
    let open = TableTarget { name: "t".to_string(), columns: None };
    let batch = vec![rec(vec![("b", Value::Integer(1))]), rec(vec![("a", Value::Integer(2))])];
    let mut l = Loader::prepare(&open, &batch, FailPolicy::BestEffort, BatchMode::PerRow).unwrap();
    assert_eq!(l.phase(), Phase::Idle);
    l.step(Event::Begun);
    let (sql, params) = execute(&mut l, rec(vec![("a", Value::Integer(2))]));
    assert_eq!(sql, "INSERT INTO t (b,a) VALUES (?,?)");
    assert_eq!(params, vec![Value::Null, Value::Integer(2)]);
}

fn batching(policy: FailPolicy, max_rows: usize) -> Loader {
    let mut l =
        Loader::new("t".to_string(), cols(&["a", "b"]), policy, BatchMode::MultiRow { max_rows })
            .unwrap();
    assert!(matches!(l.step(Event::Begun), Action::Pull));
    l
}

#[test]
fn multi_row_loader_groups_records() {
    let mut l = batching(FailPolicy::FailFast, 2);
    assert!(matches!(l.step(Event::Next(rec(vec![("a", Value::Integer(1))]))), Action::Pull));
    assert_eq!(l.rows_taken(), 1);
    let (sql, params) = execute(&mut l, rec(vec![("b", Value::Integer(2))]));
    assert_eq!(sql, "INSERT INTO t (a,b) VALUES (?,?),(?,?)");
    assert_eq!(params, vec![Value::Integer(1), Value::Null, Value::Null, Value::Integer(2)]);
    assert!(matches!(l.step(Event::RowDone), Action::Pull));
    assert!(matches!(l.step(Event::Next(rec(vec![("a", Value::Integer(3))]))), Action::Pull));
    match l.step(Event::SourceEnd) {
        Action::Execute(st) => {
            assert_eq!(st.sql, "INSERT INTO t (a,b) VALUES (?,?)");
            assert_eq!(st.params, vec![Value::Integer(3), Value::Null]);
        }
        other => panic!("expected the last statement, got {:?}", other),
    }
    assert!(matches!(l.step(Event::RowDone), Action::Commit));
    assert!(matches!(l.step(Event::Committed), Action::Finish));
    let o = l.into_result().unwrap();
    assert_eq!((o.attempted, o.committed, o.failed.len()), (3, 3, 0));
}

#[test]
fn multi_row_failure_fails_every_row_of_the_statement() {
    let mut l = batching(FailPolicy::BestEffort, 2);
    l.step(Event::Next(rec(vec![("a", Value::Integer(1))])));
    execute(&mut l, rec(vec![("a", Value::Integer(2))]));
    assert!(matches!(l.step(Event::RowFailed), Action::Pull));
    l.step(Event::Next(rec(vec![("a", Value::Integer(3))])));
    execute(&mut l, rec(vec![("a", Value::Integer(4))]));
    assert!(matches!(l.step(Event::RowDone), Action::Pull));
    assert!(matches!(l.step(Event::SourceEnd), Action::Commit));
    l.step(Event::Committed);
    let o = l.into_result().unwrap();
    assert_eq!((o.attempted, o.committed), (4, 2));
    assert_eq!(
        o.failed,
        vec![
            RowFailure { row: 0, error: IngestError::RowExecutionFailed },
            RowFailure { row: 1, error: IngestError::RowExecutionFailed },
        ]
    );
}

#[test]
fn multi_row_fail_fast_rolls_back() {
    let mut l = batching(FailPolicy::FailFast, 3);
    l.step(Event::Next(rec(vec![("a", Value::Integer(1))])));
    match l.step(Event::SourceEnd) {
        Action::Execute(_) => {}
        other => panic!("expected a statement, got {:?}", other),
    }
    assert!(matches!(l.step(Event::RowFailed), Action::Rollback));
    l.step(Event::RolledBack);
    assert_eq!(l.into_result().unwrap_err(), IngestError::RowExecutionFailed);
}

#[test]
fn rejected_record_is_indexed_by_source_position() {
    let mut l = batching(FailPolicy::BestEffort, 5);
    l.step(Event::Next(rec(vec![("a", Value::Integer(1))])));
    l.step(Event::Next(rec(vec![("a", Value::Integer(2))])));
    assert!(matches!(l.step(Event::Next(rec(vec![("zz", Value::Null)]))), Action::Rollback));
    assert_eq!(l.failures(), &vec![RowFailure { row: 2, error: IngestError::SchemaMismatch }]);
}

#[test]
fn empty_source_without_known_columns_is_a_no_op() {
    let open = TableTarget { name: "t".to_string(), columns: None };
    for mode in [BatchMode::PerRow, BatchMode::MultiRow { max_rows: 4 }] {
        let mut l = Loader::prepare(&open, &Vec::new(), FailPolicy::FailFast, mode).unwrap();
        assert!(matches!(l.step(Event::Begun), Action::Pull));
        assert!(matches!(l.step(Event::SourceEnd), Action::Commit));
        assert!(matches!(l.step(Event::Committed), Action::Finish));
        let o = l.into_result().unwrap();
        assert_eq!((o.attempted, o.committed, o.failed.len()), (0, 0, 0));
    }
    // the resolver itself still reports the empty batch
    assert_eq!(resolve(&open, &Vec::new()), Err(IngestError::EmptyBatch));
    // a bad table name is still refused
    let bad = TableTarget { name: "t t".to_string(), columns: None };
    assert_eq!(
        Loader::prepare(&bad, &Vec::new(), FailPolicy::FailFast, BatchMode::PerRow).err(),
        Some(IngestError::InvalidIdentifier)
    );
}

#[test]
fn header_only_csv_loads_nothing() {
    let records = sqlingest::adapt::records_from_csv("a,b\n").unwrap();
    let open = TableTarget { name: "t".to_string(), columns: None };
    let mut l = Loader::prepare(&open, &records, FailPolicy::FailFast, BatchMode::PerRow).unwrap();
    l.step(Event::Begun);
    assert!(matches!(l.step(Event::SourceEnd), Action::Commit));
    l.step(Event::Committed);
    assert_eq!(l.into_result().unwrap().attempted, 0);
}
