use sqlingest::adapt::{header_names_ok, records_from_csv, records_from_rows, records_from_text_table, text_cells};
use sqlingest::error::IngestError;
use sqlingest::sheet::records_from_sheet;
use sqlingest::value::Value;

fn strs(v: &[&str]) -> Vec<String> {
    v.iter().map(|s| s.to_string()).collect()
}

fn text(s: &str) -> Value {
    Value::Text(s.to_string())
}

#[test]
fn csv_rows_become_text_records() {
    let rs = records_from_csv("a,b\n1,x\n2,y\n").unwrap();
    assert_eq!(rs.len(), 2);
    assert_eq!(rs[0].len(), 2);
    assert_eq!(rs[0].name_at(0), "a");
    assert_eq!(rs[0].get(&"a".to_string()), Some(&text("1")));
    assert_eq!(rs[0].get(&"b".to_string()), Some(&text("x")));
    assert_eq!(rs[1].get(&"a".to_string()), Some(&text("2")));
    assert_eq!(rs[1].get(&"b".to_string()), Some(&text("y")));
}

#[test]
fn csv_with_header_only_or_nothing() {
    assert!(records_from_csv("a,b\n").unwrap().is_empty());
    assert!(records_from_csv("").unwrap().is_empty());
}

#[test]
fn csv_header_must_name_fields() {
    assert_eq!(records_from_csv("a,a\n1,2\n").err(), Some(IngestError::DecodeError));
    assert_eq!(records_from_csv(",b\n1,2\n").err(), Some(IngestError::DecodeError));
}

#[test]
fn csv_that_does_not_decode() {
    assert_eq!(records_from_csv("a,b\n1,2,3\n").err(), Some(IngestError::DecodeError));
}

#[test]
fn rows_pair_cells_with_header() {
    let rows = vec![vec![Value::Integer(1), Value::Null], vec![Value::Boolean(true)]];
    let rs = records_from_rows(&strs(&["x", "y"]), &rows).unwrap();
    assert_eq!(rs.len(), 2);
    assert_eq!(rs[0].get(&"x".to_string()), Some(&Value::Integer(1)));
    assert_eq!(rs[0].get(&"y".to_string()), Some(&Value::Null));
    assert_eq!(rs[1].len(), 1);
    assert_eq!(rs[1].get(&"y".to_string()), None);
    assert_eq!(
        records_from_rows(&strs(&["x", "x"]), &rows).err(),
        Some(IngestError::DecodeError)
    );
}

#[test]
fn text_table_and_cells() {
    assert_eq!(text_cells(&strs(&["p", "q"])), vec![text("p"), text("q")]);
    let rs = records_from_text_table(&strs(&["k"]), &vec![strs(&["v", "extra"])]).unwrap();
    assert_eq!(rs[0].len(), 1);
    assert_eq!(rs[0].value_at(0), &text("v"));
    assert!(header_names_ok(&strs(&["a", "b"])));
    assert!(!header_names_ok(&strs(&["a", ""])));
    assert!(!header_names_ok(&strs(&["b", "a", "b"])));
    assert!(header_names_ok(&Vec::new()));
}

#[test]
fn sheet_first_row_names_fields() {
    let rows = vec![
        vec![text("id"), text("name")],
        vec![Value::Integer(1), text("ann")],
        vec![Value::Integer(2), Value::Null],
    ];
    let rs = records_from_sheet(&rows).unwrap();
    assert_eq!(rs.len(), 2);
    assert_eq!(rs[0].get(&"id".to_string()), Some(&Value::Integer(1)));
    assert_eq!(rs[0].get(&"name".to_string()), Some(&text("ann")));
    assert_eq!(rs[1].get(&"name".to_string()), Some(&Value::Null));
    assert!(records_from_sheet(&Vec::new()).unwrap().is_empty());
    let numeric_header = vec![vec![Value::Integer(3)], vec![Value::Integer(4)]];
    assert_eq!(records_from_sheet(&numeric_header).err(), Some(IngestError::DecodeError));
}
