use sheet_extract::error::ErrorKind;
use sheet_extract::error::ExtractError;
use sheet_extract::extract::join_objects;
use sheet_extract::extract::record_json;
use sheet_extract::extract::rows_to_json;
use sheet_extract::record::build_record;

fn rows(data: &[&[&str]]) -> Vec<Vec<String>> {
    data.iter().map(|r| r.iter().map(|c| c.to_string()).collect()).collect()
}

#[test]
fn one_row_two_columns() {
    let input = rows(&[&["Name", "Age"], &["Alice", "30"]]);
    let out = rows_to_json(&input).unwrap();
    assert_eq!(out, r#"[{"Name":"Alice","Age":"30"}]"#);
}

#[test]
fn row_shorter_than_header() {
    let input = rows(&[&["A", "B", "C"], &["x", "y"]]);
    let out = rows_to_json(&input).unwrap();
    assert_eq!(out, r#"[{"A":"x","B":"y"}]"#);
}

#[test]
fn row_longer_than_header_drops_extras() {
    let input = rows(&[&["A", "B"], &["x", "y", "z"]]);
    let out = rows_to_json(&input).unwrap();
    assert_eq!(out, r#"[{"A":"x","B":"y"}]"#);
}

#[test]
fn empty_sheet_is_empty_header_error() {
    let input: Vec<Vec<String>> = Vec::new();
    let err = rows_to_json(&input).unwrap_err();
    assert_eq!(err.kind, ErrorKind::EmptyHeader);
    assert_eq!(err.message(), "No headers found");
}

#[test]
fn header_only_sheet_gives_empty_array() {
    let input = rows(&[&["A", "B"]]);
    let out = rows_to_json(&input).unwrap();
    assert_eq!(out, "[]");
}

#[test]
fn one_object_per_data_row_in_order() {
    let input = rows(&[&["K"], &["first"], &["second"], &["third"]]);
    let out = rows_to_json(&input).unwrap();
    assert_eq!(out, r#"[{"K":"first"},{"K":"second"},{"K":"third"}]"#);
    let parsed: serde_json::Value = serde_json::from_str(&out).unwrap();
    assert_eq!(parsed.as_array().unwrap().len(), 3);
}

#[test]
fn duplicate_header_keeps_first_position_last_value() {
    let input = rows(&[&["K", "L", "K"], &["1", "2", "3"]]);
    let out = rows_to_json(&input).unwrap();
    assert_eq!(out, r#"[{"K":"3","L":"2"}]"#);
}

#[test]
fn empty_cell_yields_empty_string_value() {
    let input = rows(&[&["A", "B"], &["", "y"]]);
    let out = rows_to_json(&input).unwrap();
    assert_eq!(out, r#"[{"A":"","B":"y"}]"#);
}

#[test]
fn extraction_is_deterministic() {
    let input = rows(&[&["Name", "Age"], &["Alice", "30"], &["Bob", "41"]]);
    let first = rows_to_json(&input).unwrap();
    let second = rows_to_json(&input).unwrap();
    assert_eq!(first, second);
    assert_eq!(first.as_bytes(), second.as_bytes());
}

#[test]
fn special_characters_are_escaped() {
    let input = rows(&[&["q"], &["a\"b\\c\nd\te\re\u{8}f\u{c}g\u{1}h"]]);
    let out = rows_to_json(&input).unwrap();
    assert_eq!(out, "[{\"q\":\"a\\\"b\\\\c\\nd\\te\\re\\bf\\fg\\u0001h\"}]");
    let parsed: serde_json::Value = serde_json::from_str(&out).unwrap();
    let back = parsed[0]["q"].as_str().unwrap();
    assert_eq!(back, "a\"b\\c\nd\te\re\u{8}f\u{c}g\u{1}h");
}

#[test]
fn output_round_trips_through_a_json_parser() {
    let input = rows(&[&["Name", "Age"], &["Alice", "30"], &["Bob", ""]]);
    let out = rows_to_json(&input).unwrap();
    let parsed: serde_json::Value = serde_json::from_str(&out).unwrap();
    let arr = parsed.as_array().unwrap();
    assert_eq!(arr.len(), 2);
    assert_eq!(arr[0]["Name"], "Alice");
    assert_eq!(arr[0]["Age"], "30");
    assert_eq!(arr[1]["Name"], "Bob");
    assert_eq!(arr[1]["Age"], "");
}

#[test]
fn build_record_zips_and_truncates() {
    let headers: Vec<String> = vec!["A".to_string(), "B".to_string(), "C".to_string()];
    let row: Vec<String> = vec!["x".to_string(), "y".to_string()];
    let rec = build_record(&headers, &row);
    assert_eq!(rec.len(), 2);
    assert_eq!(rec[0].0, "A");
    assert_eq!(rec[0].1, "x");
    assert_eq!(rec[1].0, "B");
    assert_eq!(rec[1].1, "y");
}

#[test]
fn record_json_renders_one_object() {
    let headers: Vec<String> = vec!["A".to_string()];
    let row: Vec<String> = vec!["x".to_string()];
    let obj = record_json(&headers, &row);
    assert_eq!(obj, r#"{"A":"x"}"#);
}

#[test]
fn join_objects_renders_an_array() {
    let objs: Vec<String> = vec!["{\"A\":\"x\"}".to_string(), "{\"A\":\"y\"}".to_string()];
    assert_eq!(join_objects(&objs), r#"[{"A":"x"},{"A":"y"}]"#);
    let empty: Vec<String> = Vec::new();
    assert_eq!(join_objects(&empty), "[]");
}

#[test]
fn error_messages_carry_kind_prefix_and_detail() {
    let open = ExtractError::new(ErrorKind::Open, "No such file".to_string());
    assert_eq!(open.kind, ErrorKind::Open);
    assert_eq!(open.message(), "Failed to open workbook: No such file");
    let missing = ExtractError::new(ErrorKind::SheetNotFound, String::new());
    assert_eq!(missing.message(), "Failed to extract worksheet table");
    let ser = ExtractError::new(ErrorKind::Serialization, "oops".to_string());
    assert_eq!(ser.message(), "Failed to serialize: oops");
}
