use deltakernel::json::{frame_json_lines, json_lines_of_columns, JsonParseError};

#[test]
fn lines_skip_nulls_and_end_with_newlines() {
    let values = vec![
        Some(r#"{"a":1}"#.to_string()),
        None,
        Some(r#"{"a":2}"#.to_string()),
    ];
    assert_eq!(frame_json_lines(&values), b"{\"a\":1}\n{\"a\":2}\n".to_vec());
}

#[test]
fn no_values_give_no_bytes() {
    assert_eq!(frame_json_lines(&vec![]), Vec::<u8>::new());
    assert_eq!(frame_json_lines(&vec![None, None]), Vec::<u8>::new());
}

#[test]
fn empty_string_gives_a_bare_newline() {
    assert_eq!(frame_json_lines(&vec![Some(String::new())]), vec![b'\n']);
}

#[test]
fn non_ascii_is_utf8_encoded() {
    assert_eq!(
        frame_json_lines(&vec![Some("\"é\"".to_string())]),
        vec![b'"', 0xc3, 0xa9, b'"', b'\n']
    );
}

#[test]
fn wrong_number_of_columns_is_missing_column() {
    match json_lines_of_columns(&vec![]) {
        Err(JsonParseError::MissingColumn(m)) => assert_eq!(m, "Expected single column"),
        _ => panic!("expected MissingColumn"),
    }
    let two = vec![Some(vec![Some("{}".to_string())]), Some(vec![])];
    match json_lines_of_columns(&two) {
        Err(JsonParseError::MissingColumn(m)) => assert_eq!(m, "Expected single column"),
        _ => panic!("expected MissingColumn"),
    }
}

#[test]
fn non_string_column_is_unexpected_type() {
    match json_lines_of_columns(&vec![None]) {
        Err(JsonParseError::UnexpectedColumnType(m)) => {
            assert_eq!(m, "Expected column to be String")
        }
        _ => panic!("expected UnexpectedColumnType"),
    }
}

#[test]
fn single_string_column_is_framed() {
    let cols = vec![Some(vec![Some("{\"x\":true}".to_string()), None, Some("{}".to_string())])];
    match json_lines_of_columns(&cols) {
        Ok(data) => assert_eq!(data, b"{\"x\":true}\n{}\n".to_vec()),
        Err(_) => panic!("expected framed lines"),
    }
}

use std::sync::Arc;

use arrow_array::{Array, ArrayRef, Int32Array, Int64Array, RecordBatch, StringArray};
use arrow_schema::{DataType, Field, Schema};
use deltakernel::json::{ArrowBatch, OutputSchema, SimpleJsonHandler};

fn batch_of(columns: Vec<(&str, ArrayRef)>) -> ArrowBatch {
    ArrowBatch { batch: RecordBatch::try_from_iter(columns).unwrap() }
}

fn output_schema() -> OutputSchema {
    OutputSchema {
        schema: Arc::new(Schema::new(vec![
            Field::new("a", DataType::Int64, true),
            Field::new("b", DataType::Utf8, true),
        ])),
    }
}

#[test]
fn parse_json_decodes_each_non_null_string() {
    let strings: ArrayRef = Arc::new(StringArray::from(vec![
        Some(r#"{"a": 1, "b": "x"}"#),
        None,
        Some(r#"{"a": 2}"#),
    ]));
    let handler = SimpleJsonHandler {};
    let out = handler.parse_json(&batch_of(vec![("json", strings)]), &output_schema()).unwrap();
    let batch = out.batch;
    assert_eq!(batch.num_rows(), 2);
    assert_eq!(batch.num_columns(), 2);
    let a = batch.column(0).as_any().downcast_ref::<Int64Array>().unwrap();
    assert_eq!(a.value(0), 1);
    assert_eq!(a.value(1), 2);
    let b = batch.column(1).as_any().downcast_ref::<StringArray>().unwrap();
    assert_eq!(b.value(0), "x");
    assert!(b.is_null(1));
}

#[test]
fn parse_json_of_no_strings_is_an_empty_batch() {
    let strings: ArrayRef = Arc::new(StringArray::from(Vec::<Option<&str>>::new()));
    let handler = SimpleJsonHandler {};
    let out = handler.parse_json(&batch_of(vec![("json", strings)]), &output_schema()).unwrap();
    assert_eq!(out.batch.num_rows(), 0);
    assert_eq!(out.batch.num_columns(), 2);
}

#[test]
fn parse_json_refuses_two_columns() {
    let s1: ArrayRef = Arc::new(StringArray::from(vec!["{}"]));
    let s2: ArrayRef = Arc::new(StringArray::from(vec!["{}"]));
    let handler = SimpleJsonHandler {};
    match handler.parse_json(&batch_of(vec![("x", s1), ("y", s2)]), &output_schema()) {
        Err(JsonParseError::MissingColumn(m)) => assert_eq!(m, "Expected single column"),
        _ => panic!("expected MissingColumn"),
    }
}

#[test]
fn parse_json_refuses_a_non_string_column() {
    let ints: ArrayRef = Arc::new(Int32Array::from(vec![1, 2]));
    let handler = SimpleJsonHandler {};
    match handler.parse_json(&batch_of(vec![("n", ints)]), &output_schema()) {
        Err(JsonParseError::UnexpectedColumnType(m)) => {
            assert_eq!(m, "Expected column to be String")
        }
        _ => panic!("expected UnexpectedColumnType"),
    }
}

#[test]
fn parse_json_reports_malformed_json() {
    let strings: ArrayRef = Arc::new(StringArray::from(vec!["{\"a\": "]));
    let handler = SimpleJsonHandler {};
    match handler.parse_json(&batch_of(vec![("json", strings)]), &output_schema()) {
        Err(JsonParseError::Arrow(_)) => {}
        _ => panic!("expected an arrow error"),
    }
}

#[test]
fn parse_json_skips_null_strings_in_order() {
    let strings: ArrayRef = Arc::new(StringArray::from(vec![
        Some(r#"{"a":1}"#),
        None,
        Some(r#"{"a":3}"#),
    ]));
    let schema = OutputSchema {
        schema: Arc::new(Schema::new(vec![Field::new("a", DataType::Int64, true)])),
    };
    let out = SimpleJsonHandler {}.parse_json(&batch_of(vec![("s", strings)]), &schema).unwrap();
    let a = out.batch.column(0).as_any().downcast_ref::<Int64Array>().unwrap();
    assert_eq!(a, &Int64Array::from(vec![1, 3]));
}

#[test]
fn parse_json_of_only_nulls_is_an_empty_batch() {
    let strings: ArrayRef = Arc::new(StringArray::from(vec![None::<&str>, None]));
    let out = SimpleJsonHandler {}
        .parse_json(&batch_of(vec![("s", strings)]), &output_schema())
        .unwrap();
    assert_eq!(out.batch.num_rows(), 0);
    assert_eq!(out.batch.schema(), output_schema().schema);
}
