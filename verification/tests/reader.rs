use std::collections::HashMap;
use std::sync::Arc;

use arrow::array::{Array, ArrayRef, Int64Array, StringArray, StructArray};
use arrow::datatypes::{DataType, Field, Schema};
use arrow::record_batch::RecordBatch;
use queryscript::runtime::duckdb::engine::ArrowRelation;
use queryscript::runtime::duckdb::reader::{
    field_indices, has_fields, rust_build_array_stream, try_build_array_stream,
    VecRecordBatchReader,
};
use queryscript::types::relation::ArrowRecordBatchRelation;

fn schema() -> Arc<Schema> {
    let fields = vec![
        Field::new("id", DataType::Int64, false),
        Field::new("name", DataType::Utf8, true),
        Field::new("score", DataType::Int64, false),
    ];
    let mut metadata = HashMap::new();
    metadata.insert("origin".to_string(), "test".to_string());
    Arc::new(Schema::new_with_metadata(fields, metadata))
}

fn batch(first: i64) -> RecordBatch {
    let ids: ArrayRef = Arc::new(Int64Array::from(vec![first, first + 1]));
    let names: ArrayRef = Arc::new(StringArray::from(vec![Some("a"), None]));
    let scores: ArrayRef = Arc::new(Int64Array::from(vec![first * 10, first * 10 + 1]));
    RecordBatch::try_new(schema(), vec![ids, names, scores]).unwrap()
}

fn relation(batches: Vec<RecordBatch>) -> ArrowRelation {
    ArrowRelation {
        relation: ArrowRecordBatchRelation::new(schema(), Arc::new(batches)),
        schema: schema(),
    }
}

fn strings(texts: &[&str]) -> Vec<String> {
    texts.iter().map(|t| t.to_string()).collect()
}

#[test]
fn batches_are_read_once_and_in_order() {
    let mut reader = VecRecordBatchReader::new(relation(vec![batch(1), batch(5), batch(9)]));
    assert_eq!(reader.next().unwrap().unwrap(), batch(1));
    assert_eq!(reader.next().unwrap().unwrap(), batch(5));
    assert_eq!(reader.next().unwrap().unwrap(), batch(9));
    assert!(reader.next().is_none());
    assert!(reader.next().is_none());
}

#[test]
fn a_relation_without_batches_reads_as_nothing() {
    let mut reader = VecRecordBatchReader::new(relation(vec![]));
    assert!(reader.next().is_none());
}

#[test]
fn projection_selects_columns_in_the_order_asked_for() {
    let mut reader = VecRecordBatchReader::new(relation(vec![batch(1), batch(5)]));
    reader.set_projection(vec![2, 0]);
    for first in [1, 5] {
        let projected = reader.next().unwrap().unwrap();
        assert_eq!(projected.num_columns(), 2);
        assert_eq!(projected.num_rows(), 2);
        assert_eq!(projected.schema().field(0).name(), "score");
        assert_eq!(projected.schema().field(1).name(), "id");
        assert_eq!(projected.column(0), batch(first).column(2));
        assert_eq!(projected.column(1), batch(first).column(0));
        assert_eq!(projected.schema().metadata().get("origin"), Some(&"test".to_string()));
    }
    assert!(reader.next().is_none());
}

#[test]
fn projection_to_a_missing_column_fails_and_moves_on() {
    let mut reader = VecRecordBatchReader::new(relation(vec![batch(1), batch(5)]));
    reader.set_projection(vec![0, 3]);
    assert!(reader.next().unwrap().is_err());
    assert!(reader.next().unwrap().is_err());
    assert!(reader.next().is_none());
}

#[test]
fn projection_to_a_column_that_breaks_its_field_fails() {
    let holey: ArrayRef = Arc::new(Int64Array::from(vec![Some(1), None]));
    let whole: ArrayRef = Arc::new(Int64Array::from(vec![3, 4]));
    let columns = StructArray::from(vec![
        (Field::new("holey", DataType::Int64, false), holey),
        (Field::new("whole", DataType::Int64, false), whole),
    ]);
    let broken = RecordBatch::from(&columns);
    let mut reader = VecRecordBatchReader::new(relation(vec![broken.clone(), broken]));
    reader.set_projection(vec![1]);
    assert!(reader.next().unwrap().is_ok());
    reader.set_projection(vec![0]);
    assert!(reader.next().unwrap().is_err());
}

#[test]
fn an_empty_projection_means_all_columns() {
    let mut reader = VecRecordBatchReader::new(relation(vec![batch(1), batch(5)]));
    reader.set_projection(vec![1]);
    assert_eq!(reader.next().unwrap().unwrap().num_columns(), 1);
    reader.set_projection(vec![]);
    assert_eq!(reader.next().unwrap().unwrap(), batch(5));
}

#[test]
fn schema_is_that_of_the_relation() {
    let mut reader = VecRecordBatchReader::new(relation(vec![batch(1)]));
    reader.set_projection(vec![1]);
    assert_eq!(reader.schema(), schema());
}

#[test]
fn fields_are_found_by_name() {
    let names = strings(&["a", "b", "c"]);
    assert_eq!(field_indices(&names, &strings(&["c", "a", "c"])), vec![2, 0, 2]);
    assert_eq!(field_indices(&names, &names), vec![0, 1, 2]);
    assert_eq!(field_indices(&names, &strings(&[])), Vec::<usize>::new());
}

#[test]
fn the_last_field_of_a_name_counts() {
    let names = strings(&["a", "b", "a"]);
    assert_eq!(field_indices(&names, &strings(&["a", "b"])), vec![2, 1]);
}

#[test]
fn missing_fields_are_noticed() {
    let names = strings(&["a", "b"]);
    assert!(has_fields(&names, &strings(&["b", "a"])));
    assert!(has_fields(&names, &strings(&[])));
    assert!(!has_fields(&names, &strings(&["b", "x"])));
}

#[test]
fn stream_reads_the_named_fields() {
    let relation = relation(vec![batch(1)]);
    let mut reader = rust_build_array_stream(&relation, &strings(&["score", "name"]));
    let projected = reader.next().unwrap().unwrap();
    assert_eq!(projected.schema().field(0).name(), "score");
    assert_eq!(projected.schema().field(1).name(), "name");
    assert_eq!(projected.column(1).null_count(), 1);
    assert!(reader.next().is_none());
}

#[test]
fn stream_of_no_named_fields_reads_all() {
    let relation = relation(vec![batch(1)]);
    let mut reader = rust_build_array_stream(&relation, &strings(&[]));
    assert_eq!(reader.next().unwrap().unwrap(), batch(1));
}

#[test]
fn stream_is_built_only_if_all_fields_exist() {
    let relation = relation(vec![batch(1)]);
    assert!(try_build_array_stream(&relation, &strings(&["id", "nope"])).is_none());
    let mut reader = try_build_array_stream(&relation, &strings(&["id"])).unwrap();
    assert_eq!(reader.next().unwrap().unwrap().column(0), batch(1).column(0));
}

#[test]
fn nested_fields_count_among_the_fields() {
    let inner = vec![Field::new("x", DataType::Int64, false)];
    let fields = vec![
        Field::new("point", DataType::Struct(inner), false),
        Field::new("after", DataType::Int64, false),
    ];
    let nested = Arc::new(Schema::new(fields));
    let relation = ArrowRelation {
        relation: ArrowRecordBatchRelation::new(schema(), Arc::new(vec![batch(1)])),
        schema: nested,
    };
    let mut reader = try_build_array_stream(&relation, &strings(&["after"])).unwrap();
    assert_eq!(reader.next().unwrap().unwrap().column(0), batch(1).column(2));
}
