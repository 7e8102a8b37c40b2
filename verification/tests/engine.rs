use std::sync::Arc;

use arrow::array::{ArrayRef, Int64Array};
use arrow::datatypes::{DataType, Field, Schema};
use arrow::record_batch::RecordBatch;
use queryscript::ast::{Ident, ObjectName, Statement};
use queryscript::runtime::duckdb::engine::{
    bind_params, load_request, DuckDBEngine, DuckDBNormalizer, RelationMap,
};
use queryscript::runtime::error::RuntimeError;
use queryscript::runtime::normalize::Normalizer;
use queryscript::runtime::sql::{Params, SQLEngineType, SQLParam, Type, Value};
use queryscript::types::error::TypesystemError;
use queryscript::types::relation::ArrowRecordBatchRelation;

fn schema(column: &str) -> Arc<Schema> {
    Arc::new(Schema::new(vec![Field::new(column, DataType::Int64, false)]))
}

fn relation(column: &str, values: Vec<i64>) -> Arc<ArrowRecordBatchRelation> {
    let array: ArrayRef = Arc::new(Int64Array::from(values));
    let batch = RecordBatch::try_new(schema(column), vec![array]).unwrap();
    ArrowRecordBatchRelation::new(schema(column), Arc::new(vec![batch]))
}

fn no_schema() -> Type {
    Type {
        schema: Err(TypesystemError::StringError { what: "not a relation".to_string() }),
    }
}

fn param(name: &str, value: Value<i64>, type_: Type) -> (Ident, SQLParam<i64>) {
    (Ident::new(name), SQLParam { name: Ident::new(name), value, type_ })
}

fn scalar(name: &str, value: i64) -> (Ident, SQLParam<i64>) {
    param(name, Value::Scalar(value), no_schema())
}

fn table(name: &str, column: &str) -> (Ident, SQLParam<i64>) {
    param(name, Value::Relation(relation(column, vec![1, 2])), Type { schema: Ok(schema(column)) })
}

fn params(entries: Vec<(Ident, SQLParam<i64>)>) -> Params<i64> {
    let mut res = Params::new();
    for (key, value) in entries {
        res = res.insert(key, value);
    }
    res
}

fn names(idents: &[Ident]) -> Vec<&str> {
    idents.iter().map(|i| i.as_str()).collect()
}

#[test]
fn normalizer_numbers_parameters_from_one() {
    let idents: Vec<Ident> = ["x", "y", "z"].iter().map(|n| Ident::new(n)).collect();
    let normalizer = DuckDBNormalizer::new(&idents);
    assert_eq!(normalizer.params().get("x"), Some(&"$1".to_string()));
    assert_eq!(normalizer.params().get("y"), Some(&"$2".to_string()));
    assert_eq!(normalizer.params().get("z"), Some(&"$3".to_string()));
    assert_eq!(normalizer.params().get("w"), None);
    assert_eq!(normalizer.params().len(), 3);
}

#[test]
fn normalizer_takes_the_last_position_of_a_name() {
    let idents: Vec<Ident> = ["x", "y", "x"].iter().map(|n| Ident::new(n)).collect();
    let normalizer = DuckDBNormalizer::new(&idents);
    assert_eq!(normalizer.params().get("x"), Some(&"$3".to_string()));
    assert_eq!(normalizer.params().get("y"), Some(&"$2".to_string()));
}

#[test]
fn normalizer_of_nothing_replaces_nothing() {
    assert_eq!(DuckDBNormalizer::new(&[]).params().len(), 0);
}

#[test]
fn identifiers_are_put_in_double_quotes() {
    assert_eq!(DuckDBNormalizer::new(&[]).quote_style(), Some('"'));
}

#[test]
fn placeholders_are_all_different() {
    let idents: Vec<Ident> = (0..120).map(|i| Ident::new(&format!("p{}", i))).collect();
    let normalizer = DuckDBNormalizer::new(&idents);
    let mut seen: Vec<String> = idents
        .iter()
        .map(|i| normalizer.params().get(i.as_str()).unwrap().clone())
        .collect();
    assert_eq!(seen[99], "$100");
    seen.sort();
    seen.dedup();
    assert_eq!(seen.len(), 120);
}

#[test]
fn scalars_are_numbered_in_the_order_of_their_names() {
    let params = params(vec![scalar("b", 20), scalar("c", 30), scalar("a", 10)]);
    let mut relations = RelationMap::new();
    let bound = bind_params(&mut relations, &params).unwrap();
    assert_eq!(names(&bound.scalars), vec!["a", "b", "c"]);
    assert_eq!(bound.arguments, vec![&10, &20, &30]);
    assert_eq!(bound.normalizer.params().get("a"), Some(&"$1".to_string()));
    assert_eq!(bound.normalizer.params().get("b"), Some(&"$2".to_string()));
    assert_eq!(bound.normalizer.params().get("c"), Some(&"$3".to_string()));
    assert!(relations.is_empty());
}

#[test]
fn relations_can_be_named_and_have_no_position() {
    let params = params(vec![table("t", "x"), scalar("n", 5), table("u", "y")]);
    let mut relations = RelationMap::new();
    let bound = bind_params(&mut relations, &params).unwrap();
    assert_eq!(names(&bound.scalars), vec!["n"]);
    assert_eq!(bound.normalizer.params().len(), 1);
    assert_eq!(relations.len(), 2);
    assert_eq!(relations.get("t").unwrap().schema, schema("x"));
    assert_eq!(relations.get("u").unwrap().schema, schema("y"));
    assert_eq!(relations.get("t").unwrap().relation.num_batches(), 1);
    assert!(relations.get("n").is_none());
}

#[test]
fn relations_of_an_earlier_query_are_forgotten() {
    let mut relations = RelationMap::new();
    assert!(bind_params(&mut relations, &params(vec![table("t", "x")])).is_ok());
    assert!(relations.contains_key("t"));
    assert!(bind_params(&mut relations, &params(vec![table("u", "x")])).is_ok());
    assert!(!relations.contains_key("t"));
    assert!(relations.contains_key("u"));
}

#[test]
fn function_parameters_are_refused() {
    let params = params(vec![
        scalar("a", 1),
        table("t", "x"),
        param("f", Value::Fn, no_schema()),
        table("u", "x"),
    ]);
    let mut relations = RelationMap::new();
    let err = bind_params(&mut relations, &params).err().unwrap();
    assert_eq!(err, RuntimeError::Unimplemented { what: "Function parameters".to_string() });
    assert!(relations.contains_key("t"));
    assert!(!relations.contains_key("u"));
}

#[test]
fn relations_without_a_schema_are_refused() {
    let bad = param("t", Value::Relation(relation("x", vec![1])), no_schema());
    let params = params(vec![bad, param("f", Value::Fn, no_schema())]);
    let mut relations = RelationMap::new();
    let err = bind_params(&mut relations, &params).err().unwrap();
    let source = TypesystemError::StringError { what: "not a relation".to_string() };
    assert_eq!(err, RuntimeError::TypesystemError { source });
    assert!(relations.is_empty());
}

#[test]
fn walk_order_makes_no_difference() {
    let forward = params(vec![scalar("a", 1), table("t", "x"), scalar("b", 2)]);
    let backward = params(vec![scalar("b", 2), table("t", "x"), scalar("a", 1)]);
    let mut left = RelationMap::new();
    let mut right = RelationMap::new();
    let one = bind_params(&mut left, &forward).unwrap();
    let two = bind_params(&mut right, &backward).unwrap();
    assert_eq!(names(&one.scalars), names(&two.scalars));
    assert_eq!(one.arguments, two.arguments);
    assert_eq!(left.len(), right.len());
    assert_eq!(left.get("t").unwrap().schema, right.get("t").unwrap().schema);
}

#[test]
fn a_parameter_is_replaced_where_it_stands() {
    let params = params(vec![scalar("a", 1), scalar("b", 2), scalar("a", 3)]);
    assert_eq!(params.len(), 2);
    assert_eq!(params.entry(0).0.as_str(), "a");
    assert_eq!(params.entry(1).0.as_str(), "b");
    let mut relations = RelationMap::new();
    assert_eq!(bind_params(&mut relations, &params).unwrap().arguments, vec![&3, &2]);
}

#[test]
fn loading_creates_a_table_from_the_value() {
    let table = ObjectName { parts: vec![Ident::new("db"), Ident::new("t")] };
    let value: Value<i64> = Value::Relation(relation("x", vec![4, 5, 6]));
    let request = load_request(table, value, Type { schema: Ok(schema("x")) }, true);
    let Statement::CreateTableAs { name, query, temporary } = &request.query;
    assert_eq!(names(&name.parts), vec!["db", "t"]);
    assert_eq!(names(&query.from.parts), vec!["__qs_load"]);
    assert!(*temporary);

    let mut relations = RelationMap::new();
    let bound = bind_params(&mut relations, &request.params).unwrap();
    assert!(bound.arguments.is_empty());
    assert_eq!(relations.len(), 1);
    let loaded = relations.get("__qs_load").unwrap();
    assert_eq!(loaded.relation.batch(0).num_rows(), 3);
}

#[test]
fn loading_into_a_lasting_table_is_not_temporary() {
    let table = ObjectName { parts: vec![Ident::new("t")] };
    let request = load_request(table, Value::Scalar(1i64), no_schema(), false);
    let Statement::CreateTableAs { temporary, .. } = &request.query;
    assert!(!*temporary);
    assert_eq!(request.params.len(), 1);
    assert_eq!(request.params.entry(0).1.name.as_str(), "__qs_load");
}

#[test]
fn engine_is_a_duckdb_engine() {
    let mut engine = DuckDBEngine::build(7u8);
    assert_eq!(engine.conn, 7);
    assert!(!engine.initialized);
    assert_eq!(engine.engine_type(), SQLEngineType::DuckDB);
    assert_eq!(engine.create(), Ok(()));
    assert!(!engine.initialized);
}
