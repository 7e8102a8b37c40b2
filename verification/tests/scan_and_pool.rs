use std::sync::Arc;

use arrow::datatypes::Schema;
use queryscript::runtime::duckdb::engine::{ArrowRelation, RelationMap};
use queryscript::runtime::duckdb::pool::{ConnectionPool, ConnectionString, Step};
use queryscript::runtime::duckdb::scan::{replacement_scan_callback, ScanParameter};
use queryscript::types::relation::ArrowRecordBatchRelation;

fn relations(names: &[&str]) -> RelationMap {
    let mut res = RelationMap::new();
    for name in names {
        let schema = Arc::new(Schema::empty());
        let relation = ArrowRecordBatchRelation::new(schema.clone(), Arc::new(vec![]));
        res.insert(name.to_string(), ArrowRelation { relation, schema });
    }
    res
}

fn database(name: &str) -> ConnectionString {
    ConnectionString { url: format!("duckdb:///tmp/{}", name), path: format!("/tmp/{}", name) }
}

#[test]
fn known_relations_are_scanned() {
    let relations = relations(&["__qsrel_1", "caf\u{e9}"]);
    let scan = replacement_scan_callback(b"__qsrel_1", &relations).unwrap();
    assert_eq!(scan.function, "arrow_scan_qs");
    assert_eq!(
        scan.parameters,
        vec![ScanParameter::Relation, ScanParameter::CreateStream, ScanParameter::GetSchema]
    );
    assert!(std::ptr::eq(scan.relation, relations.get("__qsrel_1").unwrap()));
    let scan = replacement_scan_callback("caf\u{e9}".as_bytes(), &relations).unwrap();
    assert!(std::ptr::eq(scan.relation, relations.get("caf\u{e9}").unwrap()));
}

#[test]
fn other_tables_stay_unknown() {
    let relations = relations(&["t"]);
    assert!(replacement_scan_callback(b"u", &relations).is_none());
    assert!(replacement_scan_callback(b"", &relations).is_none());
    assert!(replacement_scan_callback(b"T", &relations).is_none());
}

#[test]
fn names_that_are_not_text_stay_unknown() {
    let relations = relations(&["t"]);
    assert!(replacement_scan_callback(&[0xff, b't'], &relations).is_none());
    assert!(replacement_scan_callback(&[0xc3], &relations).is_none());
}

#[test]
fn databases_in_memory_are_never_shared() {
    let mut pool: ConnectionPool<u32> = ConnectionPool::new();
    assert!(matches!(pool.next_step(&None), Step::OpenInMemory));
    pool.opened(database("a"), 1);
    assert!(matches!(pool.next_step(&None), Step::OpenInMemory));
}

#[test]
fn a_database_is_opened_once_and_cloned_from_then_on() {
    let mut pool: ConnectionPool<u32> = ConnectionPool::new();
    match pool.next_step(&Some(database("a"))) {
        Step::Open { path } => assert_eq!(path, "/tmp/a"),
        _ => panic!("the database is not open yet"),
    }
    pool.opened(database("a"), 41);
    pool.opened(database("b"), 42);
    match pool.next_step(&Some(database("a"))) {
        Step::CloneFrom { shared } => assert_eq!(*shared, 41),
        _ => panic!("the database is open"),
    }
    match pool.next_step(&Some(database("b"))) {
        Step::CloneFrom { shared } => assert_eq!(*shared, 42),
        _ => panic!("the database is open"),
    }
    assert!(matches!(pool.next_step(&Some(database("c"))), Step::Open { .. }));
}
