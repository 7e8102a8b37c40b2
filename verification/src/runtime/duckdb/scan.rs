//! What DuckDB scans in place of a table that it does not know.
use vstd::prelude::*;
use vstd::utf8::{decode_utf8, encode_utf8, valid_utf8};

use crate::runtime::duckdb::engine::{ArrowRelation, RelationMap};

verus! {

/// A parameter of the function that scans a relation.
#[derive(Debug, Clone, Copy, PartialEq, Eq, Structural)]
pub enum ScanParameter {
    /// The relation.
    Relation,
    /// The function that makes a stream of the relation's batches.
    CreateStream,
    /// The function that gives the relation's schema.
    GetSchema,
}

/// The call of a scan function that replaces a table.
pub struct ReplacementScan<'a> {
    /// The name of the function.
    pub function: String,
    /// The relation to scan.
    pub relation: &'a ArrowRelation,
    /// What the function is given, in order.
    pub parameters: Vec<ScanParameter>,
}

/// The relation that stands for the table whose name consists of the given bytes, if there is
/// one.
pub open spec fn relation_for(
    table_name: Seq<u8>,
    relations: Map<Seq<char>, ArrowRelation>,
) -> Option<ArrowRelation> {
    if valid_utf8(table_name) && relations.contains_key(decode_utf8(table_name)) {
        Some(relations[decode_utf8(table_name)])
    } else {
        None
    }
}

/// Calls `std::str::from_utf8`.
///
/// Trusted: it gives the text whose UTF-8 encoding the bytes are, and fails where they are not
/// the encoding of a text.
#[verifier::external_body]
fn text_of(bytes: &[u8]) -> (res: Option<String>)
    ensures
        match res {
            Some(text) => valid_utf8(bytes@) && encode_utf8(text@) == bytes@,
            None => !valid_utf8(bytes@),
        },
{
    std::str::from_utf8(bytes).ok().map(|text| text.to_owned())
}

/// Decides what DuckDB scans in place of a table that it does not know: one of the query's
/// relations, or nothing, and then the table stays unknown.
pub fn replacement_scan_callback<'a>(table_name: &[u8], relations: &'a RelationMap) -> (res: Option<
    ReplacementScan<'a>,
>)
    ensures
        match res {
            Some(scan) => {
                &&& relation_for(table_name@, relations@) == Some(*scan.relation)
                &&& scan.function@ == "arrow_scan_qs"@
                &&& scan.parameters@ == seq![
                    ScanParameter::Relation,
                    ScanParameter::CreateStream,
                    ScanParameter::GetSchema,
                ]
            },
            None => relation_for(table_name@, relations@) is None,
        },
        res is Some <==> exists|name: Seq<char>| #[trigger]
            encode_utf8(name) == table_name@ && relations@.contains_key(name),
        forall|name: Seq<char>| #[trigger]
            encode_utf8(name) == table_name@ && relations@.contains_key(name)
                ==> *res->Some_0.relation == relations@[name],
{
    proof {
        assert forall|name: Seq<char>| #[trigger] encode_utf8(name)
            == table_name@ implies valid_utf8(table_name@) && decode_utf8(table_name@) == name by {
            vstd::utf8::encode_utf8_decode_utf8(name);
            vstd::utf8::encode_utf8_valid_utf8(name);
        }
    }
    let table = match text_of(table_name) {
        Some(table) => table,
        None => return None,
    };
    proof {
        vstd::utf8::encode_utf8_decode_utf8(table@);
    }
    let relation = match relations.get(table.as_str()) {
        Some(relation) => relation,
        None => return None,
    };
    let parameters = vec![
        ScanParameter::Relation,
        ScanParameter::CreateStream,
        ScanParameter::GetSchema,
    ];
    Some(ReplacementScan { function: "arrow_scan_qs".to_owned(), relation, parameters })
}

} // verus!
