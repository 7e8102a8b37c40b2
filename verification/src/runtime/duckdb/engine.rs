//! How the engine binds the parameters of a query.
use std::sync::Arc;

use arrow::datatypes::Schema;
use vstd::hash_map::StringHashMap;
use vstd::prelude::*;
use vstd::relations::sorted_by;

use crate::ast::{create_table_as, select_star_from, spellings, Ident, ObjectName, Statement};
use crate::runtime::duckdb::laws::law_last_position_of_a_name_counts;
use crate::runtime::error::RuntimeError;
use crate::runtime::normalize::Normalizer;
use crate::runtime::sql::{distinct_names, Entry, Params, SQLEngineType, SQLParam, Type, Value};
use crate::text::{decimal, decimal_text, name_order, sort_idents};
use crate::types::relation::{share, ArrowRecordBatchRelation};

verus! {

/// The placeholder of the parameter at position `index` of a query, which counts from one.
pub open spec fn placeholder(index: int) -> Seq<char> {
    "$"@ + decimal((index + 1) as nat)
}

/// The placeholders of parameters, by name. Where a name occurs more than once, the last position
/// counts.
pub open spec fn placeholders(names: Seq<Seq<char>>) -> Map<Seq<char>, Seq<char>>
    decreases names.len(),
{
    if names.len() == 0 {
        Map::empty()
    } else {
        placeholders(names.drop_last()).insert(names.last(), placeholder(names.len() - 1))
    }
}

/// Replaces the scalar parameters of a query by DuckDB's positional placeholders.
pub struct DuckDBNormalizer {
    params: StringHashMap<String>,
}

impl View for DuckDBNormalizer {
    type V = Map<Seq<char>, Seq<char>>;

    closed spec fn view(&self) -> Map<Seq<char>, Seq<char>> {
        self.params@.map_values(|text: String| text@)
    }
}

impl DuckDBNormalizer {
    /// The normalizer for a query with the given parameters, in the order of their positions.
    pub fn new(params: &[Ident]) -> (res: DuckDBNormalizer)
        ensures
            res@ == placeholders(spellings(params@)),
            forall|i: int|
                0 <= i < params@.len() ==> res@.contains_key((#[trigger] params@[i]).value@),
            forall|i: int|
                0 <= i < params@.len() && (forall|j: int|
                    i < j < params@.len() ==> (#[trigger] params@[j]).value@ != params@[i].value@)
                    ==> res@[(#[trigger] params@[i]).value@] == seq!['$'] + decimal(
                    (i + 1) as nat,
                ),
    {
        let mut map: StringHashMap<String> = StringHashMap::new();
        let ghost names = spellings(params@);
        proof {
            assert(map@.map_values(|text: String| text@) =~= placeholders(names.take(0)));
        }
        let mut i: usize = 0;
        while i < params.len()
            invariant
                i <= params@.len(),
                names == spellings(params@),
                map@.map_values(|text: String| text@) == placeholders(names.take(i as int)),
            decreases params@.len() - i,
        {
            let text = "$".to_owned().concat(decimal_text((i + 1) as u64).as_str());
            map.insert(params[i].value.clone(), text);
            proof {
                assert(names.take(i + 1).drop_last() == names.take(i as int));
                assert(map@.map_values(|text: String| text@) =~= placeholders(names.take(i + 1)));
            }
            i = i + 1;
        }
        proof {
            assert(names.take(names.len() as int) == names);
            law_last_position_of_a_name_counts(names);
            assert forall|i: int| 0 <= i < params@.len() implies placeholders(names).contains_key(
                (#[trigger] params@[i]).value@,
            ) by {
                assert(names[i] == params@[i].value@);
                assert(names.contains(names[i]));
            }
            assert forall|i: int|
                0 <= i < params@.len() && (forall|j: int|
                    i < j < params@.len() ==> (#[trigger] params@[j]).value@
                        != params@[i].value@) implies placeholders(names)[(
            #[trigger] params@[i]).value@] == seq!['$'] + decimal((i + 1) as nat) by {
                assert forall|j: int| i < j < names.len() implies #[trigger] names[j]
                    != names[i] by {
                    assert(params@[j].value@ != params@[i].value@);
                }
                assert(placeholders(names)[names[i]] == seq!['$'] + decimal((i + 1) as nat));
            }
        }
        DuckDBNormalizer { params: map }
    }
}

impl Normalizer for DuckDBNormalizer {
    open spec fn quote(&self) -> Option<char> {
        Some('"')
    }

    closed spec fn replacements(&self) -> Map<Seq<char>, String> {
        self.params@
    }

    fn quote_style(&self) -> (res: Option<char>)
        ensures
            res == Some('"'),
    {
        Some('"')
    }

    fn params(&self) -> (res: &StringHashMap<String>)
        ensures
            res@.map_values(|text: String| text@) == self@,
    {
        &self.params
    }
}

/// A relation that queries can name, with its Arrow schema.
pub struct ArrowRelation {
    pub relation: Arc<ArrowRecordBatchRelation>,
    pub schema: Arc<Schema>,
}

impl Clone for ArrowRelation {
    fn clone(&self) -> (res: Self)
        ensures
            res == *self,
    {
        ArrowRelation { relation: share(&self.relation), schema: share(&self.schema) }
    }
}

/// The relations that the query at hand can name.
pub type RelationMap = StringHashMap<ArrowRelation>;

/// Why a parameter cannot be bound, if it cannot.
pub open spec fn refusal<S>(param: SQLParam<S>, err: RuntimeError) -> bool {
    match param.value {
        Value::Relation(_) => match param.type_.schema {
            Ok(_) => false,
            Err(source) => err == (RuntimeError::TypesystemError { source }),
        },
        Value::Fn => err matches RuntimeError::Unimplemented { what } && what@
            == "Function parameters"@,
        Value::Scalar(_) => false,
    }
}

/// Whether a parameter can be bound.
pub open spec fn is_bindable<S>(param: SQLParam<S>) -> bool {
    match param.value {
        Value::Relation(_) => param.type_.schema is Ok,
        Value::Fn => false,
        Value::Scalar(_) => true,
    }
}

/// The relations among the parameters, by name.
pub open spec fn relations_of<S>(entries: Seq<Entry<S>>) -> Map<Seq<char>, ArrowRelation>
    decreases entries.len(),
{
    if entries.len() == 0 {
        Map::empty()
    } else {
        let rest = relations_of(entries.drop_last());
        match (entries.last().1.value, entries.last().1.type_.schema) {
            (Value::Relation(relation), Ok(schema)) => rest.insert(
                entries.last().0@,
                ArrowRelation { relation, schema },
            ),
            _ => rest,
        }
    }
}

/// The names of the scalar parameters, in the order of the parameters.
pub open spec fn scalars_of<S>(entries: Seq<Entry<S>>) -> Seq<Ident>
    decreases entries.len(),
{
    if entries.len() == 0 {
        Seq::empty()
    } else {
        let rest = scalars_of(entries.drop_last());
        match entries.last().1.value {
            Value::Scalar(_) => rest.push(entries.last().0),
            _ => rest,
        }
    }
}

/// Whether the parameter with the given name is the given scalar.
pub open spec fn has_scalar<S>(entries: Seq<Entry<S>>, name: Seq<char>, scalar: S) -> bool {
    exists|i: int|
        0 <= i < entries.len() && (#[trigger] entries[i]).0@ == name && entries[i].1.value
            == Value::Scalar(scalar)
}

/// The parameters of a query as DuckDB takes them.
pub struct BoundParams<'a, S> {
    /// The names of the scalar parameters, in the order of their positions.
    pub scalars: Vec<Ident>,
    /// The scalar parameters, in the order of their positions.
    pub arguments: Vec<&'a S>,
    /// The normalizer that writes the positions into the query.
    pub normalizer: DuckDBNormalizer,
}

impl<'a, S> BoundParams<'a, S> {
    /// Whether these are the bound parameters for the given entries.
    pub open spec fn binds(&self, entries: Seq<Entry<S>>) -> bool {
        &&& self.scalars@.to_multiset() == scalars_of(entries).to_multiset()
        &&& sorted_by(spellings(self.scalars@), name_order())
        &&& self.normalizer@ == placeholders(spellings(self.scalars@))
        &&& self.arguments@.len() == self.scalars@.len()
        &&& forall|i: int|
            0 <= i < self.arguments@.len() ==> has_scalar(
                entries,
                self.scalars@[i]@,
                *#[trigger] self.arguments@[i],
            )
    }
}

/// The names of the scalar parameters are names of scalar parameters.
proof fn lemma_scalars_are_scalar<S>(entries: Seq<Entry<S>>, name: Ident)
    requires
        scalars_of(entries).contains(name),
    ensures
        exists|i: int|
            0 <= i < entries.len() && (#[trigger] entries[i]).0 == name
                && entries[i].1.value is Scalar,
    decreases entries.len(),
{
    let rest = scalars_of(entries.drop_last());
    if rest.contains(name) {
        lemma_scalars_are_scalar(entries.drop_last(), name);
        let i = choose|i: int|
            0 <= i < entries.drop_last().len() && (#[trigger] entries.drop_last()[i]).0 == name
                && entries.drop_last()[i].1.value is Scalar;
        assert(entries[i].0 == name);
    } else {
        assert(entries[entries.len() - 1].0 == name);
    }
}

/// The scalar parameter with the given name.
fn scalar_named<'a, S>(params: &'a Params<S>, name: &Ident) -> (res: &'a S)
    requires
        exists|i: int|
            0 <= i < params.entries().len() && (#[trigger] params.entries()[i]).0 == *name
                && params.entries()[i].1.value is Scalar,
    ensures
        has_scalar(params.entries(), name@, *res),
{
    let len = params.len();
    let mut i: usize = 0;
    loop
        invariant
            i < len,
            len == params.entries().len(),
            distinct_names(params.entries()),
            exists|j: int|
                i <= j < params.entries().len() && (#[trigger] params.entries()[j]).0 == *name
                    && params.entries()[j].1.value is Scalar,
        decreases len - i,
    {
        let entry = params.entry(i);
        if entry.0.value == name.value {
            if let Value::Scalar(scalar) = &entry.1.value {
                return scalar;
            }
        }
        i = i + 1;
    }
}

/// Binds the parameters of a query: the relations among them go into `relations`, which holds
/// nothing else afterwards, and the scalars are numbered in the order of their names. The first
/// parameter that cannot be bound ends the walk; the relations walked before it stay.
pub fn bind_params<'a, S>(relations: &mut RelationMap, params: &'a Params<S>) -> (res: Result<
    BoundParams<'a, S>,
    RuntimeError,
>)
    ensures
        match res {
            Ok(bound) => {
                &&& forall|i: int|
                    0 <= i < params.entries().len() ==> is_bindable(
                        (#[trigger] params.entries()[i]).1,
                    )
                &&& final(relations)@ == relations_of(params.entries())
                &&& bound.binds(params.entries())
            },
            Err(err) => exists|k: int|
                0 <= k < params.entries().len() && refusal(
                    (#[trigger] params.entries()[k]).1,
                    err,
                ) && (forall|i: int|
                    0 <= i < k ==> is_bindable((#[trigger] params.entries()[i]).1))
                    && final(relations)@ == relations_of(params.entries().take(k)),
        },
        res is Ok <==> forall|i: int|
            0 <= i < params.entries().len() ==> {
                ||| (#[trigger] params.entries()[i]).1.value is Scalar
                ||| params.entries()[i].1.value is Relation
                    && params.entries()[i].1.type_.schema is Ok
            },
{
    relations.clear();
    let ghost entries = params.entries();
    let len = params.len();
    let mut names: Vec<Ident> = Vec::new();
    let mut i: usize = 0;
    proof {
        assert(relations_of(entries.take(0)) == Map::<Seq<char>, ArrowRelation>::empty());
        assert(names@ == scalars_of(entries.take(0)));
    }
    while i < len
        invariant
            entries == params.entries(),
            len == entries.len(),
            i <= len,
            forall|j: int| 0 <= j < i ==> is_bindable((#[trigger] entries[j]).1),
            relations@ == relations_of(entries.take(i as int)),
            names@ == scalars_of(entries.take(i as int)),
        decreases len - i,
    {
        let entry = params.entry(i);
        proof {
            assert(entries.take(i + 1).drop_last() == entries.take(i as int));
            assert(entries.take(i + 1).last() == *entry);
        }
        match &entry.1.value {
            Value::Relation(relation) => match &entry.1.type_.schema {
                Ok(schema) => {
                    relations.insert(
                        entry.0.value.clone(),
                        ArrowRelation { relation: share(relation), schema: share(schema) },
                    );
                },
                Err(source) => {
                    assert(refusal(
                        entries[i as int].1,
                        RuntimeError::TypesystemError { source: *source },
                    ));
                    return Err(RuntimeError::TypesystemError { source: source.clone() });
                },
            },
            Value::Fn => {
                return Err(RuntimeError::Unimplemented { what: "Function parameters".to_owned() });
            },
            Value::Scalar(_) => {
                names.push(entry.0.clone());
            },
        }
        i = i + 1;
    }
    proof {
        assert(entries.take(entries.len() as int) == entries);
    }
    let scalars = sort_idents(names);
    let normalizer = DuckDBNormalizer::new(scalars.as_slice());
    let mut arguments: Vec<&'a S> = Vec::new();
    let mut k: usize = 0;
    while k < scalars.len()
        invariant
            entries == params.entries(),
            distinct_names(entries),
            k <= scalars@.len(),
            scalars@.to_multiset() == scalars_of(entries).to_multiset(),
            arguments@.len() == k,
            forall|j: int|
                0 <= j < k ==> has_scalar(
                    entries,
                    scalars@[j]@,
                    *#[trigger] arguments@[j],
                ),
        decreases scalars@.len() - k,
    {
        proof {
            broadcast use vstd::seq_lib::group_to_multiset_ensures;
            scalars@.to_multiset_ensures();
            scalars_of(entries).to_multiset_ensures();
            assert(scalars@.contains(scalars@[k as int]));
            assert(scalars@.to_multiset().contains(scalars@[k as int]));
            assert(scalars_of(entries).contains(scalars@[k as int]));
            lemma_scalars_are_scalar(entries, scalars@[k as int]);
        }
        arguments.push(scalar_named(params, &scalars[k]));
        k = k + 1;
    }
    Ok(BoundParams { scalars, arguments, normalizer })
}

/// A statement with its parameters.
pub struct Request<S> {
    pub query: Statement,
    pub params: Params<S>,
}

/// The request that loads a value into a table: the table is created from the value, which the
/// statement names as its one parameter.
pub fn load_request<S>(table: ObjectName, value: Value<S>, type_: Type, temporary: bool) -> (res:
    Request<S>)
    ensures
        match res.query {
            Statement::CreateTableAs { name, query, temporary: flag } => {
                &&& name == table
                &&& flag == temporary
                &&& spellings(query.from.parts@) == seq!["__qs_load"@]
            },
        },
        res.params.entries().len() == 1,
        res.params.entries()[0].0@ == "__qs_load"@,
        res.params.entries()[0].1.name@ == "__qs_load"@,
        res.params.entries()[0].1.value == value,
        res.params.entries()[0].1.type_ == type_,
{
    let param_name = Ident::new("__qs_load");
    let source = ObjectName { parts: vec![param_name.clone()] };
    let query = create_table_as(table, select_star_from(source), temporary);
    let param = SQLParam { name: param_name.clone(), value, type_ };
    let params = Params::new().insert(param_name, param);
    Request { query, params }
}

/// The engine, with its connection of type `C`.
pub struct DuckDBEngine<C> {
    pub conn: C,
    pub initialized: bool,
}

impl<C> DuckDBEngine<C> {
    /// An engine with the given connection.
    pub fn build(conn: C) -> (res: DuckDBEngine<C>)
        ensures
            res == (DuckDBEngine { conn, initialized: false }),
    {
        DuckDBEngine { conn, initialized: false }
    }

    /// Creates the engine's database, which takes nothing: DuckDB creates a database when it is
    /// first used.
    pub fn create(&mut self) -> (res: Result<(), RuntimeError>)
        ensures
            res == Ok::<(), RuntimeError>(()),
            *final(self) == *old(self),
    {
        Ok(())
    }

    /// The kind of the engine.
    pub fn engine_type(&self) -> (res: SQLEngineType)
        ensures
            res == SQLEngineType::DuckDB,
    {
        SQLEngineType::DuckDB
    }
}

} // verus!
