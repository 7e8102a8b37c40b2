//! Laws of the DuckDB engine.
use arrow::error::ArrowError;
use arrow::record_batch::RecordBatch;
use vstd::prelude::*;
use vstd::utf8::{decode_utf8, encode_utf8, valid_utf8};

use crate::ast::{spellings, Ident};
use crate::runtime::duckdb::engine::{
    is_bindable, placeholder, placeholders, refusal, relations_of, scalars_of, ArrowRelation,
    BoundParams, DuckDBNormalizer,
};
use crate::runtime::duckdb::pool::{is_next_step, ConnectionString, Step};
use crate::runtime::duckdb::reader::{
    are_fields, field_positions, is_item, is_read, lemma_field_positions, positions_of, requested,
    texts, VecRecordBatchReader,
};
use crate::runtime::duckdb::scan::relation_for;
use crate::runtime::error::RuntimeError;
use crate::runtime::normalize::Normalizer;
use crate::runtime::sql::{
    by_name, distinct_names, law_params_are_found_by_name, Entry, SQLParam, Value,
};
use crate::text::{
    decimal, law_decimal_is_injective, law_name_order_is_total,
    law_names_are_ordered_by_their_bytes, name_order,
};
use crate::types::relation::{
    batch_columns, batch_metadata, batch_rows, law_projection_selects_by_index,
};

verus! {

/// Where no name occurs twice, each parameter has the placeholder of its position.
pub proof fn law_placeholders_follow_positions(names: Seq<Seq<char>>)
    requires
        names.no_duplicates(),
    ensures
        forall|name: Seq<char>|
            #[trigger] placeholders(names).contains_key(name) <==> names.contains(name),
        forall|i: int|
            0 <= i < names.len() ==> placeholders(names)[#[trigger] names[i]] == placeholder(i),
    decreases names.len(),
{
    if names.len() > 0 {
        let front = names.drop_last();
        law_placeholders_follow_positions(front);
        assert forall|name: Seq<char>| #[trigger]
            placeholders(names).contains_key(name) <==> names.contains(name) by {
            assert(placeholders(front).contains_key(name) <==> front.contains(name));
            if front.contains(name) {
                let i = choose|i: int| 0 <= i < front.len() && front[i] == name;
                assert(names[i] == name);
            }
            if names.contains(name) && name != names.last() {
                let i = choose|i: int| 0 <= i < names.len() && names[i] == name;
                assert(front[i] == name);
            }
            if name == names.last() {
                assert(names[names.len() - 1] == name);
            }
        }
        assert forall|i: int| 0 <= i < names.len() implies placeholders(names)[#[trigger] names[i]]
            == placeholder(i) by {
            if i < front.len() {
                assert(front[i] == names[i]);
                assert(names[i] != names[names.len() - 1]);
            }
        }
    }
}

/// Different positions have different placeholders.
pub proof fn law_placeholders_are_distinct(i: int, j: int)
    requires
        0 <= i,
        0 <= j,
        placeholder(i) == placeholder(j),
    ensures
        i == j,
{
    let mark = "$"@;
    assert(decimal((i + 1) as nat) == placeholder(i).skip(mark.len() as int));
    assert(decimal((j + 1) as nat) == placeholder(j).skip(mark.len() as int));
    law_decimal_is_injective((i + 1) as nat, (j + 1) as nat);
}

/// Whether a parameter is a relation that can be bound.
pub open spec fn is_relation<S>(param: SQLParam<S>) -> bool {
    param.value is Relation && param.type_.schema is Ok
}

/// The relation that a parameter is bound as.
pub open spec fn bound_relation<S>(param: SQLParam<S>) -> ArrowRelation {
    ArrowRelation { relation: param.value->Relation_0, schema: param.type_.schema->Ok_0 }
}

/// The relations that a query can name are its relation parameters, under their names.
pub proof fn law_relations_are_the_relation_params<S>(entries: Seq<Entry<S>>)
    requires
        distinct_names(entries),
    ensures
        forall|name: Seq<char>| #[trigger]
            relations_of(entries).contains_key(name) <==> by_name(entries).contains_key(name)
                && is_relation(by_name(entries)[name]),
        forall|name: Seq<char>| #[trigger]
            relations_of(entries).contains_key(name) ==> relations_of(entries)[name]
                == bound_relation(by_name(entries)[name]),
    decreases entries.len(),
{
    if entries.len() > 0 {
        let front = entries.drop_last();
        assert(forall|i: int| 0 <= i < front.len() ==> front[i] == entries[i]);
        law_relations_are_the_relation_params(front);
        law_params_are_found_by_name(front);
        let last = entries.last();
        assert forall|name: Seq<char>| true implies (#[trigger] relations_of(entries).contains_key(
            name,
        ) <==> by_name(entries).contains_key(name) && is_relation(by_name(entries)[name])) && (
        relations_of(entries).contains_key(name) ==> relations_of(entries)[name] == bound_relation(
            by_name(entries)[name],
        )) by {
            assert(relations_of(front).contains_key(name) <==> by_name(front).contains_key(name)
                && is_relation(by_name(front)[name]));
            if name == last.0@ {
                if by_name(front).contains_key(name) {
                    let i = choose|i: int| 0 <= i < front.len() && (#[trigger] front[i]).0@ == name;
                    assert(entries[i].0@ != entries[entries.len() - 1].0@);
                }
            }
        }
    }
}

/// The scalars of a query are its scalar parameters, each once.
proof fn lemma_scalars<S>(entries: Seq<Entry<S>>)
    requires
        distinct_names(entries),
    ensures
        spellings(scalars_of(entries)).no_duplicates(),
        forall|name: Seq<char>| #[trigger]
            spellings(scalars_of(entries)).contains(name) <==> by_name(entries).contains_key(name)
                && by_name(entries)[name].value is Scalar,
    decreases entries.len(),
{
    if entries.len() > 0 {
        let front = entries.drop_last();
        assert(forall|i: int| 0 <= i < front.len() ==> front[i] == entries[i]);
        lemma_scalars(front);
        law_params_are_found_by_name(front);
        let last = entries.last();
        let before = spellings(scalars_of(front));
        let now = spellings(scalars_of(entries));
        if by_name(front).contains_key(last.0@) {
            let i = choose|i: int| 0 <= i < front.len() && (#[trigger] front[i]).0@ == last.0@;
            assert(entries[i].0@ != entries[entries.len() - 1].0@);
        }
        assert(!before.contains(last.0@));
        if last.1.value is Scalar {
            assert(now == before.push(last.0@));
            assert forall|i: int, j: int|
                0 <= i < now.len() && 0 <= j < now.len() && i != j implies now[i] != now[j] by {
                if i < before.len() && j < before.len() {
                    assert(before[i] != before[j]);
                } else if i < before.len() {
                    assert(before.contains(before[i]));
                } else {
                    assert(before.contains(before[j]));
                }
            }
        } else {
            assert(now == before);
        }
        assert forall|name: Seq<char>| #[trigger] now.contains(name) <==> by_name(
            entries,
        ).contains_key(name) && by_name(entries)[name].value is Scalar by {
            assert(before.contains(name) <==> by_name(front).contains_key(name) && by_name(
                front,
            )[name].value is Scalar);
            if last.1.value is Scalar {
                if before.contains(name) {
                    let i = choose|i: int| 0 <= i < before.len() && before[i] == name;
                    assert(now[i] == name);
                }
                if name == last.0@ {
                    assert(now[now.len() - 1] == name);
                }
                if now.contains(name) && name != last.0@ {
                    let i = choose|i: int| 0 <= i < now.len() && now[i] == name;
                    assert(before[i] == name);
                }
            }
        }
    } else {
        assert(spellings(scalars_of(entries)) == Seq::<Seq<char>>::empty());
    }
}

/// Reordering identifiers whose spellings are all different leaves their spellings different, and
/// the same as a set.
proof fn lemma_reordered_spellings(left: Seq<Ident>, right: Seq<Ident>)
    requires
        left.to_multiset() == right.to_multiset(),
        spellings(right).no_duplicates(),
    ensures
        spellings(left).no_duplicates(),
        forall|name: Seq<char>| #[trigger]
            spellings(left).contains(name) <==> spellings(right).contains(name),
{
    broadcast use vstd::seq_lib::group_to_multiset_ensures;

    left.to_multiset_ensures();
    right.to_multiset_ensures();
    assert forall|i: int, j: int|
        0 <= i < right.len() && 0 <= j < right.len() && i != j implies right[i] != right[j] by {
        assert(spellings(right)[i] != spellings(right)[j]);
    }
    right.lemma_multiset_has_no_duplicates();
    left.lemma_multiset_has_no_duplicates_conv();
    assert forall|ident: Ident| left.contains(ident) <==> right.contains(ident) by {
        assert(left.to_multiset().contains(ident) <==> left.contains(ident));
        assert(right.to_multiset().contains(ident) <==> right.contains(ident));
    }
    assert forall|i: int, j: int|
        0 <= i < left.len() && 0 <= j < left.len() && i != j implies spellings(left)[i]
        != spellings(left)[j] by {
        assert(left[i] != left[j]);
        assert(right.contains(left[i]));
        assert(right.contains(left[j]));
        let k = choose|k: int| 0 <= k < right.len() && right[k] == left[i];
        let l = choose|l: int| 0 <= l < right.len() && right[l] == left[j];
        assert(spellings(right)[k] != spellings(right)[l]);
    }
    assert forall|name: Seq<char>| #[trigger]
        spellings(left).contains(name) <==> spellings(right).contains(name) by {
        if spellings(left).contains(name) {
            let i = choose|i: int| 0 <= i < left.len() && spellings(left)[i] == name;
            assert(right.contains(left[i]));
            let k = choose|k: int| 0 <= k < right.len() && right[k] == left[i];
            assert(spellings(right)[k] == name);
        }
        if spellings(right).contains(name) {
            let i = choose|i: int| 0 <= i < right.len() && spellings(right)[i] == name;
            assert(left.contains(right[i]));
            let k = choose|k: int| 0 <= k < left.len() && left[k] == right[i];
            assert(spellings(left)[k] == name);
        }
    }
}

/// Every scalar parameter has exactly one position, and only scalar parameters have one.
pub proof fn law_positions_are_the_scalar_params<S>(entries: Seq<Entry<S>>, bound: BoundParams<S>)
    requires
        distinct_names(entries),
        bound.binds(entries),
    ensures
        spellings(bound.scalars@).no_duplicates(),
        forall|name: Seq<char>| #[trigger]
            spellings(bound.scalars@).contains(name) <==> by_name(entries).contains_key(name)
                && by_name(entries)[name].value is Scalar,
{
    lemma_scalars(entries);
    lemma_reordered_spellings(bound.scalars@, scalars_of(entries));
    assert forall|name: Seq<char>| #[trigger]
        spellings(bound.scalars@).contains(name) <==> by_name(entries).contains_key(name)
            && by_name(entries)[name].value is Scalar by {
        assert(spellings(bound.scalars@).contains(name) <==> spellings(
            scalars_of(entries),
        ).contains(name));
    }
}

/// The placeholder that a scalar parameter gets in the query is that of the position at which its
/// value is handed over.
pub proof fn law_arguments_match_placeholders<S>(
    entries: Seq<Entry<S>>,
    bound: BoundParams<S>,
    i: int,
)
    requires
        distinct_names(entries),
        bound.binds(entries),
        0 <= i < bound.scalars@.len(),
    ensures
        by_name(entries).contains_key(bound.scalars@[i]@),
        by_name(entries)[bound.scalars@[i]@].value == Value::Scalar(*bound.arguments@[i]),
        bound.normalizer@.contains_key(bound.scalars@[i]@),
        bound.normalizer@[bound.scalars@[i]@] == placeholder(i),
{
    law_positions_are_the_scalar_params(entries, bound);
    law_placeholders_follow_positions(spellings(bound.scalars@));
    law_params_are_found_by_name(entries);
    let names = spellings(bound.scalars@);
    assert(names[i] == bound.scalars@[i]@);
    assert(names.contains(names[i]));
    assert(placeholders(names).contains_key(names[i]));
    assert(bound.arguments@.len() > i);
    let argument = *bound.arguments@[i];
    let k = choose|k: int|
        0 <= k < entries.len() && (#[trigger] entries[k]).0@ == names[i] && entries[k].1.value
            == Value::Scalar(argument);
    assert(by_name(entries)[entries[k].0@] == entries[k].1);
}

/// Each parameter that can be bound is either a relation that the query can name or a scalar with
/// a position, and never both.
pub proof fn law_each_param_is_bound_once<S>(entries: Seq<Entry<S>>, bound: BoundParams<S>, i: int)
    requires
        distinct_names(entries),
        bound.binds(entries),
        0 <= i < entries.len(),
        is_bindable(entries[i].1),
    ensures
        relations_of(entries).contains_key(entries[i].0@) <==> !bound.normalizer@.contains_key(
            entries[i].0@,
        ),
{
    law_positions_are_the_scalar_params(entries, bound);
    law_placeholders_follow_positions(spellings(bound.scalars@));
    law_relations_are_the_relation_params(entries);
    law_params_are_found_by_name(entries);
    let name = entries[i].0@;
    assert(by_name(entries)[name] == entries[i].1);
    assert(placeholders(spellings(bound.scalars@)).contains_key(name) <==> spellings(
        bound.scalars@,
    ).contains(name));
}

/// The order in which the parameters are walked makes no difference to how they are bound: the
/// same parameters give the same relations, positions and values.
pub proof fn law_walk_order_makes_no_difference<S>(
    left: Seq<Entry<S>>,
    right: Seq<Entry<S>>,
    left_bound: BoundParams<S>,
    right_bound: BoundParams<S>,
)
    requires
        distinct_names(left),
        distinct_names(right),
        by_name(left) == by_name(right),
        left_bound.binds(left),
        right_bound.binds(right),
    ensures
        relations_of(left) == relations_of(right),
        spellings(left_bound.scalars@) == spellings(right_bound.scalars@),
        left_bound.normalizer@ == right_bound.normalizer@,
        left_bound.arguments@.len() == right_bound.arguments@.len(),
        forall|i: int|
            0 <= i < left_bound.arguments@.len() ==> *#[trigger] left_bound.arguments@[i]
                == *right_bound.arguments@[i],
{
    law_relations_are_the_relation_params(left);
    law_relations_are_the_relation_params(right);
    assert(relations_of(left) =~= relations_of(right)) by {
        assert forall|name: Seq<char>| #[trigger]
            relations_of(left).contains_key(name) <==> relations_of(right).contains_key(name) by {}
        assert forall|name: Seq<char>| #[trigger]
            relations_of(left).contains_key(name) implies relations_of(left)[name] == relations_of(
            right,
        )[name] by {
            assert(relations_of(right).contains_key(name));
        }
    }
    law_positions_are_the_scalar_params(left, left_bound);
    law_positions_are_the_scalar_params(right, right_bound);
    let x = spellings(left_bound.scalars@);
    let y = spellings(right_bound.scalars@);
    lemma_same_names_same_multiset(x, y);
    law_name_order_is_total();
    vstd::seq_lib::lemma_sorted_unique(x, y, name_order());
    assert forall|i: int| 0 <= i < left_bound.arguments@.len() implies *#[trigger]
        left_bound.arguments@[i] == *right_bound.arguments@[i] by {
        law_arguments_match_placeholders(left, left_bound, i);
        law_arguments_match_placeholders(right, right_bound, i);
        assert(x[i] == y[i]);
    }
}

/// Two sequences without duplicates that hold the same names are equal as multisets.
proof fn lemma_same_names_same_multiset(x: Seq<Seq<char>>, y: Seq<Seq<char>>)
    requires
        x.no_duplicates(),
        y.no_duplicates(),
        forall|name: Seq<char>| #[trigger] x.contains(name) <==> y.contains(name),
    ensures
        x.to_multiset() == y.to_multiset(),
{
    broadcast use vstd::seq_lib::group_to_multiset_ensures;

    x.to_multiset_ensures();
    y.to_multiset_ensures();
    x.lemma_multiset_has_no_duplicates();
    y.lemma_multiset_has_no_duplicates();
    assert forall|name: Seq<char>| #[trigger] x.to_multiset().count(name) == y.to_multiset().count(
        name,
    ) by {
        assert(x.contains(name) <==> y.contains(name));
        assert(x.to_multiset().contains(name) <==> x.contains(name));
        assert(y.to_multiset().contains(name) <==> y.contains(name));
    }
    assert(x.to_multiset() =~= y.to_multiset());
}

/// Whether the parameters can be bound does not depend on the order in which they are walked.
pub proof fn law_walk_order_does_not_decide_refusal<S>(left: Seq<Entry<S>>, right: Seq<Entry<S>>)
    requires
        distinct_names(left),
        distinct_names(right),
        by_name(left) == by_name(right),
        forall|i: int| 0 <= i < left.len() ==> is_bindable((#[trigger] left[i]).1),
    ensures
        forall|i: int| 0 <= i < right.len() ==> is_bindable((#[trigger] right[i]).1),
{
    law_params_are_found_by_name(left);
    law_params_are_found_by_name(right);
    assert forall|i: int| 0 <= i < right.len() implies is_bindable((#[trigger] right[i]).1) by {
        let name = right[i].0@;
        assert(by_name(right).contains_key(name));
        let j = choose|j: int| 0 <= j < left.len() && (#[trigger] left[j]).0@ == name;
        assert(by_name(left)[left[j].0@] == left[j].1);
    }
}

/// A table that has the name of one of the query's relations is scanned as that relation, and a
/// table of any other name stays unknown.
pub proof fn law_relations_are_scanned_by_name(
    name: Seq<char>,
    relations: Map<Seq<char>, ArrowRelation>,
)
    ensures
        relations.contains_key(name) ==> relation_for(encode_utf8(name), relations) == Some(
            relations[name],
        ),
        !relations.contains_key(name) ==> relation_for(encode_utf8(name), relations) is None,
{
    vstd::utf8::encode_utf8_decode_utf8(name);
    vstd::utf8::encode_utf8_valid_utf8(name);
}

/// The parameters of a request that loads a relation bind that relation, under the name that the
/// statement selects from, and nothing else; the table of that name is scanned as the relation.
pub proof fn law_load_binds_its_relation<S>(entries: Seq<Entry<S>>, bound: BoundParams<S>)
    requires
        entries.len() == 1,
        is_relation(entries[0].1),
        bound.binds(entries),
    ensures
        relations_of(entries) == Map::<Seq<char>, ArrowRelation>::empty().insert(
            entries[0].0@,
            bound_relation(entries[0].1),
        ),
        relation_for(encode_utf8(entries[0].0@), relations_of(entries)) == Some(
            bound_relation(entries[0].1),
        ),
        bound.scalars@.len() == 0,
        bound.arguments@.len() == 0,
{
    broadcast use vstd::seq_lib::group_to_multiset_ensures;

    let front = entries.drop_last();
    assert(front.len() == 0);
    assert(relations_of(front) == Map::<Seq<char>, ArrowRelation>::empty());
    assert(scalars_of(front) == Seq::<Ident>::empty());
    assert(scalars_of(entries) == Seq::<Ident>::empty());
    law_relations_are_scanned_by_name(entries[0].0@, relations_of(entries));
    bound.scalars@.to_multiset_ensures();
    scalars_of(entries).to_multiset_ensures();
}

/// A new reader hands out every batch of its relation exactly once, in order, each projected to
/// the requested columns, and nothing after that.
pub proof fn law_reader_hands_out_each_batch_once(
    readers: Seq<VecRecordBatchReader>,
    items: Seq<Option<Result<RecordBatch, ArrowError>>>,
    i: int,
)
    requires
        readers.len() == items.len() + 1,
        readers[0].position() == 0,
        forall|k: int|
            0 <= k < items.len() ==> is_read(readers[k], readers[k + 1], #[trigger] items[k]),
        0 <= i < items.len(),
    ensures
        i < readers[0].batches().len() ==> items[i] is Some && is_item(
            readers[0].batches()[i],
            readers[0].requested_columns(),
            items[i]->Some_0,
        ),
        i >= readers[0].batches().len() ==> items[i] is None,
{
    lemma_reader_position(readers, items, i);
    assert(is_read(readers[i], readers[i + 1], items[i]));
}

proof fn lemma_reader_position(
    readers: Seq<VecRecordBatchReader>,
    items: Seq<Option<Result<RecordBatch, ArrowError>>>,
    i: int,
)
    requires
        readers.len() == items.len() + 1,
        readers[0].position() == 0,
        forall|k: int|
            0 <= k < items.len() ==> is_read(readers[k], readers[k + 1], #[trigger] items[k]),
        0 <= i < readers.len(),
    ensures
        readers[i].source() == readers[0].source(),
        readers[i].requested_columns() == readers[0].requested_columns(),
        readers[i].position() == if i < readers[0].batches().len() {
            i
        } else {
            readers[0].batches().len() as int
        },
    decreases i,
{
    if i > 0 {
        lemma_reader_position(readers, items, i - 1);
        assert(is_read(readers[i - 1], readers[i], items[i - 1]));
    }
}

/// Each requested field is read from a column of that name.
pub proof fn law_positions_have_the_requested_names(
    names: Seq<Seq<char>>,
    fields: Seq<Seq<char>>,
    i: int,
)
    requires
        names.len() <= usize::MAX,
        0 <= i < fields.len(),
        names.contains(fields[i]),
    ensures
        positions_of(names, fields)[i] < names.len(),
        names[positions_of(names, fields)[i] as int] == fields[i],
{
    lemma_field_positions(names, fields[i]);
}

/// Where no name occurs twice, asking for all fields in their order gives all positions in order.
pub proof fn law_all_fields_have_all_positions(names: Seq<Seq<char>>)
    requires
        names.len() <= usize::MAX,
        names.no_duplicates(),
    ensures
        positions_of(names, names) == Seq::new(names.len(), |i: int| i as usize),
{
    assert forall|i: int| 0 <= i < names.len() implies positions_of(names, names)[i] == i by {
        assert(names.contains(names[i]));
        lemma_field_positions(names, names[i]);
    }
}

/// Once a connection to a database is in the pool, the next step for that database is to clone
/// that connection.
pub proof fn law_opened_database_is_shared<C>(
    conns: Map<Seq<char>, C>,
    conn_str: ConnectionString,
    conn: C,
    step: Step<C>,
)
    requires
        is_next_step(conns.insert(conn_str.url@, conn), Some(conn_str), step),
    ensures
        step matches Step::CloneFrom { shared } && *shared == conn,
{
}

/// What is next for one database does not change when another is put into the pool; what is next
/// for a database in memory never changes.
pub proof fn law_databases_are_independent<C>(
    conns: Map<Seq<char>, C>,
    database: Option<ConnectionString>,
    url: Seq<char>,
    conn: C,
    step: Step<C>,
)
    requires
        database matches Some(conn_str) ==> conn_str.url@ != url,
    ensures
        is_next_step(conns.insert(url, conn), database, step) <==> is_next_step(
            conns,
            database,
            step,
        ),
{
}

/// Whether the pool goes from one state to the next by putting in the connection to a database
/// that had to be opened.
pub open spec fn is_opening<C>(
    before: Map<Seq<char>, C>,
    after: Map<Seq<char>, C>,
    conn_str: ConnectionString,
    conn: C,
) -> bool {
    &&& is_next_step(before, Some(conn_str), Step::Open { path: conn_str.path })
    &&& after == before.insert(conn_str.url@, conn)
}

/// A database is opened once: whatever is opened after it, the pool keeps the first connection to
/// it, and all later connections are clones of that one.
pub proof fn law_first_connection_stays<C>(
    states: Seq<Map<Seq<char>, C>>,
    opened: Seq<(ConnectionString, C)>,
    url: Seq<char>,
)
    requires
        states.len() == opened.len() + 1,
        forall|k: int|
            0 <= k < opened.len() ==> is_opening(
                states[k],
                states[k + 1],
                (#[trigger] opened[k]).0,
                opened[k].1,
            ),
        states[0].contains_key(url),
    ensures
        states.last().contains_key(url),
        states.last()[url] == states[0][url],
    decreases opened.len(),
{
    if opened.len() > 0 {
        let fewer = states.drop_last();
        let front = opened.drop_last();
        assert forall|k: int| 0 <= k < front.len() implies is_opening(
            fewer[k],
            fewer[k + 1],
            (#[trigger] front[k]).0,
            front[k].1,
        ) by {
            assert(front[k] == opened[k]);
        }
        law_first_connection_stays(fewer, front, url);
        let k = opened.len() - 1;
        assert(is_opening(states[k], states[k + 1], opened[k].0, opened[k].1));
    }
}

/// A parameter can be bound exactly if it is a scalar, or a relation whose type converts to a
/// schema, whatever the relation holds.
pub proof fn law_scalars_and_typed_relations_are_bindable<S>(param: SQLParam<S>)
    ensures
        is_bindable(param) <==> param.value is Scalar || (param.value is Relation
            && param.type_.schema is Ok),
        is_relation(param) <==> param.value is Relation && param.type_.schema is Ok,
        is_relation(param) ==> bound_relation(param).relation == param.value->Relation_0
            && bound_relation(param).schema == param.type_.schema->Ok_0,
{
}

/// A parameter is refused exactly if it is a function, which is not implemented, or a relation
/// whose type does not convert, and then for the reason that the conversion gives.
pub proof fn law_functions_and_untyped_relations_are_refused<S>(
    param: SQLParam<S>,
    err: RuntimeError,
)
    ensures
        refusal(param, err) <==> {
            ||| param.value is Fn && err is Unimplemented && err->what@ == "Function parameters"@
            ||| param.value is Relation && param.type_.schema is Err && err is TypesystemError
                && err->source == param.type_.schema->Err_0
        },
        (exists|e: RuntimeError| refusal(param, e)) ==> !is_bindable(param),
{
}

/// Each relation parameter can be named in the query, with its own data and schema, and nothing
/// else can.
pub proof fn law_queries_can_name_each_relation_param<S>(entries: Seq<Entry<S>>)
    requires
        distinct_names(entries),
    ensures
        forall|i: int|
            0 <= i < entries.len() && (#[trigger] entries[i]).1.value is Relation
                && entries[i].1.type_.schema is Ok ==> relations_of(entries).contains_key(
                entries[i].0.value@,
            ) && relations_of(entries)[entries[i].0.value@].relation
                == entries[i].1.value->Relation_0
                && relations_of(entries)[entries[i].0.value@].schema
                == entries[i].1.type_.schema->Ok_0,
        forall|name: Seq<char>| #[trigger]
            relations_of(entries).contains_key(name) ==> exists|i: int|
                0 <= i < entries.len() && (#[trigger] entries[i]).0.value@ == name
                    && entries[i].1.value is Relation && entries[i].1.type_.schema is Ok,
{
    law_relations_are_the_relation_params(entries);
    law_params_are_found_by_name(entries);
    assert forall|i: int|
        0 <= i < entries.len() && (#[trigger] entries[i]).1.value is Relation
            && entries[i].1.type_.schema is Ok implies relations_of(entries).contains_key(
        entries[i].0.value@,
    ) && relations_of(entries)[entries[i].0.value@].relation == entries[i].1.value->Relation_0
        && relations_of(entries)[entries[i].0.value@].schema
        == entries[i].1.type_.schema->Ok_0 by {
        let name = entries[i].0@;
        assert(by_name(entries)[name] == entries[i].1);
        assert(relations_of(entries).contains_key(name));
    }
    assert forall|name: Seq<char>| #[trigger]
        relations_of(entries).contains_key(name) implies exists|i: int|
        0 <= i < entries.len() && (#[trigger] entries[i]).0.value@ == name
            && entries[i].1.value is Relation && entries[i].1.type_.schema is Ok by {
        assert(by_name(entries).contains_key(name));
        let i = choose|i: int| 0 <= i < entries.len() && (#[trigger] entries[i]).0@ == name;
        assert(by_name(entries)[entries[i].0@] == entries[i].1);
    }
}

/// Each scalar parameter has a position, at which its own value is handed over and whose number is
/// its placeholder; nothing else has a position or a placeholder.
pub proof fn law_each_scalar_param_has_its_position<S>(entries: Seq<Entry<S>>, bound: BoundParams<S>)
    requires
        distinct_names(entries),
        bound.binds(entries),
    ensures
        bound.arguments@.len() == bound.scalars@.len(),
        forall|k: int|
            0 <= k < entries.len() && (#[trigger] entries[k]).1.value is Scalar ==> exists|i: int|
                0 <= i < bound.scalars@.len() && (#[trigger] bound.scalars@[i]).value@
                    == entries[k].0.value@ && *bound.arguments@[i] == entries[k].1.value->Scalar_0,
        forall|i: int|
            0 <= i < bound.scalars@.len() ==> exists|k: int|
                0 <= k < entries.len() && (#[trigger] entries[k]).0.value@ == (
                #[trigger] bound.scalars@[i]).value@ && entries[k].1.value is Scalar
                    && entries[k].1.value->Scalar_0 == *bound.arguments@[i],
        forall|i: int|
            0 <= i < bound.scalars@.len() ==> bound.normalizer@.contains_key(
                (#[trigger] bound.scalars@[i]).value@,
            ) && bound.normalizer@[bound.scalars@[i].value@] == seq!['$'] + decimal((i + 1) as nat),
        forall|name: Seq<char>| #[trigger]
            bound.normalizer@.contains_key(name) ==> exists|i: int|
                0 <= i < bound.scalars@.len() && (#[trigger] bound.scalars@[i]).value@ == name,
{
    let names = spellings(bound.scalars@);
    law_positions_are_the_scalar_params(entries, bound);
    law_placeholders_follow_positions(names);
    law_params_are_found_by_name(entries);
    assert forall|k: int|
        0 <= k < entries.len() && (#[trigger] entries[k]).1.value is Scalar implies exists|i: int|
        0 <= i < bound.scalars@.len() && (#[trigger] bound.scalars@[i]).value@
            == entries[k].0.value@ && *bound.arguments@[i] == entries[k].1.value->Scalar_0 by {
        let name = entries[k].0@;
        assert(by_name(entries)[name] == entries[k].1);
        assert(names.contains(name));
        let i = choose|i: int| 0 <= i < names.len() && names[i] == name;
        law_arguments_match_placeholders(entries, bound, i);
        assert(bound.scalars@[i].value@ == name);
    }
    assert forall|i: int| 0 <= i < bound.scalars@.len() implies exists|k: int|
        0 <= k < entries.len() && (#[trigger] entries[k]).0.value@ == (
        #[trigger] bound.scalars@[i]).value@ && entries[k].1.value is Scalar
            && entries[k].1.value->Scalar_0 == *bound.arguments@[i] by {
        law_arguments_match_placeholders(entries, bound, i);
        let name = bound.scalars@[i]@;
        let k = choose|k: int| 0 <= k < entries.len() && (#[trigger] entries[k]).0@ == name;
        assert(by_name(entries)[entries[k].0@] == entries[k].1);
    }
    assert forall|i: int| 0 <= i < bound.scalars@.len() implies bound.normalizer@.contains_key(
        (#[trigger] bound.scalars@[i]).value@,
    ) && bound.normalizer@[bound.scalars@[i].value@] == seq!['$'] + decimal((i + 1) as nat) by {
        law_arguments_match_placeholders(entries, bound, i);
        law_placeholder_is_a_dollar_sign_and_the_position(i);
    }
    assert forall|name: Seq<char>| #[trigger]
        bound.normalizer@.contains_key(name) implies exists|i: int|
        0 <= i < bound.scalars@.len() && (#[trigger] bound.scalars@[i]).value@ == name by {
        assert(placeholders(names).contains_key(name));
        let i = choose|i: int| 0 <= i < names.len() && names[i] == name;
        assert(bound.scalars@[i].value@ == name);
    }
}

/// Positions go by the order of the parameters' names: at two different positions, the bytes of the
/// earlier name are a prefix of the later one's, or smaller at the first byte that differs, and the
/// names are not the same.
pub proof fn law_positions_go_by_name<S>(
    entries: Seq<Entry<S>>,
    bound: BoundParams<S>,
    i: int,
    j: int,
)
    requires
        distinct_names(entries),
        bound.binds(entries),
        0 <= i < j < bound.scalars@.len(),
    ensures
        bound.scalars@[i].value@ != bound.scalars@[j].value@,
        ({
            let left = encode_utf8(bound.scalars@[i].value@);
            let right = encode_utf8(bound.scalars@[j].value@);
            ||| left.is_prefix_of(right)
            ||| exists|k: int|
                #![trigger left[k]]
                0 <= k < left.len() && k < right.len() && left.take(k) == right.take(k) && left[k]
                    < right[k]
        }),
{
    law_positions_are_the_scalar_params(entries, bound);
    let names = spellings(bound.scalars@);
    assert(name_order()(names[i], names[j]));
    assert(names[i] != names[j]);
    law_names_are_ordered_by_their_bytes(names[i], names[j]);
}

/// The placeholder at a position is a dollar sign followed by the position's number, from one.
pub proof fn law_placeholder_is_a_dollar_sign_and_the_position(i: int)
    requires
        0 <= i,
    ensures
        placeholder(i) == seq!['$'] + decimal((i + 1) as nat),
{
    reveal_strlit("$");
    assert("$"@ =~= seq!['$']);
}

/// Every name has a placeholder and nothing else has one; a name that occurs more than once has
/// that of its last position.
pub proof fn law_last_position_of_a_name_counts(names: Seq<Seq<char>>)
    ensures
        forall|name: Seq<char>| #[trigger]
            placeholders(names).contains_key(name) <==> names.contains(name),
        forall|i: int|
            0 <= i < names.len() && (forall|j: int|
                i < j < names.len() ==> #[trigger] names[j] != names[i])
                ==> #[trigger] placeholders(names)[names[i]] == seq!['$'] + decimal(
                (i + 1) as nat,
            ),
    decreases names.len(),
{
    if names.len() > 0 {
        let front = names.drop_last();
        law_last_position_of_a_name_counts(front);
        assert forall|name: Seq<char>| #[trigger]
            placeholders(names).contains_key(name) <==> names.contains(name) by {
            assert(placeholders(front).contains_key(name) <==> front.contains(name));
            if front.contains(name) {
                let i = choose|i: int| 0 <= i < front.len() && front[i] == name;
                assert(names[i] == name);
            }
            if names.contains(name) && name != names.last() {
                let i = choose|i: int| 0 <= i < names.len() && names[i] == name;
                assert(front[i] == name);
            }
            if name == names.last() {
                assert(names[names.len() - 1] == name);
            }
        }
        assert forall|i: int|
            0 <= i < names.len() && (forall|j: int|
                i < j < names.len() ==> #[trigger] names[j] != names[i]) implies #[trigger]
        placeholders(names)[names[i]] == seq!['$'] + decimal((i + 1) as nat) by {
            law_placeholder_is_a_dollar_sign_and_the_position(i);
            if i < front.len() {
                assert(names[names.len() - 1] != names[i]);
                assert forall|j: int| i < j < front.len() implies #[trigger] front[j]
                    != front[i] by {
                    assert(names[j] != names[i]);
                }
                assert(placeholders(front)[front[i]] == seq!['$'] + decimal((i + 1) as nat));
            }
        }
    }
}

/// DuckDB's identifiers are put in double quotes.
pub proof fn law_identifiers_are_put_in_double_quotes(normalizer: DuckDBNormalizer)
    ensures
        normalizer.quote() == Some('"'),
{
}

/// A reader that is asked for columns is asked for exactly those, however many they are, and one
/// that is asked for none in particular for all.
pub proof fn law_requested_columns_are_those_asked_for(indices: Seq<usize>)
    ensures
        indices.len() > 0 ==> requested(indices) == Some(indices),
        indices.len() == 0 ==> requested(indices) is None,
{
}

/// What a reader hands out for a batch: the batch itself where all columns are asked for, and else
/// one column for each index, in the order of the indices, with the batch's rows and metadata; an
/// error exactly if an index names no column, or one that does not agree with its field.
pub proof fn law_items_are_batches_with_the_requested_columns(
    batch: RecordBatch,
    projection: Option<Seq<usize>>,
    item: Result<RecordBatch, ArrowError>,
)
    requires
        is_item(batch, projection, item),
    ensures
        projection is None ==> item is Ok && item->Ok_0 == batch,
        projection is Some ==> {
            let indices = projection->Some_0;
            &&& item is Err <==> exists|i: int|
                0 <= i < indices.len() && ((#[trigger] indices[i]) >= batch_columns(batch).len()
                    || !batch_columns(batch)[indices[i] as int].fits)
            &&& item is Ok ==> {
                &&& batch_columns(item->Ok_0).len() == indices.len()
                &&& forall|i: int|
                    0 <= i < indices.len() ==> #[trigger] batch_columns(item->Ok_0)[i]
                        == batch_columns(batch)[indices[i] as int]
                &&& batch_rows(item->Ok_0) == batch_rows(batch)
                &&& batch_metadata(item->Ok_0) == batch_metadata(batch)
            }
        },
{
    if let Some(indices) = projection {
        law_projection_selects_by_index(batch, indices, item);
    }
}

/// One read hands out the relation's next batch and moves on by one, and hands out nothing exactly
/// if all of the relation's batches were handed out. It changes neither the relation nor the
/// requested columns.
pub proof fn law_each_read_moves_on_by_one_batch(
    before: VecRecordBatchReader,
    after: VecRecordBatchReader,
    item: Option<Result<RecordBatch, ArrowError>>,
)
    requires
        is_read(before, after, item),
    ensures
        after.source() == before.source(),
        after.requested_columns() == before.requested_columns(),
        item is None <==> before.position() >= before.source().relation.relation_batches().len(),
        item is None ==> after.position() == before.position(),
        item is Some ==> after.position() == before.position() + 1 && is_item(
            before.source().relation.relation_batches()[before.position() as int],
            before.requested_columns(),
            item->Some_0,
        ),
        before.batches() == before.source().relation.relation_batches(),
{
}

/// A new reader hands out as many items as its relation has batches, and then nothing: the item of
/// each read comes from the relation's batch of the same number.
pub proof fn law_reader_hands_out_the_whole_relation(
    relation: ArrowRelation,
    readers: Seq<VecRecordBatchReader>,
    items: Seq<Option<Result<RecordBatch, ArrowError>>>,
    i: int,
)
    requires
        readers.len() == items.len() + 1,
        readers[0].source() == relation,
        readers[0].position() == 0,
        forall|k: int|
            0 <= k < items.len() ==> is_read(readers[k], readers[k + 1], #[trigger] items[k]),
        0 <= i < items.len(),
    ensures
        items[i] is Some <==> i < relation.relation.relation_batches().len(),
        items[i] is Some && readers[0].requested_columns() is None ==> items[i]->Some_0 == Ok::<
            RecordBatch,
            ArrowError,
        >(relation.relation.relation_batches()[i]),
        items[i] is Some && items[i]->Some_0 is Ok && readers[0].requested_columns() is Some ==> {
            let indices = readers[0].requested_columns()->Some_0;
            let columns = batch_columns(relation.relation.relation_batches()[i]);
            let read = batch_columns(items[i]->Some_0->Ok_0);
            &&& read.len() == indices.len()
            &&& forall|c: int|
                0 <= c < indices.len() ==> #[trigger] read[c] == columns[indices[c] as int]
        },
{
    lemma_reader_position(readers, items, i);
    assert(is_read(readers[i], readers[i + 1], items[i]));
    law_each_read_moves_on_by_one_batch(readers[i], readers[i + 1], items[i]);
    assert(readers[0].batches() == relation.relation.relation_batches());
    if items[i] is Some {
        law_items_are_batches_with_the_requested_columns(
            relation.relation.relation_batches()[i],
            readers[0].requested_columns(),
            items[i]->Some_0,
        );
    }
}

/// All fields are among the names exactly if each of them is one of the names.
pub proof fn law_fields_are_among_the_names(names: Seq<Seq<char>>, fields: Seq<Seq<char>>)
    ensures
        are_fields(names, fields) <==> forall|i: int|
            0 <= i < fields.len() ==> names.contains(#[trigger] fields[i]),
{
}

/// The texts of strings are their characters, in order.
pub proof fn law_texts_are_the_strings_characters(strings: Seq<String>)
    ensures
        texts(strings).len() == strings.len(),
        forall|i: int| 0 <= i < strings.len() ==> #[trigger] texts(strings)[i] == strings[i]@,
{
}

/// Each requested field has the last position at which its name occurs.
pub proof fn law_fields_have_their_last_position(
    names: Seq<Seq<char>>,
    fields: Seq<Seq<char>>,
    i: int,
    p: int,
)
    requires
        names.len() <= usize::MAX,
        0 <= i < fields.len(),
        0 <= p < names.len(),
        names[p] == fields[i],
        forall|q: int| p < q < names.len() ==> #[trigger] names[q] != fields[i],
    ensures
        positions_of(names, fields).len() == fields.len(),
        positions_of(names, fields)[i] == p,
{
    lemma_field_positions(names, fields[i]);
    assert(names.contains(names[p]));
    let found = field_positions(names)[fields[i]] as int;
    assert(names[found] == fields[i]);
    assert(p <= found);
}

/// A stream that is built for named fields hands out, for each batch, one column for each field, in
/// the order of the fields: the batch's column at the field's last position among the schema's
/// names.
pub proof fn law_stream_has_the_named_columns_in_order(
    names: Seq<Seq<char>>,
    fields: Seq<Seq<char>>,
    before: VecRecordBatchReader,
    after: VecRecordBatchReader,
    read: RecordBatch,
    i: int,
    p: int,
)
    requires
        names.len() <= usize::MAX,
        before.requested_columns() == requested(positions_of(names, fields)),
        is_read(before, after, Some(Ok(read))),
        0 <= i < fields.len(),
        0 <= p < names.len(),
        names[p] == fields[i],
        forall|q: int| p < q < names.len() ==> #[trigger] names[q] != fields[i],
    ensures
        before.position() < before.source().relation.relation_batches().len(),
        batch_columns(read).len() == fields.len(),
        batch_columns(read)[i] == batch_columns(
            before.source().relation.relation_batches()[before.position() as int],
        )[p],
{
    law_fields_have_their_last_position(names, fields, i, p);
    law_each_read_moves_on_by_one_batch(before, after, Some(Ok(read)));
    law_items_are_batches_with_the_requested_columns(
        before.source().relation.relation_batches()[before.position() as int],
        before.requested_columns(),
        Ok(read),
    );
    assert(positions_of(names, fields).len() == fields.len());
}

/// A table is scanned as a relation exactly if its bytes are the UTF-8 encoding of that relation's
/// name.
pub proof fn law_tables_are_scanned_as_the_relation_of_their_name(
    table_name: Seq<u8>,
    relations: Map<Seq<char>, ArrowRelation>,
    relation: ArrowRelation,
)
    ensures
        relation_for(table_name, relations) == Some(relation) <==> exists|name: Seq<char>|
            #[trigger] encode_utf8(name) == table_name && relations.contains_key(name)
                && relations[name] == relation,
        relation_for(table_name, relations) is None <==> forall|name: Seq<char>|
            #[trigger] encode_utf8(name) == table_name ==> !relations.contains_key(name),
{
    assert forall|name: Seq<char>| #[trigger] encode_utf8(name) == table_name implies valid_utf8(
        table_name,
    ) && decode_utf8(table_name) == name by {
        vstd::utf8::encode_utf8_decode_utf8(name);
        vstd::utf8::encode_utf8_valid_utf8(name);
    }
    if valid_utf8(table_name) {
        vstd::utf8::decode_utf8_encode_utf8(table_name);
        assert(encode_utf8(decode_utf8(table_name)) == table_name);
    }
}

/// A database that is not in the pool is opened at its own path, whatever the path.
pub proof fn law_unopened_database_is_opened_at_its_path<C>(
    conns: Map<Seq<char>, C>,
    conn_str: ConnectionString,
    step: Step<C>,
)
    requires
        !conns.contains_key(conn_str.url@),
    ensures
        is_next_step(conns, Some(conn_str), step) <==> step is Open && step->path == conn_str.path,
{
}

/// A database that is in the pool is cloned from the pool's connection to it.
pub proof fn law_pooled_database_is_cloned<C>(
    conns: Map<Seq<char>, C>,
    conn_str: ConnectionString,
    step: Step<C>,
)
    requires
        conns.contains_key(conn_str.url@),
    ensures
        is_next_step(conns, Some(conn_str), step) <==> step is CloneFrom && *step->shared
            == conns[conn_str.url@],
{
}

/// A database in memory is opened exactly if no database is asked for.
pub proof fn law_only_unnamed_databases_are_in_memory<C>(
    conns: Map<Seq<char>, C>,
    database: Option<ConnectionString>,
    step: Step<C>,
)
    requires
        is_next_step(conns, database, step),
    ensures
        step is OpenInMemory <==> database is None,
{
}

} // verus!
