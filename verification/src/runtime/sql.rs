//! Parameters of queries.
use std::sync::Arc;

use arrow::datatypes::Schema;
use vstd::prelude::*;

use crate::ast::Ident;
use crate::types::error::TypesystemError;
use crate::types::relation::ArrowRecordBatchRelation;

verus! {

/// The kinds of engine that run queries.
#[derive(Debug, Clone, Copy, PartialEq, Eq, Structural)]
pub enum SQLEngineType {
    DuckDB,
    ClickHouse,
}

/// A value that a query is given. `S` is the type of scalar values.
pub enum Value<S> {
    Relation(Arc<ArrowRecordBatchRelation>),
    Fn,
    Scalar(S),
}

/// The type of a value, as far as an engine reads it: the Arrow schema that it converts to, or
/// why it converts to none.
pub struct Type {
    pub schema: Result<Arc<Schema>, TypesystemError>,
}

/// A parameter of a query.
pub struct SQLParam<S> {
    pub name: Ident,
    pub value: Value<S>,
    pub type_: Type,
}

/// A parameter under the name that a query knows it by.
pub type Entry<S> = (Ident, SQLParam<S>);

/// Whether no name occurs twice.
pub open spec fn distinct_names<S>(entries: Seq<Entry<S>>) -> bool {
    forall|i: int, j: int|
        0 <= i < j < entries.len() ==> (#[trigger] entries[i]).0@ != (#[trigger] entries[j]).0@
}

/// The parameters by name.
pub open spec fn by_name<S>(entries: Seq<Entry<S>>) -> Map<Seq<char>, SQLParam<S>>
    decreases entries.len(),
{
    if entries.len() == 0 {
        Map::empty()
    } else {
        by_name(entries.drop_last()).insert(entries.last().0@, entries.last().1)
    }
}

/// Where no name occurs twice, looking a parameter up by its name finds it, and a name that is
/// found is the name of a parameter.
pub proof fn law_params_are_found_by_name<S>(entries: Seq<Entry<S>>)
    requires
        distinct_names(entries),
    ensures
        forall|i: int|
            0 <= i < entries.len() ==> by_name(entries).contains_key((#[trigger] entries[i]).0@)
                && by_name(entries)[entries[i].0@] == entries[i].1,
        forall|name: Seq<char>| #[trigger]
            by_name(entries).contains_key(name) ==> exists|i: int|
                0 <= i < entries.len() && (#[trigger] entries[i]).0@ == name,
    decreases entries.len(),
{
    if entries.len() > 0 {
        let front = entries.drop_last();
        assert(forall|i: int| 0 <= i < front.len() ==> front[i] == entries[i]);
        law_params_are_found_by_name(front);
        assert forall|i: int| 0 <= i < entries.len() implies by_name(entries).contains_key(
            (#[trigger] entries[i]).0@,
        ) && by_name(entries)[entries[i].0@] == entries[i].1 by {
            if i < front.len() {
                assert(front[i] == entries[i]);
                assert(entries[i].0@ != entries[entries.len() - 1].0@);
            }
        }
        assert forall|name: Seq<char>| #[trigger]
            by_name(entries).contains_key(name) implies exists|i: int|
            0 <= i < entries.len() && (#[trigger] entries[i]).0@ == name by {
            if name == entries.last().0@ {
                assert(entries[entries.len() - 1].0@ == name);
            } else {
                assert(by_name(front).contains_key(name));
                let i = choose|i: int| 0 <= i < front.len() && (#[trigger] front[i]).0@ == name;
                assert(entries[i].0@ == name);
            }
        }
    }
}

/// Replacing a parameter where it stands replaces it under its name.
proof fn lemma_replaced_by_name<S>(entries: Seq<Entry<S>>, at: int, entry: Entry<S>)
    requires
        distinct_names(entries),
        0 <= at < entries.len(),
        entries[at].0@ == entry.0@,
    ensures
        by_name(entries.update(at, entry)) == by_name(entries).insert(entry.0@, entry.1),
{
    let now = entries.update(at, entry);
    assert(distinct_names(now));
    law_params_are_found_by_name(entries);
    law_params_are_found_by_name(now);
    let expected = by_name(entries).insert(entry.0@, entry.1);
    assert forall|name: Seq<char>| #[trigger]
        by_name(now).contains_key(name) <==> expected.contains_key(name) by {
        if by_name(now).contains_key(name) {
            let i = choose|i: int| 0 <= i < now.len() && (#[trigger] now[i]).0@ == name;
            assert(by_name(entries).contains_key(entries[i].0@));
        }
        if expected.contains_key(name) {
            if name == entry.0@ {
                assert(now[at].0@ == name);
            } else {
                let i = choose|i: int| 0 <= i < entries.len() && (#[trigger] entries[i]).0@ == name;
                assert(now[i].0@ == name);
            }
        }
    }
    assert forall|name: Seq<char>| #[trigger] by_name(now).contains_key(name) implies by_name(
        now,
    )[name] == expected[name] by {
        let i = choose|i: int| 0 <= i < now.len() && (#[trigger] now[i]).0@ == name;
        assert(by_name(now)[now[i].0@] == now[i].1);
        assert(by_name(entries)[entries[i].0@] == entries[i].1);
    }
    assert(by_name(now) =~= expected);
}

/// The parameters of a query: each name has one parameter, and the parameters are walked in the
/// order of their names' first insertion.
pub struct Params<S> {
    entries: Vec<Entry<S>>,
}

impl<S> Params<S> {
    #[verifier::type_invariant]
    spec fn no_name_twice(self) -> bool {
        distinct_names(self.entries@)
    }

    /// The parameters with their names, in the order in which they are walked.
    pub closed spec fn entries(&self) -> Seq<Entry<S>> {
        self.entries@
    }

    /// No parameters.
    pub fn new() -> (res: Params<S>)
        ensures
            res.entries() == Seq::<Entry<S>>::empty(),
    {
        Params { entries: Vec::new() }
    }

    /// Adds a parameter. One that had the name already is replaced where it stands.
    pub fn insert(self, key: Ident, param: SQLParam<S>) -> (res: Params<S>)
        ensures
            by_name(res.entries()) == by_name(self.entries()).insert(key@, param),
            (forall|i: int|
                0 <= i < self.entries().len() ==> (#[trigger] self.entries()[i]).0@ != key@)
                ==> res.entries() == self.entries().push((key, param)),
            forall|i: int|
                0 <= i < self.entries().len() && (#[trigger] self.entries()[i]).0@ == key@
                    ==> res.entries() == self.entries().update(i, (key, param)),
    {
        proof {
            use_type_invariant(&self);
        }
        let Params { mut entries } = self;
        let ghost before = entries@;
        let mut at: usize = 0;
        while at < entries.len() && entries[at].0.value != key.value
            invariant
                at <= entries@.len(),
                entries@ == before,
                forall|i: int| 0 <= i < at ==> (#[trigger] entries@[i]).0@ != key@,
            decreases entries@.len() - at,
        {
            at = at + 1;
        }
        let ghost added = (key, param);
        if at < entries.len() {
            entries[at] = (key, param);
            proof {
                lemma_replaced_by_name(before, at as int, added);
            }
        } else {
            entries.push((key, param));
            proof {
                assert(entries@.drop_last() == before);
            }
        }
        Params { entries }
    }

    /// The number of parameters, which is the number of their names.
    pub fn len(&self) -> (res: usize)
        ensures
            res == self.entries().len(),
            distinct_names(self.entries()),
    {
        proof {
            use_type_invariant(self);
        }
        self.entries.len()
    }

    /// The parameter that is walked after `index` others, with its name.
    pub fn entry(&self, index: usize) -> (res: &Entry<S>)
        requires
            index < self.entries().len(),
        ensures
            *res == self.entries()[index as int],
    {
        &self.entries[index]
    }
}

/// Parameters have distinct names exactly if any two of them are spelled differently.
pub proof fn law_distinct_names_are_spelled_differently<S>(entries: Seq<Entry<S>>)
    ensures
        distinct_names(entries) <==> forall|i: int, j: int|
            0 <= i < entries.len() && 0 <= j < entries.len() && i != j ==> (
            #[trigger] entries[i]).0.value@ != (#[trigger] entries[j]).0.value@,
{
    if distinct_names(entries) {
        assert forall|i: int, j: int|
            0 <= i < entries.len() && 0 <= j < entries.len() && i != j implies (
        #[trigger] entries[i]).0.value@ != (#[trigger] entries[j]).0.value@ by {
            if i < j {
                assert(entries[i].0@ != entries[j].0@);
            } else {
                assert(entries[j].0@ != entries[i].0@);
            }
        }
    }
}

} // verus!
