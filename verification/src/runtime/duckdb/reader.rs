//! How a relation's record batches are handed to DuckDB.
use std::sync::Arc;

use arrow::datatypes::Schema;
use arrow::error::ArrowError;
use arrow::record_batch::RecordBatch;
use vstd::hash_map::StringHashMap;
use vstd::prelude::*;

use crate::runtime::duckdb::engine::ArrowRelation;
use crate::types::relation::{all_field_names, is_projection, schema_names, share};

verus! {

/// The texts of `strings`, in order.
pub open spec fn texts(strings: Seq<String>) -> Seq<Seq<char>> {
    strings.map_values(|s: String| s@)
}

/// The position of each field, by name. Where a name occurs more than once, the last position
/// counts.
pub open spec fn field_positions(names: Seq<Seq<char>>) -> Map<Seq<char>, usize>
    decreases names.len(),
{
    if names.len() == 0 {
        Map::empty()
    } else {
        field_positions(names.drop_last()).insert(names.last(), (names.len() - 1) as usize)
    }
}

/// Whether all of `fields` are among `names`.
pub open spec fn are_fields(names: Seq<Seq<char>>, fields: Seq<Seq<char>>) -> bool {
    forall|i: int| 0 <= i < fields.len() ==> names.contains(#[trigger] fields[i])
}

/// The positions of `fields` among `names`.
pub open spec fn positions_of(names: Seq<Seq<char>>, fields: Seq<Seq<char>>) -> Seq<usize> {
    fields.map_values(|field: Seq<char>| field_positions(names)[field])
}

/// The columns that a reader is asked for: none in particular means all of them.
pub open spec fn requested(indices: Seq<usize>) -> Option<Seq<usize>> {
    if indices.len() > 0 {
        Some(indices)
    } else {
        None
    }
}

/// Whether `item` is what a reader hands out for `batch`: the batch itself, or its projection to
/// the requested columns.
pub open spec fn is_item(
    batch: RecordBatch,
    projection: Option<Seq<usize>>,
    item: Result<RecordBatch, ArrowError>,
) -> bool {
    match projection {
        Some(indices) => is_projection(batch, indices, item),
        None => item == Ok::<RecordBatch, ArrowError>(batch),
    }
}

/// The names that have a position are those of the fields.
pub proof fn lemma_field_positions(names: Seq<Seq<char>>, name: Seq<char>)
    requires
        names.len() <= usize::MAX,
    ensures
        field_positions(names).contains_key(name) <==> names.contains(name),
        names.contains(name) ==> field_positions(names)[name] < names.len()
            && names[field_positions(names)[name] as int] == name,
        forall|i: int|
            0 <= i < names.len() && #[trigger] names[i] == name ==> i <= field_positions(
                names,
            )[name],
    decreases names.len(),
{
    if names.len() > 0 {
        let front = names.drop_last();
        lemma_field_positions(front, name);
        assert forall|i: int| 0 <= i < names.len() && #[trigger] names[i] == name implies i
            <= field_positions(names)[name] by {
            if i < front.len() {
                assert(front[i] == name);
            }
        }
        if names.last() == name {
            assert(names[names.len() - 1] == name);
        } else if names.contains(name) {
            let i = choose|i: int| 0 <= i < names.len() && names[i] == name;
            assert(front[i] == name);
        } else if front.contains(name) {
            let i = choose|i: int| 0 <= i < front.len() && front[i] == name;
            assert(names[i] == name);
        }
    }
}

/// The position of each field, by name.
fn field_map(names: &Vec<String>) -> (res: StringHashMap<usize>)
    ensures
        res@ == field_positions(texts(names@)),
{
    let ghost all = texts(names@);
    let mut res: StringHashMap<usize> = StringHashMap::new();
    let mut i: usize = 0;
    proof {
        assert(res@ =~= field_positions(all.take(0)));
    }
    while i < names.len()
        invariant
            all == texts(names@),
            i <= names@.len(),
            res@ == field_positions(all.take(i as int)),
        decreases names@.len() - i,
    {
        res.insert(names[i].clone(), i);
        proof {
            assert(all.take(i + 1).drop_last() == all.take(i as int));
        }
        i = i + 1;
    }
    proof {
        assert(all.take(all.len() as int) == all);
    }
    res
}

/// The positions of `fields` among `names`.
pub fn field_indices(names: &Vec<String>, fields: &Vec<String>) -> (res: Vec<usize>)
    requires
        are_fields(texts(names@), texts(fields@)),
    ensures
        res@ == positions_of(texts(names@), texts(fields@)),
{
    let map = field_map(names);
    let ghost all = texts(names@);
    let ghost wanted = texts(fields@);
    let mut res: Vec<usize> = Vec::new();
    let count = names.len();
    let mut i: usize = 0;
    while i < fields.len()
        invariant
            all == texts(names@),
            wanted == texts(fields@),
            count == all.len(),
            are_fields(all, wanted),
            map@ == field_positions(all),
            i <= fields@.len(),
            res@ == positions_of(all, wanted).take(i as int),
        decreases fields@.len() - i,
    {
        proof {
            assert(all.contains(wanted[i as int]));
            lemma_field_positions(all, wanted[i as int]);
        }
        if let Some(position) = map.get(fields[i].as_str()) {
            res.push(*position);
        }
        proof {
            assert(res@ == positions_of(all, wanted).take(i + 1));
        }
        i = i + 1;
    }
    proof {
        assert(positions_of(all, wanted).take(wanted.len() as int) == positions_of(all, wanted));
    }
    res
}

/// Whether all of `fields` are among `names`.
pub fn has_fields(names: &Vec<String>, fields: &Vec<String>) -> (res: bool)
    ensures
        res == are_fields(texts(names@), texts(fields@)),
{
    let map = field_map(names);
    let ghost all = texts(names@);
    let ghost wanted = texts(fields@);
    let count = names.len();
    let mut i: usize = 0;
    while i < fields.len()
        invariant
            all == texts(names@),
            wanted == texts(fields@),
            count == all.len(),
            map@ == field_positions(all),
            i <= fields@.len(),
            forall|j: int| 0 <= j < i ==> all.contains(#[trigger] wanted[j]),
        decreases fields@.len() - i,
    {
        proof {
            lemma_field_positions(all, wanted[i as int]);
        }
        if !map.contains_key(fields[i].as_str()) {
            return false;
        }
        i = i + 1;
    }
    true
}

/// Reads the batches of a relation one after the other.
pub struct VecRecordBatchReader {
    data: ArrowRelation,
    idx: usize,
    projection: Option<Vec<usize>>,
}

impl VecRecordBatchReader {
    /// The relation that is read.
    pub closed spec fn source(&self) -> ArrowRelation {
        self.data
    }

    /// The batches of the relation that is read.
    pub open spec fn batches(&self) -> Seq<RecordBatch> {
        self.source().relation.relation_batches()
    }

    /// The number of batches that were handed out.
    pub closed spec fn position(&self) -> nat {
        self.idx as nat
    }

    /// The columns that each batch is projected to, if not all.
    pub closed spec fn requested_columns(&self) -> Option<Seq<usize>> {
        match self.projection {
            Some(indices) => Some(indices@),
            None => None,
        }
    }

    /// A reader at the first batch of a relation, for all columns.
    pub fn new(data: ArrowRelation) -> (res: VecRecordBatchReader)
        ensures
            res.source() == data,
            res.position() == 0,
            res.requested_columns() is None,
    {
        VecRecordBatchReader { data, idx: 0, projection: None }
    }

    /// Asks for the columns with the given indices, or for all columns if there are no indices.
    pub fn set_projection(&mut self, indices: Vec<usize>)
        ensures
            final(self).source() == old(self).source(),
            final(self).position() == old(self).position(),
            final(self).requested_columns() == requested(indices@),
            indices@.len() > 0 ==> final(self).requested_columns() == Some(indices@),
            indices@.len() == 0 ==> final(self).requested_columns() is None,
    {
        self.projection = if indices.len() > 0 {
            Some(indices)
        } else {
            None
        };
    }

    /// The next batch, projected to the requested columns; nothing once all were handed out.
    pub fn next(&mut self) -> (res: Option<Result<RecordBatch, ArrowError>>)
        ensures
            is_read(*old(self), *final(self), res),
            res is Some <==> old(self).position() < old(
                self,
            ).source().relation.relation_batches().len(),
            res is Some && old(self).requested_columns() is None ==> res->Some_0 == Ok::<
                RecordBatch,
                ArrowError,
            >(old(self).source().relation.relation_batches()[old(self).position() as int]),
            res is Some ==> final(self).position() == old(self).position() + 1,
    {
        if self.idx >= self.data.relation.num_batches() {
            None
        } else {
            let batch = self.data.relation.batch(self.idx);
            let item = match &self.projection {
                Some(fields) => batch.project(fields.as_slice()),
                None => Ok(batch.clone()),
            };
            self.idx = self.idx + 1;
            Some(item)
        }
    }

    /// The schema of the relation that is read. A projection does not change it.
    pub fn schema(&self) -> (res: Arc<Schema>)
        ensures
            res == self.source().schema,
    {
        share(&self.data.schema)
    }
}

/// Whether a reader that was `before` is `after` once it has handed out `item`: the next batch,
/// projected to the requested columns, or nothing if all were handed out.
pub open spec fn is_read(
    before: VecRecordBatchReader,
    after: VecRecordBatchReader,
    item: Option<Result<RecordBatch, ArrowError>>,
) -> bool {
    &&& after.source() == before.source()
    &&& after.requested_columns() == before.requested_columns()
    &&& if before.position() < before.batches().len() {
        &&& item is Some
        &&& is_item(
            before.batches()[before.position() as int],
            before.requested_columns(),
            item->Some_0,
        )
        &&& after.position() == before.position() + 1
    } else {
        &&& item is None
        &&& after.position() == before.position()
    }
}

/// A reader of the named fields of a relation, or of all of them if none is named.
pub fn rust_build_array_stream(relation: &ArrowRelation, fields: &Vec<String>) -> (res:
    VecRecordBatchReader)
    requires
        are_fields(schema_names(*relation.schema), texts(fields@)),
    ensures
        res.source() == *relation,
        res.position() == 0,
        res.requested_columns() == requested(
            positions_of(schema_names(*relation.schema), texts(fields@)),
        ),
        fields@.len() == 0 ==> res.requested_columns() is None,
        fields@.len() > 0 ==> res.requested_columns() is Some
            && res.requested_columns()->Some_0.len() == fields@.len(),
        forall|i: int|
            0 <= i < fields@.len() ==> {
                let p = #[trigger] res.requested_columns()->Some_0[i] as int;
                let names = schema_names(*relation.schema);
                &&& p < names.len()
                &&& names[p] == fields@[i]@
                &&& forall|q: int| p < q < names.len() ==> #[trigger] names[q] != fields@[i]@
            },
{
    let mut reader = VecRecordBatchReader::new(relation.clone());
    let schema = reader.schema();
    let names = all_field_names(&schema);
    let indices = field_indices(&names, fields);
    let count = names.len();
    proof {
        let all = texts(names@);
        assert(all.len() == count);
        assert forall|i: int| 0 <= i < fields@.len() implies {
            let p = #[trigger] indices@[i] as int;
            &&& p < all.len()
            &&& all[p] == fields@[i]@
            &&& forall|q: int| p < q < all.len() ==> #[trigger] all[q] != fields@[i]@
        } by {
            assert(all.contains(texts(fields@)[i]));
            lemma_field_positions(all, fields@[i]@);
        }
    }
    reader.set_projection(indices);
    reader
}

/// A reader of the named fields of a relation, if its schema has them all.
pub fn try_build_array_stream(relation: &ArrowRelation, fields: &Vec<String>) -> (res: Option<
    VecRecordBatchReader,
>)
    ensures
        match res {
            Some(reader) => {
                &&& are_fields(schema_names(*relation.schema), texts(fields@))
                &&& reader.source() == *relation
                &&& reader.position() == 0
                &&& reader.requested_columns() == requested(
                    positions_of(schema_names(*relation.schema), texts(fields@)),
                )
            },
            None => !are_fields(schema_names(*relation.schema), texts(fields@)),
        },
{
    let names = all_field_names(&relation.schema);
    if has_fields(&names, fields) {
        Some(rust_build_array_stream(relation, fields))
    } else {
        None
    }
}

} // verus!
