//! Relations of Arrow data.
use std::sync::Arc;

use arrow::array::ArrayData;
use arrow::datatypes::{Field, Schema};
use arrow::error::ArrowError;
use arrow::record_batch::RecordBatch;
use vstd::prelude::*;

verus! {

/// Declares `arrow::array::ArrayData`, the values of a column.
#[verifier::external_type_specification]
#[verifier::external_body]
pub struct ExArrayData(ArrayData);

/// Declares `arrow::datatypes::Field`, the name and type of a column.
#[verifier::external_type_specification]
#[verifier::external_body]
pub struct ExField(Field);

/// Declares `arrow::datatypes::Schema`.
#[verifier::external_type_specification]
#[verifier::external_body]
pub struct ExSchema(Schema);

/// Declares `arrow::error::ArrowError`.
#[verifier::external_type_specification]
#[verifier::external_body]
pub struct ExArrowError(ArrowError);

/// Declares `arrow::record_batch::RecordBatch`.
#[verifier::external_type_specification]
#[verifier::external_body]
pub struct ExRecordBatch(RecordBatch);

/// One column of a record batch, as contracts speak of it.
pub struct Column {
    /// The column's field in the batch's schema.
    pub field: Field,
    /// The column's values.
    pub data: ArrayData,
    /// Whether the values agree with the field: they are of its type, they hold no nulls unless
    /// the field admits them, and there are as many as the batch has rows.
    pub fits: bool,
}

/// The columns of a record batch, in order.
pub uninterp spec fn batch_columns(batch: RecordBatch) -> Seq<Column>;

/// The number of rows of a record batch.
pub uninterp spec fn batch_rows(batch: RecordBatch) -> nat;

/// The metadata of a record batch's schema.
pub uninterp spec fn batch_metadata(batch: RecordBatch) -> Map<Seq<char>, Seq<char>>;

/// The names of all fields of a schema, those of nested fields too, in the order in which the
/// `arrow` crate flattens them: each field is followed by the fields within it.
pub uninterp spec fn schema_names(schema: Schema) -> Seq<Seq<char>>;

/// Whether each index names a column that agrees with its field.
pub open spec fn is_projectable(columns: Seq<Column>, indices: Seq<usize>) -> bool {
    forall|i: int|
        0 <= i < indices.len() ==> #[trigger] indices[i] < columns.len()
            && columns[indices[i] as int].fits
}

/// The columns that the indices name, in the order of the indices.
pub open spec fn project_columns(columns: Seq<Column>, indices: Seq<usize>) -> Seq<Column> {
    Seq::new(indices.len(), |i: int| columns[indices[i] as int])
}

/// Whether `res` is what projecting `batch` to `indices` gives.
pub open spec fn is_projection(
    batch: RecordBatch,
    indices: Seq<usize>,
    res: Result<RecordBatch, ArrowError>,
) -> bool {
    match res {
        Ok(projected) => {
            &&& is_projectable(batch_columns(batch), indices)
            &&& batch_columns(projected) == project_columns(batch_columns(batch), indices)
            &&& batch_rows(projected) == batch_rows(batch)
            &&& batch_metadata(projected) == batch_metadata(batch)
        },
        Err(_) => !is_projectable(batch_columns(batch), indices),
    }
}

/// `RecordBatch::project` selects columns by their indices, and keeps the number of rows and the
/// metadata. It fails where an index names no column, and where a selected column does not agree
/// with its field.
pub assume_specification[ RecordBatch::project ](batch: &RecordBatch, indices: &[usize]) -> (res:
    Result<RecordBatch, ArrowError>)
    ensures
        match res {
            Ok(projected) => is_projectable(batch_columns(*batch), indices@) && batch_columns(
                projected,
            ) == project_columns(batch_columns(*batch), indices@) && batch_rows(projected)
                == batch_rows(*batch) && batch_metadata(projected) == batch_metadata(*batch),
            Err(_) => !is_projectable(batch_columns(*batch), indices@),
        },
;

/// `RecordBatch::clone` gives the same batch.
pub assume_specification[ <RecordBatch as Clone>::clone ](batch: &RecordBatch) -> (res: RecordBatch)
    ensures
        res == *batch,
;

/// Calls `std::sync::Arc::clone`, which gives another pointer to the same value.
#[verifier::external_body]
pub(crate) fn share<T>(value: &Arc<T>) -> (res: Arc<T>)
    ensures
        res == *value,
{
    Arc::clone(value)
}

/// Calls `Schema::all_fields` and takes the fields' names.
///
/// Trusted: these are the names of all fields, nested ones too, in the order in which the crate
/// flattens them.
#[verifier::external_body]
pub(crate) fn all_field_names(schema: &Schema) -> (res: Vec<String>)
    ensures
        res@.map_values(|name: String| name@) == schema_names(*schema),
{
    schema.all_fields().iter().map(|field| field.name().clone()).collect()
}

/// A relation that is held as record batches.
pub struct ArrowRecordBatchRelation {
    schema: Arc<Schema>,
    batches: Arc<Vec<RecordBatch>>,
}

impl ArrowRecordBatchRelation {
    /// The schema of the relation.
    pub closed spec fn relation_schema(&self) -> Schema {
        *self.schema
    }

    /// The batches of the relation, in order.
    pub closed spec fn relation_batches(&self) -> Seq<RecordBatch> {
        self.batches@
    }

    /// The relation that consists of the given batches.
    pub fn new(schema: Arc<Schema>, batches: Arc<Vec<RecordBatch>>) -> (res: Arc<
        ArrowRecordBatchRelation,
    >)
        ensures
            res.relation_schema() == *schema,
            res.relation_batches() == batches@,
    {
        Arc::new(ArrowRecordBatchRelation { schema, batches })
    }

    /// The schema of the relation.
    pub fn schema(&self) -> (res: Arc<Schema>)
        ensures
            *res == self.relation_schema(),
    {
        share(&self.schema)
    }

    /// The number of batches.
    pub fn num_batches(&self) -> (res: usize)
        ensures
            res == self.relation_batches().len(),
    {
        self.batches.len()
    }

    /// The batch with the given index.
    pub fn batch(&self, index: usize) -> (res: &RecordBatch)
        requires
            index < self.relation_batches().len(),
        ensures
            *res == self.relation_batches()[index as int],
    {
        &self.batches[index]
    }
}

/// A batch can be projected exactly if each index names one of its columns and that column agrees
/// with its field.
pub proof fn law_projectable_columns(columns: Seq<Column>, indices: Seq<usize>)
    ensures
        is_projectable(columns, indices) <==> forall|i: int|
            0 <= i < indices.len() ==> (#[trigger] indices[i]) < columns.len()
                && columns[indices[i] as int].fits,
        project_columns(columns, indices).len() == indices.len(),
        forall|i: int|
            0 <= i < indices.len() ==> #[trigger] project_columns(columns, indices)[i]
                == columns[indices[i] as int],
{
}

/// Projecting a batch gives one column for each index: the batch's column at that index. Rows and
/// metadata stay. It fails exactly if an index names no column or one that does not agree with its
/// field.
pub proof fn law_projection_selects_by_index(
    batch: RecordBatch,
    indices: Seq<usize>,
    res: Result<RecordBatch, ArrowError>,
)
    requires
        is_projection(batch, indices, res),
    ensures
        res is Err <==> exists|i: int|
            0 <= i < indices.len() && ((#[trigger] indices[i]) >= batch_columns(batch).len()
                || !batch_columns(batch)[indices[i] as int].fits),
        res is Ok ==> {
            &&& batch_columns(res->Ok_0).len() == indices.len()
            &&& forall|i: int|
                0 <= i < indices.len() ==> #[trigger] batch_columns(res->Ok_0)[i]
                    == batch_columns(batch)[indices[i] as int]
            &&& batch_rows(res->Ok_0) == batch_rows(batch)
            &&& batch_metadata(res->Ok_0) == batch_metadata(batch)
        },
{
    law_projectable_columns(batch_columns(batch), indices);
}

} // verus!
