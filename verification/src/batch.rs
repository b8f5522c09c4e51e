//! Record batches: an ordered set of named equal-length columns under one
//! struct-like schema, and the conversion between a batch and the struct
//! array that carries it across the boundary.

use vstd::prelude::*;
use crate::array::{
    ArrayBuffer, ArrayModel, ColumnData, ColumnDataModel, array_models,
};
use crate::schema::{SchemaDescriptor, SchemaModel, TypeTag};

verus! {

/// Mathematical model of a record batch.
#[verifier::ext_equal]
pub struct BatchModel {
    pub schema: SchemaModel,
    pub columns: Seq<ArrayModel>,
    pub n_rows: int,
}

impl BatchModel {
    /// One column per schema child, each well-formed, of the batch's row
    /// count, and of the child's type.
    pub open spec fn wf(self) -> bool {
        &&& self.schema.tag == TypeTag::Struct
        &&& self.schema.wf()
        &&& self.n_rows >= 0
        &&& self.columns.len() == self.schema.children.len()
        &&& forall|i: int|
            0 <= i < self.columns.len() ==> (#[trigger] self.columns[i]).wf()
                && self.columns[i].length == self.n_rows && self.columns[i].dtype
                == self.schema.children[i]
    }
}

/// A record batch: a struct-like schema, the named columns in schema order,
/// and the row count every column's length equals.
pub struct Batch {
    pub schema: SchemaDescriptor,
    pub columns: Vec<ArrayBuffer>,
    pub n_rows: usize,
}

impl Batch {
    pub open spec fn model(self) -> BatchModel {
        BatchModel {
            schema: self.schema.model(),
            columns: array_models(self.columns@),
            n_rows: self.n_rows as int,
        }
    }

    pub open spec fn wf(self) -> bool {
        self.model().wf()
    }
}

impl View for Batch {
    type V = BatchModel;

    open spec fn view(&self) -> BatchModel {
        self.model()
    }
}

/// The struct array that carries a batch: its type is the batch's schema,
/// every row is valid, and the columns are the children.
pub open spec fn spec_batch_to_array(b: BatchModel) -> ArrayModel {
    ArrayModel {
        dtype: b.schema,
        length: b.n_rows,
        validity: Seq::new(b.n_rows as nat, |i: int| true),
        data: ColumnDataModel::Structs(b.columns),
    }
}

/// The batch a struct array carries.
pub open spec fn spec_array_to_batch(a: ArrayModel) -> BatchModel {
    BatchModel {
        schema: a.dtype,
        columns: match a.data {
            ColumnDataModel::Structs(cols) => cols,
            _ => Seq::empty(),
        },
        n_rows: a.length,
    }
}

/// A well-formed batch wraps into a well-formed struct array, and
/// unwrapping gives the batch back.
pub proof fn lemma_batch_array_round_trip(b: BatchModel)
    requires
        b.wf(),
    ensures
        spec_batch_to_array(b).wf(),
        spec_array_to_batch(spec_batch_to_array(b)) == b,
{
    assert(spec_array_to_batch(spec_batch_to_array(b)) =~~= b);
}

/// Wraps a batch into the struct array that carries it.
pub fn batch_to_array(b: Batch) -> (r: ArrayBuffer)
    requires
        b@.wf(),
    ensures
        r@ == spec_batch_to_array(b@),
        r@.wf(),
{
    let mut validity: Vec<bool> = Vec::new();
    let mut i: usize = 0;
    let n = b.n_rows;
    while i < n
        invariant
            i <= n,
            validity@.len() == i,
            forall|j: int| 0 <= j < i ==> validity@[j] == true,
        decreases n - i,
    {
        validity.push(true);
        i += 1;
    }
    let r = ArrayBuffer {
        dtype: b.schema,
        length: b.n_rows,
        validity,
        data: ColumnData::Structs(b.columns),
    };
    proof {
        assert(r.model().validity =~= spec_batch_to_array(b@).validity);
        assert(r.model() =~~= spec_batch_to_array(b@));
        lemma_batch_array_round_trip(b@);
    }
    r
}

/// Unwraps the struct array that carries a batch.
pub fn array_to_batch(a: ArrayBuffer) -> (r: Batch)
    requires
        a@.wf(),
        a@.dtype.tag == TypeTag::Struct,
    ensures
        r@ == spec_array_to_batch(a@),
        r@.wf(),
{
    let ArrayBuffer { dtype, length, validity: _, data } = a;
    match data {
        ColumnData::Structs(cols) => {
            let r = Batch { schema: dtype, columns: cols, n_rows: length };
            proof {
                assert(r.model() =~~= spec_array_to_batch(a@));
            }
            r
        },
        _ => {
            proof {
                assert(false);
            }
            vstd::pervasive::unreached()
        },
    }
}

} // verus!
