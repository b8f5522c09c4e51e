//! The array bridge: native typed arrays and conversion to and from the
//! array-descriptor struct paired with a schema-descriptor struct.
//!
//! Layouts handled: fixed-width values (one 64-bit slot per element),
//! bit-packed booleans, variable-offset byte strings (one offsets buffer and
//! one data buffer), and struct arrays whose children carry the columns.
//! List arrays are described by the schema bridge but not converted here:
//! importing one fails with `UnsupportedType` rather than guessing a
//! layout.

use vstd::prelude::*;
use crate::bits::{
    spec_bits, spec_padded_bits, spec_null_count, pack_bits, unpack_bits, null_count,
};
use crate::error::BridgeError;
use crate::schema::{
    CSchema, CSchemaModel, SchemaDescriptor, SchemaModel, TypeTag, spec_export_schema,
    spec_import_schema, export_schema, import_schema,
};

verus! {

/// Types stored as one fixed-width slot per element.
pub open spec fn fixed_width(t: TypeTag) -> bool {
    match t {
        TypeTag::Int8 => true,
        TypeTag::Int16 => true,
        TypeTag::Int32 => true,
        TypeTag::Int64 => true,
        TypeTag::UInt8 => true,
        TypeTag::UInt16 => true,
        TypeTag::UInt32 => true,
        TypeTag::UInt64 => true,
        TypeTag::Float32 => true,
        TypeTag::Float64 => true,
        TypeTag::Date32 => true,
        TypeTag::Date64 => true,
        TypeTag::Timestamp(_) => true,
        TypeTag::Decimal { .. } => true,
        _ => false,
    }
}

/// Exec mirror of `fixed_width`.
pub fn is_fixed_width(t: TypeTag) -> (b: bool)
    ensures
        b == fixed_width(t),
{
    match t {
        TypeTag::Int8 => true,
        TypeTag::Int16 => true,
        TypeTag::Int32 => true,
        TypeTag::Int64 => true,
        TypeTag::UInt8 => true,
        TypeTag::UInt16 => true,
        TypeTag::UInt32 => true,
        TypeTag::UInt64 => true,
        TypeTag::Float32 => true,
        TypeTag::Float64 => true,
        TypeTag::Date32 => true,
        TypeTag::Date64 => true,
        TypeTag::Timestamp(_) => true,
        TypeTag::Decimal { .. } => true,
        _ => false,
    }
}

/// Types stored as byte strings behind an offsets buffer.
pub open spec fn variable_offset(t: TypeTag) -> bool {
    t == TypeTag::Utf8 || t == TypeTag::Binary
}

/// Exec mirror of `variable_offset`.
pub fn is_variable_offset(t: TypeTag) -> (b: bool)
    ensures
        b == variable_offset(t),
{
    match t {
        TypeTag::Utf8 => true,
        TypeTag::Binary => true,
        _ => false,
    }
}

/// Model of a native column's values.
///
/// A fixed-width element is carried as the 64-bit pattern of its value, a
/// variable-width element as its bytes: the bridge moves patterns, it never
/// interprets them.
#[verifier::ext_equal]
pub enum ColumnDataModel {
    Fixed(Seq<u64>),
    Bools(Seq<bool>),
    VarBytes(Seq<Seq<u8>>),
    Structs(Seq<ArrayModel>),
}

/// Mathematical model of a native typed array.
#[verifier::ext_equal]
pub struct ArrayModel {
    pub dtype: SchemaModel,
    pub length: int,
    pub validity: Seq<bool>,
    pub data: ColumnDataModel,
}

impl ArrayModel {
    /// Shape agreement between the values, the validity, and the type,
    /// recursively: every struct child is a column of the same length whose
    /// type is the matching child of the struct's type.
    pub open spec fn wf(self) -> bool
        decreases self,
    {
        &&& self.dtype.wf()
        &&& self.length >= 0
        &&& self.validity.len() == self.length
        &&& match self.data {
            ColumnDataModel::Fixed(vals) => fixed_width(self.dtype.tag) && vals.len()
                == self.length,
            ColumnDataModel::Bools(vals) => self.dtype.tag == TypeTag::Boolean && vals.len()
                == self.length,
            ColumnDataModel::VarBytes(vals) => variable_offset(self.dtype.tag) && vals.len()
                == self.length && total_len(vals) <= usize::MAX,
            ColumnDataModel::Structs(cols) => self.dtype.tag == TypeTag::Struct && cols.len()
                == self.dtype.children.len() && forall|i: int|
                0 <= i < cols.len() ==> (#[trigger] cols[i]).wf() && cols[i].length == self.length
                    && cols[i].dtype == self.dtype.children[i],
        }
    }
}

/// A native column's values.
pub enum ColumnData {
    Fixed(Vec<u64>),
    Bools(Vec<bool>),
    VarBytes(Vec<Vec<u8>>),
    Structs(Vec<ArrayBuffer>),
}

/// Native model of a typed columnar array: its type, logical length, one
/// validity entry per element, and the values.
pub struct ArrayBuffer {
    pub dtype: SchemaDescriptor,
    pub length: usize,
    pub validity: Vec<bool>,
    pub data: ColumnData,
}

/// Pointwise model of a sequence of native arrays.
pub open spec fn array_models(v: Seq<ArrayBuffer>) -> Seq<ArrayModel>
    decreases v,
{
    Seq::new(
        v.len(),
        |i: int|
            if 0 <= i < v.len() {
                v[i].model()
            } else {
                ArrayModel {
                    dtype: SchemaModel {
                        name: Seq::empty(),
                        tag: TypeTag::Struct,
                        nullable: false,
                        children: Seq::empty(),
                    },
                    length: 0,
                    validity: Seq::empty(),
                    data: ColumnDataModel::Fixed(Seq::empty()),
                }
            },
    )
}

/// Pointwise view of a list of byte strings.
pub open spec fn byte_lists(v: Seq<Vec<u8>>) -> Seq<Seq<u8>> {
    Seq::new(
        v.len(),
        |i: int|
            if 0 <= i < v.len() {
                v[i]@
            } else {
                Seq::empty()
            },
    )
}

impl ArrayBuffer {
    pub open spec fn model(self) -> ArrayModel
        decreases self,
    {
        ArrayModel {
            dtype: self.dtype.model(),
            length: self.length as int,
            validity: self.validity@,
            data: match self.data {
                ColumnData::Fixed(vals) => ColumnDataModel::Fixed(vals@),
                ColumnData::Bools(vals) => ColumnDataModel::Bools(vals@),
                ColumnData::VarBytes(vals) => ColumnDataModel::VarBytes(byte_lists(vals@)),
                ColumnData::Structs(cols) => ColumnDataModel::Structs(array_models(cols@)),
            },
        }
    }

    pub open spec fn wf(self) -> bool {
        self.model().wf()
    }
}

impl View for ArrayBuffer {
    type V = ArrayModel;

    open spec fn view(&self) -> ArrayModel {
        self.model()
    }
}

/// Model of one buffer of an array-descriptor struct: a bitmap is read at
/// bit granularity, a value buffer at 64-bit slot granularity.
#[verifier::ext_equal]
pub enum CBufferModel {
    Bitmap(Seq<bool>),
    Words(Seq<u64>),
    Bytes(Seq<u8>),
}

pub open spec fn is_bitmap(b: CBufferModel) -> bool {
    match b {
        CBufferModel::Bitmap(_) => true,
        _ => false,
    }
}

pub open spec fn bitmap_of(b: CBufferModel) -> Seq<bool> {
    match b {
        CBufferModel::Bitmap(x) => x,
        _ => Seq::empty(),
    }
}

pub open spec fn is_words(b: CBufferModel) -> bool {
    match b {
        CBufferModel::Words(_) => true,
        _ => false,
    }
}

pub open spec fn words_of(b: CBufferModel) -> Seq<u64> {
    match b {
        CBufferModel::Words(x) => x,
        _ => Seq::empty(),
    }
}

pub open spec fn is_bytes(b: CBufferModel) -> bool {
    match b {
        CBufferModel::Bytes(_) => true,
        _ => false,
    }
}

pub open spec fn bytes_of(b: CBufferModel) -> Seq<u8> {
    match b {
        CBufferModel::Bytes(x) => x,
        _ => Seq::empty(),
    }
}

/// Total byte count of a list of byte strings.
pub open spec fn total_len(vals: Seq<Seq<u8>>) -> int
    decreases vals,
{
    if vals.len() == 0 {
        0
    } else {
        total_len(vals.drop_last()) + vals.last().len()
    }
}

/// The byte strings of a list laid end to end: the variable-offset data
/// buffer.
pub open spec fn spec_blob(vals: Seq<Seq<u8>>) -> Seq<u8>
    decreases vals,
{
    if vals.len() == 0 {
        Seq::empty()
    } else {
        spec_blob(vals.drop_last()) + vals.last()
    }
}

/// The offsets buffer of a list of byte strings: entry `i` is where string
/// `i` begins in the data buffer, and the final entry is the buffer's end.
pub open spec fn spec_offsets(vals: Seq<Seq<u8>>) -> Seq<u64> {
    Seq::new(
        vals.len() + 1,
        |i: int|
            if 0 <= i <= vals.len() {
                total_len(vals.take(i)) as u64
            } else {
                0
            },
    )
}

/// The byte strings an offsets window carves out of a data buffer.
pub open spec fn sliced_vals(blob: Seq<u8>, offs: Seq<u64>, off: int, len: int) -> Seq<Seq<u8>> {
    Seq::new(
        if len >= 0 {
            len as nat
        } else {
            0
        },
        |i: int|
            if 0 <= i < len {
                blob.subrange(offs[off + i] as int, offs[off + i + 1] as int)
            } else {
                Seq::empty()
            },
    )
}

/// Mathematical model of an array-descriptor C struct.
#[verifier::ext_equal]
pub struct CArrayModel {
    pub length: int,
    pub null_count: int,
    pub offset: int,
    pub buffers: Seq<CBufferModel>,
    pub children: Seq<CArrayModel>,
    pub has_dictionary: bool,
    pub release_armed: bool,
}

/// One buffer of an array-descriptor struct.
pub enum CBuffer {
    Bitmap(Vec<u8>),
    Words(Vec<u64>),
    Bytes(Vec<u8>),
}

impl CBuffer {
    pub open spec fn model(self) -> CBufferModel {
        match self {
            CBuffer::Bitmap(b) => CBufferModel::Bitmap(spec_bits(b@)),
            CBuffer::Words(w) => CBufferModel::Words(w@),
            CBuffer::Bytes(d) => CBufferModel::Bytes(d@),
        }
    }
}

/// Pointwise model of a buffer list.
pub open spec fn buffer_models(v: Seq<CBuffer>) -> Seq<CBufferModel> {
    Seq::new(v.len(), |i: int| v[i].model())
}

/// The array-descriptor C struct, as this bridge models it: logical length,
/// null count, element offset, the buffer list (validity bitmap first), the
/// child descriptors, whether a dictionary array is attached, and whether
/// the release callback is still armed.
pub struct CArray {
    pub length: u64,
    pub null_count: u64,
    pub offset: u64,
    pub buffers: Vec<CBuffer>,
    pub children: Vec<CArray>,
    pub has_dictionary: bool,
    pub release_armed: bool,
}

/// Pointwise model of a sequence of array-descriptor structs.
pub open spec fn carray_models(v: Seq<CArray>) -> Seq<CArrayModel>
    decreases v,
{
    Seq::new(
        v.len(),
        |i: int|
            if 0 <= i < v.len() {
                v[i].model()
            } else {
                CArrayModel {
                    length: 0,
                    null_count: 0,
                    offset: 0,
                    buffers: Seq::empty(),
                    children: Seq::empty(),
                    has_dictionary: false,
                    release_armed: false,
                }
            },
    )
}

impl CArray {
    pub open spec fn model(self) -> CArrayModel
        decreases self,
    {
        CArrayModel {
            length: self.length as int,
            null_count: self.null_count as int,
            offset: self.offset as int,
            buffers: buffer_models(self.buffers@),
            children: carray_models(self.children@),
            has_dictionary: self.has_dictionary,
            release_armed: self.release_armed,
        }
    }

    /// Invokes the struct's release callback.
    ///
    /// The first invocation frees what the struct's construction allocated
    /// and clears the callback field; any later invocation finds the field
    /// cleared and does nothing.
    pub fn release(&mut self)
        ensures
            !final(self).release_armed,
            final(self).model() == (CArrayModel { release_armed: false, ..old(self).model() }),
            !old(self).release_armed ==> *final(self) == *old(self),
    {
        if self.release_armed {
            self.release_armed = false;
        }
        proof {
            assert(self.model() =~~= (CArrayModel { release_armed: false, ..old(self).model() }));
        }
    }
}

impl View for CArray {
    type V = CArrayModel;

    open spec fn view(&self) -> CArrayModel {
        self.model()
    }
}

/// An element range `[offset, offset + length)` fits a buffer of `cap`
/// readable units and is addressable on this machine.
pub open spec fn valid_range(off: int, len: int, cap: int) -> bool {
    &&& 0 <= off
    &&& 0 <= len
    &&& off + len <= cap
    &&& off + len <= usize::MAX
}

/// What exporting a native array yields as its array-descriptor struct:
/// offset zero, the computed null count, the validity bitmap first, then
/// the value buffer of the layout; a struct array carries its columns as
/// children instead of a value buffer. The release callback is armed.
pub open spec fn spec_export_carray(a: ArrayModel) -> CArrayModel
    decreases a,
{
    CArrayModel {
        length: a.length,
        null_count: spec_null_count(a.validity),
        offset: 0,
        buffers: match a.data {
            ColumnDataModel::Fixed(vals) => seq![
                CBufferModel::Bitmap(spec_padded_bits(a.validity)),
                CBufferModel::Words(vals),
            ],
            ColumnDataModel::Bools(vals) => seq![
                CBufferModel::Bitmap(spec_padded_bits(a.validity)),
                CBufferModel::Bitmap(spec_padded_bits(vals)),
            ],
            ColumnDataModel::VarBytes(vals) => seq![
                CBufferModel::Bitmap(spec_padded_bits(a.validity)),
                CBufferModel::Words(spec_offsets(vals)),
                CBufferModel::Bytes(spec_blob(vals)),
            ],
            ColumnDataModel::Structs(_) => seq![
                CBufferModel::Bitmap(spec_padded_bits(a.validity)),
            ],
        },
        children: match a.data {
            ColumnDataModel::Structs(cols) => spec_export_carrays(cols),
            _ => Seq::empty(),
        },
        has_dictionary: false,
        release_armed: true,
    }
}

pub open spec fn spec_export_carrays(cols: Seq<ArrayModel>) -> Seq<CArrayModel>
    decreases cols,
{
    Seq::new(
        cols.len(),
        |i: int|
            if 0 <= i < cols.len() {
                spec_export_carray(cols[i])
            } else {
                CArrayModel {
                    length: 0,
                    null_count: 0,
                    offset: 0,
                    buffers: Seq::empty(),
                    children: Seq::empty(),
                    has_dictionary: false,
                    release_armed: false,
                }
            },
    )
}

/// What exporting a native array yields: the array-descriptor struct paired
/// with the schema-descriptor struct for its type (the array struct alone
/// carries no type information), or the error of the schema export.
pub open spec fn spec_export_array(a: ArrayModel) -> Result<
    (CArrayModel, CSchemaModel),
    BridgeError,
> {
    match spec_export_schema(a.dtype) {
        Err(e) => Err(e),
        Ok(cs) => Ok((spec_export_carray(a), cs)),
    }
}

/// What importing an array-descriptor struct with its paired
/// schema-descriptor yields.
///
/// The schema is imported first and decides the buffer layout. A dictionary
/// array is refused; a buffer list, buffer size, element range, child count
/// or child length that disagrees with the layout is a
/// `BufferLayoutMismatch`; a schema type whose array layout this bridge
/// does not implement is an `UnsupportedType`. The element offset is
/// honoured for fixed-width, boolean and variable-offset layouts; a struct
/// array with a nonzero offset is refused rather than re-sliced.
pub open spec fn spec_import_array(c: CArrayModel, s: CSchemaModel) -> Result<
    ArrayModel,
    BridgeError,
>
    decreases c,
{
    match spec_import_schema(s) {
        Err(e) => Err(e),
        Ok(sd) => if c.has_dictionary {
            Err(BridgeError::UnsupportedEncoding)
        } else if fixed_width(sd.tag) {
            if c.children.len() == 0 && c.buffers.len() == 2 && is_bitmap(c.buffers[0]) && is_words(
                c.buffers[1],
            ) && valid_range(c.offset, c.length, bitmap_of(c.buffers[0]).len() as int)
                && valid_range(c.offset, c.length, words_of(c.buffers[1]).len() as int) {
                Ok(
                    ArrayModel {
                        dtype: sd,
                        length: c.length,
                        validity: bitmap_of(c.buffers[0]).subrange(c.offset, c.offset + c.length),
                        data: ColumnDataModel::Fixed(
                            words_of(c.buffers[1]).subrange(c.offset, c.offset + c.length),
                        ),
                    },
                )
            } else {
                Err(BridgeError::BufferLayoutMismatch)
            }
        } else if sd.tag == TypeTag::Boolean {
            if c.children.len() == 0 && c.buffers.len() == 2 && is_bitmap(c.buffers[0]) && is_bitmap(
                c.buffers[1],
            ) && valid_range(c.offset, c.length, bitmap_of(c.buffers[0]).len() as int)
                && valid_range(c.offset, c.length, bitmap_of(c.buffers[1]).len() as int) {
                Ok(
                    ArrayModel {
                        dtype: sd,
                        length: c.length,
                        validity: bitmap_of(c.buffers[0]).subrange(c.offset, c.offset + c.length),
                        data: ColumnDataModel::Bools(
                            bitmap_of(c.buffers[1]).subrange(c.offset, c.offset + c.length),
                        ),
                    },
                )
            } else {
                Err(BridgeError::BufferLayoutMismatch)
            }
        } else if variable_offset(sd.tag) {
            if c.children.len() == 0 && c.buffers.len() == 3 && is_bitmap(c.buffers[0]) && is_words(
                c.buffers[1],
            ) && is_bytes(c.buffers[2]) && valid_range(
                c.offset,
                c.length,
                bitmap_of(c.buffers[0]).len() as int,
            ) && words_of(c.buffers[1]).len() > c.offset + c.length && (forall|j: int|
                c.offset <= j < c.offset + c.length ==> #[trigger] words_of(c.buffers[1])[j]
                    <= words_of(c.buffers[1])[j + 1]) && words_of(c.buffers[1])[c.offset + c.length]
                <= bytes_of(
                c.buffers[2],
            ).len() && words_of(c.buffers[1])[c.offset + c.length] <= usize::MAX {
                Ok(
                    ArrayModel {
                        dtype: sd,
                        length: c.length,
                        validity: bitmap_of(c.buffers[0]).subrange(c.offset, c.offset + c.length),
                        data: ColumnDataModel::VarBytes(
                            sliced_vals(
                                bytes_of(c.buffers[2]),
                                words_of(c.buffers[1]),
                                c.offset,
                                c.length,
                            ),
                        ),
                    },
                )
            } else {
                Err(BridgeError::BufferLayoutMismatch)
            }
        } else if sd.tag == TypeTag::Struct {
            if c.buffers.len() == 1 && is_bitmap(c.buffers[0]) && c.offset == 0 && valid_range(
                0,
                c.length,
                bitmap_of(c.buffers[0]).len() as int,
            ) && c.children.len() == s.children.len() {
                match spec_import_carrays(c.children, s.children, c.length) {
                    Err(e) => Err(e),
                    Ok(kids) => Ok(
                        ArrayModel {
                            dtype: sd,
                            length: c.length,
                            validity: bitmap_of(c.buffers[0]).subrange(0, c.length),
                            data: ColumnDataModel::Structs(kids),
                        },
                    ),
                }
            } else {
                Err(BridgeError::BufferLayoutMismatch)
            }
        } else {
            Err(BridgeError::UnsupportedType)
        },
    }
}

/// Imports a struct array's children in order, each against its matching
/// schema-descriptor child; a child whose length differs from the parent's
/// row count `want` is a `BufferLayoutMismatch`.
pub open spec fn spec_import_carrays(
    cs: Seq<CArrayModel>,
    ss: Seq<CSchemaModel>,
    want: int,
) -> Result<Seq<ArrayModel>, BridgeError>
    decreases cs,
{
    if cs.len() == 0 {
        Ok(Seq::empty())
    } else {
        match spec_import_array(cs[0], ss[0]) {
            Err(e) => Err(e),
            Ok(a) => if a.length != want {
                Err(BridgeError::BufferLayoutMismatch)
            } else {
                match spec_import_carrays(cs.drop_first(), ss.drop_first(), want) {
                    Err(e) => Err(e),
                    Ok(rest) => Ok(seq![a] + rest),
                }
            },
        }
    }
}

/// The prefix byte counts of a string list grow one string at a time.
pub proof fn lemma_total_len_step(vals: Seq<Seq<u8>>, i: int)
    requires
        0 <= i < vals.len(),
    ensures
        total_len(vals.take(i + 1)) == total_len(vals.take(i)) + vals[i].len(),
{
    assert(vals.take(i + 1).drop_last() =~= vals.take(i));
    assert(vals.take(i + 1).last() == vals[i]);
}

pub proof fn lemma_total_len_nonneg(vals: Seq<Seq<u8>>)
    ensures
        0 <= total_len(vals),
    decreases vals,
{
    if vals.len() > 0 {
        lemma_total_len_nonneg(vals.drop_last());
    }
}

pub proof fn lemma_total_len_prefix(vals: Seq<Seq<u8>>, i: int)
    requires
        0 <= i <= vals.len(),
    ensures
        total_len(vals.take(i)) <= total_len(vals),
    decreases vals.len() - i,
{
    if i == vals.len() {
        assert(vals.take(i) =~= vals);
    } else {
        lemma_total_len_step(vals, i);
        lemma_total_len_prefix(vals, i + 1);
    }
}

/// The data buffer is exactly as long as the strings together.
pub proof fn lemma_blob_len(vals: Seq<Seq<u8>>)
    ensures
        spec_blob(vals).len() == total_len(vals),
    decreases vals,
{
    if vals.len() > 0 {
        lemma_blob_len(vals.drop_last());
    }
}

/// Each string sits in the data buffer exactly between its offset and the
/// next.
pub proof fn lemma_blob_segment(vals: Seq<Seq<u8>>, i: int)
    requires
        0 <= i < vals.len(),
    ensures
        0 <= total_len(vals.take(i)),
        total_len(vals.take(i)) + vals[i].len() <= spec_blob(vals).len(),
        spec_blob(vals).subrange(
            total_len(vals.take(i)),
            total_len(vals.take(i)) + vals[i].len(),
        ) == vals[i],
    decreases vals,
{
    lemma_blob_len(vals);
    lemma_total_len_step(vals, i);
    lemma_total_len_prefix(vals, i + 1);
    lemma_total_len_nonneg(vals.take(i));
    let lo = total_len(vals.take(i));
    let hi = lo + vals[i].len();
    if i == vals.len() - 1 {
        assert(vals.take(i) =~= vals.drop_last());
        lemma_blob_len(vals.drop_last());
        assert(spec_blob(vals).subrange(lo, hi) =~= vals[i]);
    } else {
        lemma_blob_segment(vals.drop_last(), i);
        assert(vals.drop_last().take(i) =~= vals.take(i));
        assert(vals.drop_last().take(i + 1) =~= vals.take(i + 1));
        lemma_total_len_prefix(vals.drop_last(), i + 1);
        lemma_blob_len(vals.drop_last());
        assert(vals.drop_last()[i] == vals[i]);
        assert(spec_blob(vals).subrange(lo, hi) =~= spec_blob(vals.drop_last()).subrange(lo, hi));
    }
}

/// The strings an offsets window carves out add up to the window's span.
pub proof fn lemma_sliced_total(blob: Seq<u8>, offs: Seq<u64>, off: int, len: int)
    requires
        0 <= off,
        0 <= len,
        off + len < offs.len(),
        forall|j: int| off <= j < off + len ==> #[trigger] offs[j] <= offs[j + 1],
        offs[off + len] <= blob.len(),
    ensures
        total_len(sliced_vals(blob, offs, off, len)) == offs[off + len] - offs[off],
    decreases len,
{
    if len > 0 {
        lemma_sliced_total(blob, offs, off, len - 1);
        let v = sliced_vals(blob, offs, off, len);
        assert(v.drop_last() =~= sliced_vals(blob, offs, off, len - 1));
        assert(v.last() == blob.subrange(offs[off + len - 1] as int, offs[off + len] as int));
    }
}

/// Importing a child list succeeds exactly when each child imports against
/// its matching schema, and the results line up position by position.
pub proof fn lemma_import_carrays_elem(cs: Seq<CArrayModel>, ss: Seq<CSchemaModel>, want: int)
    requires
        ss.len() == cs.len(),
    ensures
        spec_import_carrays(cs, ss, want) matches Ok(kids) ==> kids.len() == cs.len() && forall|
            i: int,
        |
            0 <= i < cs.len() ==> spec_import_array(#[trigger] cs[i], ss[i]) is Ok && kids[i]
                == spec_import_array(cs[i], ss[i])->Ok_0 && kids[i].length == want,
    decreases cs,
{
    if cs.len() > 0 && spec_import_carrays(cs, ss, want) is Ok {
        lemma_import_carrays_elem(cs.drop_first(), ss.drop_first(), want);
        let kids = spec_import_carrays(cs, ss, want)->Ok_0;
        let rest = spec_import_carrays(cs.drop_first(), ss.drop_first(), want)->Ok_0;
        assert forall|i: int|
            0 <= i < cs.len() implies spec_import_array(#[trigger] cs[i], ss[i]) is Ok && kids[i]
            == spec_import_array(cs[i], ss[i])->Ok_0 && kids[i].length == want by {
            if i > 0 {
                assert(cs.drop_first()[i - 1] == cs[i]);
                assert(ss.drop_first()[i - 1] == ss[i]);
                assert(kids[i] == rest[i - 1]);
            }
        }
    }
}

/// An array that imports successfully is well-formed, keeps the length the
/// descriptor declared, and carries the type its schema-descriptor imports
/// to.
pub proof fn lemma_import_array_wf(c: CArrayModel, s: CSchemaModel)
    ensures
        spec_import_array(c, s) matches Ok(a) ==> a.wf() && a.length == c.length && a.dtype
            == spec_import_schema(s)->Ok_0,
    decreases c,
{
    if spec_import_array(c, s) is Ok {
        crate::schema::lemma_import_schema_wf(s);
        crate::schema::lemma_import_children_elem(s.children);
        let sd = spec_import_schema(s)->Ok_0;
        let a = spec_import_array(c, s)->Ok_0;
        if variable_offset(sd.tag) && !fixed_width(sd.tag) {
            lemma_sliced_total(
                bytes_of(c.buffers[2]),
                words_of(c.buffers[1]),
                c.offset,
                c.length,
            );
        }
        if sd.tag == TypeTag::Struct && !fixed_width(sd.tag) {
            lemma_import_carrays_elem(c.children, s.children, c.length);
            let kids = spec_import_carrays(c.children, s.children, c.length)->Ok_0;
            assert forall|i: int|
                0 <= i < kids.len() implies (#[trigger] kids[i]).wf() && kids[i].length == a.length
                && kids[i].dtype == sd.children[i] by {
                lemma_import_array_wf(c.children[i], s.children[i]);
            }
        }
    }
}

/// The offsets and data buffers an exported variable-offset column carries
/// carve back out into the very strings they were built from.
pub proof fn lemma_var_buffers_round_trip(vals: Seq<Seq<u8>>)
    requires
        total_len(vals) <= usize::MAX,
    ensures
        ({
            let offs = spec_offsets(vals);
            let blob = spec_blob(vals);
            &&& offs.len() == vals.len() + 1
            &&& forall|j: int| 0 <= j < vals.len() ==> #[trigger] offs[j] <= offs[j + 1]
            &&& offs[vals.len() as int] == blob.len()
            &&& blob.len() == total_len(vals)
            &&& sliced_vals(blob, offs, 0, vals.len() as int) == vals
        }),
{
    let offs = spec_offsets(vals);
    let blob = spec_blob(vals);
    lemma_blob_len(vals);
    assert(vals.take(vals.len() as int) =~= vals);
    assert forall|j: int| 0 <= j < vals.len() implies #[trigger] offs[j] <= offs[j + 1] by {
        lemma_total_len_step(vals, j);
        lemma_total_len_nonneg(vals.take(j));
        lemma_total_len_prefix(vals, j + 1);
    }
    assert(offs[0] == 0 && offs[vals.len() as int] == blob.len());
    let back = sliced_vals(blob, offs, 0, vals.len() as int);
    assert forall|i: int| 0 <= i < vals.len() implies back[i] == vals[i] by {
        lemma_total_len_step(vals, i);
        lemma_total_len_nonneg(vals.take(i));
        lemma_total_len_prefix(vals, i + 1);
        lemma_blob_segment(vals, i);
        assert(offs[i] == total_len(vals.take(i)) as u64);
        assert(offs[i + 1] == total_len(vals.take(i + 1)) as u64);
    }
    assert(back =~= vals);
}

/// Round trip of the array bridge, for every array this machine can hold:
/// exporting a well-formed native array whose types are all mapped
/// succeeds, and importing the struct pair it yields reconstructs an array
/// equal in type, length, validity pattern and values — recursively through
/// struct columns.
#[verifier::rlimit(100)]
#[verifier::spinoff_prover]
pub proof fn lemma_array_round_trip(a: ArrayModel)
    requires
        a.wf(),
        a.dtype.exportable(),
        a.length <= usize::MAX,
    ensures
        spec_export_array(a) is Ok,
        spec_import_array(spec_export_array(a)->Ok_0.0, spec_export_array(a)->Ok_0.1)
            == Ok::<ArrayModel, BridgeError>(a),
    decreases a,
{
    crate::schema::lemma_schema_round_trip(a.dtype);
    let cs = spec_export_schema(a.dtype)->Ok_0;
    let c = spec_export_carray(a);
    let sd = spec_import_schema(cs)->Ok_0;
    assert(sd == a.dtype);
    assert(a.validity.len() == a.length);
    lemma_padded_covers(a.validity);
    assert(spec_padded_bits(a.validity).subrange(0, a.length) =~= a.validity);
    match a.data {
        ColumnDataModel::Fixed(vals) => {
            assert(vals.subrange(0, a.length) =~= vals);
            assert(spec_import_array(c, cs)->Ok_0 =~~= a);
        },
        ColumnDataModel::Bools(vals) => {
            lemma_padded_covers(vals);
            assert(spec_padded_bits(vals).subrange(0, a.length) =~= vals);
            assert(spec_import_array(c, cs)->Ok_0 =~~= a);
        },
        ColumnDataModel::VarBytes(vals) => {
            lemma_var_buffers_round_trip(vals);
            assert(spec_import_array(c, cs)->Ok_0 =~~= a);
        },
        ColumnDataModel::Structs(cols) => {
            crate::schema::lemma_export_children_elem(a.dtype.children);
            assert forall|i: int|
                0 <= i < cols.len() implies (#[trigger] cols[i]).wf() && cols[i].dtype.exportable()
                && cols[i].length == a.length && spec_export_schema(cols[i].dtype) is Ok
                && cs.children[i] == spec_export_schema(cols[i].dtype)->Ok_0 by {
                assert(cols[i].dtype == a.dtype.children[i]);
            }
            lemma_carrays_round_trip(cols, cs.children, a.length);
            let kids = spec_import_carrays(c.children, cs.children, c.length)->Ok_0;
            assert(kids == cols);
            assert(spec_import_array(c, cs)->Ok_0 =~~= a);
        },
    }
}

/// Round trip of a column list against the schema structs its types export
/// to.
pub proof fn lemma_carrays_round_trip(cols: Seq<ArrayModel>, ss: Seq<CSchemaModel>, want: int)
    requires
        ss.len() == cols.len(),
        want <= usize::MAX,
        forall|i: int|
            0 <= i < cols.len() ==> (#[trigger] cols[i]).wf() && cols[i].dtype.exportable()
                && cols[i].length == want && spec_export_schema(cols[i].dtype) is Ok && ss[i]
                == spec_export_schema(cols[i].dtype)->Ok_0,
    ensures
        spec_import_carrays(spec_export_carrays(cols), ss, want) == Ok::<
            Seq<ArrayModel>,
            BridgeError,
        >(cols),
    decreases cols,
{
    let ecs = spec_export_carrays(cols);
    if cols.len() == 0 {
        assert(ecs.len() == 0);
        assert(spec_import_carrays(ecs, ss, want)->Ok_0 =~= cols);
    } else {
        lemma_array_round_trip(cols[0]);
        assert(ecs[0] == spec_export_carray(cols[0]));
        assert(spec_export_array(cols[0])->Ok_0.1 == ss[0]);
        assert forall|i: int|
            0 <= i < cols.drop_first().len() implies (#[trigger] cols.drop_first()[i]).wf()
            && cols.drop_first()[i].dtype.exportable() && cols.drop_first()[i].length == want
            && spec_export_schema(cols.drop_first()[i].dtype) is Ok && ss.drop_first()[i]
            == spec_export_schema(cols.drop_first()[i].dtype)->Ok_0 by {
            assert(cols.drop_first()[i] == cols[i + 1]);
            assert(ss.drop_first()[i] == ss[i + 1]);
        }
        lemma_carrays_round_trip(cols.drop_first(), ss.drop_first(), want);
        assert(ecs.drop_first() =~= spec_export_carrays(cols.drop_first()));
        assert(spec_import_carrays(ecs, ss, want)->Ok_0 =~= cols);
    }
}

/// The padded bitmap of a validity sequence has room for all its bits.
pub proof fn lemma_padded_covers(v: Seq<bool>)
    ensures
        spec_padded_bits(v).len() == ((v.len() + 7) / 8) * 8,
        v.len() <= spec_padded_bits(v).len(),
{
    let n = v.len() as int;
    assert(n + 7 == 8 * ((n + 7) / 8) + (n + 7) % 8);
    assert(n <= ((n + 7) / 8) * 8);
}

/// Copies `count` slots of a value buffer starting at `start`.
fn copy_words(w: &Vec<u64>, start: usize, count: usize) -> (r: Vec<u64>)
    requires
        start + count <= w@.len(),
        start + count <= usize::MAX,
    ensures
        r@ == w@.subrange(start as int, start as int + count as int),
{
    let mut r: Vec<u64> = Vec::new();
    let mut i: usize = 0;
    while i < count
        invariant
            start + count <= w@.len(),
            start + count <= usize::MAX,
            i <= count,
            r@.len() == i,
            forall|j: int| 0 <= j < i ==> r@[j] == w@[start + j],
        decreases count - i,
    {
        r.push(w[start + i]);
        i += 1;
    }
    proof {
        assert(r@ =~= w@.subrange(start as int, start as int + count as int));
    }
    r
}

/// Copies bytes `[start, end)` of a data buffer.
fn copy_byte_range(b: &Vec<u8>, start: usize, end: usize) -> (r: Vec<u8>)
    requires
        start <= end,
        end <= b@.len(),
    ensures
        r@ == b@.subrange(start as int, end as int),
{
    let mut r: Vec<u8> = Vec::new();
    let mut i: usize = start;
    while i < end
        invariant
            start <= i <= end,
            end <= b@.len(),
            r@.len() == i - start,
            forall|j: int| 0 <= j < r@.len() ==> r@[j] == b@[start + j],
        decreases end - i,
    {
        r.push(b[i]);
        i += 1;
    }
    proof {
        assert(r@ =~= b@.subrange(start as int, end as int));
    }
    r
}

/// Builds the offsets buffer and the data buffer of a variable-offset
/// column: the strings laid end to end, with entry `i` of the offsets
/// buffer marking where string `i` begins.
fn build_var_buffers(vals: &Vec<Vec<u8>>) -> (r: (Vec<u64>, Vec<u8>))
    requires
        total_len(byte_lists(vals@)) <= usize::MAX,
    ensures
        r.0@ == spec_offsets(byte_lists(vals@)),
        r.1@ == spec_blob(byte_lists(vals@)),
{
    let ghost vd = byte_lists(vals@);
    let mut offs: Vec<u64> = Vec::new();
    let mut blob: Vec<u8> = Vec::new();
    offs.push(0);
    proof {
        assert(vd.take(0) =~= Seq::<Seq<u8>>::empty());
        assert(blob@ =~= spec_blob(vd.take(0)));
    }
    let mut i: usize = 0;
    while i < vals.len()
        invariant
            vd == byte_lists(vals@),
            vd.len() == vals@.len(),
            total_len(vd) <= usize::MAX,
            i <= vals@.len(),
            offs@.len() == i + 1,
            forall|j: int| 0 <= j <= i ==> offs@[j] == total_len(vd.take(j)) as u64,
            blob@ == spec_blob(vd.take(i as int)),
            blob@.len() == total_len(vd.take(i as int)),
        decreases vals@.len() - i,
    {
        proof {
            lemma_total_len_step(vd, i as int);
            lemma_total_len_prefix(vd, i as int + 1);
            lemma_total_len_nonneg(vd.take(i as int));
            assert(vd[i as int] == vals@[i as int]@);
        }
        let piece = &vals[i];
        let ghost blob0 = blob@;
        let mut k: usize = 0;
        while k < piece.len()
            invariant
                k <= piece@.len(),
                blob@ == blob0 + piece@.subrange(0, k as int),
            decreases piece@.len() - k,
        {
            blob.push(piece[k]);
            proof {
                assert(blob@ =~= blob0 + piece@.subrange(0, k as int + 1));
            }
            k += 1;
        }
        proof {
            assert(piece@.subrange(0, piece@.len() as int) =~= piece@);
            assert(vd.take(i as int + 1).drop_last() =~= vd.take(i as int));
            assert(vd.take(i as int + 1).last() == vd[i as int]);
            assert(blob@ =~= spec_blob(vd.take(i as int + 1)));
            lemma_blob_len(vd.take(i as int + 1));
        }
        let e = blob.len() as u64;
        offs.push(e);
        i += 1;
    }
    proof {
        assert(vd.take(vd.len() as int) =~= vd);
        assert(offs@ =~= spec_offsets(vd));
    }
    (offs, blob)
}

/// Validates a variable-offset window against its buffers and carves the
/// byte strings out: `None` where the offsets are not non-decreasing over
/// the window or overrun the data buffer.
#[verifier::rlimit(50)]
fn slice_var_values(blob: &Vec<u8>, offs: &Vec<u64>, off: usize, len: usize) -> (r: Option<
    Vec<Vec<u8>>,
>)
    requires
        off + len < offs@.len(),
        off + len <= usize::MAX,
    ensures
        ({
            let mono = (forall|j: int|
                off <= j < off + len ==> #[trigger] offs@[j] <= offs@[j + 1]);
            match r {
                Some(vals) => mono && offs@[off + len] <= blob@.len() && offs@[off + len]
                    <= usize::MAX && byte_lists(vals@) == sliced_vals(
                    blob@,
                    offs@,
                    off as int,
                    len as int,
                ),
                None => !(mono && offs@[off + len] <= blob@.len()),
            }
        }),
{
    let mut j: usize = 0;
    while j < len
        invariant
            off + len < offs@.len(),
            off + len <= usize::MAX,
            j <= len,
            forall|t: int| off <= t < off + j ==> #[trigger] offs@[t] <= offs@[t + 1],
            forall|t: int| off <= t <= off + j ==> #[trigger] offs@[t] <= offs@[off + j],
        decreases len - j,
    {
        if offs[off + j] > offs[off + j + 1] {
            return None;
        }
        j += 1;
    }
    if offs[off + len] > blob.len() as u64 {
        return None;
    }
    let ghost sv = sliced_vals(blob@, offs@, off as int, len as int);
    let mut vals: Vec<Vec<u8>> = Vec::new();
    let mut i: usize = 0;
    while i < len
        invariant
            off + len < offs@.len(),
            off + len <= usize::MAX,
            forall|t: int| off <= t < off + len ==> #[trigger] offs@[t] <= offs@[t + 1],
            forall|t: int| off <= t <= off + len ==> #[trigger] offs@[t] <= offs@[off + len],
            offs@[off + len] <= blob@.len(),
            blob@.len() <= usize::MAX,
            sv == sliced_vals(blob@, offs@, off as int, len as int),
            i <= len,
            vals@.len() == i,
            forall|t: int| 0 <= t < i ==> (#[trigger] vals@[t])@ == sv[t],
        decreases len - i,
    {
        proof {
            assert(offs@[off + i] <= offs@[off + i + 1]);
            assert(offs@[off + i + 1] <= offs@[off + len]);
            assert(offs@[off + i] <= offs@[off + len]);
            assert(sv[i as int] == blob@.subrange(offs@[off + i] as int, offs@[off + i + 1] as int));
        }
        let st = offs[off + i] as usize;
        let en = offs[off + i + 1] as usize;
        let piece = copy_byte_range(blob, st, en);
        vals.push(piece);
        i += 1;
    }
    proof {
        assert(byte_lists(vals@) =~= sv);
    }
    Some(vals)
}

/// Models the result of an exec array export.
pub open spec fn export_array_result_model(r: Result<(CArray, CSchema), BridgeError>) -> Result<
    (CArrayModel, CSchemaModel),
    BridgeError,
> {
    match r {
        Ok(p) => Ok((p.0.model(), p.1.model())),
        Err(e) => Err(e),
    }
}

/// Models the result of an exec array import.
pub open spec fn import_array_result_model(r: Result<ArrayBuffer, BridgeError>) -> Result<
    ArrayModel,
    BridgeError,
> {
    match r {
        Ok(a) => Ok(a.model()),
        Err(e) => Err(e),
    }
}

/// Converts a native array's buffers into an array-descriptor struct paired
/// with the schema-descriptor struct for its type; both carry an armed
/// release callback, and the exporter must not touch the underlying buffers
/// again once it hands them over. Fails on the first type in the array's
/// type tree that this bridge does not map.
pub fn export_array(a: &ArrayBuffer) -> (r: Result<(CArray, CSchema), BridgeError>)
    requires
        a@.wf(),
    ensures
        export_array_result_model(r) == spec_export_array(a@),
{
    let cs = match export_schema(&a.dtype) {
        Err(e) => {
            return Err(e);
        },
        Ok(c) => c,
    };
    let ca = export_carray(a);
    Ok((ca, cs))
}

/// Builds the array-descriptor struct of a native array.
pub fn export_carray(a: &ArrayBuffer) -> (c: CArray)
    requires
        a@.wf(),
    ensures
        c@ == spec_export_carray(a@),
    decreases *a,
{
    let vbm = pack_bits(&a.validity);
    let nc = null_count(&a.validity);
    let mut buffers: Vec<CBuffer> = Vec::new();
    buffers.push(CBuffer::Bitmap(vbm));
    let mut children: Vec<CArray> = Vec::new();
    match &a.data {
        ColumnData::Fixed(vals) => {
            let w = copy_words(vals, 0, vals.len());
            proof {
                assert(w@ =~= vals@);
            }
            buffers.push(CBuffer::Words(w));
        },
        ColumnData::Bools(vals) => {
            buffers.push(CBuffer::Bitmap(pack_bits(vals)));
        },
        ColumnData::VarBytes(vals) => {
            let (offs, blob) = build_var_buffers(vals);
            buffers.push(CBuffer::Words(offs));
            buffers.push(CBuffer::Bytes(blob));
        },
        ColumnData::Structs(cols) => {
            proof {
                assert forall|i: int| 0 <= i < cols@.len() implies (#[trigger] cols@[i])@.wf() by {
                    assert(array_models(cols@)[i] == cols@[i].model());
                }
            }
            children = export_carrays(cols);
        },
    }
    let c = CArray {
        length: a.length as u64,
        null_count: nc as u64,
        offset: 0,
        buffers,
        children,
        has_dictionary: false,
        release_armed: true,
    };
    proof {
        let cm = c.model();
        let sm = spec_export_carray(a@);
        assert(cm.length == sm.length);
        assert(cm.null_count == sm.null_count);
        assert(cm.offset == sm.offset);
        assert(cm.buffers =~~= sm.buffers);
        assert(cm.children =~~= sm.children);
        assert(cm =~~= sm);
    }
    c
}

/// Builds the array-descriptor structs of a column list, in order.
fn export_carrays(cols: &Vec<ArrayBuffer>) -> (r: Vec<CArray>)
    requires
        forall|i: int| 0 <= i < cols@.len() ==> (#[trigger] cols@[i])@.wf(),
    ensures
        carray_models(r@) == spec_export_carrays(array_models(cols@)),
    decreases *cols,
{
    let mut r: Vec<CArray> = Vec::new();
    let mut i: usize = 0;
    while i < cols.len()
        invariant
            forall|k: int| 0 <= k < cols@.len() ==> (#[trigger] cols@[k])@.wf(),
            i <= cols@.len(),
            r@.len() == i,
            forall|j: int| 0 <= j < i ==> (#[trigger] r@[j]).model() == spec_export_carray(
                cols@[j].model(),
            ),
        decreases cols@.len() - i,
    {
        let c = export_carray(&cols[i]);
        r.push(c);
        i += 1;
    }
    proof {
        assert forall|j: int| 0 <= j < r@.len() implies carray_models(r@)[j] == spec_export_carrays(
            array_models(cols@),
        )[j] by {
            assert(array_models(cols@)[j] == cols@[j].model());
        }
        assert(carray_models(r@) =~= spec_export_carrays(array_models(cols@)));
    }
    r
}

/// Whether elements `[off, off + len)` fit a value buffer of `cap` slots.
fn range_ok_words(off: u64, len: u64, cap: usize) -> (b: bool)
    ensures
        b == valid_range(off as int, len as int, cap as int),
{
    let cap64 = cap as u64;
    len <= cap64 && off <= cap64 - len
}

/// Whether bits `[off, off + len)` fit a bitmap buffer of `cap` bytes.
fn range_ok_bits(off: u64, len: u64, cap: usize) -> (b: bool)
    ensures
        b == valid_range(off as int, len as int, 8 * (cap as int)),
{
    let m = usize::MAX as u64;
    if len > m {
        return false;
    }
    if off > m - len {
        return false;
    }
    let s = off + len;
    let cap64 = cap as u64;
    let need = s / 8 + if s % 8 == 0 {
        0
    } else {
        1
    };
    proof {
        assert(s == 8 * (s as int / 8) + s as int % 8);
        if need <= cap64 {
            assert(s <= 8 * (cap as int));
        } else {
            assert(s > 8 * (cap as int));
        }
    }
    need <= cap64
}

/// Reconstructs a native typed array from an array-descriptor struct, using
/// its paired schema-descriptor to resolve the buffer layout convention.
#[verifier::rlimit(50)]
pub fn import_array(ca: &CArray, cs: &CSchema) -> (r: Result<ArrayBuffer, BridgeError>)
    ensures
        import_array_result_model(r) == spec_import_array(ca@, cs@),
    decreases *ca,
{
    let sd = match import_schema(cs) {
        Err(e) => {
            return Err(e);
        },
        Ok(s) => s,
    };
    if ca.has_dictionary {
        return Err(BridgeError::UnsupportedEncoding);
    }
    let ghost spec_r = spec_import_array(ca@, cs@);
    if is_fixed_width(sd.tag) {
        if !(ca.children.len() == 0 && ca.buffers.len() == 2) {
            return Err(BridgeError::BufferLayoutMismatch);
        }
        let bm = match &ca.buffers[0] {
            CBuffer::Bitmap(b) => b,
            _ => {
                return Err(BridgeError::BufferLayoutMismatch);
            },
        };
        let w = match &ca.buffers[1] {
            CBuffer::Words(x) => x,
            _ => {
                return Err(BridgeError::BufferLayoutMismatch);
            },
        };
        if !range_ok_bits(ca.offset, ca.length, bm.len()) {
            return Err(BridgeError::BufferLayoutMismatch);
        }
        if !range_ok_words(ca.offset, ca.length, w.len()) {
            return Err(BridgeError::BufferLayoutMismatch);
        }
        let off = ca.offset as usize;
        let len = ca.length as usize;
        let validity = unpack_bits(bm, off, len);
        let vals = copy_words(w, off, len);
        let a = ArrayBuffer { dtype: sd, length: len, validity, data: ColumnData::Fixed(vals) };
        proof {
            assert(a.model().validity =~= spec_r->Ok_0.validity);
            assert(a.model() =~~= spec_r->Ok_0);
        }
        Ok(a)
    } else if matches!(sd.tag, TypeTag::Boolean) {
        if !(ca.children.len() == 0 && ca.buffers.len() == 2) {
            return Err(BridgeError::BufferLayoutMismatch);
        }
        let bm = match &ca.buffers[0] {
            CBuffer::Bitmap(b) => b,
            _ => {
                return Err(BridgeError::BufferLayoutMismatch);
            },
        };
        let dm = match &ca.buffers[1] {
            CBuffer::Bitmap(b) => b,
            _ => {
                return Err(BridgeError::BufferLayoutMismatch);
            },
        };
        if !range_ok_bits(ca.offset, ca.length, bm.len()) {
            return Err(BridgeError::BufferLayoutMismatch);
        }
        if !range_ok_bits(ca.offset, ca.length, dm.len()) {
            return Err(BridgeError::BufferLayoutMismatch);
        }
        let off = ca.offset as usize;
        let len = ca.length as usize;
        let validity = unpack_bits(bm, off, len);
        let vals = unpack_bits(dm, off, len);
        let a = ArrayBuffer { dtype: sd, length: len, validity, data: ColumnData::Bools(vals) };
        proof {
            assert(a.model().validity =~= spec_r->Ok_0.validity);
            assert(a.model().data->Bools_0 =~= spec_r->Ok_0.data->Bools_0);
            assert(a.model() =~~= spec_r->Ok_0);
        }
        Ok(a)
    } else if is_variable_offset(sd.tag) {
        if !(ca.children.len() == 0 && ca.buffers.len() == 3) {
            return Err(BridgeError::BufferLayoutMismatch);
        }
        let bm = match &ca.buffers[0] {
            CBuffer::Bitmap(b) => b,
            _ => {
                return Err(BridgeError::BufferLayoutMismatch);
            },
        };
        let offs = match &ca.buffers[1] {
            CBuffer::Words(w) => w,
            _ => {
                return Err(BridgeError::BufferLayoutMismatch);
            },
        };
        let blob = match &ca.buffers[2] {
            CBuffer::Bytes(d) => d,
            _ => {
                return Err(BridgeError::BufferLayoutMismatch);
            },
        };
        if !range_ok_bits(ca.offset, ca.length, bm.len()) {
            return Err(BridgeError::BufferLayoutMismatch);
        }
        let end_pos = ca.offset + ca.length;
        if !((offs.len() as u64) > end_pos) {
            return Err(BridgeError::BufferLayoutMismatch);
        }
        let off = ca.offset as usize;
        let len = ca.length as usize;
        let vals = match slice_var_values(blob, offs, off, len) {
            Option::None => {
                return Err(BridgeError::BufferLayoutMismatch);
            },
            Option::Some(v) => v,
        };
        let validity = unpack_bits(bm, off, len);
        let a = ArrayBuffer { dtype: sd, length: len, validity, data: ColumnData::VarBytes(vals) };
        proof {
            assert(a.model().validity =~= spec_r->Ok_0.validity);
            assert(a.model() =~~= spec_r->Ok_0);
        }
        Ok(a)
    } else if matches!(sd.tag, TypeTag::Struct) {
        if !(ca.buffers.len() == 1) {
            return Err(BridgeError::BufferLayoutMismatch);
        }
        let bm = match &ca.buffers[0] {
            CBuffer::Bitmap(b) => b,
            _ => {
                return Err(BridgeError::BufferLayoutMismatch);
            },
        };
        if ca.offset != 0 {
            return Err(BridgeError::BufferLayoutMismatch);
        }
        if !range_ok_bits(0, ca.length, bm.len()) {
            return Err(BridgeError::BufferLayoutMismatch);
        }
        if ca.children.len() != cs.children.len() {
            return Err(BridgeError::BufferLayoutMismatch);
        }
        let kids = match import_carrays_from(&ca.children, &cs.children, 0, ca.length) {
            Err(e) => {
                proof {
                    assert(carray_models(ca.children@).skip(0) =~= carray_models(ca.children@));
                    assert(crate::schema::cschema_models(cs.children@).skip(0)
                        =~= crate::schema::cschema_models(cs.children@));
                }
                return Err(e);
            },
            Ok(k) => k,
        };
        proof {
            assert(carray_models(ca.children@).skip(0) =~= carray_models(ca.children@));
            assert(crate::schema::cschema_models(cs.children@).skip(0)
                =~= crate::schema::cschema_models(cs.children@));
        }
        let len = ca.length as usize;
        let validity = unpack_bits(bm, 0, len);
        let a = ArrayBuffer { dtype: sd, length: len, validity, data: ColumnData::Structs(kids) };
        proof {
            assert(a.model().validity =~= spec_r->Ok_0.validity);
            assert(a.model() =~~= spec_r->Ok_0);
        }
        Ok(a)
    } else {
        Err(BridgeError::UnsupportedType)
    }
}

/// Imports the children of a struct array from position `i` on, pairing
/// each with its schema-descriptor child.
fn import_carrays_from(cav: &Vec<CArray>, csv: &Vec<CSchema>, i: usize, want: u64) -> (r: Result<
    Vec<ArrayBuffer>,
    BridgeError,
>)
    requires
        i <= cav.len(),
        csv.len() == cav.len(),
    ensures
        ({
            let s = spec_import_carrays(
                carray_models(cav@).skip(i as int),
                crate::schema::cschema_models(csv@).skip(i as int),
                want as int,
            );
            match r {
                Ok(k) => s == Ok::<_, BridgeError>(array_models(k@)),
                Err(e) => s == Err::<Seq<ArrayModel>, _>(e),
            }
        }),
    decreases *cav, cav.len() - i,
{
    let ghost cms = carray_models(cav@).skip(i as int);
    let ghost sms = crate::schema::cschema_models(csv@).skip(i as int);
    if i == cav.len() {
        let k: Vec<ArrayBuffer> = Vec::new();
        proof {
            assert(array_models(k@) =~= Seq::<ArrayModel>::empty());
        }
        Ok(k)
    } else {
        proof {
            assert(cms[0] == cav@[i as int].model());
            assert(sms[0] == csv@[i as int].model());
            assert(cms.drop_first() =~= carray_models(cav@).skip(i as int + 1));
            assert(sms.drop_first() =~= crate::schema::cschema_models(csv@).skip(i as int + 1));
        }
        let a0 = match import_array(&cav[i], &csv[i]) {
            Err(e) => {
                return Err(e);
            },
            Ok(a) => a,
        };
        if a0.length as u64 != want {
            return Err(BridgeError::BufferLayoutMismatch);
        }
        match import_carrays_from(cav, csv, i + 1, want) {
            Err(e) => Err(e),
            Ok(mut rest) => {
                let ghost old_rest = rest@;
                rest.insert(0, a0);
                proof {
                    lemma_array_models_insert0(old_rest, a0);
                    assert(rest@ == old_rest.insert(0, a0));
                }
                Ok(rest)
            },
        }
    }
}

pub proof fn lemma_array_models_insert0(s: Seq<ArrayBuffer>, a: ArrayBuffer)
    ensures
        array_models(s.insert(0, a)) =~= seq![a.model()] + array_models(s),
{
    let x = array_models(s.insert(0, a));
    let y = seq![a.model()] + array_models(s);
    assert forall|j: int| 0 <= j < x.len() implies x[j] == y[j] by {
        if j > 0 {
            assert(s.insert(0, a)[j] == s[j - 1]);
        }
    }
}

} // verus!
