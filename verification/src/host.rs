//! Host values and the allocation/handoff protocol.
//!
//! An opaque host-runtime value is modelled by the class tags the
//! classifier reads and by the C-ABI struct contents a recognized value
//! carries. The exchange follows the receiver-allocates strategy
//! consistently: the receiver allocates an empty lightweight handle, and
//! the exporter's pointer move transfers the populated struct — field
//! values and release responsibility together — into it. Until that move,
//! the exporting side alone owns the struct.

use vstd::prelude::*;
use crate::array::{CArray, CArrayModel, carray_models};
use crate::capability::{Capability, array_like, schema_like, spec_classify, classify};
use crate::error::BridgeError;
use crate::batch::{Batch, BatchModel};
use crate::schema::{CSchema, CSchemaModel, SchemaDescriptor, SchemaModel, TypeTag};
use crate::stream::{CStream, CStreamModel, StreamState};

verus! {

/// Model of what a host value carries behind its tags.
#[verifier::ext_equal]
pub enum HostPayloadModel {
    SchemaPayload(CSchemaModel),
    ArrayPayload(CArrayModel, CSchemaModel),
    StreamPayload(CStreamModel),
    Opaque,
}

/// Mathematical model of a host value.
#[verifier::ext_equal]
pub struct HostValueModel {
    pub tags: Seq<Seq<char>>,
    pub payload: HostPayloadModel,
}

impl HostValueModel {
    /// The tags tell the truth: a value classified as schema-like carries a
    /// schema struct, an array-like one an array/schema pair, a stream one
    /// a live stream struct. Of an unrecognized value nothing is assumed —
    /// the classifier refuses it before anything is read.
    pub open spec fn wf(self) -> bool {
        match spec_classify(self.tags) {
            Option::None => true,
            Option::Some(c) => if schema_like(c) {
                self.payload is SchemaPayload
            } else if array_like(c) {
                self.payload is ArrayPayload
            } else {
                self.payload matches HostPayloadModel::StreamPayload(s) && s.state
                    != StreamState::Released
            },
        }
    }
}

/// What a host value carries behind its tags.
pub enum HostPayload {
    SchemaPayload(CSchema),
    ArrayPayload(CArray, CSchema),
    StreamPayload(CStream),
    Opaque,
}

impl HostPayload {
    pub open spec fn model(self) -> HostPayloadModel {
        match self {
            HostPayload::SchemaPayload(c) => HostPayloadModel::SchemaPayload(c.model()),
            HostPayload::ArrayPayload(a, c) => HostPayloadModel::ArrayPayload(a.model(), c.model()),
            HostPayload::StreamPayload(s) => HostPayloadModel::StreamPayload(s.model()),
            HostPayload::Opaque => HostPayloadModel::Opaque,
        }
    }
}

/// An opaque host-runtime value, as this bridge models it: the class tags
/// its runtime reports, and the struct contents it carries if it is one of
/// the recognized variants.
pub struct HostValue {
    pub tags: Vec<String>,
    pub payload: HostPayload,
}

impl HostValue {
    pub open spec fn model(self) -> HostValueModel {
        HostValueModel { tags: self.tags.deep_view(), payload: self.payload.model() }
    }
}

impl View for HostValue {
    type V = HostValueModel;

    open spec fn view(&self) -> HostValueModel {
        self.model()
    }
}

/// The empty, unarmed schema-descriptor struct a receiver allocates.
pub open spec fn empty_cschema_model() -> CSchemaModel {
    CSchemaModel {
        format: Seq::empty(),
        name: Seq::empty(),
        flags: 0,
        children: Seq::empty(),
        has_dictionary: false,
        release_armed: false,
    }
}

/// The empty, unarmed array-descriptor struct a receiver allocates.
pub open spec fn empty_carray_model() -> CArrayModel {
    CArrayModel {
        length: 0,
        null_count: 0,
        offset: 0,
        buffers: Seq::empty(),
        children: Seq::empty(),
        has_dictionary: false,
        release_armed: false,
    }
}

/// The empty, unarmed array-stream struct a receiver allocates.
pub open spec fn empty_cstream_model() -> CStreamModel {
    CStreamModel {
        schema: empty_cschema_model(),
        pending: Seq::empty(),
        state: StreamState::Created,
        release_armed: false,
    }
}

fn empty_cschema() -> (c: CSchema)
    ensures
        c@ == empty_cschema_model(),
{
    let c = CSchema {
        format: Vec::new(),
        name: String::new(),
        flags: 0,
        children: Vec::new(),
        has_dictionary: false,
        release_armed: false,
    };
    proof {
        assert(crate::schema::cschema_models(c.children@) =~= Seq::<CSchemaModel>::empty());
        assert(c.model() =~~= empty_cschema_model());
    }
    c
}

fn empty_carray() -> (c: CArray)
    ensures
        c@ == empty_carray_model(),
{
    let c = CArray {
        length: 0,
        null_count: 0,
        offset: 0,
        buffers: Vec::new(),
        children: Vec::new(),
        has_dictionary: false,
        release_armed: false,
    };
    proof {
        assert(carray_models(c.children@) =~= Seq::<CArrayModel>::empty());
        assert(c.model() =~~= empty_carray_model());
    }
    c
}

fn empty_cstream() -> (c: CStream)
    ensures
        c@ == empty_cstream_model(),
{
    let c = CStream {
        schema: empty_cschema(),
        pending: Vec::new(),
        state: StreamState::Created,
        release_armed: false,
    };
    proof {
        assert(carray_models(c.pending@) =~= Seq::<CArrayModel>::empty());
        assert(c.model() =~~= empty_cstream_model());
    }
    c
}

/// A host value tagged as a lightweight schema handle that carries a
/// schema struct is honest.
pub proof fn lemma_schema_handle_wf(m: HostValueModel)
    requires
        m.tags =~= seq!["nanoarrow_schema"@],
        m.payload is SchemaPayload,
    ensures
        spec_classify(m.tags) == Some(Capability::LightSchema),
        m.wf(),
{
    reveal_strlit("nanoarrow_schema");
    assert(m.tags[0] == "nanoarrow_schema"@);
    assert(spec_classify(m.tags) == Some(Capability::LightSchema));
}

/// A host value tagged as a lightweight array handle that carries an
/// array/schema pair is honest.
pub proof fn lemma_array_handle_wf(m: HostValueModel)
    requires
        m.tags =~= seq!["nanoarrow_array"@],
        m.payload is ArrayPayload,
    ensures
        spec_classify(m.tags) == Some(Capability::LightArray),
        m.wf(),
{
    reveal_strlit("nanoarrow_schema");
    reveal_strlit("nanoarrow_array");
    assert("nanoarrow_array"@.len() == 15);
    assert("nanoarrow_schema"@.len() == 16);
    assert(m.tags[0] == "nanoarrow_array"@);
    assert(spec_classify(m.tags) == Some(Capability::LightArray));
}

/// A host value tagged as a lightweight stream handle that carries a live
/// stream struct is honest.
pub proof fn lemma_stream_handle_wf(m: HostValueModel)
    requires
        m.tags =~= seq!["nanoarrow_array_stream"@],
        m.payload matches HostPayloadModel::StreamPayload(s) && s.state != StreamState::Released,
    ensures
        spec_classify(m.tags) == Some(Capability::LightStream),
        m.wf(),
{
    reveal_strlit("nanoarrow_schema");
    reveal_strlit("nanoarrow_array");
    reveal_strlit("nanoarrow_array_stream");
    assert("nanoarrow_array_stream"@.len() == 22);
    assert("nanoarrow_array"@.len() == 15);
    assert("nanoarrow_schema"@.len() == 16);
    assert(m.tags[0] == "nanoarrow_array_stream"@);
    assert(spec_classify(m.tags) == Some(Capability::LightStream));
}

fn singleton_tags(t: &str) -> (r: Vec<String>)
    ensures
        r.deep_view() =~= seq![t@],
{
    let mut r: Vec<String> = Vec::new();
    r.push(t.to_owned());
    r
}

/// Allocates an empty lightweight schema handle, for the exporter to move
/// a populated struct into.
pub fn allocate_schema() -> (hv: HostValue)
    ensures
        hv@ == (HostValueModel {
            tags: seq!["nanoarrow_schema"@],
            payload: HostPayloadModel::SchemaPayload(empty_cschema_model()),
        }),
        hv@.wf(),
{
    let hv = HostValue {
        tags: singleton_tags("nanoarrow_schema"),
        payload: HostPayload::SchemaPayload(empty_cschema()),
    };
    proof {
        assert(hv.model() =~~= (HostValueModel {
            tags: seq!["nanoarrow_schema"@],
            payload: HostPayloadModel::SchemaPayload(empty_cschema_model()),
        }));
        lemma_schema_handle_wf(hv.model());
    }
    hv
}

/// Allocates an empty lightweight array handle.
pub fn allocate_array() -> (hv: HostValue)
    ensures
        hv@ == (HostValueModel {
            tags: seq!["nanoarrow_array"@],
            payload: HostPayloadModel::ArrayPayload(empty_carray_model(), empty_cschema_model()),
        }),
        hv@.wf(),
{
    let hv = HostValue {
        tags: singleton_tags("nanoarrow_array"),
        payload: HostPayload::ArrayPayload(empty_carray(), empty_cschema()),
    };
    proof {
        assert(hv.model() =~~= (HostValueModel {
            tags: seq!["nanoarrow_array"@],
            payload: HostPayloadModel::ArrayPayload(empty_carray_model(), empty_cschema_model()),
        }));
        lemma_array_handle_wf(hv.model());
    }
    hv
}

/// Allocates an empty lightweight stream handle.
pub fn allocate_array_stream() -> (hv: HostValue)
    ensures
        hv@ == (HostValueModel {
            tags: seq!["nanoarrow_array_stream"@],
            payload: HostPayloadModel::StreamPayload(empty_cstream_model()),
        }),
        hv@.wf(),
{
    let hv = HostValue {
        tags: singleton_tags("nanoarrow_array_stream"),
        payload: HostPayload::StreamPayload(empty_cstream()),
    };
    proof {
        assert(hv.model() =~~= (HostValueModel {
            tags: seq!["nanoarrow_array_stream"@],
            payload: HostPayloadModel::StreamPayload(empty_cstream_model()),
        }));
        lemma_stream_handle_wf(hv.model());
    }
    hv
}

/// A populated C struct in the exporter's hands, about to be moved.
pub enum AnyStruct {
    SchemaStruct(CSchema),
    ArrayStruct(CArray),
    StreamStruct(CStream),
}

/// Model of a struct in the exporter's hands.
#[verifier::ext_equal]
pub enum AnyStructModel {
    SchemaStruct(CSchemaModel),
    ArrayStruct(CArrayModel),
    StreamStruct(CStreamModel),
}

impl AnyStruct {
    pub open spec fn model(self) -> AnyStructModel {
        match self {
            AnyStruct::SchemaStruct(c) => AnyStructModel::SchemaStruct(c.model()),
            AnyStruct::ArrayStruct(c) => AnyStructModel::ArrayStruct(c.model()),
            AnyStruct::StreamStruct(c) => AnyStructModel::StreamStruct(c.model()),
        }
    }
}

impl View for AnyStruct {
    type V = AnyStructModel;

    open spec fn view(&self) -> AnyStructModel {
        self.model()
    }
}

/// What moving a populated struct into a receiver-allocated handle yields:
/// the handle now carries the struct's field values and its release
/// responsibility (an array handle keeps the schema slot it already had).
/// Only a lightweight handle of the struct's own kind accepts the move;
/// an unrecognized destination is refused before it is touched.
pub open spec fn spec_move_pointer(src: AnyStructModel, dst: HostValueModel) -> Result<
    HostValueModel,
    BridgeError,
> {
    match spec_classify(dst.tags) {
        Option::None => Err(BridgeError::UnrecognizedCapability),
        Option::Some(c) => if c == Capability::LightSchema {
            match src {
                AnyStructModel::SchemaStruct(s) => Ok(
                    HostValueModel { payload: HostPayloadModel::SchemaPayload(s), ..dst },
                ),
                _ => Err(BridgeError::WrongCapability),
            }
        } else if c == Capability::LightArray {
            match src {
                AnyStructModel::ArrayStruct(a) => match dst.payload {
                    HostPayloadModel::ArrayPayload(_, sch) => Ok(
                        HostValueModel { payload: HostPayloadModel::ArrayPayload(a, sch), ..dst },
                    ),
                    _ => Err(BridgeError::WrongCapability),
                },
                _ => Err(BridgeError::WrongCapability),
            }
        } else if c == Capability::LightStream {
            match src {
                AnyStructModel::StreamStruct(s) => Ok(
                    HostValueModel { payload: HostPayloadModel::StreamPayload(s), ..dst },
                ),
                _ => Err(BridgeError::WrongCapability),
            }
        } else {
            Err(BridgeError::WrongCapability)
        },
    }
}

/// Moves a populated struct's contents — and with them the release
/// responsibility — into a receiver-allocated lightweight handle. On a
/// refused move the destination is untouched and the caller keeps the
/// struct's obligations.
pub fn move_pointer(src: AnyStruct, dst: &mut HostValue) -> (r: Result<(), BridgeError>)
    requires
        old(dst)@.wf(),
        src@ matches AnyStructModel::StreamStruct(s) ==> s.state != StreamState::Released,
    ensures
        match r {
            Ok(_) => spec_move_pointer(src@, old(dst)@) == Ok::<_, BridgeError>(final(dst)@)
                && final(dst)@.wf(),
            Err(e) => spec_move_pointer(src@, old(dst)@) == Err::<HostValueModel, _>(e)
                && *final(dst) == *old(dst),
        },
{
    let c = match classify(&dst.tags) {
        Err(e) => {
            return Err(e);
        },
        Ok(c) => c,
    };
    if c == Capability::LightSchema {
        match src {
            AnyStruct::SchemaStruct(s) => {
                dst.payload = HostPayload::SchemaPayload(s);
                Ok(())
            },
            _ => Err(BridgeError::WrongCapability),
        }
    } else if c == Capability::LightArray {
        match src {
            AnyStruct::ArrayStruct(a) => {
                let mut taken = HostPayload::Opaque;
                core::mem::swap(&mut taken, &mut dst.payload);
                match taken {
                    HostPayload::ArrayPayload(_, sch) => {
                        dst.payload = HostPayload::ArrayPayload(a, sch);
                        Ok(())
                    },
                    _ => {
                        proof {
                            assert(false);
                        }
                        vstd::pervasive::unreached()
                    },
                }
            },
            _ => Err(BridgeError::WrongCapability),
        }
    } else if c == Capability::LightStream {
        match src {
            AnyStruct::StreamStruct(s) => {
                dst.payload = HostPayload::StreamPayload(s);
                Ok(())
            },
            _ => Err(BridgeError::WrongCapability),
        }
    } else {
        Err(BridgeError::WrongCapability)
    }
}

/// What attaching a schema handle to an array handle yields: the array
/// handle's schema slot now carries the schema struct.
pub open spec fn spec_set_array_schema(arr: HostValueModel, schema: HostValueModel) -> Result<
    HostValueModel,
    BridgeError,
> {
    if spec_classify(arr.tags) != Some(Capability::LightArray) || spec_classify(schema.tags)
        != Some(Capability::LightSchema) {
        Err(BridgeError::WrongCapability)
    } else {
        match (arr.payload, schema.payload) {
            (
                HostPayloadModel::ArrayPayload(a, _),
                HostPayloadModel::SchemaPayload(s),
            ) => Ok(HostValueModel { payload: HostPayloadModel::ArrayPayload(a, s), ..arr }),
            _ => Err(BridgeError::WrongCapability),
        }
    }
}

/// Attaches a schema handle to an array handle, consuming the schema
/// handle: a lightweight array is complete only once its schema is set.
/// On a refused attach the array handle is untouched.
pub fn set_array_schema(arr: &mut HostValue, schema: HostValue) -> (r: Result<(), BridgeError>)
    requires
        old(arr)@.wf(),
        schema@.wf(),
    ensures
        match r {
            Ok(_) => spec_set_array_schema(old(arr)@, schema@) == Ok::<_, BridgeError>(final(arr)@)
                && final(arr)@.wf(),
            Err(e) => spec_set_array_schema(old(arr)@, schema@) == Err::<HostValueModel, _>(e)
                && *final(arr) == *old(arr),
        },
{
    let ca = match classify(&arr.tags) {
        Err(_) => {
            return Err(BridgeError::WrongCapability);
        },
        Ok(c) => c,
    };
    let cs = match classify(&schema.tags) {
        Err(_) => {
            return Err(BridgeError::WrongCapability);
        },
        Ok(c) => c,
    };
    if !(ca == Capability::LightArray && cs == Capability::LightSchema) {
        return Err(BridgeError::WrongCapability);
    }
    let s = match schema.payload {
        HostPayload::SchemaPayload(s) => s,
        _ => {
            proof {
                assert(false);
            }
            vstd::pervasive::unreached()
        },
    };
    let mut taken = HostPayload::Opaque;
    core::mem::swap(&mut taken, &mut arr.payload);
    match taken {
        HostPayload::ArrayPayload(a, _) => {
            arr.payload = HostPayload::ArrayPayload(a, s);
            Ok(())
        },
        _ => {
            proof {
                assert(false);
            }
            vstd::pervasive::unreached()
        },
    }
}

/// What importing a schema-like host value yields: its schema struct's
/// import. `also` is the full-object variant the conversion accepts beside
/// the lightweight schema handle; any other recognized variant is a
/// `WrongCapability`, an unrecognized value an `UnrecognizedCapability`.
pub open spec fn spec_import_schema_like(h: HostValueModel, also: Capability) -> Result<
    SchemaModel,
    BridgeError,
> {
    match spec_classify(h.tags) {
        Option::None => Err(BridgeError::UnrecognizedCapability),
        Option::Some(c) => if c == Capability::LightSchema || c == also {
            match h.payload {
                HostPayloadModel::SchemaPayload(cs) => crate::schema::spec_import_schema(cs),
                _ => Err(BridgeError::WrongCapability),
            }
        } else {
            Err(BridgeError::WrongCapability)
        },
    }
}

/// Imports the schema struct of a host value that must be a lightweight
/// schema handle or the given full variant.
fn import_schema_like(hv: &HostValue, also: Capability) -> (r: Result<
    SchemaDescriptor,
    BridgeError,
>)
    requires
        hv@.wf(),
        schema_like(also),
    ensures
        crate::schema::import_result_model(r) == spec_import_schema_like(hv@, also),
        r matches Ok(sd) ==> sd@.wf(),
{
    let c = match classify(&hv.tags) {
        Err(e) => {
            return Err(e);
        },
        Ok(c) => c,
    };
    if !(c == Capability::LightSchema || c == also) {
        return Err(BridgeError::WrongCapability);
    }
    match &hv.payload {
        HostPayload::SchemaPayload(cs) => {
            proof {
                crate::schema::lemma_import_schema_wf(cs@);
            }
            crate::schema::import_schema(cs)
        },
        _ => {
            proof {
                assert(false);
            }
            vstd::pervasive::unreached()
        },
    }
}

/// Reconstructs a native field descriptor from a host value carrying a
/// lightweight schema handle or a full field object.
pub fn import_field_value(hv: &HostValue) -> (r: Result<SchemaDescriptor, BridgeError>)
    requires
        hv@.wf(),
    ensures
        crate::schema::import_result_model(r) == spec_import_schema_like(
            hv@,
            Capability::FullField,
        ),
        r matches Ok(sd) ==> sd@.wf(),
{
    import_schema_like(hv, Capability::FullField)
}

/// Reconstructs a native type descriptor from a host value carrying a
/// lightweight schema handle or a full datatype object.
pub fn import_datatype_value(hv: &HostValue) -> (r: Result<SchemaDescriptor, BridgeError>)
    requires
        hv@.wf(),
    ensures
        crate::schema::import_result_model(r) == spec_import_schema_like(
            hv@,
            Capability::FullDataType,
        ),
        r matches Ok(sd) ==> sd@.wf(),
{
    import_schema_like(hv, Capability::FullDataType)
}

/// Reconstructs a native schema descriptor from a host value carrying a
/// lightweight schema handle or a full schema object.
pub fn import_schema_value(hv: &HostValue) -> (r: Result<SchemaDescriptor, BridgeError>)
    requires
        hv@.wf(),
    ensures
        crate::schema::import_result_model(r) == spec_import_schema_like(
            hv@,
            Capability::FullSchema,
        ),
        r matches Ok(sd) ==> sd@.wf(),
{
    import_schema_like(hv, Capability::FullSchema)
}

/// What importing an array-like host value yields: the import of the
/// array/schema struct pair it carries.
pub open spec fn spec_import_array_value(h: HostValueModel) -> Result<
    crate::array::ArrayModel,
    BridgeError,
> {
    match spec_classify(h.tags) {
        Option::None => Err(BridgeError::UnrecognizedCapability),
        Option::Some(c) => if c == Capability::LightArray || c == Capability::FullArray {
            match h.payload {
                HostPayloadModel::ArrayPayload(ca, cs) => crate::array::spec_import_array(ca, cs),
                _ => Err(BridgeError::WrongCapability),
            }
        } else {
            Err(BridgeError::WrongCapability)
        },
    }
}

/// Reconstructs a native typed array from a host value carrying a
/// lightweight array handle or a full array object.
pub fn import_array_value(hv: &HostValue) -> (r: Result<crate::array::ArrayBuffer, BridgeError>)
    requires
        hv@.wf(),
    ensures
        crate::array::import_array_result_model(r) == spec_import_array_value(hv@),
        r matches Ok(a) ==> a@.wf(),
{
    let c = match classify(&hv.tags) {
        Err(e) => {
            return Err(e);
        },
        Ok(c) => c,
    };
    if !(c == Capability::LightArray || c == Capability::FullArray) {
        return Err(BridgeError::WrongCapability);
    }
    match &hv.payload {
        HostPayload::ArrayPayload(ca, cs) => {
            proof {
                crate::array::lemma_import_array_wf(ca@, cs@);
            }
            crate::array::import_array(ca, cs)
        },
        _ => {
            proof {
                assert(false);
            }
            vstd::pervasive::unreached()
        },
    }
}

/// A stream-carrying host value on which pulling a single batch cannot
/// abort: if its schema imports as struct-like, it holds a first batch and
/// that batch imports.
pub open spec fn single_batch_ready(h: HostValueModel) -> bool {
    match h.payload {
        HostPayloadModel::StreamPayload(s) => (spec_classify(h.tags) == Some(
            Capability::LightStream,
        ) && (crate::schema::spec_import_schema(s.schema) matches Ok(m) && m.tag
            == TypeTag::Struct)) ==> (s.pending.len() >= 1 && crate::array::spec_import_array(
            s.pending.last(),
            s.schema,
        ) is Ok),
        _ => true,
    }
}

/// What importing a batch-like host value yields: the one batch of a
/// lightweight stream handle, or the struct array of a full batch object
/// unwrapped into its columns.
pub open spec fn spec_import_batch_value(h: HostValueModel) -> Result<BatchModel, BridgeError> {
    match spec_classify(h.tags) {
        Option::None => Err(BridgeError::UnrecognizedCapability),
        Option::Some(c) => if c == Capability::LightStream {
            match h.payload {
                HostPayloadModel::StreamPayload(s) => match crate::schema::spec_import_schema(
                    s.schema,
                ) {
                    Err(e) => Err(e),
                    Ok(m) => if m.tag != TypeTag::Struct {
                        Err(BridgeError::MalformedSchema)
                    } else if s.pending.len() == 0 {
                        Err(BridgeError::MalformedSchema)
                    } else {
                        match crate::array::spec_import_array(s.pending.last(), s.schema) {
                            Err(e) => Err(e),
                            Ok(a) => Ok(crate::batch::spec_array_to_batch(a)),
                        }
                    },
                },
                _ => Err(BridgeError::WrongCapability),
            }
        } else if c == Capability::FullBatch {
            match h.payload {
                HostPayloadModel::ArrayPayload(ca, cs) => match crate::array::spec_import_array(
                    ca,
                    cs,
                ) {
                    Err(e) => Err(e),
                    Ok(a) => if a.dtype.tag != TypeTag::Struct {
                        Err(BridgeError::MalformedSchema)
                    } else {
                        Ok(crate::batch::spec_array_to_batch(a))
                    },
                },
                _ => Err(BridgeError::WrongCapability),
            }
        } else {
            Err(BridgeError::WrongCapability)
        },
    }
}

/// Reconstructs a single native record batch from a host value carrying a
/// lightweight stream handle or a full batch object.
///
/// From a stream handle this pulls exactly one batch and discards the
/// rest: a source of more than one batch is silently truncated, so a
/// caller that needs all data must use the stream reader instead.
pub fn import_batch_value(hv: HostValue) -> (r: Result<Batch, BridgeError>)
    requires
        hv@.wf(),
        single_batch_ready(hv@),
    ensures
        ({
            let s = spec_import_batch_value(hv@);
            match r {
                Ok(b) => s == Ok::<BatchModel, BridgeError>(b@),
                Err(e) => s == Err::<BatchModel, _>(e),
            }
        }),
        r matches Ok(b) ==> b@.wf() && forall|i: int|
            0 <= i < b@.columns.len() ==> (#[trigger] b@.columns[i]).length == b@.n_rows,
{
    let c = match classify(&hv.tags) {
        Err(e) => {
            return Err(e);
        },
        Ok(c) => c,
    };
    if c == Capability::LightStream {
        match hv.payload {
            HostPayload::StreamPayload(s) => crate::stream::import_single_batch(s),
            _ => {
                proof {
                    assert(false);
                }
                vstd::pervasive::unreached()
            },
        }
    } else if c == Capability::FullBatch {
        match hv.payload {
            HostPayload::ArrayPayload(ca, cs) => {
                let a = match crate::array::import_array(&ca, &cs) {
                    Err(e) => {
                        return Err(e);
                    },
                    Ok(a) => a,
                };
                if !matches!(a.dtype.tag, TypeTag::Struct) {
                    return Err(BridgeError::MalformedSchema);
                }
                proof {
                    crate::array::lemma_import_array_wf(ca@, cs@);
                }
                Ok(crate::batch::array_to_batch(a))
            },
            _ => {
                proof {
                    assert(false);
                }
                vstd::pervasive::unreached()
            },
        }
    } else {
        Err(BridgeError::WrongCapability)
    }
}

/// What importing a stream-carrying host value yields: a reader over the
/// stream struct, with the schema imported once.
pub open spec fn spec_import_stream_value(h: HostValueModel) -> Result<
    crate::stream::StreamReaderModel,
    BridgeError,
> {
    match spec_classify(h.tags) {
        Option::None => Err(BridgeError::UnrecognizedCapability),
        Option::Some(c) => if c == Capability::LightStream {
            match h.payload {
                HostPayloadModel::StreamPayload(s) => match crate::schema::spec_import_schema(
                    s.schema,
                ) {
                    Err(e) => Err(e),
                    Ok(m) => if m.tag != TypeTag::Struct {
                        Err(BridgeError::MalformedSchema)
                    } else {
                        Ok(crate::stream::StreamReaderModel { stream: s, schema: m })
                    },
                },
                _ => Err(BridgeError::WrongCapability),
            }
        } else {
            Err(BridgeError::WrongCapability)
        },
    }
}

/// Wraps the stream a host value carries in a pull iterator, consuming the
/// value: only a lightweight stream handle is accepted.
pub fn import_stream_value(hv: HostValue) -> (r: Result<crate::stream::StreamReader, BridgeError>)
    requires
        hv@.wf(),
    ensures
        ({
            let s = spec_import_stream_value(hv@);
            match r {
                Ok(rd) => s == Ok::<crate::stream::StreamReaderModel, BridgeError>(rd@) && rd.wf(),
                Err(e) => s == Err::<crate::stream::StreamReaderModel, _>(e),
            }
        }),
{
    let c = match classify(&hv.tags) {
        Err(e) => {
            return Err(e);
        },
        Ok(c) => c,
    };
    if !(c == Capability::LightStream) {
        return Err(BridgeError::WrongCapability);
    }
    match hv.payload {
        HostPayload::StreamPayload(s) => crate::stream::import_stream(s),
        _ => {
            proof {
                assert(false);
            }
            vstd::pervasive::unreached()
        },
    }
}

/// What exporting a native descriptor to the host yields: a lightweight
/// schema handle carrying the populated, armed schema struct.
pub open spec fn spec_export_schema_value(m: SchemaModel) -> Result<HostValueModel, BridgeError> {
    match crate::schema::spec_export_schema(m) {
        Err(e) => Err(e),
        Ok(c) => Ok(
            HostValueModel {
                tags: seq!["nanoarrow_schema"@],
                payload: HostPayloadModel::SchemaPayload(c),
            },
        ),
    }
}

/// Hands a native descriptor to the host: populates a schema struct,
/// allocates an empty receiver handle, and moves the struct — with its
/// release responsibility — into it.
pub fn export_schema_value(s: &SchemaDescriptor) -> (r: Result<HostValue, BridgeError>)
    ensures
        ({
            let m = spec_export_schema_value(s@);
            match r {
                Ok(hv) => m == Ok::<HostValueModel, BridgeError>(hv@) && hv@.wf(),
                Err(e) => m == Err::<HostValueModel, _>(e),
            }
        }),
{
    let cs = match crate::schema::export_schema(s) {
        Err(e) => {
            return Err(e);
        },
        Ok(c) => c,
    };
    let mut hv = allocate_schema();
    proof {
        lemma_schema_handle_wf(hv.model());
    }
    match move_pointer(AnyStruct::SchemaStruct(cs), &mut hv) {
        Ok(_) => Ok(hv),
        Err(_) => {
            proof {
                assert(false);
            }
            vstd::pervasive::unreached()
        },
    }
}

/// What exporting a native array to the host yields: a lightweight array
/// handle carrying the populated array struct and its schema struct.
pub open spec fn spec_export_array_value(a: crate::array::ArrayModel) -> Result<
    HostValueModel,
    BridgeError,
> {
    match crate::array::spec_export_array(a) {
        Err(e) => Err(e),
        Ok(p) => Ok(
            HostValueModel {
                tags: seq!["nanoarrow_array"@],
                payload: HostPayloadModel::ArrayPayload(p.0, p.1),
            },
        ),
    }
}

/// Hands a native array to the host: populates the array/schema struct
/// pair, allocates empty receiver handles for both, moves each struct into
/// its handle, and attaches the schema handle to the array handle.
pub fn export_array_value(a: &crate::array::ArrayBuffer) -> (r: Result<HostValue, BridgeError>)
    requires
        a@.wf(),
    ensures
        ({
            let m = spec_export_array_value(a@);
            match r {
                Ok(hv) => m == Ok::<HostValueModel, BridgeError>(hv@) && hv@.wf(),
                Err(e) => m == Err::<HostValueModel, _>(e),
            }
        }),
{
    let (ca, cs) = match crate::array::export_array(a) {
        Err(e) => {
            return Err(e);
        },
        Ok(p) => p,
    };
    let mut arr_hv = allocate_array();
    let mut sch_hv = allocate_schema();
    proof {
        lemma_array_handle_wf(arr_hv.model());
        lemma_schema_handle_wf(sch_hv.model());
    }
    match move_pointer(AnyStruct::ArrayStruct(ca), &mut arr_hv) {
        Ok(_) => {},
        Err(_) => {
            proof {
                assert(false);
            }
            return vstd::pervasive::unreached();
        },
    }
    match move_pointer(AnyStruct::SchemaStruct(cs), &mut sch_hv) {
        Ok(_) => {},
        Err(_) => {
            proof {
                assert(false);
            }
            return vstd::pervasive::unreached();
        },
    }
    match set_array_schema(&mut arr_hv, sch_hv) {
        Ok(_) => Ok(arr_hv),
        Err(_) => {
            proof {
                assert(false);
            }
            vstd::pervasive::unreached()
        },
    }
}

/// What exporting a sequence of batches to the host yields: a lightweight
/// stream handle carrying the freshly created, armed stream struct.
pub open spec fn spec_export_batches_value(bs: Seq<BatchModel>) -> Result<
    HostValueModel,
    BridgeError,
> {
    match crate::stream::spec_export_stream(bs) {
        Err(e) => Err(e),
        Ok(s) => Ok(
            HostValueModel {
                tags: seq!["nanoarrow_array_stream"@],
                payload: HostPayloadModel::StreamPayload(s),
            },
        ),
    }
}

/// Hands a finite sequence of batches — all of one schema — to the host:
/// wraps them in a stream struct, allocates an empty receiver handle, and
/// moves the stream into it.
pub fn export_batches_value(batches: Vec<Batch>) -> (r: Result<HostValue, BridgeError>)
    requires
        forall|i: int| 0 <= i < batches@.len() ==> (#[trigger] batches@[i])@.wf(),
        forall|i: int|
            0 <= i < batches@.len() ==> (#[trigger] batches@[i])@.schema == batches@[0]@.schema,
    ensures
        ({
            let m = spec_export_batches_value(crate::stream::batch_models(batches@));
            match r {
                Ok(hv) => m == Ok::<HostValueModel, BridgeError>(hv@) && hv@.wf(),
                Err(e) => m == Err::<HostValueModel, _>(e),
            }
        }),
{
    let s = match crate::stream::export_stream(batches) {
        Err(e) => {
            return Err(e);
        },
        Ok(s) => s,
    };
    let mut hv = allocate_array_stream();
    proof {
        lemma_stream_handle_wf(hv.model());
    }
    match move_pointer(AnyStruct::StreamStruct(s), &mut hv) {
        Ok(_) => Ok(hv),
        Err(_) => {
            proof {
                assert(false);
            }
            vstd::pervasive::unreached()
        },
    }
}

/// Hands one batch to the host through the stream bridge, as a one-element
/// producer.
pub fn export_batch_value(b: Batch) -> (r: Result<HostValue, BridgeError>)
    requires
        b@.wf(),
    ensures
        ({
            let m = spec_export_batches_value(seq![b@]);
            match r {
                Ok(hv) => m == Ok::<HostValueModel, BridgeError>(hv@) && hv@.wf(),
                Err(e) => m == Err::<HostValueModel, _>(e),
            }
        }),
{
    let ghost bm = b@;
    let mut v: Vec<Batch> = Vec::new();
    v.push(b);
    proof {
        assert(crate::stream::batch_models(v@) =~= seq![bm]);
    }
    export_batches_value(v)
}

/// Hands a stream reader back to the host: its stream struct — in whatever
/// state the reader left it — moves into a fresh lightweight handle.
pub fn export_reader_value(rd: crate::stream::StreamReader) -> (hv: HostValue)
    requires
        rd.wf(),
    ensures
        hv@ == (HostValueModel {
            tags: seq!["nanoarrow_array_stream"@],
            payload: HostPayloadModel::StreamPayload(rd.stream@),
        }),
        hv@.wf(),
{
    let crate::stream::StreamReader { stream, schema: _ } = rd;
    let mut hv = allocate_array_stream();
    proof {
        lemma_stream_handle_wf(hv.model());
    }
    match move_pointer(AnyStruct::StreamStruct(stream), &mut hv) {
        Ok(_) => hv,
        Err(_) => {
            proof {
                assert(false);
            }
            vstd::pervasive::unreached()
        },
    }
}

} // verus!
