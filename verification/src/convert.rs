//! The conversion traits: every native type that can cross the boundary
//! does so through one method name in each direction, with the exact
//! contract of each conversion carried by the implementing type's spec
//! functions.

use vstd::prelude::*;
use crate::array::ArrayBuffer;
use crate::batch::Batch;
use crate::capability::Capability;
use crate::error::BridgeError;
use crate::host::{
    HostValue, HostValueModel, single_batch_ready, spec_export_array_value,
    spec_export_batches_value, spec_export_schema_value, spec_import_array_value,
    spec_import_batch_value, spec_import_schema_like, spec_import_stream_value,
};
use crate::schema::SchemaDescriptor;
use crate::stream::{StreamReader, batch_models};

verus! {

/// Creates a native value from a host value, consuming the host value.
///
/// `from_spec` says exactly what the conversion yields for every host
/// value; `from_req` names the host values on which the conversion would
/// abort rather than return, and which are therefore excluded.
pub trait FromArrowRobj: Sized + View {
    spec fn from_spec(h: HostValueModel) -> Result<Self::V, BridgeError>;

    spec fn from_req(h: HostValueModel) -> bool;

    fn from_arrow_robj(hv: HostValue) -> (r: Result<Self, BridgeError>)
        requires
            hv@.wf(),
            Self::from_req(hv@),
        ensures
            (match r {
                Ok(v) => Self::from_spec(hv@) == Ok::<Self::V, BridgeError>(v@),
                Err(e) => Self::from_spec(hv@) == Err::<Self::V, BridgeError>(e),
            }),
    ;
}

/// The field conversion: a lightweight schema handle or a full field
/// object.
impl FromArrowRobj for SchemaDescriptor {
    open spec fn from_spec(h: HostValueModel) -> Result<Self::V, BridgeError> {
        spec_import_schema_like(h, Capability::FullField)
    }

    open spec fn from_req(h: HostValueModel) -> bool {
        true
    }

    fn from_arrow_robj(hv: HostValue) -> (r: Result<Self, BridgeError>) {
        crate::host::import_field_value(&hv)
    }
}

/// The array conversion: a lightweight array handle or a full array
/// object.
impl FromArrowRobj for ArrayBuffer {
    open spec fn from_spec(h: HostValueModel) -> Result<Self::V, BridgeError> {
        spec_import_array_value(h)
    }

    open spec fn from_req(h: HostValueModel) -> bool {
        true
    }

    fn from_arrow_robj(hv: HostValue) -> (r: Result<Self, BridgeError>) {
        crate::host::import_array_value(&hv)
    }
}

/// The single-batch conversion: a lightweight stream handle — of which
/// only the first batch is observed — or a full batch object.
impl FromArrowRobj for Batch {
    open spec fn from_spec(h: HostValueModel) -> Result<Self::V, BridgeError> {
        spec_import_batch_value(h)
    }

    open spec fn from_req(h: HostValueModel) -> bool {
        single_batch_ready(h)
    }

    fn from_arrow_robj(hv: HostValue) -> (r: Result<Self, BridgeError>) {
        crate::host::import_batch_value(hv)
    }
}

/// The stream conversion: a lightweight stream handle only.
impl FromArrowRobj for StreamReader {
    open spec fn from_spec(h: HostValueModel) -> Result<Self::V, BridgeError> {
        spec_import_stream_value(h)
    }

    open spec fn from_req(h: HostValueModel) -> bool {
        true
    }

    fn from_arrow_robj(hv: HostValue) -> (r: Result<Self, BridgeError>) {
        crate::host::import_stream_value(hv)
    }
}

/// Hands a native value to the host without consuming it.
pub trait ToArrowRobj: View {
    spec fn to_spec(m: Self::V) -> Result<HostValueModel, BridgeError>;

    spec fn to_req(m: Self::V) -> bool;

    fn to_arrow_robj(&self) -> (r: Result<HostValue, BridgeError>)
        requires
            Self::to_req(self@),
        ensures
            (match r {
                Ok(hv) => Self::to_spec(self@) == Ok::<HostValueModel, BridgeError>(hv@)
                    && hv@.wf(),
                Err(e) => Self::to_spec(self@) == Err::<HostValueModel, BridgeError>(e),
            }),
    ;
}

impl ToArrowRobj for SchemaDescriptor {
    open spec fn to_spec(m: Self::V) -> Result<HostValueModel, BridgeError> {
        spec_export_schema_value(m)
    }

    open spec fn to_req(m: Self::V) -> bool {
        true
    }

    fn to_arrow_robj(&self) -> (r: Result<HostValue, BridgeError>) {
        crate::host::export_schema_value(self)
    }
}

impl ToArrowRobj for ArrayBuffer {
    open spec fn to_spec(m: Self::V) -> Result<HostValueModel, BridgeError> {
        spec_export_array_value(m)
    }

    open spec fn to_req(m: Self::V) -> bool {
        m.wf()
    }

    fn to_arrow_robj(&self) -> (r: Result<HostValue, BridgeError>) {
        crate::host::export_array_value(self)
    }
}

/// Hands a native value to the host, consuming it.
pub trait IntoArrowRobj: Sized + View {
    spec fn into_spec(m: Self::V) -> Result<HostValueModel, BridgeError>;

    spec fn into_req(m: Self::V) -> bool;

    fn into_arrow_robj(self) -> (r: Result<HostValue, BridgeError>)
        requires
            Self::into_req(self@),
        ensures
            (match r {
                Ok(hv) => Self::into_spec(self@) == Ok::<HostValueModel, BridgeError>(hv@)
                    && hv@.wf(),
                Err(e) => Self::into_spec(self@) == Err::<HostValueModel, BridgeError>(e),
            }),
    ;
}

impl IntoArrowRobj for SchemaDescriptor {
    open spec fn into_spec(m: Self::V) -> Result<HostValueModel, BridgeError> {
        spec_export_schema_value(m)
    }

    open spec fn into_req(m: Self::V) -> bool {
        true
    }

    fn into_arrow_robj(self) -> (r: Result<HostValue, BridgeError>) {
        crate::host::export_schema_value(&self)
    }
}

impl IntoArrowRobj for ArrayBuffer {
    open spec fn into_spec(m: Self::V) -> Result<HostValueModel, BridgeError> {
        spec_export_array_value(m)
    }

    open spec fn into_req(m: Self::V) -> bool {
        m.wf()
    }

    fn into_arrow_robj(self) -> (r: Result<HostValue, BridgeError>) {
        crate::host::export_array_value(&self)
    }
}

/// A single batch crosses as a one-element stream.
impl IntoArrowRobj for Batch {
    open spec fn into_spec(m: Self::V) -> Result<HostValueModel, BridgeError> {
        spec_export_batches_value(seq![m])
    }

    open spec fn into_req(m: Self::V) -> bool {
        m.wf()
    }

    fn into_arrow_robj(self) -> (r: Result<HostValue, BridgeError>) {
        crate::host::export_batch_value(self)
    }
}

/// A sequence of batches of one schema crosses as a stream.
impl IntoArrowRobj for Vec<Batch> {
    open spec fn into_spec(m: Self::V) -> Result<HostValueModel, BridgeError> {
        spec_export_batches_value(batch_models(m))
    }

    open spec fn into_req(m: Self::V) -> bool {
        &&& forall|i: int| 0 <= i < m.len() ==> (#[trigger] m[i])@.wf()
        &&& forall|i: int| 0 <= i < m.len() ==> (#[trigger] m[i])@.schema == m[0]@.schema
    }

    fn into_arrow_robj(self) -> (r: Result<HostValue, BridgeError>) {
        crate::host::export_batches_value(self)
    }
}

/// A reader's stream goes back to the host in whatever state the reader
/// left it.
impl IntoArrowRobj for StreamReader {
    open spec fn into_spec(m: Self::V) -> Result<HostValueModel, BridgeError> {
        Ok(
            HostValueModel {
                tags: seq!["nanoarrow_array_stream"@],
                payload: crate::host::HostPayloadModel::StreamPayload(m.stream),
            },
        )
    }

    open spec fn into_req(m: Self::V) -> bool {
        &&& m.stream.state != crate::stream::StreamState::Released
        &&& crate::schema::spec_import_schema(m.stream.schema) == Ok::<_, BridgeError>(m.schema)
        &&& m.schema.tag == crate::schema::TypeTag::Struct
    }

    fn into_arrow_robj(self) -> (r: Result<HostValue, BridgeError>) {
        Ok(crate::host::export_reader_value(self))
    }
}

} // verus!
