//! The batch/stream bridge: a finite ordered sequence of record batches
//! behind the array-stream C struct, pulled one batch at a time.
//!
//! The stream struct moves through `Created`, `Iterating`, `Exhausted` and
//! `Released`: each pull yields the next batch and keeps it `Iterating`, or
//! the end sentinel, after which every further pull yields the sentinel
//! again. Invoking the release callback from any state tears the producer
//! down; a pull after that fails cleanly instead of producing stale data,
//! and a second release finds the callback cleared and does nothing.
//! A stream is not restartable: once consumed, a fresh producer must be
//! made.

use vstd::prelude::*;
use crate::array::{
    ArrayBuffer, ArrayModel, CArray, CArrayModel, carray_models, export_carray, import_array,
    spec_export_carray, spec_import_array,
};
use crate::batch::{
    Batch, BatchModel, array_to_batch, batch_to_array, spec_array_to_batch, spec_batch_to_array,
};
use crate::error::BridgeError;
use crate::schema::{
    CSchema, CSchemaModel, SchemaDescriptor, SchemaModel, TypeTag, export_schema, import_schema,
    spec_export_schema, spec_import_schema,
};

verus! {

/// Where a stream stands in its life.
#[derive(Clone, Copy, Debug, PartialEq, Eq, Structural)]
pub enum StreamState {
    Created,
    Iterating,
    Exhausted,
    Released,
}

/// What one pull of the stream's get-next callback yields: the next array
/// descriptor, the end-of-data sentinel, or a failure code (a pull after
/// release).
pub enum PullResult {
    Item(CArray),
    End,
    Failure,
}

/// Mathematical model of an array-stream C struct: the schema struct it
/// hands out, the array descriptors it has yet to yield (last first), its
/// state, and whether the release callback is still armed.
#[verifier::ext_equal]
pub struct CStreamModel {
    pub schema: CSchemaModel,
    pub pending: Seq<CArrayModel>,
    pub state: StreamState,
    pub release_armed: bool,
}

/// The array-stream C struct, as this bridge models it. `pending` holds the
/// batches still to be yielded, next batch last.
pub struct CStream {
    pub schema: CSchema,
    pub pending: Vec<CArray>,
    pub state: StreamState,
    pub release_armed: bool,
}

impl CStream {
    pub open spec fn model(self) -> CStreamModel {
        CStreamModel {
            schema: self.schema.model(),
            pending: carray_models(self.pending@),
            state: self.state,
            release_armed: self.release_armed,
        }
    }

    /// The stream's get-schema callback: the schema all its batches share.
    /// Calling it on a released stream is outside the callback contract.
    pub fn get_schema(&self) -> (r: &CSchema)
        requires
            self@.state != StreamState::Released,
        ensures
            r@ == self@.schema,
    {
        &self.schema
    }

    /// The stream's get-next callback.
    ///
    /// On a live stream it yields the next array descriptor and moves to
    /// `Iterating`, or the end sentinel and moves to `Exhausted`; pulled
    /// again when exhausted it yields the sentinel again. On a released
    /// stream it fails cleanly and changes nothing.
    pub fn get_next(&mut self) -> (r: PullResult)
        ensures
            old(self)@.state == StreamState::Released ==> (r is Failure) && *final(self) == *old(
                self,
            ),
            old(self)@.state != StreamState::Released && old(self)@.pending.len() > 0 ==> (r
                matches PullResult::Item(c) && c@ == old(self)@.pending.last()) && final(self)@ == (
            CStreamModel {
                pending: old(self)@.pending.drop_last(),
                state: StreamState::Iterating,
                ..old(self)@
            }),
            old(self)@.state != StreamState::Released && old(self)@.pending.len() == 0 ==> (r
                is End) && final(self)@ == (CStreamModel {
                state: StreamState::Exhausted,
                ..old(self)@
            }),
    {
        if matches!(self.state, StreamState::Released) {
            return PullResult::Failure;
        }
        match self.pending.pop() {
            Option::Some(c) => {
                self.state = StreamState::Iterating;
                proof {
                    assert(carray_models(self.pending@) =~= carray_models(
                        old(self).pending@,
                    ).drop_last());
                    assert(self@ =~~= (CStreamModel {
                        pending: old(self)@.pending.drop_last(),
                        state: StreamState::Iterating,
                        ..old(self)@
                    }));
                }
                PullResult::Item(c)
            },
            Option::None => {
                self.state = StreamState::Exhausted;
                proof {
                    assert(self@ =~~= (CStreamModel {
                        state: StreamState::Exhausted,
                        ..old(self)@
                    }));
                }
                PullResult::End
            },
        }
    }

    /// Invokes the stream's release callback.
    ///
    /// The first invocation tears the producer down — the batches never
    /// pulled are freed — and clears the callback field; any later
    /// invocation finds the field cleared and does nothing.
    pub fn release(&mut self)
        ensures
            !final(self)@.release_armed,
            !old(self)@.release_armed ==> *final(self) == *old(self),
            old(self)@.release_armed ==> final(self)@ == (CStreamModel {
                pending: Seq::<CArrayModel>::empty(),
                state: StreamState::Released,
                release_armed: false,
                ..old(self)@
            }),
    {
        if !self.release_armed {
            return ;
        }
        self.state = StreamState::Released;
        self.release_armed = false;
        self.pending = Vec::new();
        proof {
            assert(carray_models(self.pending@) =~= Seq::<CArrayModel>::empty());
            assert(self@ =~~= (CStreamModel {
                pending: Seq::<CArrayModel>::empty(),
                state: StreamState::Released,
                release_armed: false,
                ..old(self)@
            }));
        }
    }
}

impl View for CStream {
    type V = CStreamModel;

    open spec fn view(&self) -> CStreamModel {
        self.model()
    }
}

/// The schema a stream of batches shares: the first batch's, or the empty
/// struct schema for an empty stream.
pub open spec fn empty_struct_schema() -> SchemaModel {
    SchemaModel { name: Seq::empty(), tag: TypeTag::Struct, nullable: false, children: Seq::empty() }
}

/// Pointwise model of a sequence of batches.
pub open spec fn batch_models(v: Seq<Batch>) -> Seq<BatchModel> {
    Seq::new(v.len(), |i: int| v[i].model())
}

/// What exporting a finite sequence of batches yields: a freshly created
/// stream struct whose schema struct is the shared schema's export and
/// whose queue holds each batch as a struct array, first batch to be
/// yielded first; or the error of the schema export.
pub open spec fn spec_export_stream(bs: Seq<BatchModel>) -> Result<CStreamModel, BridgeError> {
    let schema0 = if bs.len() == 0 {
        empty_struct_schema()
    } else {
        bs[0].schema
    };
    match spec_export_schema(schema0) {
        Err(e) => Err(e),
        Ok(cs) => Ok(
            CStreamModel {
                schema: cs,
                pending: Seq::new(
                    bs.len(),
                    |k: int| spec_export_carray(spec_batch_to_array(bs[bs.len() - 1 - k])),
                ),
                state: StreamState::Created,
                release_armed: true,
            },
        ),
    }
}

/// Wraps a finite ordered sequence of batches — all of one schema — into an
/// array-stream struct with its release callback armed. An empty sequence
/// becomes a stream over the empty struct schema that yields the end
/// sentinel at once.
pub fn export_stream(batches: Vec<Batch>) -> (r: Result<CStream, BridgeError>)
    requires
        forall|i: int| 0 <= i < batches@.len() ==> (#[trigger] batches@[i])@.wf(),
        forall|i: int|
            0 <= i < batches@.len() ==> (#[trigger] batches@[i])@.schema == batches@[0]@.schema,
    ensures
        ({
            let s = spec_export_stream(batch_models(batches@));
            match r {
                Ok(cs) => s == Ok::<_, BridgeError>(cs@),
                Err(e) => s == Err::<CStreamModel, _>(e),
            }
        }),
{
    let ghost bms = batch_models(batches@);
    let schema_c = if batches.len() == 0 {
        let empty = SchemaDescriptor {
            name: String::new(),
            tag: TypeTag::Struct,
            nullable: false,
            children: Vec::new(),
        };
        proof {
            assert(crate::schema::schema_models(empty.children@) =~= Seq::<SchemaModel>::empty());
            assert(empty.model() =~~= empty_struct_schema());
        }
        match export_schema(&empty) {
            Err(e) => {
                return Err(e);
            },
            Ok(c) => c,
        }
    } else {
        match export_schema(&batches[0].schema) {
            Err(e) => {
                return Err(e);
            },
            Ok(c) => c,
        }
    };
    let ghost n = batches@.len();
    let mut bv = batches;
    let mut pending: Vec<CArray> = Vec::new();
    while bv.len() > 0
        invariant
            n == bms.len(),
            bv@.len() + pending@.len() == n,
            forall|i: int| 0 <= i < bv@.len() ==> (#[trigger] bv@[i]).model() == bms[i],
            forall|i: int| 0 <= i < bv@.len() ==> (#[trigger] bv@[i])@.wf(),
            forall|j: int|
                0 <= j < pending@.len() ==> (#[trigger] pending@[j]).model() == spec_export_carray(
                    spec_batch_to_array(bms[n - 1 - j]),
                ),
        decreases bv@.len(),
    {
        match bv.pop() {
            Option::Some(b) => {
                let arr = batch_to_array(b);
                let ca = export_carray(&arr);
                pending.push(ca);
            },
            Option::None => {
                proof {
                    assert(false);
                }
            },
        }
    }
    let cs = CStream {
        schema: schema_c,
        pending,
        state: StreamState::Created,
        release_armed: true,
    };
    proof {
        assert(carray_models(cs.pending@) =~= spec_export_stream(bms)->Ok_0.pending);
        assert(cs.model() =~~= spec_export_stream(bms)->Ok_0);
    }
    Ok(cs)
}

/// Round trip of the stream bridge: wrapping a finite sequence of
/// well-formed batches of one mapped schema succeeds; the stream holds
/// exactly as many descriptors as there were batches, so a reader pulls
/// exactly that many before the end sentinel; its schema imports back as
/// the shared struct schema; and the descriptor pulled in position `k`
/// imports — against that schema — to precisely the batch that stood in
/// position `k` of the input.
pub proof fn lemma_stream_round_trip(bs: Seq<BatchModel>)
    requires
        forall|i: int| 0 <= i < bs.len() ==> (#[trigger] bs[i]).wf(),
        forall|i: int| 0 <= i < bs.len() ==> (#[trigger] bs[i]).schema.exportable(),
        forall|i: int| 0 <= i < bs.len() ==> (#[trigger] bs[i]).n_rows <= usize::MAX,
        forall|i: int| 0 <= i < bs.len() ==> (#[trigger] bs[i]).schema == bs[0].schema,
    ensures
        spec_export_stream(bs) is Ok,
        ({
            let s = spec_export_stream(bs)->Ok_0;
            let schema0 = if bs.len() == 0 {
                empty_struct_schema()
            } else {
                bs[0].schema
            };
            &&& s.pending.len() == bs.len()
            &&& spec_import_schema(s.schema) == Ok::<SchemaModel, BridgeError>(schema0)
            &&& schema0.tag == TypeTag::Struct
            &&& forall|k: int|
                0 <= k < bs.len() ==> spec_import_array(#[trigger] s.pending[k], s.schema)
                    == Ok::<ArrayModel, BridgeError>(spec_batch_to_array(bs[bs.len() - 1 - k]))
            &&& forall|k: int|
                0 <= k < bs.len() ==> crate::batch::spec_array_to_batch(
                    spec_batch_to_array(#[trigger] bs[k]),
                ) == bs[k]
        }),
{
    let schema0 = if bs.len() == 0 {
        empty_struct_schema()
    } else {
        bs[0].schema
    };
    assert(schema0.wf());
    assert(schema0.exportable());
    crate::schema::lemma_schema_round_trip(schema0);
    let s = spec_export_stream(bs)->Ok_0;
    assert forall|k: int|
        0 <= k < bs.len() implies spec_import_array(#[trigger] s.pending[k], s.schema) == Ok::<
        ArrayModel,
        BridgeError,
    >(spec_batch_to_array(bs[bs.len() - 1 - k])) by {
        let b = bs[bs.len() - 1 - k];
        crate::batch::lemma_batch_array_round_trip(b);
        let a = spec_batch_to_array(b);
        crate::array::lemma_array_round_trip(a);
        assert(s.pending[k] == crate::array::spec_export_carray(a));
        assert(crate::array::spec_export_array(a)->Ok_0.1 == s.schema);
    }
    assert forall|k: int|
        0 <= k < bs.len() implies crate::batch::spec_array_to_batch(
        spec_batch_to_array(#[trigger] bs[k]),
    ) == bs[k] by {
        crate::batch::lemma_batch_array_round_trip(bs[k]);
    }
}

/// A pull iterator over a received array-stream struct.
///
/// The reader owns the stream struct — at most one side may hold the right
/// to pull — and fetched the schema once at construction; it is not
/// re-fetched per batch. The sequence it yields is lazy, finite and not
/// restartable.
pub struct StreamReader {
    pub stream: CStream,
    pub schema: SchemaDescriptor,
}

/// Mathematical model of a stream reader.
#[verifier::ext_equal]
pub struct StreamReaderModel {
    pub stream: CStreamModel,
    pub schema: SchemaModel,
}

impl View for StreamReader {
    type V = StreamReaderModel;

    open spec fn view(&self) -> StreamReaderModel {
        StreamReaderModel { stream: self.stream@, schema: self.schema@ }
    }
}

impl StreamReader {
    /// The reader holds a live stream whose schema it has imported, and
    /// that schema is struct-like.
    pub open spec fn wf(self) -> bool {
        &&& self.stream@.state != StreamState::Released
        &&& spec_import_schema(self.stream@.schema) == Ok::<SchemaModel, BridgeError>(self.schema@)
        &&& self.schema@.tag == TypeTag::Struct
    }
}

/// Models the result of one reader pull.
pub open spec fn next_result_model(r: Result<Option<Batch>, BridgeError>) -> Result<
    Option<BatchModel>,
    BridgeError,
> {
    match r {
        Ok(Option::Some(b)) => Ok(Option::Some(b.model())),
        Ok(Option::None) => Ok(Option::None),
        Err(e) => Err(e),
    }
}

/// Wraps a received array-stream struct in a pull iterator, taking sole
/// ownership of it. The stream's schema is fetched and imported once here;
/// it fails as the schema import does, and with `MalformedSchema` if the
/// schema is not struct-like and so cannot describe record batches.
pub fn import_stream(cs: CStream) -> (r: Result<StreamReader, BridgeError>)
    requires
        cs@.state != StreamState::Released,
    ensures
        ({
            let si = spec_import_schema(cs@.schema);
            match r {
                Ok(rd) => si is Ok && si->Ok_0.tag == TypeTag::Struct && rd.stream@ == cs@
                    && rd.schema@ == si->Ok_0 && rd.wf(),
                Err(e) => (si matches Err(e2) && e == e2) || (si matches Ok(m) && m.tag
                    != TypeTag::Struct && e == BridgeError::MalformedSchema),
            }
        }),
{
    let sd = match import_schema(cs.get_schema()) {
        Err(e) => {
            return Err(e);
        },
        Ok(s) => s,
    };
    if !matches!(sd.tag, TypeTag::Struct) {
        return Err(BridgeError::MalformedSchema);
    }
    Ok(StreamReader { stream: cs, schema: sd })
}

impl StreamReader {
    /// Pulls the next batch.
    ///
    /// Yields `Ok(Some(batch))` while batches remain — translating the
    /// pulled array descriptor into a native batch with the stream's fixed
    /// schema — then `Ok(None)` at end of data, and `Ok(None)` again on
    /// every later pull. A pulled descriptor that does not import is that
    /// import's error, and the descriptor is consumed.
    pub fn next(&mut self) -> (r: Result<Option<Batch>, BridgeError>)
        requires
            old(self).wf(),
        ensures
            final(self).wf(),
            final(self).schema@ == old(self).schema@,
            final(self).stream@.schema == old(self).stream@.schema,
            ({
                let p = old(self).stream@.pending;
                let q = final(self).stream@;
                if p.len() == 0 {
                    &&& next_result_model(r) == Ok::<Option<BatchModel>, BridgeError>(Option::None)
                    &&& q.pending == p
                    &&& q.state == StreamState::Exhausted
                } else {
                    &&& q.pending == p.drop_last()
                    &&& next_result_model(r) == (match spec_import_array(
                        p.last(),
                        old(self).stream@.schema,
                    ) {
                        Ok(a) => Ok::<Option<BatchModel>, BridgeError>(
                            Option::Some(spec_array_to_batch(a)),
                        ),
                        Err(e) => Err(e),
                    })
                }
            }),
            next_result_model(r) matches Ok(Option::Some(bm)) ==> bm.wf(),
    {
        let pr = self.stream.get_next();
        match pr {
            PullResult::Failure => {
                proof {
                    assert(false);
                }
                vstd::pervasive::unreached()
            },
            PullResult::End => Ok(Option::None),
            PullResult::Item(ca) => {
                let a = match import_array(&ca, &self.stream.schema) {
                    Err(e) => {
                        return Err(e);
                    },
                    Ok(a) => a,
                };
                proof {
                    crate::array::lemma_import_array_wf(ca@, old(self).stream@.schema);
                }
                let b = array_to_batch(a);
                proof {
                    crate::batch::lemma_batch_array_round_trip(b@);
                }
                Ok(Option::Some(b))
            },
        }
    }
}

/// Total row count of the batches a stream has yet to yield.
pub open spec fn spec_total_rows(p: Seq<CArrayModel>) -> int
    decreases p,
{
    if p.len() == 0 {
        0
    } else {
        p.last().length + spec_total_rows(p.drop_last())
    }
}

/// Every batch of a stream whose descriptors all import has a nonnegative
/// row count, so the total is nonnegative and grows with each batch.
pub proof fn lemma_total_rows_nonneg(p: Seq<CArrayModel>, s: CSchemaModel)
    requires
        forall|k: int| 0 <= k < p.len() ==> spec_import_array(#[trigger] p[k], s) is Ok,
    ensures
        0 <= spec_total_rows(p),
        p.len() > 0 ==> p.last().length <= spec_total_rows(p),
    decreases p,
{
    if p.len() > 0 {
        crate::array::lemma_import_array_wf(p.last(), s);
        assert forall|k: int| 0 <= k < p.drop_last().len() implies spec_import_array(
            #[trigger] p.drop_last()[k],
            s,
        ) is Ok by {
            assert(p.drop_last()[k] == p[k]);
        }
        lemma_total_rows_nonneg(p.drop_last(), s);
    }
}

/// Drains a stream, counting the rows of every batch it yields.
///
/// The count equals the total row count the stream held, and the stream is
/// left exhausted. Inputs whose batches do not all import, or whose total
/// would not fit the counter, are excluded up front: on them a consumer
/// would abort mid-stream.
#[verifier::loop_isolation(false)]
pub fn process_stream(rd: &mut StreamReader) -> (n: usize)
    requires
        old(rd).wf(),
        forall|k: int|
            0 <= k < old(rd).stream@.pending.len() ==> spec_import_array(
                #[trigger] old(rd).stream@.pending[k],
                old(rd).stream@.schema,
            ) is Ok,
        spec_total_rows(old(rd).stream@.pending) <= usize::MAX,
    ensures
        n == spec_total_rows(old(rd).stream@.pending),
        final(rd).wf(),
        final(rd).stream@.pending.len() == 0,
        final(rd).stream@.state == StreamState::Exhausted,
{
    let ghost total = spec_total_rows(old(rd).stream@.pending);
    let mut n: usize = 0;
    loop
        invariant
            rd.wf(),
            rd.stream@.schema == old(rd).stream@.schema,
            forall|k: int|
                0 <= k < rd.stream@.pending.len() ==> spec_import_array(
                    #[trigger] rd.stream@.pending[k],
                    rd.stream@.schema,
                ) is Ok,
            n + spec_total_rows(rd.stream@.pending) == total,
            total <= usize::MAX,
        decreases rd.stream@.pending.len() + 1,
    {
        proof {
            lemma_total_rows_nonneg(rd.stream@.pending, rd.stream@.schema);
        }
        let ghost pend = rd.stream@.pending;
        match rd.next() {
            Err(_) => {
                proof {
                    assert(false);
                }
            },
            Ok(Option::None) => {
                proof {
                    assert(pend.len() == 0);
                    assert(spec_total_rows(pend) == 0);
                    assert(n == total);
                    assert(n == spec_total_rows(old(rd).stream@.pending));
                }
                return n;
            },
            Ok(Option::Some(b)) => {
                proof {
                    crate::array::lemma_import_array_wf(pend.last(), rd.stream@.schema);
                    assert(b@.n_rows == pend.last().length);
                    assert forall|k: int|
                        0 <= k < rd.stream@.pending.len() implies spec_import_array(
                        #[trigger] rd.stream@.pending[k],
                        rd.stream@.schema,
                    ) is Ok by {
                        assert(rd.stream@.pending[k] == pend[k]);
                    }
                }
                n = n + b.n_rows;
            },
        }
    }
}

/// Pulls exactly one batch out of a stream and discards the stream with any
/// capacity it still had: if the source holds more than one batch, the rest
/// are silently unobserved. A caller that needs all data must iterate a
/// `StreamReader` instead.
///
/// A stream whose schema imports as struct-like but which holds no batch,
/// or whose first descriptor does not import, is excluded up front: such a
/// pull aborts instead of returning.
pub fn import_single_batch(cs: CStream) -> (r: Result<Batch, BridgeError>)
    requires
        cs@.state != StreamState::Released,
        (spec_import_schema(cs@.schema) matches Ok(m) && m.tag == TypeTag::Struct) ==> cs@
            .pending.len() >= 1 && spec_import_array(cs@.pending.last(), cs@.schema) is Ok,
    ensures
        ({
            let si = spec_import_schema(cs@.schema);
            match r {
                Ok(b) => si is Ok && si->Ok_0.tag == TypeTag::Struct && b@
                    == spec_array_to_batch(
                    spec_import_array(cs@.pending.last(), cs@.schema)->Ok_0,
                ) && b@.wf() && forall|i: int|
                    0 <= i < b@.columns.len() ==> (#[trigger] b@.columns[i]).length == b@.n_rows,
                Err(e) => (si matches Err(e2) && e == e2) || (si matches Ok(m) && m.tag
                    != TypeTag::Struct && e == BridgeError::MalformedSchema),
            }
        }),
{
    let mut rd = match import_stream(cs) {
        Err(e) => {
            return Err(e);
        },
        Ok(rd) => rd,
    };
    match rd.next() {
        Err(_) => {
            proof {
                assert(false);
            }
            vstd::pervasive::unreached()
        },
        Ok(Option::None) => {
            proof {
                assert(false);
            }
            vstd::pervasive::unreached()
        },
        Ok(Option::Some(b)) => Ok(b),
    }
}

} // verus!
