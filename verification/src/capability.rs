//! The capability classifier: determining which recognized variant an
//! opaque host value carries, from its runtime class tags, before any
//! pointer in it is touched. Classification is mandatory and every bridge
//! entry point runs it first — dereferencing an unrecognized value would be
//! undefined behaviour.

use vstd::prelude::*;
use crate::error::BridgeError;

verus! {

/// The recognized variants of a host value: the lightweight handles that
/// wrap a bare C struct, and the full objects of the host's own classes.
#[derive(Clone, Copy, Debug, PartialEq, Eq, Structural)]
pub enum Capability {
    LightSchema,
    LightArray,
    LightStream,
    FullSchema,
    FullField,
    FullDataType,
    FullArray,
    FullBatch,
}

/// The variant a single class tag names, if any.
pub open spec fn capability_of_tag(t: Seq<char>) -> Option<Capability> {
    if t == "nanoarrow_schema"@ {
        Some(Capability::LightSchema)
    } else if t == "nanoarrow_array"@ {
        Some(Capability::LightArray)
    } else if t == "nanoarrow_array_stream"@ {
        Some(Capability::LightStream)
    } else if t == "Schema"@ {
        Some(Capability::FullSchema)
    } else if t == "Field"@ {
        Some(Capability::FullField)
    } else if t == "DataType"@ {
        Some(Capability::FullDataType)
    } else if t == "Array"@ {
        Some(Capability::FullArray)
    } else if t == "RecordBatch"@ {
        Some(Capability::FullBatch)
    } else {
        None
    }
}

/// The variant of a host value: that of the first recognized tag in its
/// class list, or none.
pub open spec fn spec_classify(tags: Seq<Seq<char>>) -> Option<Capability>
    decreases tags,
{
    if tags.len() == 0 {
        None
    } else if capability_of_tag(tags[0]) is Some {
        capability_of_tag(tags[0])
    } else {
        spec_classify(tags.drop_first())
    }
}

/// The variants whose value carries a schema-descriptor struct.
pub open spec fn schema_like(c: Capability) -> bool {
    c == Capability::LightSchema || c == Capability::FullSchema || c == Capability::FullField || c
        == Capability::FullDataType
}

/// The variants whose value carries an array-descriptor/schema-descriptor
/// pair.
pub open spec fn array_like(c: Capability) -> bool {
    c == Capability::LightArray || c == Capability::FullArray || c == Capability::FullBatch
}

/// The variant a single class tag names.
fn tag_capability(t: &String) -> (r: Option<Capability>)
    ensures
        r == capability_of_tag(t@),
{
    if *t == "nanoarrow_schema".to_owned() {
        Some(Capability::LightSchema)
    } else if *t == "nanoarrow_array".to_owned() {
        Some(Capability::LightArray)
    } else if *t == "nanoarrow_array_stream".to_owned() {
        Some(Capability::LightStream)
    } else if *t == "Schema".to_owned() {
        Some(Capability::FullSchema)
    } else if *t == "Field".to_owned() {
        Some(Capability::FullField)
    } else if *t == "DataType".to_owned() {
        Some(Capability::FullDataType)
    } else if *t == "Array".to_owned() {
        Some(Capability::FullArray)
    } else if *t == "RecordBatch".to_owned() {
        Some(Capability::FullBatch)
    } else {
        None
    }
}

/// Classification looks only at the tags it has not yet rejected.
proof fn lemma_classify_skip(s: Seq<Seq<char>>, i: int)
    requires
        0 <= i <= s.len(),
        forall|j: int| 0 <= j < i ==> capability_of_tag(#[trigger] s[j]) is None,
    ensures
        spec_classify(s) == spec_classify(s.skip(i)),
    decreases i,
{
    if i > 0 {
        assert(capability_of_tag(s[0]) is None);
        assert forall|j: int|
            0 <= j < i - 1 implies capability_of_tag(#[trigger] s.drop_first()[j]) is None by {
            assert(s.drop_first()[j] == s[j + 1]);
        }
        lemma_classify_skip(s.drop_first(), i - 1);
        assert(spec_classify(s) == spec_classify(s.drop_first()));
        assert(s.drop_first().skip(i - 1) =~= s.skip(i));
        assert(spec_classify(s.drop_first().skip(i - 1)) == spec_classify(s.skip(i)));
    } else {
        assert(s.skip(0) =~= s);
    }
}

/// Determines the variant of a host value from its class tags: the first
/// recognized tag decides, and a value with no recognized tag is refused
/// with `UnrecognizedCapability` — before anything else of it is read.
pub fn classify(tags: &Vec<String>) -> (r: Result<Capability, BridgeError>)
    ensures
        match r {
            Ok(c) => spec_classify(tags.deep_view()) == Some(c),
            Err(e) => e == BridgeError::UnrecognizedCapability && spec_classify(tags.deep_view())
                is None,
        },
{
    let ghost s = tags.deep_view();
    let mut i: usize = 0;
    while i < tags.len()
        invariant
            s == tags.deep_view(),
            i <= tags@.len(),
            s.len() == tags@.len(),
            forall|j: int| 0 <= j < i ==> capability_of_tag(#[trigger] s[j]) is None,
        decreases tags@.len() - i,
    {
        proof {
            assert(s[i as int] == tags@[i as int]@);
        }
        match tag_capability(&tags[i]) {
            Some(c) => {
                proof {
                    lemma_classify_skip(s, i as int);
                    assert(s.skip(i as int)[0] == s[i as int]);
                }
                return Ok(c);
            },
            None => {},
        }
        i += 1;
    }
    proof {
        lemma_classify_skip(s, s.len() as int);
        assert(s.skip(s.len() as int) =~= Seq::<Seq<char>>::empty());
    }
    Err(BridgeError::UnrecognizedCapability)
}

} // verus!
