//! The schema bridge: native type/field descriptors, the C-ABI format-string
//! grammar, and conversion to and from the schema-descriptor struct.

use vstd::prelude::*;
use crate::error::BridgeError;

verus! {

/// Unit of a timestamp type.
#[derive(Clone, Copy, Debug, PartialEq, Eq, Structural)]
pub enum TimeUnit {
    Second,
    Millisecond,
    Microsecond,
    Nanosecond,
}

/// The logical type of a column, with its parameters.
///
/// `Decimal` and `Dictionary` are legitimate Arrow types that this bridge
/// deliberately does not map to a format string: exporting them fails with
/// `UnsupportedType` and `UnsupportedEncoding` respectively.
#[derive(Clone, Copy, Debug, PartialEq, Eq, Structural)]
pub enum TypeTag {
    Boolean,
    Int8,
    Int16,
    Int32,
    Int64,
    UInt8,
    UInt16,
    UInt32,
    UInt64,
    Float32,
    Float64,
    Date32,
    Date64,
    Timestamp(TimeUnit),
    Utf8,
    Binary,
    List,
    Struct,
    Decimal { precision: u8, scale: u8 },
    Dictionary,
}

/// The format string that the Arrow C Data Interface assigns to a type,
/// or `None` where this bridge does not map the type.
pub open spec fn spec_format(t: TypeTag) -> Option<Seq<char>> {
    match t {
        TypeTag::Boolean => Some(seq!['b']),
        TypeTag::Int8 => Some(seq!['c']),
        TypeTag::Int16 => Some(seq!['s']),
        TypeTag::Int32 => Some(seq!['i']),
        TypeTag::Int64 => Some(seq!['l']),
        TypeTag::UInt8 => Some(seq!['C']),
        TypeTag::UInt16 => Some(seq!['S']),
        TypeTag::UInt32 => Some(seq!['I']),
        TypeTag::UInt64 => Some(seq!['L']),
        TypeTag::Float32 => Some(seq!['f']),
        TypeTag::Float64 => Some(seq!['g']),
        TypeTag::Date32 => Some(seq!['t', 'd', 'D']),
        TypeTag::Date64 => Some(seq!['t', 'd', 'm']),
        TypeTag::Timestamp(u) => match u {
            TimeUnit::Second => Some(seq!['t', 's', 's', ':']),
            TimeUnit::Millisecond => Some(seq!['t', 's', 'm', ':']),
            TimeUnit::Microsecond => Some(seq!['t', 's', 'u', ':']),
            TimeUnit::Nanosecond => Some(seq!['t', 's', 'n', ':']),
        },
        TypeTag::Utf8 => Some(seq!['u']),
        TypeTag::Binary => Some(seq!['z']),
        TypeTag::List => Some(seq!['+', 'l']),
        TypeTag::Struct => Some(seq!['+', 's']),
        TypeTag::Decimal { .. } => None,
        TypeTag::Dictionary => None,
    }
}

/// The type a received format string denotes, or `None` where the bytes are
/// not a format this bridge understands.
pub open spec fn spec_parse(b: Seq<char>) -> Option<TypeTag> {
    if b.len() == 1 {
        if b[0] == 'b' {
            Some(TypeTag::Boolean)
        } else if b[0] == 'c' {
            Some(TypeTag::Int8)
        } else if b[0] == 's' {
            Some(TypeTag::Int16)
        } else if b[0] == 'i' {
            Some(TypeTag::Int32)
        } else if b[0] == 'l' {
            Some(TypeTag::Int64)
        } else if b[0] == 'C' {
            Some(TypeTag::UInt8)
        } else if b[0] == 'S' {
            Some(TypeTag::UInt16)
        } else if b[0] == 'I' {
            Some(TypeTag::UInt32)
        } else if b[0] == 'L' {
            Some(TypeTag::UInt64)
        } else if b[0] == 'f' {
            Some(TypeTag::Float32)
        } else if b[0] == 'g' {
            Some(TypeTag::Float64)
        } else if b[0] == 'u' {
            Some(TypeTag::Utf8)
        } else if b[0] == 'z' {
            Some(TypeTag::Binary)
        } else {
            None
        }
    } else if b.len() == 2 {
        if b[0] == '+' && b[1] == 'l' {
            Some(TypeTag::List)
        } else if b[0] == '+' && b[1] == 's' {
            Some(TypeTag::Struct)
        } else {
            None
        }
    } else if b.len() == 3 {
        if b[0] == 't' && b[1] == 'd' && b[2] == 'D' {
            Some(TypeTag::Date32)
        } else if b[0] == 't' && b[1] == 'd' && b[2] == 'm' {
            Some(TypeTag::Date64)
        } else {
            None
        }
    } else if b.len() == 4 {
        if b[0] == 't' && b[1] == 's' && b[3] == ':' {
            if b[2] == 's' {
                Some(TypeTag::Timestamp(TimeUnit::Second))
            } else if b[2] == 'm' {
                Some(TypeTag::Timestamp(TimeUnit::Millisecond))
            } else if b[2] == 'u' {
                Some(TypeTag::Timestamp(TimeUnit::Microsecond))
            } else if b[2] == 'n' {
                Some(TypeTag::Timestamp(TimeUnit::Nanosecond))
            } else {
                None
            }
        } else {
            None
        }
    } else {
        None
    }
}

/// Every mapped type's format string parses back to that very type.
pub proof fn lemma_format_parse(t: TypeTag)
    ensures
        spec_format(t) matches Some(f) ==> spec_parse(f) == Some(t),
{
}

/// Every format string that parses is exactly the format of the parsed type:
/// the grammar has no two spellings for one type.
pub proof fn lemma_parse_format(b: Seq<char>)
    ensures
        spec_parse(b) matches Some(t) ==> spec_format(t) == Some(b),
{
    if spec_parse(b) is Some {
        let t = spec_parse(b)->0;
        let f = spec_format(t)->0;
        assert(b =~= f);
    }
}

/// Builds the format string of a type, or reports that the bridge maps none.
pub fn format_for(t: TypeTag) -> (r: Option<Vec<char>>)
    ensures
        match r {
            Some(v) => spec_format(t) == Some(v@),
            None => spec_format(t) is None,
        },
{
    let mut v: Vec<char> = Vec::new();
    match t {
        TypeTag::Boolean => v.push('b'),
        TypeTag::Int8 => v.push('c'),
        TypeTag::Int16 => v.push('s'),
        TypeTag::Int32 => v.push('i'),
        TypeTag::Int64 => v.push('l'),
        TypeTag::UInt8 => v.push('C'),
        TypeTag::UInt16 => v.push('S'),
        TypeTag::UInt32 => v.push('I'),
        TypeTag::UInt64 => v.push('L'),
        TypeTag::Float32 => v.push('f'),
        TypeTag::Float64 => v.push('g'),
        TypeTag::Date32 => {
            v.push('t');
            v.push('d');
            v.push('D');
        },
        TypeTag::Date64 => {
            v.push('t');
            v.push('d');
            v.push('m');
        },
        TypeTag::Timestamp(u) => {
            v.push('t');
            v.push('s');
            match u {
                TimeUnit::Second => v.push('s'),
                TimeUnit::Millisecond => v.push('m'),
                TimeUnit::Microsecond => v.push('u'),
                TimeUnit::Nanosecond => v.push('n'),
            }
            v.push(':');
        },
        TypeTag::Utf8 => v.push('u'),
        TypeTag::Binary => v.push('z'),
        TypeTag::List => {
            v.push('+');
            v.push('l');
        },
        TypeTag::Struct => {
            v.push('+');
            v.push('s');
        },
        TypeTag::Decimal { .. } => {
            return None;
        },
        TypeTag::Dictionary => {
            return None;
        },
    }
    proof {
        assert(spec_format(t) matches Some(f) && v@ =~= f);
    }
    Some(v)
}

/// Parses a received format string.
pub fn parse_format(b: &Vec<char>) -> (r: Option<TypeTag>)
    ensures
        r == spec_parse(b@),
{
    if b.len() == 1 {
        let c = b[0];
        if c == 'b' {
            Some(TypeTag::Boolean)
        } else if c == 'c' {
            Some(TypeTag::Int8)
        } else if c == 's' {
            Some(TypeTag::Int16)
        } else if c == 'i' {
            Some(TypeTag::Int32)
        } else if c == 'l' {
            Some(TypeTag::Int64)
        } else if c == 'C' {
            Some(TypeTag::UInt8)
        } else if c == 'S' {
            Some(TypeTag::UInt16)
        } else if c == 'I' {
            Some(TypeTag::UInt32)
        } else if c == 'L' {
            Some(TypeTag::UInt64)
        } else if c == 'f' {
            Some(TypeTag::Float32)
        } else if c == 'g' {
            Some(TypeTag::Float64)
        } else if c == 'u' {
            Some(TypeTag::Utf8)
        } else if c == 'z' {
            Some(TypeTag::Binary)
        } else {
            None
        }
    } else if b.len() == 2 {
        if b[0] == '+' && b[1] == 'l' {
            Some(TypeTag::List)
        } else if b[0] == '+' && b[1] == 's' {
            Some(TypeTag::Struct)
        } else {
            None
        }
    } else if b.len() == 3 {
        if b[0] == 't' && b[1] == 'd' && b[2] == 'D' {
            Some(TypeTag::Date32)
        } else if b[0] == 't' && b[1] == 'd' && b[2] == 'm' {
            Some(TypeTag::Date64)
        } else {
            None
        }
    } else if b.len() == 4 {
        if b[0] == 't' && b[1] == 's' && b[3] == ':' {
            if b[2] == 's' {
                Some(TypeTag::Timestamp(TimeUnit::Second))
            } else if b[2] == 'm' {
                Some(TypeTag::Timestamp(TimeUnit::Millisecond))
            } else if b[2] == 'u' {
                Some(TypeTag::Timestamp(TimeUnit::Microsecond))
            } else if b[2] == 'n' {
                Some(TypeTag::Timestamp(TimeUnit::Nanosecond))
            } else {
                None
            }
        } else {
            None
        }
    } else {
        None
    }
}

/// Arrow C Data Interface flag bit: the field admits nulls.
pub const FLAG_NULLABLE: u64 = 2;

/// How many children a type's descriptor must carry.
pub open spec fn arity_ok(t: TypeTag, n: nat) -> bool {
    match t {
        TypeTag::List => n == 1,
        TypeTag::Struct => true,
        _ => n == 0,
    }
}

/// The error reported when a native type has no format mapping.
pub open spec fn spec_unsupported(t: TypeTag) -> BridgeError {
    match t {
        TypeTag::Dictionary => BridgeError::UnsupportedEncoding,
        _ => BridgeError::UnsupportedType,
    }
}

/// Mathematical model of a native schema descriptor.
#[verifier::ext_equal]
pub struct SchemaModel {
    pub name: Seq<char>,
    pub tag: TypeTag,
    pub nullable: bool,
    pub children: Seq<SchemaModel>,
}

impl SchemaModel {
    /// Child count agrees with the type, recursively.
    pub open spec fn wf(self) -> bool
        decreases self,
    {
        &&& arity_ok(self.tag, self.children.len())
        &&& forall|i: int| 0 <= i < self.children.len() ==> (#[trigger] self.children[i]).wf()
    }

    /// Every type in the tree has a format mapping.
    pub open spec fn exportable(self) -> bool
        decreases self,
    {
        &&& spec_format(self.tag) is Some
        &&& forall|i: int|
            0 <= i < self.children.len() ==> (#[trigger] self.children[i]).exportable()
    }
}

/// Native model of a field: a name, a type with parameters, nullability, and
/// the child fields of a nested type, in declaration order.
pub struct SchemaDescriptor {
    pub name: String,
    pub tag: TypeTag,
    pub nullable: bool,
    pub children: Vec<SchemaDescriptor>,
}

/// Pointwise model of a sequence of native descriptors.
pub open spec fn schema_models(v: Seq<SchemaDescriptor>) -> Seq<SchemaModel>
    decreases v,
{
    Seq::new(
        v.len(),
        |i: int|
            if 0 <= i < v.len() {
                v[i].model()
            } else {
                SchemaModel { name: Seq::empty(), tag: TypeTag::Struct, nullable: false, children: Seq::empty() }
            },
    )
}

impl SchemaDescriptor {
    pub open spec fn model(self) -> SchemaModel
        decreases self,
    {
        SchemaModel {
            name: self.name@,
            tag: self.tag,
            nullable: self.nullable,
            children: schema_models(self.children@),
        }
    }

    pub open spec fn wf(self) -> bool {
        self.model().wf()
    }
}

impl View for SchemaDescriptor {
    type V = SchemaModel;

    open spec fn view(&self) -> SchemaModel {
        self.model()
    }
}

/// Mathematical model of a schema-descriptor C struct.
#[verifier::ext_equal]
pub struct CSchemaModel {
    pub format: Seq<char>,
    pub name: Seq<char>,
    pub flags: u64,
    pub children: Seq<CSchemaModel>,
    pub has_dictionary: bool,
    pub release_armed: bool,
}

/// The schema-descriptor C struct, as this bridge models it: format and name
/// strings, the flag word, child descriptors in order, whether a dictionary
/// descriptor is attached, and whether the release callback is still armed.
pub struct CSchema {
    pub format: Vec<char>,
    pub name: String,
    pub flags: u64,
    pub children: Vec<CSchema>,
    pub has_dictionary: bool,
    pub release_armed: bool,
}

/// Pointwise model of a sequence of schema-descriptor structs.
pub open spec fn cschema_models(v: Seq<CSchema>) -> Seq<CSchemaModel>
    decreases v,
{
    Seq::new(
        v.len(),
        |i: int|
            if 0 <= i < v.len() {
                v[i].model()
            } else {
                CSchemaModel {
                    format: Seq::empty(),
                    name: Seq::empty(),
                    flags: 0,
                    children: Seq::empty(),
                    has_dictionary: false,
                    release_armed: false,
                }
            },
    )
}

impl CSchema {
    pub open spec fn model(self) -> CSchemaModel
        decreases self,
    {
        CSchemaModel {
            format: self.format@,
            name: self.name@,
            flags: self.flags,
            children: cschema_models(self.children@),
            has_dictionary: self.has_dictionary,
            release_armed: self.release_armed,
        }
    }

    /// Invokes the struct's release callback.
    ///
    /// The first invocation frees what the struct's construction allocated
    /// and clears the callback field; any later invocation finds the field
    /// cleared and does nothing.
    pub fn release(&mut self)
        ensures
            !final(self).release_armed,
            final(self).model() == (CSchemaModel { release_armed: false, ..old(self).model() }),
            !old(self).release_armed ==> *final(self) == *old(self),
    {
        if self.release_armed {
            self.release_armed = false;
        }
        proof {
            assert(self.model() =~~= CSchemaModel { release_armed: false, ..old(self).model() });
        }
    }
}

impl View for CSchema {
    type V = CSchemaModel;

    open spec fn view(&self) -> CSchemaModel {
        self.model()
    }
}

/// What exporting a native descriptor yields: its C struct, armed for
/// release, or the error naming the first unmapped type found (the
/// descriptor's own type is examined before its children, children in
/// declaration order).
pub open spec fn spec_export_schema(m: SchemaModel) -> Result<CSchemaModel, BridgeError>
    decreases m,
{
    match spec_format(m.tag) {
        Option::None => Err(spec_unsupported(m.tag)),
        Option::Some(f) => match spec_export_children(m.children) {
            Err(e) => Err(e),
            Ok(cs) => Ok(
                CSchemaModel {
                    format: f,
                    name: m.name,
                    flags: if m.nullable {
                        FLAG_NULLABLE
                    } else {
                        0
                    },
                    children: cs,
                    has_dictionary: false,
                    release_armed: true,
                },
            ),
        },
    }
}

pub open spec fn spec_export_children(ms: Seq<SchemaModel>) -> Result<
    Seq<CSchemaModel>,
    BridgeError,
>
    decreases ms,
{
    if ms.len() == 0 {
        Ok(Seq::empty())
    } else {
        match spec_export_schema(ms[0]) {
            Err(e) => Err(e),
            Ok(c) => match spec_export_children(ms.drop_first()) {
                Err(e) => Err(e),
                Ok(rest) => Ok(seq![c] + rest),
            },
        }
    }
}

/// What importing a schema-descriptor struct yields: the native descriptor,
/// or the error for the first defect found (dictionary, then format, then
/// child arity, then the children in order).
pub open spec fn spec_import_schema(c: CSchemaModel) -> Result<SchemaModel, BridgeError>
    decreases c,
{
    if c.has_dictionary {
        Err(BridgeError::UnsupportedEncoding)
    } else {
        match spec_parse(c.format) {
            Option::None => Err(BridgeError::MalformedSchema),
            Option::Some(tag) => if !arity_ok(tag, c.children.len()) {
                Err(BridgeError::MalformedSchema)
            } else {
                match spec_import_children(c.children) {
                    Err(e) => Err(e),
                    Ok(kids) => Ok(
                        SchemaModel {
                            name: c.name,
                            tag,
                            nullable: c.flags & FLAG_NULLABLE != 0,
                            children: kids,
                        },
                    ),
                }
            },
        }
    }
}

pub open spec fn spec_import_children(cs: Seq<CSchemaModel>) -> Result<
    Seq<SchemaModel>,
    BridgeError,
>
    decreases cs,
{
    if cs.len() == 0 {
        Ok(Seq::empty())
    } else {
        match spec_import_schema(cs[0]) {
            Err(e) => Err(e),
            Ok(m) => match spec_import_children(cs.drop_first()) {
                Err(e) => Err(e),
                Ok(rest) => Ok(seq![m] + rest),
            },
        }
    }
}

/// Round trip of the schema bridge: exporting a well-formed descriptor whose
/// types are all mapped succeeds, and importing the resulting C struct gives
/// back the very same descriptor — format string, name, nullability and
/// children, recursively.
pub proof fn lemma_schema_round_trip(m: SchemaModel)
    requires
        m.wf(),
        m.exportable(),
    ensures
        spec_export_schema(m) is Ok,
        spec_import_schema(spec_export_schema(m)->Ok_0) == Ok::<SchemaModel, BridgeError>(m),
    decreases m,
{
    lemma_format_parse(m.tag);
    lemma_schema_round_trip_children(m.children);
    let c = spec_export_schema(m)->Ok_0;
    assert(2u64 & 2u64 != 0) by (bit_vector);
    assert(0u64 & 2u64 == 0) by (bit_vector);
    assert(c.children.len() == m.children.len());
    assert(spec_import_schema(c) is Ok);
    assert(spec_import_schema(c)->Ok_0 =~~= m);
}

pub proof fn lemma_schema_round_trip_children(ms: Seq<SchemaModel>)
    requires
        forall|i: int| 0 <= i < ms.len() ==> (#[trigger] ms[i]).wf(),
        forall|i: int| 0 <= i < ms.len() ==> (#[trigger] ms[i]).exportable(),
    ensures
        spec_export_children(ms) is Ok,
        spec_export_children(ms)->Ok_0.len() == ms.len(),
        spec_import_children(spec_export_children(ms)->Ok_0) == Ok::<Seq<SchemaModel>, BridgeError>(
            ms,
        ),
    decreases ms,
{
    if ms.len() == 0 {
        assert(ms =~= Seq::<SchemaModel>::empty());
        assert(spec_export_children(ms)->Ok_0 =~= Seq::<CSchemaModel>::empty());
    } else {
        lemma_schema_round_trip(ms[0]);
        lemma_schema_round_trip_children(ms.drop_first());
        let c0 = spec_export_schema(ms[0])->Ok_0;
        let rest = spec_export_children(ms.drop_first())->Ok_0;
        let cs = spec_export_children(ms)->Ok_0;
        assert(cs == seq![c0] + rest);
        assert(cs[0] == c0);
        assert(cs.drop_first() =~= rest);
        assert(spec_import_children(cs)->Ok_0 =~= ms);
    }
}

/// A schema that imports successfully is well-formed: the child count of
/// every node agrees with its type.
pub proof fn lemma_import_schema_wf(c: CSchemaModel)
    ensures
        spec_import_schema(c) matches Ok(m) ==> m.wf(),
    decreases c,
{
    if spec_import_schema(c) is Ok {
        lemma_import_children_wf(c.children);
        lemma_import_children_elem(c.children);
        let m = spec_import_schema(c)->Ok_0;
        let kids = spec_import_children(c.children)->Ok_0;
        assert forall|i: int| 0 <= i < kids.len() implies (#[trigger] kids[i]).wf() by {
            assert(kids[i] == spec_import_schema(c.children[i])->Ok_0);
        }
    }
}

pub proof fn lemma_import_children_wf(cs: Seq<CSchemaModel>)
    ensures
        spec_import_children(cs) matches Ok(ms) ==> forall|i: int|
            0 <= i < ms.len() ==> (#[trigger] ms[i]).wf(),
    decreases cs,
{
    if cs.len() > 0 && spec_import_children(cs) is Ok {
        lemma_import_schema_wf(cs[0]);
        lemma_import_children_wf(cs.drop_first());
        let ms = spec_import_children(cs)->Ok_0;
        let rest = spec_import_children(cs.drop_first())->Ok_0;
        assert forall|i: int| 0 <= i < ms.len() implies (#[trigger] ms[i]).wf() by {
            if i > 0 {
                assert(ms[i] == rest[i - 1]);
            }
        }
    }
}

/// Importing a child list succeeds exactly when each child imports, and the
/// results line up with the children position by position.
pub proof fn lemma_import_children_elem(cs: Seq<CSchemaModel>)
    ensures
        spec_import_children(cs) matches Ok(ms) ==> ms.len() == cs.len() && forall|i: int|
            0 <= i < cs.len() ==> spec_import_schema(#[trigger] cs[i]) is Ok && ms[i]
                == spec_import_schema(cs[i])->Ok_0,
    decreases cs,
{
    if cs.len() > 0 && spec_import_children(cs) is Ok {
        lemma_import_children_elem(cs.drop_first());
        let ms = spec_import_children(cs)->Ok_0;
        let rest = spec_import_children(cs.drop_first())->Ok_0;
        assert forall|i: int|
            0 <= i < cs.len() implies spec_import_schema(#[trigger] cs[i]) is Ok && ms[i]
            == spec_import_schema(cs[i])->Ok_0 by {
            if i > 0 {
                assert(cs.drop_first()[i - 1] == cs[i]);
                assert(ms[i] == rest[i - 1]);
            }
        }
    }
}

/// Exporting a child list succeeds exactly when each child exports, and the
/// results line up with the children position by position.
pub proof fn lemma_export_children_elem(ms: Seq<SchemaModel>)
    ensures
        spec_export_children(ms) matches Ok(cs) ==> cs.len() == ms.len() && forall|i: int|
            0 <= i < ms.len() ==> spec_export_schema(#[trigger] ms[i]) is Ok && cs[i]
                == spec_export_schema(ms[i])->Ok_0,
    decreases ms,
{
    if ms.len() > 0 && spec_export_children(ms) is Ok {
        lemma_export_children_elem(ms.drop_first());
        let cs = spec_export_children(ms)->Ok_0;
        let rest = spec_export_children(ms.drop_first())->Ok_0;
        assert forall|i: int|
            0 <= i < ms.len() implies spec_export_schema(#[trigger] ms[i]) is Ok && cs[i]
            == spec_export_schema(ms[i])->Ok_0 by {
            if i > 0 {
                assert(ms.drop_first()[i - 1] == ms[i]);
                assert(cs[i] == rest[i - 1]);
            }
        }
    }
}

/// Models the result of an exec schema export.
pub open spec fn export_result_model(r: Result<CSchema, BridgeError>) -> Result<
    CSchemaModel,
    BridgeError,
> {
    match r {
        Ok(c) => Ok(c.model()),
        Err(e) => Err(e),
    }
}

/// Models the result of an exec schema import.
pub open spec fn import_result_model(r: Result<SchemaDescriptor, BridgeError>) -> Result<
    SchemaModel,
    BridgeError,
> {
    match r {
        Ok(s) => Ok(s.model()),
        Err(e) => Err(e),
    }
}

pub proof fn lemma_cschema_models_insert0(s: Seq<CSchema>, c: CSchema)
    ensures
        cschema_models(s.insert(0, c)) =~= seq![c.model()] + cschema_models(s),
{
    let a = cschema_models(s.insert(0, c));
    let b = seq![c.model()] + cschema_models(s);
    assert forall|j: int| 0 <= j < a.len() implies a[j] == b[j] by {
        if j > 0 {
            assert(s.insert(0, c)[j] == s[j - 1]);
        }
    }
}

pub proof fn lemma_schema_models_insert0(s: Seq<SchemaDescriptor>, d: SchemaDescriptor)
    ensures
        schema_models(s.insert(0, d)) =~= seq![d.model()] + schema_models(s),
{
    let a = schema_models(s.insert(0, d));
    let b = seq![d.model()] + schema_models(s);
    assert forall|j: int| 0 <= j < a.len() implies a[j] == b[j] by {
        if j > 0 {
            assert(s.insert(0, d)[j] == s[j - 1]);
        }
    }
}

/// Allocates and populates a schema-descriptor C struct for a native
/// descriptor, with its release callback armed; the caller owns the struct
/// until it hands it over. Fails on the first type in the tree that this
/// bridge does not map.
pub fn export_schema(s: &SchemaDescriptor) -> (r: Result<CSchema, BridgeError>)
    ensures
        export_result_model(r) == spec_export_schema(s@),
    decreases *s,
{
    let fmt = match format_for(s.tag) {
        Option::None => {
            let e = match s.tag {
                TypeTag::Dictionary => BridgeError::UnsupportedEncoding,
                _ => BridgeError::UnsupportedType,
            };
            return Err(e);
        },
        Option::Some(f) => f,
    };
    match export_children(&s.children, 0) {
        Err(e) => {
            proof {
                assert(schema_models(s.children@).skip(0) =~= schema_models(s.children@));
            }
            Err(e)
        },
        Ok(kids) => {
            let c = CSchema {
                format: fmt,
                name: s.name.clone(),
                flags: if s.nullable {
                    FLAG_NULLABLE
                } else {
                    0
                },
                children: kids,
                has_dictionary: false,
                release_armed: true,
            };
            proof {
                assert(schema_models(s.children@).skip(0) =~= schema_models(s.children@));
                assert(c.model() =~~= spec_export_schema(s@)->Ok_0);
            }
            Ok(c)
        },
    }
}

/// Exports the children of a descriptor from position `i` on, in order.
fn export_children(v: &Vec<SchemaDescriptor>, i: usize) -> (r: Result<Vec<CSchema>, BridgeError>)
    requires
        i <= v.len(),
    ensures
        ({
            let s = spec_export_children(schema_models(v@).skip(i as int));
            match r {
                Ok(k) => s == Ok::<_, BridgeError>(cschema_models(k@)),
                Err(e) => s == Err::<Seq<CSchemaModel>, _>(e),
            }
        }),
    decreases *v, v.len() - i,
{
    let ghost ms = schema_models(v@).skip(i as int);
    if i == v.len() {
        let k: Vec<CSchema> = Vec::new();
        proof {
            assert(cschema_models(k@) =~= Seq::<CSchemaModel>::empty());
        }
        Ok(k)
    } else {
        proof {
            assert(ms[0] == v@[i as int].model());
            assert(ms.drop_first() =~= schema_models(v@).skip(i as int + 1));
        }
        let c0 = match export_schema(&v[i]) {
            Err(e) => {
                return Err(e);
            },
            Ok(c) => c,
        };
        match export_children(v, i + 1) {
            Err(e) => Err(e),
            Ok(mut rest) => {
                let ghost old_rest = rest@;
                rest.insert(0, c0);
                proof {
                    lemma_cschema_models_insert0(old_rest, c0);
                    assert(rest@ == old_rest.insert(0, c0));
                }
                Ok(rest)
            },
        }
    }
}

/// Reconstructs a native descriptor from a populated schema-descriptor
/// struct, recursively over its children. Fails with `UnsupportedEncoding`
/// on an attached dictionary, and with `MalformedSchema` on a format string
/// this bridge cannot parse or a child count the parsed type forbids.
pub fn import_schema(c: &CSchema) -> (r: Result<SchemaDescriptor, BridgeError>)
    ensures
        import_result_model(r) == spec_import_schema(c@),
    decreases *c,
{
    if c.has_dictionary {
        return Err(BridgeError::UnsupportedEncoding);
    }
    let tag = match parse_format(&c.format) {
        Option::None => {
            return Err(BridgeError::MalformedSchema);
        },
        Option::Some(t) => t,
    };
    let n = c.children.len();
    let ok_arity = match tag {
        TypeTag::List => n == 1,
        TypeTag::Struct => true,
        _ => n == 0,
    };
    if !ok_arity {
        return Err(BridgeError::MalformedSchema);
    }
    match import_children(&c.children, 0) {
        Err(e) => {
            proof {
                assert(cschema_models(c.children@).skip(0) =~= cschema_models(c.children@));
            }
            Err(e)
        },
        Ok(kids) => {
            let s = SchemaDescriptor {
                name: c.name.clone(),
                tag,
                nullable: c.flags & FLAG_NULLABLE != 0,
                children: kids,
            };
            proof {
                assert(cschema_models(c.children@).skip(0) =~= cschema_models(c.children@));
                assert(s.model() =~~= spec_import_schema(c@)->Ok_0);
            }
            Ok(s)
        },
    }
}

/// Imports the children of a received descriptor from position `i` on.
fn import_children(v: &Vec<CSchema>, i: usize) -> (r: Result<Vec<SchemaDescriptor>, BridgeError>)
    requires
        i <= v.len(),
    ensures
        ({
            let s = spec_import_children(cschema_models(v@).skip(i as int));
            match r {
                Ok(k) => s == Ok::<_, BridgeError>(schema_models(k@)),
                Err(e) => s == Err::<Seq<SchemaModel>, _>(e),
            }
        }),
    decreases *v, v.len() - i,
{
    let ghost cs = cschema_models(v@).skip(i as int);
    if i == v.len() {
        let k: Vec<SchemaDescriptor> = Vec::new();
        proof {
            assert(schema_models(k@) =~= Seq::<SchemaModel>::empty());
        }
        Ok(k)
    } else {
        proof {
            assert(cs[0] == v@[i as int].model());
            assert(cs.drop_first() =~= cschema_models(v@).skip(i as int + 1));
        }
        let s0 = match import_schema(&v[i]) {
            Err(e) => {
                return Err(e);
            },
            Ok(s) => s,
        };
        match import_children(v, i + 1) {
            Err(e) => Err(e),
            Ok(mut rest) => {
                let ghost old_rest = rest@;
                rest.insert(0, s0);
                proof {
                    lemma_schema_models_insert0(old_rest, s0);
                    assert(rest@ == old_rest.insert(0, s0));
                }
                Ok(rest)
            },
        }
    }
}

} // verus!
