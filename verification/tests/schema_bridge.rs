//! Schema bridge: format strings, export/import, and round trips.

use arrow_extendr::error::BridgeError;
use arrow_extendr::schema::{
    export_schema, format_for, import_schema, parse_format, CSchema, SchemaDescriptor, TimeUnit,
    TypeTag, FLAG_NULLABLE,
};

fn fmt_string(t: TypeTag) -> String {
    format_for(t).expect("mapped type").into_iter().collect()
}

fn leaf(name: &str, tag: TypeTag, nullable: bool) -> SchemaDescriptor {
    SchemaDescriptor { name: name.to_string(), tag, nullable, children: Vec::new() }
}

#[test]
fn format_strings_of_primitive_types() {
    assert_eq!(fmt_string(TypeTag::Boolean), "b");
    assert_eq!(fmt_string(TypeTag::Int8), "c");
    assert_eq!(fmt_string(TypeTag::Int16), "s");
    assert_eq!(fmt_string(TypeTag::Int32), "i");
    assert_eq!(fmt_string(TypeTag::Int64), "l");
    assert_eq!(fmt_string(TypeTag::UInt8), "C");
    assert_eq!(fmt_string(TypeTag::UInt16), "S");
    assert_eq!(fmt_string(TypeTag::UInt32), "I");
    assert_eq!(fmt_string(TypeTag::UInt64), "L");
    assert_eq!(fmt_string(TypeTag::Float32), "f");
    assert_eq!(fmt_string(TypeTag::Float64), "g");
    assert_eq!(fmt_string(TypeTag::Utf8), "u");
    assert_eq!(fmt_string(TypeTag::Binary), "z");
    assert_eq!(fmt_string(TypeTag::Date32), "tdD");
    assert_eq!(fmt_string(TypeTag::Date64), "tdm");
    assert_eq!(fmt_string(TypeTag::Timestamp(TimeUnit::Second)), "tss:");
    assert_eq!(fmt_string(TypeTag::Timestamp(TimeUnit::Millisecond)), "tsm:");
    assert_eq!(fmt_string(TypeTag::Timestamp(TimeUnit::Microsecond)), "tsu:");
    assert_eq!(fmt_string(TypeTag::Timestamp(TimeUnit::Nanosecond)), "tsn:");
    assert_eq!(fmt_string(TypeTag::List), "+l");
    assert_eq!(fmt_string(TypeTag::Struct), "+s");
}

#[test]
fn unmapped_types_have_no_format() {
    assert!(format_for(TypeTag::Decimal { precision: 10, scale: 2 }).is_none());
    assert!(format_for(TypeTag::Dictionary).is_none());
}

#[test]
fn parse_inverts_format() {
    let tags = [
        TypeTag::Boolean,
        TypeTag::Int8,
        TypeTag::Int16,
        TypeTag::Int32,
        TypeTag::Int64,
        TypeTag::UInt8,
        TypeTag::UInt16,
        TypeTag::UInt32,
        TypeTag::UInt64,
        TypeTag::Float32,
        TypeTag::Float64,
        TypeTag::Utf8,
        TypeTag::Binary,
        TypeTag::Date32,
        TypeTag::Date64,
        TypeTag::Timestamp(TimeUnit::Second),
        TypeTag::Timestamp(TimeUnit::Millisecond),
        TypeTag::Timestamp(TimeUnit::Microsecond),
        TypeTag::Timestamp(TimeUnit::Nanosecond),
        TypeTag::List,
        TypeTag::Struct,
    ];
    for t in tags {
        let f = format_for(t).expect("mapped type");
        assert_eq!(parse_format(&f), Some(t));
    }
}

#[test]
fn parse_rejects_unknown_formats() {
    assert_eq!(parse_format(&vec!['q']), None);
    assert_eq!(parse_format(&vec![]), None);
    assert_eq!(parse_format(&vec!['+', 'q']), None);
    assert_eq!(parse_format(&vec!['t', 'd', 'q']), None);
    assert_eq!(parse_format(&vec!['t', 's', 'q', ':']), None);
    assert_eq!(parse_format(&vec!['t', 's', 's', ';']), None);
    assert_eq!(parse_format(&vec!['i', 'i', 'i', 'i', 'i']), None);
}

#[test]
fn schema_round_trip_nested() {
    let s = SchemaDescriptor {
        name: "root".to_string(),
        tag: TypeTag::Struct,
        nullable: false,
        children: vec![
            leaf("a", TypeTag::Int64, true),
            leaf("b", TypeTag::Boolean, false),
            SchemaDescriptor {
                name: "c".to_string(),
                tag: TypeTag::List,
                nullable: true,
                children: vec![leaf("item", TypeTag::Utf8, true)],
            },
        ],
    };
    let c = export_schema(&s).expect("exportable schema");
    assert_eq!(c.format, vec!['+', 's']);
    assert_eq!(c.name, "root");
    assert_eq!(c.flags, 0);
    assert!(c.release_armed);
    assert_eq!(c.children.len(), 3);
    assert_eq!(c.children[0].format, vec!['l']);
    assert_eq!(c.children[0].flags, FLAG_NULLABLE);
    assert_eq!(c.children[2].children[0].format, vec!['u']);

    let back = import_schema(&c).expect("round trip");
    assert_eq!(back.name, "root");
    assert_eq!(back.tag, TypeTag::Struct);
    assert_eq!(back.children.len(), 3);
    assert_eq!(back.children[0].name, "a");
    assert_eq!(back.children[0].tag, TypeTag::Int64);
    assert!(back.children[0].nullable);
    assert_eq!(back.children[1].tag, TypeTag::Boolean);
    assert!(!back.children[1].nullable);
    assert_eq!(back.children[2].tag, TypeTag::List);
    assert_eq!(back.children[2].children[0].tag, TypeTag::Utf8);
}

#[test]
fn export_rejects_unmapped_types() {
    let dec = leaf("d", TypeTag::Decimal { precision: 10, scale: 2 }, true);
    assert!(matches!(export_schema(&dec), Err(BridgeError::UnsupportedType)));
    let dict = leaf("d", TypeTag::Dictionary, true);
    assert!(matches!(export_schema(&dict), Err(BridgeError::UnsupportedEncoding)));
    let nested = SchemaDescriptor {
        name: "root".to_string(),
        tag: TypeTag::Struct,
        nullable: false,
        children: vec![leaf("ok", TypeTag::Int32, false), dec],
    };
    assert!(matches!(export_schema(&nested), Err(BridgeError::UnsupportedType)));
}

fn plain_cschema(format: Vec<char>, children: Vec<CSchema>) -> CSchema {
    CSchema {
        format,
        name: "f".to_string(),
        flags: 0,
        children,
        has_dictionary: false,
        release_armed: true,
    }
}

#[test]
fn import_rejects_malformed_schema() {
    let bad = plain_cschema(vec!['q'], Vec::new());
    assert!(matches!(import_schema(&bad), Err(BridgeError::MalformedSchema)));
    let list_no_child = plain_cschema(vec!['+', 'l'], Vec::new());
    assert!(matches!(import_schema(&list_no_child), Err(BridgeError::MalformedSchema)));
    let int_with_child = plain_cschema(vec!['i'], vec![plain_cschema(vec!['i'], Vec::new())]);
    assert!(matches!(import_schema(&int_with_child), Err(BridgeError::MalformedSchema)));
}

#[test]
fn import_rejects_dictionary_schema() {
    let mut c = plain_cschema(vec!['i'], Vec::new());
    c.has_dictionary = true;
    assert!(matches!(import_schema(&c), Err(BridgeError::UnsupportedEncoding)));
}

#[test]
fn schema_release_is_idempotent() {
    let s = leaf("x", TypeTag::Int32, true);
    let mut c = export_schema(&s).expect("exportable");
    assert!(c.release_armed);
    c.release();
    assert!(!c.release_armed);
    let format_after_first = c.format.clone();
    c.release();
    assert!(!c.release_armed);
    assert_eq!(c.format, format_after_first);
}
