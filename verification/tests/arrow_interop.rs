//! Cross-checks the bridge's format-string grammar and flag encoding
//! against the arrow crate's own C Data Interface implementation.

use arrow::datatypes::{DataType, Field, Fields, TimeUnit as ArrowTimeUnit};
use arrow::ffi::FFI_ArrowSchema;
use std::sync::Arc;

use arrow_extendr::schema::{export_schema, format_for, SchemaDescriptor, TimeUnit, TypeTag, FLAG_NULLABLE};

fn our_format(t: TypeTag) -> String {
    format_for(t).expect("mapped type").into_iter().collect()
}

fn arrow_format(dt: &DataType) -> String {
    FFI_ArrowSchema::try_from(dt).expect("FFI compatible").format().to_string()
}

#[test]
fn format_grammar_agrees_with_the_arrow_crate() {
    let pairs: Vec<(TypeTag, DataType)> = vec![
        (TypeTag::Boolean, DataType::Boolean),
        (TypeTag::Int8, DataType::Int8),
        (TypeTag::Int16, DataType::Int16),
        (TypeTag::Int32, DataType::Int32),
        (TypeTag::Int64, DataType::Int64),
        (TypeTag::UInt8, DataType::UInt8),
        (TypeTag::UInt16, DataType::UInt16),
        (TypeTag::UInt32, DataType::UInt32),
        (TypeTag::UInt64, DataType::UInt64),
        (TypeTag::Float32, DataType::Float32),
        (TypeTag::Float64, DataType::Float64),
        (TypeTag::Utf8, DataType::Utf8),
        (TypeTag::Binary, DataType::Binary),
        (TypeTag::Date32, DataType::Date32),
        (TypeTag::Date64, DataType::Date64),
        (
            TypeTag::Timestamp(TimeUnit::Second),
            DataType::Timestamp(ArrowTimeUnit::Second, None),
        ),
        (
            TypeTag::Timestamp(TimeUnit::Millisecond),
            DataType::Timestamp(ArrowTimeUnit::Millisecond, None),
        ),
        (
            TypeTag::Timestamp(TimeUnit::Microsecond),
            DataType::Timestamp(ArrowTimeUnit::Microsecond, None),
        ),
        (
            TypeTag::Timestamp(TimeUnit::Nanosecond),
            DataType::Timestamp(ArrowTimeUnit::Nanosecond, None),
        ),
        (
            TypeTag::List,
            DataType::List(Arc::new(Field::new("item", DataType::Int32, true))),
        ),
        (
            TypeTag::Struct,
            DataType::Struct(Fields::from(vec![Field::new("a", DataType::Int32, true)])),
        ),
    ];
    for (tag, dt) in pairs {
        assert_eq!(our_format(tag), arrow_format(&dt), "format of {dt:?}");
    }
}

#[test]
fn nested_schema_struct_agrees_with_the_arrow_crate() {
    let ours = SchemaDescriptor {
        name: "root".to_string(),
        tag: TypeTag::Struct,
        nullable: false,
        children: vec![
            SchemaDescriptor {
                name: "a".to_string(),
                tag: TypeTag::Int64,
                nullable: true,
                children: Vec::new(),
            },
            SchemaDescriptor {
                name: "xs".to_string(),
                tag: TypeTag::List,
                nullable: true,
                children: vec![SchemaDescriptor {
                    name: "item".to_string(),
                    tag: TypeTag::Utf8,
                    nullable: true,
                    children: Vec::new(),
                }],
            },
        ],
    };
    let our_c = export_schema(&ours).expect("exportable");

    let theirs = Field::new(
        "root",
        DataType::Struct(Fields::from(vec![
            Field::new("a", DataType::Int64, true),
            Field::new(
                "xs",
                DataType::List(Arc::new(Field::new("item", DataType::Utf8, true))),
                true,
            ),
        ])),
        false,
    );
    let their_c = FFI_ArrowSchema::try_from(&theirs).expect("FFI compatible");

    let fmt = |v: &Vec<char>| v.iter().collect::<String>();
    assert_eq!(fmt(&our_c.format), their_c.format());
    assert_eq!(our_c.name.as_str(), their_c.name().unwrap_or(""));
    assert_eq!(our_c.children.len(), their_c.children().count());
    assert_eq!(fmt(&our_c.children[0].format), their_c.child(0).format());
    assert_eq!(fmt(&our_c.children[1].format), their_c.child(1).format());
    assert_eq!(
        fmt(&our_c.children[1].children[0].format),
        their_c.child(1).child(0).format()
    );
    assert_eq!(
        our_c.children[1].children[0].name.as_str(),
        their_c.child(1).child(0).name().unwrap_or("")
    );
}

#[test]
fn nullable_flag_agrees_with_the_arrow_crate() {
    let nullable = FFI_ArrowSchema::try_from(&Field::new("a", DataType::Int32, true))
        .expect("FFI compatible");
    let required = FFI_ArrowSchema::try_from(&Field::new("a", DataType::Int32, false))
        .expect("FFI compatible");
    let nullable_bits = nullable.flags().map(|f| f.bits() as u64).unwrap_or(0);
    let required_bits = required.flags().map(|f| f.bits() as u64).unwrap_or(0);
    assert_eq!(nullable_bits & FLAG_NULLABLE, FLAG_NULLABLE);
    assert_eq!(required_bits & FLAG_NULLABLE, 0);
}
