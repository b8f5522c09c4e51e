//! Host values: classification, the allocate/move handoff, and the
//! host-facing conversion entry points.

use arrow_extendr::array::{ArrayBuffer, ColumnData};
use arrow_extendr::batch::Batch;
use arrow_extendr::capability::{classify, Capability};
use arrow_extendr::convert::{FromArrowRobj, IntoArrowRobj, ToArrowRobj};
use arrow_extendr::error::BridgeError;
use arrow_extendr::host::{
    allocate_array, allocate_array_stream, allocate_schema, export_array_value,
    export_batch_value, export_schema_value, import_array_value, import_batch_value,
    import_datatype_value, import_field_value, import_schema_value, import_stream_value,
    move_pointer, set_array_schema, AnyStruct, HostPayload, HostValue,
};
use arrow_extendr::schema::{export_schema, SchemaDescriptor, TypeTag};

fn leaf(name: &str, tag: TypeTag, nullable: bool) -> SchemaDescriptor {
    SchemaDescriptor { name: name.to_string(), tag, nullable, children: Vec::new() }
}

fn opaque(tags: Vec<&str>) -> HostValue {
    HostValue {
        tags: tags.into_iter().map(|t| t.to_string()).collect(),
        payload: HostPayload::Opaque,
    }
}

#[test]
fn classify_recognizes_each_variant() {
    let cases = [
        ("nanoarrow_schema", Capability::LightSchema),
        ("nanoarrow_array", Capability::LightArray),
        ("nanoarrow_array_stream", Capability::LightStream),
        ("Schema", Capability::FullSchema),
        ("Field", Capability::FullField),
        ("DataType", Capability::FullDataType),
        ("Array", Capability::FullArray),
        ("RecordBatch", Capability::FullBatch),
    ];
    for (tag, cap) in cases {
        assert_eq!(classify(&vec![tag.to_string()]), Ok(cap));
    }
}

#[test]
fn classify_takes_first_recognized_tag() {
    let tags = vec!["tbl".to_string(), "nanoarrow_array".to_string(), "Array".to_string()];
    assert_eq!(classify(&tags), Ok(Capability::LightArray));
}

#[test]
fn unrelated_value_is_unrecognized_without_any_dereference() {
    let tags = vec!["data.frame".to_string(), "tbl_df".to_string()];
    assert_eq!(classify(&tags), Err(BridgeError::UnrecognizedCapability));
    let hv = opaque(vec!["data.frame", "tbl_df"]);
    assert!(matches!(import_field_value(&hv), Err(BridgeError::UnrecognizedCapability)));
}

#[test]
fn wrong_variant_is_refused() {
    let s = leaf("x", TypeTag::Int32, true);
    let hv = export_schema_value(&s).expect("exportable");
    assert!(matches!(import_array_value(&hv), Err(BridgeError::WrongCapability)));
    let a = ArrayBuffer {
        dtype: leaf("x", TypeTag::Int32, true),
        length: 1,
        validity: vec![true],
        data: ColumnData::Fixed(vec![4]),
    };
    let hv2 = export_array_value(&a).expect("exportable");
    assert!(matches!(import_field_value(&hv2), Err(BridgeError::WrongCapability)));
}

#[test]
fn schema_value_round_trips_through_each_entry_point() {
    let s = SchemaDescriptor {
        name: "root".to_string(),
        tag: TypeTag::Struct,
        nullable: false,
        children: vec![leaf("a", TypeTag::Date64, false), leaf("b", TypeTag::Int64, true)],
    };
    for import in [import_field_value, import_datatype_value, import_schema_value] {
        let hv = export_schema_value(&s).expect("exportable");
        let back = import(&hv).expect("round trip");
        assert_eq!(back.name, "root");
        assert_eq!(back.children.len(), 2);
        assert_eq!(back.children[0].tag, TypeTag::Date64);
        assert_eq!(back.children[1].tag, TypeTag::Int64);
    }
}

#[test]
fn exporting_one_null_int_array_and_importing_it_back() {
    let a = ArrayBuffer {
        dtype: leaf("x", TypeTag::Int32, true),
        length: 3,
        validity: vec![true, false, true],
        data: ColumnData::Fixed(vec![1, 0, 3]),
    };
    let hv = export_array_value(&a).expect("exportable");
    let back = import_array_value(&hv).expect("round trip");
    assert_eq!(back.length, 3);
    assert_eq!(back.validity, vec![true, false, true]);
    assert_eq!(back.validity.iter().filter(|v| !**v).count(), 1);
    match back.data {
        ColumnData::Fixed(vals) => {
            assert_eq!(vals[0], 1);
            assert_eq!(vals[2], 3);
        }
        _ => panic!("fixed layout expected"),
    }
}

#[test]
fn single_column_batch_round_trips_through_the_stream_bridge() {
    let batch = Batch {
        schema: SchemaDescriptor {
            name: "batch".to_string(),
            tag: TypeTag::Struct,
            nullable: false,
            children: vec![leaf("id", TypeTag::Int32, false)],
        },
        columns: vec![ArrayBuffer {
            dtype: leaf("id", TypeTag::Int32, false),
            length: 5,
            validity: vec![true; 5],
            data: ColumnData::Fixed(vec![1, 2, 3, 4, 5]),
        }],
        n_rows: 5,
    };
    let hv = export_batch_value(batch).expect("exportable");
    let mut rd = import_stream_value(hv).expect("stream handle");
    let first = rd.next().expect("no production failure").expect("exactly one batch");
    assert_eq!(first.n_rows, 5);
    assert_eq!(first.schema.children[0].name, "id");
    match &first.columns[0].data {
        ColumnData::Fixed(vals) => assert_eq!(*vals, vec![1, 2, 3, 4, 5]),
        _ => panic!("fixed layout expected"),
    }
    assert!(rd.next().expect("end of data").is_none());
}

#[test]
fn batch_value_import_from_stream_handle() {
    let batch = Batch {
        schema: SchemaDescriptor {
            name: "batch".to_string(),
            tag: TypeTag::Struct,
            nullable: false,
            children: vec![leaf("id", TypeTag::Int32, false)],
        },
        columns: vec![ArrayBuffer {
            dtype: leaf("id", TypeTag::Int32, false),
            length: 2,
            validity: vec![true, true],
            data: ColumnData::Fixed(vec![7, 9]),
        }],
        n_rows: 2,
    };
    let hv = export_batch_value(batch).expect("exportable");
    let back = import_batch_value(hv).expect("one batch");
    assert_eq!(back.n_rows, 2);
    for c in &back.columns {
        assert_eq!(c.length, back.n_rows);
    }
}

#[test]
fn move_pointer_refuses_a_kind_mismatch() {
    let s = leaf("x", TypeTag::Int32, true);
    let cs = export_schema(&s).expect("exportable");
    let mut arr_handle = allocate_array();
    assert_eq!(
        move_pointer(AnyStruct::SchemaStruct(cs), &mut arr_handle),
        Err(BridgeError::WrongCapability)
    );
}

#[test]
fn receiver_allocates_and_exporter_moves() {
    let s = leaf("x", TypeTag::Int32, true);
    let cs = export_schema(&s).expect("exportable");
    let mut handle = allocate_schema();
    assert_eq!(move_pointer(AnyStruct::SchemaStruct(cs), &mut handle), Ok(()));
    match &handle.payload {
        HostPayload::SchemaPayload(c) => {
            assert_eq!(c.format, vec!['i']);
            assert!(c.release_armed);
        }
        _ => panic!("schema payload expected"),
    }
    let imported = import_field_value(&handle).expect("filled handle imports");
    assert_eq!(imported.name, "x");
}

#[test]
fn set_array_schema_refuses_non_schema_argument() {
    let mut arr_handle = allocate_array();
    let stream_handle = allocate_array_stream();
    assert_eq!(
        set_array_schema(&mut arr_handle, stream_handle),
        Err(BridgeError::WrongCapability)
    );
}

#[test]
fn conversion_traits_mirror_the_entry_points() {
    let s = leaf("a", TypeTag::Binary, true);
    let hv = s.to_arrow_robj().expect("exportable");
    let back = SchemaDescriptor::from_arrow_robj(hv).expect("round trip");
    assert_eq!(back.name, "a");
    assert_eq!(back.tag, TypeTag::Binary);

    let a = ArrayBuffer {
        dtype: leaf("x", TypeTag::UInt16, true),
        length: 2,
        validity: vec![false, true],
        data: ColumnData::Fixed(vec![0, 65535]),
    };
    let hv2 = a.into_arrow_robj().expect("exportable");
    let back2 = ArrayBuffer::from_arrow_robj(hv2).expect("round trip");
    assert_eq!(back2.validity, vec![false, true]);
}

#[test]
fn every_error_has_a_diagnostic_text() {
    let errors = [
        BridgeError::UnrecognizedCapability,
        BridgeError::WrongCapability,
        BridgeError::UnsupportedType,
        BridgeError::UnsupportedEncoding,
        BridgeError::MalformedSchema,
        BridgeError::BufferLayoutMismatch,
        BridgeError::ExternalCapabilityMissing,
    ];
    for e in errors {
        assert!(!e.describe().is_empty());
    }
}
