//! Array bridge: export/import of typed arrays, validity bitmaps, and the
//! buffer-layout checks.

use arrow_extendr::array::{
    export_array, import_array, ArrayBuffer, CArray, CBuffer, ColumnData,
};
use arrow_extendr::error::BridgeError;
use arrow_extendr::schema::{export_schema, CSchema, SchemaDescriptor, TypeTag};

fn leaf(name: &str, tag: TypeTag, nullable: bool) -> SchemaDescriptor {
    SchemaDescriptor { name: name.to_string(), tag, nullable, children: Vec::new() }
}

fn int_array(name: &str, values: Vec<u64>, validity: Vec<bool>) -> ArrayBuffer {
    ArrayBuffer {
        dtype: leaf(name, TypeTag::Int32, true),
        length: values.len(),
        validity,
        data: ColumnData::Fixed(values),
    }
}

#[test]
fn int_array_with_null_round_trips() {
    let a = int_array("x", vec![1, 0, 3], vec![true, false, true]);
    let (ca, cs) = export_array(&a).expect("exportable");
    assert_eq!(ca.length, 3);
    assert_eq!(ca.null_count, 1);
    assert_eq!(ca.offset, 0);
    assert_eq!(ca.buffers.len(), 2);
    assert!(ca.release_armed);
    assert_eq!(cs.format, vec!['i']);

    let back = import_array(&ca, &cs).expect("round trip");
    assert_eq!(back.length, 3);
    assert_eq!(back.validity, vec![true, false, true]);
    match back.data {
        ColumnData::Fixed(vals) => assert_eq!(vals, vec![1, 0, 3]),
        _ => panic!("fixed layout expected"),
    }
    assert_eq!(back.dtype.tag, TypeTag::Int32);
}

#[test]
fn validity_bitmap_is_bit_packed() {
    let n = 19;
    let validity: Vec<bool> = (0..n).map(|i| i % 3 != 1).collect();
    let values: Vec<u64> = (0..n as u64).collect();
    let a = int_array("x", values.clone(), validity.clone());
    let (ca, cs) = export_array(&a).expect("exportable");
    match &ca.buffers[0] {
        CBuffer::Bitmap(bytes) => {
            assert_eq!(bytes.len(), (n + 7) / 8);
            for i in 0..n {
                let bit = (bytes[i / 8] >> (i % 8)) & 1 == 1;
                assert_eq!(bit, validity[i]);
            }
        }
        _ => panic!("validity bitmap expected"),
    }
    let back = import_array(&ca, &cs).expect("round trip");
    assert_eq!(back.validity, validity);
    match back.data {
        ColumnData::Fixed(vals) => assert_eq!(vals, values),
        _ => panic!("fixed layout expected"),
    }
}

#[test]
fn boolean_array_round_trips() {
    let vals = vec![true, true, false, true, false, false, true, true, false];
    let a = ArrayBuffer {
        dtype: leaf("flags", TypeTag::Boolean, true),
        length: vals.len(),
        validity: vec![true; vals.len()],
        data: ColumnData::Bools(vals.clone()),
    };
    let (ca, cs) = export_array(&a).expect("exportable");
    assert_eq!(cs.format, vec!['b']);
    let back = import_array(&ca, &cs).expect("round trip");
    match back.data {
        ColumnData::Bools(b) => assert_eq!(b, vals),
        _ => panic!("boolean layout expected"),
    }
}

#[test]
fn struct_array_round_trips() {
    let a = ArrayBuffer {
        dtype: SchemaDescriptor {
            name: "root".to_string(),
            tag: TypeTag::Struct,
            nullable: false,
            children: vec![leaf("x", TypeTag::Int32, true)],
        },
        length: 2,
        validity: vec![true, true],
        data: ColumnData::Structs(vec![int_array("x", vec![7, 8], vec![true, true])]),
    };
    let (ca, cs) = export_array(&a).expect("exportable");
    assert_eq!(ca.children.len(), 1);
    let back = import_array(&ca, &cs).expect("round trip");
    assert_eq!(back.length, 2);
    match back.data {
        ColumnData::Structs(cols) => {
            assert_eq!(cols.len(), 1);
            assert_eq!(cols[0].length, 2);
            match &cols[0].data {
                ColumnData::Fixed(vals) => assert_eq!(*vals, vec![7, 8]),
                _ => panic!("fixed layout expected"),
            }
        }
        _ => panic!("struct layout expected"),
    }
}

#[test]
fn string_array_round_trips() {
    let words = ["arrow", "", "bridge", "c data interface"];
    let vals: Vec<Vec<u8>> = words.iter().map(|w| w.as_bytes().to_vec()).collect();
    let a = ArrayBuffer {
        dtype: leaf("s", TypeTag::Utf8, true),
        length: vals.len(),
        validity: vec![true, true, false, true],
        data: ColumnData::VarBytes(vals.clone()),
    };
    let (ca, cs) = export_array(&a).expect("exportable");
    assert_eq!(cs.format, vec!['u']);
    assert_eq!(ca.buffers.len(), 3);
    match (&ca.buffers[1], &ca.buffers[2]) {
        (CBuffer::Words(offs), CBuffer::Bytes(blob)) => {
            assert_eq!(offs.len(), 5);
            assert_eq!(*offs, vec![0, 5, 5, 11, 27]);
            assert_eq!(blob.len(), 27);
        }
        _ => panic!("offsets and data buffers expected"),
    }
    let back = import_array(&ca, &cs).expect("round trip");
    assert_eq!(back.length, 4);
    assert_eq!(back.validity, vec![true, true, false, true]);
    match back.data {
        ColumnData::VarBytes(v) => assert_eq!(v, vals),
        _ => panic!("variable-offset layout expected"),
    }
}

#[test]
fn binary_array_import_honours_offset_window() {
    let vals: Vec<Vec<u8>> = vec![vec![1, 2], vec![], vec![3], vec![4, 5, 6]];
    let a = ArrayBuffer {
        dtype: leaf("b", TypeTag::Binary, true),
        length: 4,
        validity: vec![true; 4],
        data: ColumnData::VarBytes(vals),
    };
    let (mut ca, cs) = export_array(&a).expect("exportable");
    ca.offset = 1;
    ca.length = 2;
    let back = import_array(&ca, &cs).expect("sliced import");
    match back.data {
        ColumnData::VarBytes(v) => {
            assert_eq!(v.len(), 2);
            assert_eq!(v[0], Vec::<u8>::new());
            assert_eq!(v[1], vec![3]);
        }
        _ => panic!("variable-offset layout expected"),
    }
}

#[test]
fn import_rejects_decreasing_offsets() {
    let vals: Vec<Vec<u8>> = vec![vec![7], vec![8, 9]];
    let a = ArrayBuffer {
        dtype: leaf("b", TypeTag::Binary, true),
        length: 2,
        validity: vec![true, true],
        data: ColumnData::VarBytes(vals),
    };
    let (mut ca, cs) = export_array(&a).expect("exportable");
    match &mut ca.buffers[1] {
        CBuffer::Words(offs) => {
            offs[1] = 9;
        }
        _ => panic!("offsets buffer expected"),
    }
    assert!(matches!(import_array(&ca, &cs), Err(BridgeError::BufferLayoutMismatch)));
}

#[test]
fn import_rejects_offsets_past_the_data_buffer() {
    let vals: Vec<Vec<u8>> = vec![vec![7], vec![8, 9]];
    let a = ArrayBuffer {
        dtype: leaf("b", TypeTag::Binary, true),
        length: 2,
        validity: vec![true, true],
        data: ColumnData::VarBytes(vals),
    };
    let (mut ca, cs) = export_array(&a).expect("exportable");
    match &mut ca.buffers[2] {
        CBuffer::Bytes(blob) => {
            blob.pop();
        }
        _ => panic!("data buffer expected"),
    }
    assert!(matches!(import_array(&ca, &cs), Err(BridgeError::BufferLayoutMismatch)));
}

#[test]
fn import_honours_element_offset() {
    let a = int_array("x", vec![10, 20, 30, 40], vec![true, true, false, true]);
    let (mut ca, cs) = export_array(&a).expect("exportable");
    ca.offset = 1;
    ca.length = 2;
    let back = import_array(&ca, &cs).expect("sliced import");
    assert_eq!(back.length, 2);
    assert_eq!(back.validity, vec![true, false]);
    match back.data {
        ColumnData::Fixed(vals) => assert_eq!(vals, vec![20, 30]),
        _ => panic!("fixed layout expected"),
    }
}

fn exported_pair() -> (CArray, CSchema) {
    let a = int_array("x", vec![1, 2, 3], vec![true, true, true]);
    export_array(&a).expect("exportable")
}

#[test]
fn import_rejects_wrong_buffer_count() {
    let (mut ca, cs) = exported_pair();
    ca.buffers.pop();
    assert!(matches!(import_array(&ca, &cs), Err(BridgeError::BufferLayoutMismatch)));
}

#[test]
fn import_rejects_wrong_buffer_kind() {
    let (mut ca, cs) = exported_pair();
    ca.buffers[1] = CBuffer::Bitmap(vec![0]);
    assert!(matches!(import_array(&ca, &cs), Err(BridgeError::BufferLayoutMismatch)));
}

#[test]
fn import_rejects_short_value_buffer() {
    let (mut ca, cs) = exported_pair();
    ca.length = 9;
    assert!(matches!(import_array(&ca, &cs), Err(BridgeError::BufferLayoutMismatch)));
}

#[test]
fn import_rejects_dictionary_array() {
    let (mut ca, cs) = exported_pair();
    ca.has_dictionary = true;
    assert!(matches!(import_array(&ca, &cs), Err(BridgeError::UnsupportedEncoding)));
}

#[test]
fn import_rejects_unimplemented_layout() {
    let (ca, _) = exported_pair();
    let list = SchemaDescriptor {
        name: "xs".to_string(),
        tag: TypeTag::List,
        nullable: true,
        children: vec![leaf("item", TypeTag::Int32, true)],
    };
    let list_schema = export_schema(&list).expect("exportable");
    assert!(matches!(import_array(&ca, &list_schema), Err(BridgeError::UnsupportedType)));
}

#[test]
fn array_release_is_idempotent() {
    let (mut ca, _) = exported_pair();
    assert!(ca.release_armed);
    ca.release();
    assert!(!ca.release_armed);
    let len = ca.length;
    ca.release();
    assert!(!ca.release_armed);
    assert_eq!(ca.length, len);
}
