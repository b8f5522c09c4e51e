//! Batch/stream bridge: the stream state machine, exhaustion, release, and
//! the single-batch and iterator import paths.

use arrow_extendr::array::{ArrayBuffer, ColumnData};
use arrow_extendr::batch::Batch;
use arrow_extendr::schema::{SchemaDescriptor, TypeTag};
use arrow_extendr::stream::{
    export_stream, import_single_batch, import_stream, process_stream, PullResult, StreamState,
};

fn leaf(name: &str, tag: TypeTag, nullable: bool) -> SchemaDescriptor {
    SchemaDescriptor { name: name.to_string(), tag, nullable, children: Vec::new() }
}

fn id_schema() -> SchemaDescriptor {
    SchemaDescriptor {
        name: "batch".to_string(),
        tag: TypeTag::Struct,
        nullable: false,
        children: vec![leaf("id", TypeTag::Int32, false)],
    }
}

fn id_batch(values: Vec<u64>) -> Batch {
    let n = values.len();
    Batch {
        schema: id_schema(),
        columns: vec![ArrayBuffer {
            dtype: leaf("id", TypeTag::Int32, false),
            length: n,
            validity: vec![true; n],
            data: ColumnData::Fixed(values),
        }],
        n_rows: n,
    }
}

#[test]
fn stream_yields_each_batch_then_the_sentinel() {
    let stream =
        export_stream(vec![id_batch(vec![1, 2]), id_batch(vec![3])]).expect("exportable");
    assert_eq!(stream.state, StreamState::Created);
    let mut rd = import_stream(stream).expect("schema imports");
    let first = rd.next().expect("no production failure").expect("first batch");
    assert_eq!(first.n_rows, 2);
    let second = rd.next().expect("no production failure").expect("second batch");
    assert_eq!(second.n_rows, 1);
    assert!(rd.next().expect("end of data").is_none());
    assert!(rd.next().expect("end stays end").is_none());
    assert_eq!(rd.stream.state, StreamState::Exhausted);
}

#[test]
fn single_batch_import_keeps_first_and_drops_rest() {
    let stream =
        export_stream(vec![id_batch(vec![9, 9, 9]), id_batch(vec![1])]).expect("exportable");
    let b = import_single_batch(stream).expect("one batch");
    assert_eq!(b.n_rows, 3);
    assert_eq!(b.columns.len(), 1);
    for c in &b.columns {
        assert_eq!(c.length, b.n_rows);
    }
}

#[test]
fn empty_stream_is_exhausted_at_once() {
    let stream = export_stream(Vec::new()).expect("empty stream");
    let mut rd = import_stream(stream).expect("empty struct schema imports");
    assert!(rd.next().expect("end of data").is_none());
    assert!(rd.next().expect("end stays end").is_none());
}

#[test]
fn pull_after_release_fails_cleanly() {
    let mut stream = export_stream(vec![id_batch(vec![5])]).expect("exportable");
    stream.release();
    assert_eq!(stream.state, StreamState::Released);
    assert!(matches!(stream.get_next(), PullResult::Failure));
}

#[test]
fn stream_release_is_idempotent() {
    let mut stream = export_stream(vec![id_batch(vec![5])]).expect("exportable");
    assert!(stream.release_armed);
    stream.release();
    assert!(!stream.release_armed);
    assert_eq!(stream.state, StreamState::Released);
    assert_eq!(stream.pending.len(), 0);
    stream.release();
    assert!(!stream.release_armed);
    assert_eq!(stream.state, StreamState::Released);
}

#[test]
fn raw_pulls_walk_the_state_machine() {
    let mut stream = export_stream(vec![id_batch(vec![1]), id_batch(vec![2])]).expect("ok");
    assert_eq!(stream.state, StreamState::Created);
    assert!(matches!(stream.get_next(), PullResult::Item(_)));
    assert_eq!(stream.state, StreamState::Iterating);
    assert!(matches!(stream.get_next(), PullResult::Item(_)));
    assert!(matches!(stream.get_next(), PullResult::End));
    assert_eq!(stream.state, StreamState::Exhausted);
    assert!(matches!(stream.get_next(), PullResult::End));
    assert_eq!(stream.state, StreamState::Exhausted);
}

#[test]
fn process_stream_counts_all_rows() {
    let stream = export_stream(vec![
        id_batch(vec![1, 2, 3]),
        id_batch(vec![4]),
        id_batch(vec![5, 6]),
    ])
    .expect("exportable");
    let mut rd = import_stream(stream).expect("schema imports");
    assert_eq!(process_stream(&mut rd), 6);
    assert!(rd.next().expect("exhausted").is_none());
}
