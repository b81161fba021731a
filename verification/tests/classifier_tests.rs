use picam::MessageType;
use picam::classifier::{Classifier, InputBuffer, classify_sequence};

fn buf(data: Vec<u8>, is_delta: bool, pts: Option<u64>) -> InputBuffer {
    InputBuffer { data, is_delta, pts }
}

/// A payload carrying the `moof` signature at byte offset 4.
fn boundary_bytes(tail: u8) -> Vec<u8> {
    vec![0, 0, 0, 0, 0x6d, 0x6f, 0x6f, 0x66, tail]
}

#[test]
fn first_two_chunks_are_first_frame_then_moov() {
    let mut c = Classifier::new();
    // Content is arbitrary: even boundary-looking bytes are emitted as headers.
    let first = c.push_buffer(&buf(boundary_bytes(1), true, Some(7))).unwrap();
    assert_eq!(first.message_type, MessageType::FirstFrame);
    assert_eq!(first.data, boundary_bytes(1));
    assert_eq!(first.timestamp, None);
    let second = c.push_buffer(&buf(vec![9, 9], false, None)).unwrap();
    assert_eq!(second.message_type, MessageType::MoovPacket);
    assert_eq!(second.data, vec![9, 9]);
    assert_eq!(second.timestamp, None);
}

#[test]
fn boundary_closes_previous_chunk_and_opens_next() {
    let mut c = Classifier::new();
    c.push_buffer(&buf(vec![1], false, None));
    c.push_buffer(&buf(vec![2], false, None));
    assert!(c.push_buffer(&buf(vec![10, 11], false, None)).is_none());
    // The triggering buffer closes the accumulated chunk and starts the next.
    let closed = c.push_buffer(&buf(boundary_bytes(0xAA), false, None)).unwrap();
    assert_eq!(closed.data, vec![10, 11]);
    let next = c.push_buffer(&buf(boundary_bytes(0xBB), false, None)).unwrap();
    assert_eq!(next.data, boundary_bytes(0xAA));
}

#[test]
fn short_buffer_is_never_a_boundary() {
    let mut c = Classifier::new();
    c.push_buffer(&buf(vec![1], false, None));
    c.push_buffer(&buf(vec![2], false, None));
    // Seven bytes cannot be boundary-tested: a continuation.
    assert!(c.push_buffer(&buf(vec![0, 0, 0, 0, 0x6d, 0x6f, 0x6f], false, None)).is_none());
    let closed = c.push_buffer(&buf(boundary_bytes(0), false, None)).unwrap();
    assert_eq!(closed.data, vec![0, 0, 0, 0, 0x6d, 0x6f, 0x6f]);
}

#[test]
fn chunk_is_key_frame_iff_no_constituent_was_delta() {
    let mut c = Classifier::new();
    c.push_buffer(&buf(vec![1], false, None));
    c.push_buffer(&buf(vec![2], false, None));
    c.push_buffer(&buf(vec![3], false, None));
    c.push_buffer(&buf(vec![4], false, None));
    let key = c.push_buffer(&buf(boundary_bytes(0), false, None)).unwrap();
    assert_eq!(key.message_type, MessageType::KeyFrame);
    // The new chunk holds the boundary buffer (non-delta) plus a delta buffer.
    c.push_buffer(&buf(vec![5], true, None));
    let frag = c.push_buffer(&buf(boundary_bytes(1), false, None)).unwrap();
    assert_eq!(frag.message_type, MessageType::Fragment);
}

#[test]
fn delta_flag_of_trigger_counts_toward_next_chunk() {
    let mut c = Classifier::new();
    c.push_buffer(&buf(vec![1], false, None));
    c.push_buffer(&buf(vec![2], false, None));
    c.push_buffer(&buf(vec![3], false, None));
    // The triggering buffer is a delta unit: the chunk it closes was
    // all-non-delta and stays a key frame; the chunk it opens is not.
    let closed = c.push_buffer(&buf(boundary_bytes(0), true, None)).unwrap();
    assert_eq!(closed.message_type, MessageType::KeyFrame);
    let next = c.push_buffer(&buf(boundary_bytes(1), false, None)).unwrap();
    assert_eq!(next.message_type, MessageType::Fragment);
}

#[test]
fn timestamp_is_last_observed_and_cleared_after_emission() {
    let mut c = Classifier::new();
    c.push_buffer(&buf(vec![1], false, Some(5)));
    c.push_buffer(&buf(vec![2], false, None));
    c.push_buffer(&buf(vec![3], false, Some(1_000_000_000)));
    c.push_buffer(&buf(vec![4], false, None));
    let closed = c.push_buffer(&buf(boundary_bytes(0), false, Some(2_000_000_000))).unwrap();
    // Last timestamp among the chunk's own constituents.
    assert_eq!(closed.timestamp, Some(1_000_000_000));
    // The trigger's timestamp belongs to the next chunk.
    let next = c.push_buffer(&buf(boundary_bytes(1), false, None)).unwrap();
    assert_eq!(next.timestamp, Some(2_000_000_000));
}

#[test]
fn replaying_a_capture_yields_identical_chunks() {
    let capture = || {
        vec![
            buf(vec![1, 2, 3], false, Some(1)),
            buf(vec![4], false, None),
            buf(vec![5, 6, 7, 8, 9, 10, 11, 12], true, Some(2)),
            buf(boundary_bytes(0), false, Some(3)),
            buf(vec![13], true, None),
            buf(boundary_bytes(1), false, None),
            buf(vec![14], false, None),
        ]
    };
    let once = classify_sequence(&capture());
    let twice = classify_sequence(&capture());
    assert_eq!(once.len(), twice.len());
    for (a, b) in once.iter().zip(twice.iter()) {
        assert_eq!(a.data, b.data);
        assert_eq!(a.message_type, b.message_type);
        assert_eq!(a.timestamp, b.timestamp);
    }
}
