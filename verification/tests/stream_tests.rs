use picam::MessageType;
use picam::ParsedBuffer;
use picam::header_cache::HeaderCache;
use picam::hub::{Hub, RecvOutcome};
use picam::session::{Session, SessionAction};

fn chunk(data: Vec<u8>, kind: MessageType) -> ParsedBuffer {
    ParsedBuffer { data, message_type: kind, timestamp: None }
}

#[test]
fn cache_collects_headers_then_freezes() {
    let mut cache = HeaderCache::new();
    cache.on_chunk(&chunk(vec![1], MessageType::FirstFrame));
    cache.on_chunk(&chunk(vec![2], MessageType::MoovPacket));
    assert!(cache.is_collecting());
    cache.on_chunk(&chunk(vec![3], MessageType::Fragment));
    assert!(!cache.is_collecting());
    assert_eq!(cache.snapshot(), vec![vec![1], vec![2]]);
    // Frozen: later header-like chunks of other kinds change nothing.
    cache.on_chunk(&chunk(vec![4], MessageType::MoovPacket));
    assert_eq!(cache.snapshot(), vec![vec![1], vec![2]]);
}

#[test]
fn cache_restart_discards_old_header_atomically() {
    let mut cache = HeaderCache::new();
    cache.on_chunk(&chunk(vec![1], MessageType::FirstFrame));
    cache.on_chunk(&chunk(vec![2], MessageType::MoovPacket));
    cache.on_chunk(&chunk(vec![3], MessageType::KeyFrame));
    // A second FirstFrame mid-stream: the old header is gone in the same
    // step; no snapshot can mix the incarnations.
    cache.on_chunk(&chunk(vec![9], MessageType::FirstFrame));
    assert_eq!(cache.snapshot(), vec![vec![9]]);
    assert!(cache.is_collecting());
    cache.on_chunk(&chunk(vec![10], MessageType::MoovPacket));
    assert_eq!(cache.snapshot(), vec![vec![9], vec![10]]);
}

#[test]
fn cache_second_first_frame_while_collecting_resets() {
    let mut cache = HeaderCache::new();
    cache.on_chunk(&chunk(vec![1], MessageType::FirstFrame));
    cache.on_chunk(&chunk(vec![2], MessageType::FirstFrame));
    assert_eq!(cache.snapshot(), vec![vec![2]]);
}

#[test]
fn session_discards_non_key_chunks_before_first_key_frame() {
    let mut s = Session::new();
    assert_eq!(s.on_chunk(MessageType::Fragment), SessionAction::Discard);
    assert_eq!(s.on_chunk(MessageType::MoovPacket), SessionAction::Discard);
    assert_eq!(s.on_chunk(MessageType::KeyFrame), SessionAction::Forward);
    assert_eq!(s.on_chunk(MessageType::Fragment), SessionAction::Forward);
    assert_eq!(s.on_chunk(MessageType::MoovPacket), SessionAction::Forward);
}

#[test]
fn session_terminates_on_first_frame_in_any_state() {
    let mut fresh = Session::new();
    assert_eq!(fresh.on_chunk(MessageType::FirstFrame), SessionAction::Terminate);
    let mut streaming = Session::new();
    streaming.on_chunk(MessageType::KeyFrame);
    assert_eq!(streaming.on_chunk(MessageType::FirstFrame), SessionAction::Terminate);
}

#[test]
fn hub_delivers_in_emission_order() {
    let mut hub = Hub::new(8);
    let mut sub = hub.subscribe();
    hub.send(chunk(vec![1], MessageType::KeyFrame));
    hub.send(chunk(vec![2], MessageType::Fragment));
    hub.send(chunk(vec![3], MessageType::Fragment));
    for expected in [vec![1u8], vec![2], vec![3]] {
        match sub.recv(&hub) {
            RecvOutcome::Received(c) => assert_eq!(c.data, expected),
            _ => panic!("expected a chunk"),
        }
    }
    assert!(matches!(sub.recv(&hub), RecvOutcome::Empty));
}

#[test]
fn hub_tells_a_slow_consumer_it_lagged() {
    let mut hub = Hub::new(2);
    let mut sub = hub.subscribe();
    for i in 0..5u8 {
        hub.send(chunk(vec![i], MessageType::Fragment));
    }
    // Five chunks behind with capacity two: resynchronized to the oldest
    // retained chunk, then in order again.
    assert!(matches!(sub.recv(&hub), RecvOutcome::Lagged));
    match sub.recv(&hub) {
        RecvOutcome::Received(c) => assert_eq!(c.data, vec![3]),
        _ => panic!("expected a chunk"),
    }
    match sub.recv(&hub) {
        RecvOutcome::Received(c) => assert_eq!(c.data, vec![4]),
        _ => panic!("expected a chunk"),
    }
    assert!(matches!(sub.recv(&hub), RecvOutcome::Empty));
}

#[test]
fn hub_new_subscriber_sees_only_later_chunks() {
    let mut hub = Hub::new(4);
    hub.send(chunk(vec![1], MessageType::KeyFrame));
    let mut sub = hub.subscribe();
    assert!(matches!(sub.recv(&hub), RecvOutcome::Empty));
    hub.send(chunk(vec![2], MessageType::Fragment));
    match sub.recv(&hub) {
        RecvOutcome::Received(c) => assert_eq!(c.data, vec![2]),
        _ => panic!("expected a chunk"),
    }
}
