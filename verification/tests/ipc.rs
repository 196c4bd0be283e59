use slope::ipc::{ChannelError, ChannelMessage, SpscRing, CHANNEL_DEPTH, PAYLOAD_BYTES};

#[test]
fn spsc_ring_send_recv_roundtrip() {
    let mut ring = SpscRing::new();
    let message = ChannelMessage::with_tag(42);
    ring.send(message).unwrap();
    assert_eq!(ring.recv().unwrap().tag, 42);
    assert!(ring.is_empty());
}

#[test]
fn ring_full_returns_error() {
    let mut ring = SpscRing::new();
    for index in 0..CHANNEL_DEPTH {
        ring.send(ChannelMessage::with_tag(index as u32)).unwrap();
    }
    assert_eq!(
        ring.send(ChannelMessage::with_tag(999)),
        Err(ChannelError::Full)
    );
}

#[test]
fn ring_empty_returns_none() {
    assert!(SpscRing::new().recv().is_none());
}

#[test]
fn payload_is_bounded_without_allocating() {
    let message = ChannelMessage::with_payload(7, &[0xaa; PAYLOAD_BYTES + 1]);
    assert_eq!(message.payload, [0xaa; PAYLOAD_BYTES]);
}

#[test]
fn ring_is_first_in_first_out_across_wraparound() {
    let mut ring = SpscRing::default();
    for round in 0..3u32 {
        for index in 0..100u32 {
            ring.send(ChannelMessage::with_tag(round * 1000 + index)).unwrap();
        }
        assert!(!ring.is_empty());
        for index in 0..100u32 {
            assert_eq!(ring.recv().unwrap().tag, round * 1000 + index);
        }
        assert!(ring.is_empty());
        assert!(ring.recv().is_none());
    }
    for index in 0..CHANNEL_DEPTH as u32 {
        ring.send(ChannelMessage::with_tag(index)).unwrap();
    }
    assert_eq!(ring.send(ChannelMessage::empty()), Err(ChannelError::Full));
    assert_eq!(ring.recv().unwrap().tag, 0);
    ring.send(ChannelMessage::with_tag(500)).unwrap();
    for index in 1..CHANNEL_DEPTH as u32 {
        assert_eq!(ring.recv().unwrap().tag, index);
    }
    assert_eq!(ring.recv().unwrap().tag, 500);
}

#[test]
fn short_payload_is_zero_padded() {
    let message = ChannelMessage::with_payload(3, &[1, 2, 3]);
    assert_eq!(message.tag, 3);
    assert_eq!(&message.payload[..3], &[1, 2, 3]);
    assert!(message.payload[3..].iter().all(|b| *b == 0));
    assert_eq!(ChannelMessage::empty().payload, [0u8; PAYLOAD_BYTES]);
}
