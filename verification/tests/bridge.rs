use slope::bridge::{BifrostRing, BridgeError, MAXIMUM_FRAME_BYTES, RING_ENTRIES};
use slope::net::{NetworkCapability, TesseractSocket};

#[test]
fn receive_guard_retains_bytes_until_drop() {
    let mut ring = BifrostRing::new();
    ring.inject_receive(0, b"packet");
    let packet = ring.try_receive().unwrap().unwrap();
    assert_eq!(ring.packet_bytes(&packet), b"packet");
    assert!(ring.try_receive().unwrap().is_none());
    ring.release(packet);
    assert!(ring.try_receive().unwrap().is_none());
}

#[test]
fn transmit_fills_the_queue_in_order() {
    let mut ring = BifrostRing::new();
    assert_eq!(ring.transmit(&[]), Err(BridgeError::InvalidPayloadLength));
    assert_eq!(
        ring.transmit(&vec![0u8; MAXIMUM_FRAME_BYTES + 1]),
        Err(BridgeError::InvalidPayloadLength)
    );
    for index in 0..RING_ENTRIES {
        assert_eq!(ring.transmit(&[index as u8]), Ok(()));
    }
    assert_eq!(ring.transmit(b"x"), Err(BridgeError::TransmitQueueFull));
}

#[test]
fn packets_come_in_ring_order() {
    let mut ring = BifrostRing::new();
    ring.inject_receive(0, b"one");
    ring.inject_receive(1, b"two");
    let first = ring.try_receive().unwrap().unwrap();
    assert_eq!(ring.packet_bytes(&first), b"one");
    ring.release(first);
    let second = ring.try_receive().unwrap().unwrap();
    assert_eq!(ring.packet_bytes(&second), b"two");
    ring.release(second);
    assert!(ring.try_receive().unwrap().is_none());
}

#[test]
fn sockets_need_a_port_and_a_live_capability() {
    assert!(NetworkCapability::from_kernel(0, 1).is_none());
    assert!(NetworkCapability::from_kernel(1, 0).is_none());
    let capability = NetworkCapability::from_kernel(3, 4).unwrap();
    let mut ring = BifrostRing::new();
    assert!(TesseractSocket::from_mapping(&mut ring, 0, capability).is_err());
    let mut socket = TesseractSocket::from_mapping(&mut ring, 80, capability).ok().unwrap();
    assert_eq!(socket.local_port(), 80);
    assert_eq!(socket.capability(), capability);
    assert_eq!(socket.send(b"hello"), Ok(()));
    assert!(socket.try_read().unwrap().is_none());
}
