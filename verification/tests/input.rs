use slope::input::{key_event_from_reply, pointer_motion_from_reply, KeyEvent, PointerMotion};
use slope::SyscallError;

#[test]
fn pointer_motion_has_a_stable_wire_size() {
    assert_eq!(core::mem::size_of::<PointerMotion>(), 8);
    assert_eq!(PointerMotion::new(-4, 9, 1).buttons, 1);
}

#[test]
fn key_event_has_a_stable_wire_size() {
    assert_eq!(core::mem::size_of::<KeyEvent>(), 8);
    assert!(KeyEvent::new(28, true).is_pressed());
    assert!(!KeyEvent::new(28, false).is_pressed());
}

#[test]
fn replies_decode_to_at_most_one_packet() {
    let motion = PointerMotion::new(3, -2, 0);
    assert_eq!(pointer_motion_from_reply(0, motion), Ok(None));
    assert_eq!(pointer_motion_from_reply(1, motion), Ok(Some(motion)));
    assert_eq!(pointer_motion_from_reply(2, motion), Err(SyscallError(-74)));
    let key = KeyEvent::new(30, true);
    assert_eq!(key_event_from_reply(0, key), Ok(None));
    assert_eq!(key_event_from_reply(1, key), Ok(Some(key)));
    assert_eq!(key_event_from_reply(7, key), Err(SyscallError(-74)));
}
