use relay_core::frame::Frame;
use relay_core::lifecycle::{conn_event_allowed, conn_step, ConnAction, ConnEvent, ConnState};

#[test]
fn a_successful_handshake_registers_the_connection() {
    let (s, a) = conn_step(ConnState::Connecting, ConnEvent::HandshakeOk);
    assert_eq!(s, ConnState::Active);
    assert_eq!(a, ConnAction::Register);
}

#[test]
fn a_failed_handshake_discards_the_connection() {
    let (s, a) = conn_step(ConnState::Connecting, ConnEvent::HandshakeFailed);
    assert_eq!(s, ConnState::Closed);
    assert_eq!(a, ConnAction::Discard);
}

#[test]
fn an_ended_stream_starts_deregistration() {
    let (s, a) = conn_step(ConnState::Active, ConnEvent::StreamEnded);
    assert_eq!(s, ConnState::Closing);
    assert_eq!(a, ConnAction::Deregister);
}

#[test]
fn removal_is_terminal() {
    let (s, a) = conn_step(ConnState::Closing, ConnEvent::Removed);
    assert_eq!(s, ConnState::Closed);
    assert_eq!(a, ConnAction::Idle);
}

#[test]
fn events_out_of_turn_are_rejected() {
    assert!(conn_event_allowed(ConnState::Connecting, ConnEvent::HandshakeOk));
    assert!(conn_event_allowed(ConnState::Active, ConnEvent::StreamEnded));
    assert!(conn_event_allowed(ConnState::Closing, ConnEvent::Removed));

    assert!(!conn_event_allowed(ConnState::Active, ConnEvent::HandshakeOk));
    assert!(!conn_event_allowed(ConnState::Closed, ConnEvent::StreamEnded));
    assert!(!conn_event_allowed(ConnState::Connecting, ConnEvent::StreamEnded));
    assert!(!conn_event_allowed(ConnState::Closed, ConnEvent::Removed));
    assert!(!conn_event_allowed(ConnState::Connecting, ConnEvent::Accepted));
}

#[test]
fn frames_classify_and_copy_exactly() {
    let t = Frame::Text(b"greeting".to_vec());
    let b = Frame::Binary(vec![0u8, 255, 7]);
    assert!(t.is_text());
    assert!(!b.is_text());
    assert_eq!(t.payload(), &b"greeting".to_vec());
    assert_eq!(b.payload(), &vec![0u8, 255, 7]);

    let t2 = relay_core::frame::frame_dup(&t);
    assert!(t2.is_text());
    assert_eq!(t2.payload(), t.payload());

    let bytes = vec![1u8, 2, 3];
    assert_eq!(relay_core::frame::copy_bytes(&bytes), bytes);
}
