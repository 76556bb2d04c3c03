use hazelcast_client::messaging::ping::{encode_request, PingRequest, PING_REQUEST_TYPE};
use hazelcast_client::remote::channel::{ChannelAction, ChannelEvent, ChannelState};
use hazelcast_client::remote::message::{
    Frame, Message, BEGIN_FRAGMENT_FLAG, END_FRAGMENT_FLAG, IS_FINAL_FLAG,
    UNFRAGMENTED_MESSAGE,
};
use hazelcast_client::remote::protocol_sequence;

/// The body of a first frame: flags, message type, correlation id, payload.
fn first_body(flags: u16, message_type: u32, id: u64, payload: &[u8]) -> Vec<u8> {
    let mut body = flags.to_le_bytes().to_vec();
    body.extend_from_slice(&message_type.to_le_bytes());
    body.extend_from_slice(&id.to_le_bytes());
    body.extend_from_slice(payload);
    body
}

/// The body of a non-initial frame: flags, payload.
fn plain_body(flags: u16, payload: &[u8]) -> Vec<u8> {
    let mut body = flags.to_le_bytes().to_vec();
    body.extend_from_slice(payload);
    body
}

fn register(state: &mut ChannelState, id: u64) {
    let initial = Frame::initial_frame(UNFRAGMENTED_MESSAGE, PING_REQUEST_TYPE, id);
    let message = encode_request(id, PingRequest::new(), initial);
    match state.step(ChannelEvent::Egress(message)) {
        ChannelAction::Write(payloads) => assert_eq!(1, payloads.len()),
        other => panic!("expected a write action, got {:?}", other),
    }
}

#[test]
fn test_interleaved_responses_route_by_correlation_id() {
    let mut state = ChannelState::new();
    let a = state.fresh_correlation_id();
    let b = state.fresh_correlation_id();
    assert_ne!(a, b);
    register(&mut state, a);
    register(&mut state, b);

    // first fragment of the response for a: two frames, fragment closed
    let step = state.step(ChannelEvent::Ingress(first_body(
        BEGIN_FRAGMENT_FLAG,
        0x1D0101,
        a,
        b"part1",
    )));
    assert!(matches!(step, ChannelAction::Continue));
    let step = state.step(ChannelEvent::Ingress(plain_body(END_FRAGMENT_FLAG, b"part2")));
    assert!(matches!(step, ChannelAction::Continue));

    // the whole response for b arrives between a's fragments
    let step = state.step(ChannelEvent::Ingress(first_body(
        UNFRAGMENTED_MESSAGE | IS_FINAL_FLAG,
        0x000B01,
        b,
        b"pong",
    )));
    match step {
        ChannelAction::Deliver(id, message) => {
            assert_eq!(b, id);
            assert_eq!(b, message.id());
            assert_eq!(1, message.len());
        },
        other => panic!("expected b's delivery, got {:?}", other),
    }

    // second fragment of the response for a completes it
    let step = state.step(ChannelEvent::Ingress(first_body(
        BEGIN_FRAGMENT_FLAG,
        0x1D0101,
        a,
        b"part3",
    )));
    assert!(matches!(step, ChannelAction::Continue));
    let step = state.step(ChannelEvent::Ingress(plain_body(
        END_FRAGMENT_FLAG | IS_FINAL_FLAG,
        b"part4",
    )));
    match step {
        ChannelAction::Deliver(id, message) => {
            assert_eq!(a, id);
            assert_eq!(a, message.id());
            assert_eq!(4, message.len());
            assert_eq!(b"part2".to_vec(), message.frame_at(1).content);
            assert_eq!(b"part4".to_vec(), message.frame_at(3).content);
        },
        other => panic!("expected a's delivery, got {:?}", other),
    }
}

#[test]
fn test_unknown_correlation_is_fatal() {
    let mut state = ChannelState::new();
    let step = state.step(ChannelEvent::Ingress(first_body(
        UNFRAGMENTED_MESSAGE | IS_FINAL_FLAG,
        0x000B01,
        7,
        b"",
    )));
    assert!(matches!(step, ChannelAction::Fatal));
}

#[test]
fn test_short_ingress_is_fatal() {
    let mut state = ChannelState::new();
    let step = state.step(ChannelEvent::Ingress(vec![1]));
    assert!(matches!(step, ChannelAction::Fatal));
}

#[test]
fn test_duplicate_egress_id_is_fatal() {
    let mut state = ChannelState::new();
    let id = state.fresh_correlation_id();
    register(&mut state, id);
    let initial = Frame::initial_frame(UNFRAGMENTED_MESSAGE, PING_REQUEST_TYPE, id);
    let message = encode_request(id, PingRequest::new(), initial);
    let step = state.step(ChannelEvent::Egress(message));
    assert!(matches!(step, ChannelAction::Fatal));
}

#[test]
fn test_closed_aborts_outstanding_callers() {
    let mut state = ChannelState::new();
    let a = state.fresh_correlation_id();
    let b = state.fresh_correlation_id();
    register(&mut state, a);
    register(&mut state, b);

    match state.step(ChannelEvent::Closed) {
        ChannelAction::Abort(ids) => assert_eq!(vec![a, b], ids),
        other => panic!("expected an abort action, got {:?}", other),
    }

    // the table is empty now: a late response can no longer be routed
    let step = state.step(ChannelEvent::Ingress(first_body(
        UNFRAGMENTED_MESSAGE | IS_FINAL_FLAG,
        0x000B01,
        a,
        b"",
    )));
    assert!(matches!(step, ChannelAction::Fatal));
}

#[test]
fn test_final_bit_set_on_last_payload_only() {
    let mut state = ChannelState::new();
    let id = state.fresh_correlation_id();
    let initial = Frame::initial_frame(UNFRAGMENTED_MESSAGE, PING_REQUEST_TYPE, id);
    let mut message = encode_request(id, PingRequest::new(), initial);
    message.add(Frame::new(b"tail".to_vec(), 0));

    match state.step(ChannelEvent::Egress(message)) {
        ChannelAction::Write(payloads) => {
            assert_eq!(2, payloads.len());
            assert_eq!(0, payloads[0][1] & 0x20);
            assert_ne!(0, payloads[1][1] & 0x20);
        },
        other => panic!("expected a write action, got {:?}", other),
    }
}

#[test]
fn test_protocol_sequence() {
    assert_eq!(vec![0x43u8, 0x50, 0x32], protocol_sequence());
}
