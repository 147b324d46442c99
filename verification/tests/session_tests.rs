use autd3_simulator::ack_store::AckStore;
use autd3_simulator::codec::{encode_request, magic, Request};
use autd3_simulator::error::{ErrorKind, ServerError};
use autd3_simulator::geometry::{Device, Geometry, Position, Rotation};
use autd3_simulator::link::{RxStatus, TxCommand};
use autd3_simulator::session::{
    error_reply, ok_reply, Action, Pending, Reply, Session, SessionState, HELLO_FRAME_LEN,
};
use autd3_simulator::signal::Signal;

fn identity() -> Device {
    Device {
        pos: Position { x: 0, y: 0, z: 0 },
        rot: Rotation { w: 1.0f32.to_bits(), i: 0, j: 0, k: 0 },
    }
}

fn geometry(n: usize) -> Geometry {
    Geometry::new(vec![identity(); n]).unwrap()
}

fn hello() -> Vec<u8> {
    encode_request(&Request::Hello { version: 1, magic: magic() })
}

fn error_bytes(message: &str) -> Vec<u8> {
    let mut bytes = vec![0xFF];
    bytes.extend_from_slice(&(message.len() as u32).to_le_bytes());
    bytes.extend_from_slice(message.as_bytes());
    bytes
}

fn rejection(e: ServerError, message: &str) -> Action {
    Action::Respond(Reply { bytes: error_bytes(message), close: true, error: Some(e) })
}

/// Feeds one request to the session the way a connection would: byte counts as asked for.
fn feed(session: &mut Session, store: &AckStore, request: &[u8]) -> (Action, usize) {
    let mut taken = 0;
    loop {
        match session.step(&request[..taken], store) {
            Action::Read(n) => {
                assert!(n > 0);
                assert!(taken + n <= request.len(), "the session asked for more than the request");
                taken += n;
            }
            other => return (other, taken),
        }
    }
}

fn ready() -> Session {
    let mut session = Session::new();
    let store = AckStore::new();
    let (action, taken) = feed(&mut session, &store, &hello());
    assert_eq!(action, Action::Respond(Reply { bytes: vec![0], close: false, error: None }));
    assert_eq!(taken, 14);
    session
}

fn configured(n: usize) -> Session {
    let mut session = ready();
    let store = AckStore::new();
    let frame = encode_request(&Request::ConfigGeometry(geometry(n)));
    let (action, _) = feed(&mut session, &store, &frame);
    assert!(matches!(action, Action::Forward(Signal::ConfigGeometry(_))));
    assert_eq!(session.settle(true), Some(ok_reply(false)));
    session
}

#[test]
fn fresh_session() {
    let session = Session::new();
    assert_eq!(session.state(), SessionState::Unauthenticated);
    assert_eq!(session.device_count(), 0);
    assert_eq!(session.awaiting(), None);
    assert!(session.last_read().is_empty());
    assert_eq!(HELLO_FRAME_LEN, 14);
}

#[test]
fn empty_frame_asks_for_the_type_byte() {
    let mut session = Session::new();
    assert_eq!(session.step(&[], &AckStore::new()), Action::Read(1));
    let mut session = ready();
    assert_eq!(session.step(&[], &AckStore::new()), Action::Read(1));
}

#[test]
fn handshake_is_read_in_two_parts() {
    let mut session = Session::new();
    let store = AckStore::new();
    let frame = hello();
    assert_eq!(session.step(&frame[..1], &store), Action::Read(2));
    assert_eq!(session.step(&frame[..2], &store), Action::Read(1));
    assert_eq!(session.step(&frame[..3], &store), Action::Read(11));
    assert_eq!(session.step(&frame[..10], &store), Action::Read(4));
    assert_eq!(session.state(), SessionState::Unauthenticated);
    assert_eq!(session.step(&frame, &store), Action::Respond(ok_reply(false)));
    assert_eq!(session.state(), SessionState::Ready);
}

#[test]
fn handshake_with_unsupported_version_is_refused() {
    for version in [0u16, 2, 0x0100, u16::MAX] {
        let mut session = Session::new();
        let store = AckStore::new();
        let frame = encode_request(&Request::Hello { version, magic: magic() });
        let (action, taken) = feed(&mut session, &store, &frame);
        assert_eq!(
            action,
            rejection(
                ServerError::UnsupportedVersion(version),
                &format!("Unsupported protocol version: {}", version)
            )
        );
        assert_eq!(taken, 3, "the token is not read once the version is wrong");
        assert_eq!(session.state(), SessionState::Unauthenticated);
    }
}

#[test]
fn handshake_with_wrong_magic_is_refused() {
    let mut session = Session::new();
    let store = AckStore::new();
    let frame = encode_request(&Request::Hello { version: 1, magic: b"ELEVENBYTES".to_vec() });
    let (action, taken) = feed(&mut session, &store, &frame);
    assert_eq!(action, rejection(ServerError::InvalidMagic, "Invalid client magic"));
    assert_eq!(taken, 14);
    assert_eq!(session.state(), SessionState::Unauthenticated);
    assert_eq!(session.awaiting(), None);
}

#[test]
fn handshake_with_any_byte_of_the_magic_changed_is_refused() {
    for at in 0..11 {
        let mut token = magic();
        token[at] ^= 0x20;
        let mut session = Session::new();
        let frame = encode_request(&Request::Hello { version: 1, magic: token });
        let (action, _) = feed(&mut session, &AckStore::new(), &frame);
        assert_eq!(action, rejection(ServerError::InvalidMagic, "Invalid client magic"));
        assert_eq!(session.state(), SessionState::Unauthenticated);
    }
}

#[test]
fn refused_handshake_can_be_followed_by_a_good_one() {
    let mut session = Session::new();
    let store = AckStore::new();
    let bad = encode_request(&Request::Hello { version: 1, magic: b"AUTD3REMOTF".to_vec() });
    let (action, _) = feed(&mut session, &store, &bad);
    assert!(matches!(action, Action::Respond(Reply { close: true, .. })));
    let (action, _) = feed(&mut session, &store, &hello());
    assert_eq!(action, Action::Respond(ok_reply(false)));
    assert_eq!(session.state(), SessionState::Ready);
}

#[test]
fn second_handshake_is_refused() {
    let mut session = ready();
    let store = AckStore::new();
    let (action, taken) = feed(&mut session, &store, &hello());
    assert_eq!(
        action,
        rejection(ServerError::HandshakeAlreadyCompleted, "Handshake already completed")
    );
    assert_eq!(taken, 1);
    assert_eq!(session.state(), SessionState::Ready);
}

#[test]
fn commands_before_the_handshake_are_refused() {
    let requests = [
        encode_request(&Request::ConfigGeometry(geometry(1))),
        encode_request(&Request::UpdateGeometry(geometry(0))),
        encode_request(&Request::Send(Vec::new())),
        encode_request(&Request::Read),
        encode_request(&Request::Close),
        vec![0x77],
    ];
    for request in requests {
        let mut session = Session::new();
        let store = AckStore::new();
        let (action, taken) = feed(&mut session, &store, &request);
        assert_eq!(
            action,
            rejection(
                ServerError::HandshakeRequired,
                "Handshake is required before sending commands"
            )
        );
        assert_eq!(taken, 1, "nothing but the type byte is read");
        assert_eq!(session.state(), SessionState::Unauthenticated);
        assert_eq!(session.awaiting(), None);
        assert_eq!(session.device_count(), 0);
        assert_eq!(session.settle(true), None);
    }
}

#[test]
fn unknown_message_type_is_refused() {
    for kind in [0x00u8, 0x06, 0x0F, 0x11, 0xFF] {
        let mut session = ready();
        let (action, taken) = feed(&mut session, &AckStore::new(), &[kind]);
        assert_eq!(
            action,
            rejection(
                ServerError::UnknownMessageType(kind),
                &format!("Unknown message type: {}", kind)
            )
        );
        assert_eq!(taken, 1);
        assert_eq!(session.state(), SessionState::Ready);
    }
}

#[test]
fn config_geometry_is_forwarded_and_sets_the_device_count() {
    let mut session = ready();
    let store = AckStore::new();
    let g = geometry(3);
    let frame = encode_request(&Request::ConfigGeometry(g.clone()));
    assert_eq!(session.step(&frame[..1], &store), Action::Read(4));
    assert_eq!(session.step(&frame[..5], &store), Action::Read(3 * 28));
    assert_eq!(session.step(&frame[..6], &store), Action::Read(3 * 28 - 1));
    assert_eq!(session.step(&frame, &store), Action::Forward(Signal::ConfigGeometry(g)));
    assert_eq!(session.awaiting(), Some(Pending::ConfigGeometry(3)));
    assert_eq!(session.device_count(), 0);
    assert_eq!(session.settle(true), Some(ok_reply(false)));
    assert_eq!(session.device_count(), 3);
    assert_eq!(session.awaiting(), None);
    assert_eq!(session.state(), SessionState::Ready);
}

#[test]
fn config_geometry_of_no_devices() {
    let mut session = configured(2);
    let frame = encode_request(&Request::ConfigGeometry(geometry(0)));
    let (action, taken) = feed(&mut session, &AckStore::new(), &frame);
    assert_eq!(action, Action::Forward(Signal::ConfigGeometry(geometry(0))));
    assert_eq!(taken, 5);
    assert_eq!(session.settle(true), Some(ok_reply(false)));
    assert_eq!(session.device_count(), 0);
}

#[test]
fn update_geometry_with_the_configured_count_is_forwarded() {
    let mut session = configured(2);
    let g = Geometry::new(vec![
        identity(),
        Device {
            pos: Position { x: 5.0f32.to_bits(), y: 0, z: 0 },
            rot: Rotation { w: 1.0f32.to_bits(), i: 0, j: 0, k: 0 },
        },
    ])
    .unwrap();
    let frame = encode_request(&Request::UpdateGeometry(g.clone()));
    let (action, taken) = feed(&mut session, &AckStore::new(), &frame);
    assert_eq!(action, Action::Forward(Signal::UpdateGeometry(g)));
    assert_eq!(taken, frame.len());
    assert_eq!(session.awaiting(), Some(Pending::UpdateGeometry));
    assert_eq!(session.settle(true), Some(ok_reply(false)));
    assert_eq!(session.device_count(), 2);
}

#[test]
fn update_geometry_with_another_count_is_refused() {
    for other in [0usize, 1, 3] {
        let mut session = configured(2);
        let frame = encode_request(&Request::UpdateGeometry(geometry(other)));
        let (action, taken) = feed(&mut session, &AckStore::new(), &frame);
        assert_eq!(
            action,
            rejection(
                ServerError::DeviceCountMismatch { expected: 2, actual: other as u32 },
                &format!("Device count mismatch: expected 2, got {}", other)
            )
        );
        assert_eq!(taken, 5, "the devices are not read once the count is wrong");
        assert_eq!(session.device_count(), 2);
        assert_eq!(session.awaiting(), None);
        assert_eq!(session.state(), SessionState::Ready);
        assert_eq!(session.settle(true), None);
    }
}

#[test]
fn send_carries_one_record_for_each_device() {
    let mut session = configured(2);
    let store = AckStore::new();
    let cmds = vec![
        TxCommand::from_bytes(&vec![0x11; 626]).unwrap(),
        TxCommand::from_bytes(&vec![0x22; 626]).unwrap(),
    ];
    let frame = encode_request(&Request::Send(cmds.clone()));
    assert_eq!(session.step(&frame[..1], &store), Action::Read(2 * 626));
    assert_eq!(session.step(&frame[..627], &store), Action::Read(626));
    assert_eq!(session.step(&frame, &store), Action::Forward(Signal::Send(cmds)));
    assert_eq!(session.awaiting(), Some(Pending::Send));
    assert_eq!(session.settle(true), Some(ok_reply(false)));
    assert_eq!(session.awaiting(), None);
}

#[test]
fn send_without_a_geometry_carries_nothing() {
    let mut session = ready();
    let (action, taken) = feed(&mut session, &AckStore::new(), &[0x03]);
    assert_eq!(action, Action::Forward(Signal::Send(Vec::new())));
    assert_eq!(taken, 1);
    assert_eq!(session.settle(true), Some(ok_reply(false)));
}

#[test]
fn read_returns_one_status_for_each_device() {
    let mut session = configured(2);
    let mut store = AckStore::new();
    store.reset(2);
    assert!(store.publish(vec![RxStatus { data: 0xA1, ack: 0x01 }, RxStatus { data: 0xB2, ack: 0x12 }]));
    let (action, taken) = feed(&mut session, &store, &[0x04]);
    assert_eq!(
        action,
        Action::Respond(Reply {
            bytes: vec![0x00, 0xA1, 0x01, 0xB2, 0x12],
            close: false,
            error: None
        })
    );
    assert_eq!(taken, 1);
    assert_eq!(
        session.last_read(),
        &[RxStatus { data: 0xA1, ack: 0x01 }, RxStatus { data: 0xB2, ack: 0x12 }][..]
    );
    assert_eq!(session.settle(true), None);
}

#[test]
fn read_after_configure_returns_zero_records() {
    let mut session = configured(3);
    let mut store = AckStore::new();
    store.reset(3);
    let (action, _) = feed(&mut session, &store, &[0x04]);
    assert_eq!(
        action,
        Action::Respond(Reply { bytes: vec![0u8; 1 + 3 * 2], close: false, error: None })
    );
}

#[test]
fn read_fits_the_session_not_the_store() {
    let mut session = configured(3);
    let mut store = AckStore::new();
    store.reset(1);
    assert!(store.publish(vec![RxStatus { data: 7, ack: 8 }]));
    let (action, _) = feed(&mut session, &store, &[0x04]);
    assert_eq!(
        action,
        Action::Respond(Reply { bytes: vec![0, 7, 8, 0, 0, 0, 0], close: false, error: None })
    );
    let mut session = configured(1);
    let mut store = AckStore::new();
    store.reset(2);
    assert!(store.publish(vec![RxStatus { data: 7, ack: 8 }, RxStatus { data: 9, ack: 10 }]));
    let (action, _) = feed(&mut session, &store, &[0x04]);
    assert_eq!(action, Action::Respond(Reply { bytes: vec![0, 7, 8], close: false, error: None }));
}

#[test]
fn read_without_a_geometry_returns_only_the_status_byte() {
    let mut session = ready();
    let (action, _) = feed(&mut session, &AckStore::new(), &[0x04]);
    assert_eq!(action, Action::Respond(Reply { bytes: vec![0], close: false, error: None }));
}

#[test]
fn close_is_forwarded_and_closes_the_session() {
    let mut session = configured(1);
    let (action, taken) = feed(&mut session, &AckStore::new(), &[0x05]);
    assert_eq!(action, Action::Forward(Signal::Close));
    assert_eq!(taken, 1);
    assert_eq!(session.awaiting(), Some(Pending::Close));
    assert_eq!(session.state(), SessionState::Ready);
    assert_eq!(session.settle(true), Some(ok_reply(true)));
    assert_eq!(session.state(), SessionState::Closed);
}

#[test]
fn closed_session_refuses_everything() {
    let mut session = configured(1);
    let store = AckStore::new();
    let _ = feed(&mut session, &store, &[0x05]);
    assert_eq!(session.settle(true), Some(ok_reply(true)));
    for request in [hello(), vec![0x01], vec![0x03], vec![0x04], vec![0x05], vec![0x99]] {
        let (action, taken) = feed(&mut session, &store, &request);
        assert_eq!(action, rejection(ServerError::SessionClosed, "Session is closed"));
        assert_eq!(taken, 1);
        assert_eq!(session.state(), SessionState::Closed);
    }
}

#[test]
fn undelivered_signal_is_answered_with_unavailability() {
    let requests = [
        encode_request(&Request::ConfigGeometry(geometry(1))),
        encode_request(&Request::UpdateGeometry(geometry(2))),
        encode_request(&Request::Send(vec![TxCommand::new(); 2])),
        encode_request(&Request::Close),
    ];
    for request in requests {
        let mut session = configured(2);
        let (action, _) = feed(&mut session, &AckStore::new(), &request);
        assert!(matches!(action, Action::Forward(_)));
        let reply = session.settle(false).unwrap();
        assert_eq!(reply, error_reply(ServerError::SimulatorClosed));
        assert_eq!(reply.bytes, error_bytes("Simulator is closed"));
        assert!(reply.close);
        assert_eq!(reply.error.unwrap().kind(), ErrorKind::Unavailable);
        assert_eq!(session.device_count(), 2);
        assert_eq!(session.state(), SessionState::Ready);
        assert_eq!(session.awaiting(), None);
    }
}

#[test]
fn step_while_a_signal_awaits_its_outcome_is_refused() {
    let mut session = configured(1);
    let store = AckStore::new();
    let (action, _) = feed(&mut session, &store, &[0x05]);
    assert_eq!(action, Action::Forward(Signal::Close));
    assert_eq!(session.step(&[0x04], &store), rejection(ServerError::OutOfTurn, "Request out of turn"));
    assert_eq!(session.step(&[], &store), rejection(ServerError::OutOfTurn, "Request out of turn"));
    assert_eq!(session.awaiting(), Some(Pending::Close));
    assert_eq!(session.settle(true), Some(ok_reply(true)));
}

#[test]
fn settle_without_a_signal_does_nothing() {
    let mut session = ready();
    assert_eq!(session.settle(true), None);
    assert_eq!(session.settle(false), None);
    assert_eq!(session.state(), SessionState::Ready);
}

#[test]
fn frame_longer_than_its_request_is_malformed() {
    let store = AckStore::new();
    let malformed = rejection(ServerError::MalformedFrame, "Malformed frame");

    let mut session = Session::new();
    let mut frame = hello();
    frame.push(0);
    assert_eq!(session.step(&frame, &store), malformed);
    assert_eq!(session.state(), SessionState::Unauthenticated);

    let mut session = configured(1);
    assert_eq!(session.step(&[0x04, 0x00], &store), malformed);
    assert_eq!(session.step(&[0x05, 0x00], &store), malformed);
    let mut frame = encode_request(&Request::Send(vec![TxCommand::new()]));
    frame.push(0);
    assert_eq!(session.step(&frame, &store), malformed);
    let mut frame = encode_request(&Request::ConfigGeometry(geometry(2)));
    frame.push(0);
    assert_eq!(session.step(&frame, &store), malformed);
    let mut frame = encode_request(&Request::UpdateGeometry(geometry(1)));
    frame.push(0);
    assert_eq!(session.step(&frame, &store), malformed);
    assert_eq!(session.awaiting(), None);
    assert_eq!(session.device_count(), 1);
}

#[test]
fn replies_for_success_and_failure() {
    assert_eq!(ok_reply(false), Reply { bytes: vec![0], close: false, error: None });
    assert_eq!(ok_reply(true), Reply { bytes: vec![0], close: true, error: None });
    let reply = error_reply(ServerError::UnknownMessageType(9));
    assert_eq!(reply.bytes, error_bytes("Unknown message type: 9"));
    assert!(reply.close);
    assert_eq!(reply.error, Some(ServerError::UnknownMessageType(9)));
}
