use autd3_simulator::error::{decimal, ErrorKind, ServerError};

#[test]
fn decimal_numerals() {
    assert_eq!(decimal(0), "0");
    assert_eq!(decimal(7), "7");
    assert_eq!(decimal(10), "10");
    assert_eq!(decimal(255), "255");
    assert_eq!(decimal(65535), "65535");
    assert_eq!(decimal(1_000_000), "1000000");
    assert_eq!(decimal(u32::MAX), "4294967295");
    for n in [9u32, 11, 99, 100, 101, 12345, 907, 4_000_000_000] {
        assert_eq!(decimal(n), format!("{}", n));
    }
}

#[test]
fn messages_of_every_error() {
    assert_eq!(ServerError::HandshakeAlreadyCompleted.message(), "Handshake already completed");
    assert_eq!(
        ServerError::HandshakeRequired.message(),
        "Handshake is required before sending commands"
    );
    assert_eq!(
        ServerError::UnsupportedVersion(2).message(),
        "Unsupported protocol version: 2"
    );
    assert_eq!(
        ServerError::UnsupportedVersion(65535).message(),
        "Unsupported protocol version: 65535"
    );
    assert_eq!(ServerError::InvalidMagic.message(), "Invalid client magic");
    assert_eq!(ServerError::UnknownMessageType(6).message(), "Unknown message type: 6");
    assert_eq!(ServerError::UnknownMessageType(255).message(), "Unknown message type: 255");
    assert_eq!(
        ServerError::DeviceCountMismatch { expected: 2, actual: 13 }.message(),
        "Device count mismatch: expected 2, got 13"
    );
    assert_eq!(ServerError::FrameTooLarge.message(), "Frame too large");
    assert_eq!(ServerError::MalformedFrame.message(), "Malformed frame");
    assert_eq!(ServerError::OutOfTurn.message(), "Request out of turn");
    assert_eq!(ServerError::SessionClosed.message(), "Session is closed");
    assert_eq!(ServerError::SimulatorClosed.message(), "Simulator is closed");
}

#[test]
fn only_a_closed_simulator_is_unavailability() {
    assert_eq!(ServerError::SimulatorClosed.kind(), ErrorKind::Unavailable);
    for e in [
        ServerError::HandshakeAlreadyCompleted,
        ServerError::HandshakeRequired,
        ServerError::UnsupportedVersion(0),
        ServerError::InvalidMagic,
        ServerError::UnknownMessageType(0),
        ServerError::DeviceCountMismatch { expected: 0, actual: 1 },
        ServerError::FrameTooLarge,
        ServerError::MalformedFrame,
        ServerError::OutOfTurn,
        ServerError::SessionClosed,
    ] {
        assert_eq!(e.kind(), ErrorKind::Protocol);
    }
}
