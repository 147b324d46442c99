//! What can go wrong while a client is served, and the words the client is told.

use vstd::prelude::*;
use vstd::string::StringExecFns;

verus! {

/// Why an error was raised: the client broke the protocol, or the simulation is gone.
#[derive(Clone, Copy, Debug, PartialEq, Eq, Structural)]
pub enum ErrorKind {
    /// The client sent something the protocol does not allow at this point.
    Protocol,
    /// The simulation owner no longer takes signals.
    Unavailable,
}

/// An error that is answered with an error response.
#[derive(Clone, Copy, Debug, PartialEq, Eq, Structural)]
pub enum ServerError {
    /// A handshake arrived on a session that had completed one.
    HandshakeAlreadyCompleted,
    /// A command arrived before any handshake completed.
    HandshakeRequired,
    /// The handshake named a protocol version other than the supported one.
    UnsupportedVersion(u16),
    /// The handshake did not carry the magic token.
    InvalidMagic,
    /// The first byte of the request names no message type.
    UnknownMessageType(u8),
    /// A geometry update named another device count than the configured one.
    DeviceCountMismatch { expected: u32, actual: u32 },
    /// The request is longer than this machine can address.
    FrameTooLarge,
    /// The frame holds more bytes than its request has.
    MalformedFrame,
    /// A request arrived while the previous signal was still awaiting its outcome.
    OutOfTurn,
    /// A request arrived after the session had closed.
    SessionClosed,
    /// The simulation owner has shut down.
    SimulatorClosed,
}

/// The character of the decimal digit `d`.
pub open spec fn spec_digit(d: nat) -> char {
    if d == 0 {
        '0'
    } else if d == 1 {
        '1'
    } else if d == 2 {
        '2'
    } else if d == 3 {
        '3'
    } else if d == 4 {
        '4'
    } else if d == 5 {
        '5'
    } else if d == 6 {
        '6'
    } else if d == 7 {
        '7'
    } else if d == 8 {
        '8'
    } else {
        '9'
    }
}

/// The decimal numeral of `n`, without leading zeros.
pub open spec fn spec_decimal(n: nat) -> Seq<char>
    decreases n,
{
    if n < 10 {
        seq![spec_digit(n)]
    } else {
        spec_decimal(n / 10).push(spec_digit(n % 10))
    }
}

impl ServerError {
    /// Which of the two kinds of error this is.
    pub open spec fn spec_kind(self) -> ErrorKind {
        if self is SimulatorClosed {
            ErrorKind::Unavailable
        } else {
            ErrorKind::Protocol
        }
    }

    /// The words the client is told.
    pub open spec fn spec_message(self) -> Seq<char> {
        match self {
            ServerError::HandshakeAlreadyCompleted => "Handshake already completed"@,
            ServerError::HandshakeRequired => "Handshake is required before sending commands"@,
            ServerError::UnsupportedVersion(v) => "Unsupported protocol version: "@
                + spec_decimal(v as nat),
            ServerError::InvalidMagic => "Invalid client magic"@,
            ServerError::UnknownMessageType(t) => "Unknown message type: "@ + spec_decimal(
                t as nat,
            ),
            ServerError::DeviceCountMismatch { expected, actual } => "Device count mismatch: expected "@
                + spec_decimal(expected as nat) + ", got "@ + spec_decimal(actual as nat),
            ServerError::FrameTooLarge => "Frame too large"@,
            ServerError::MalformedFrame => "Malformed frame"@,
            ServerError::OutOfTurn => "Request out of turn"@,
            ServerError::SessionClosed => "Session is closed"@,
            ServerError::SimulatorClosed => "Simulator is closed"@,
        }
    }

    /// Which of the two kinds of error this is.
    pub fn kind(&self) -> (k: ErrorKind)
        ensures
            k == self.spec_kind(),
    {
        match self {
            ServerError::SimulatorClosed => ErrorKind::Unavailable,
            _ => ErrorKind::Protocol,
        }
    }

    /// The words the client is told.
    pub fn message(&self) -> (s: String)
        ensures
            s@ == self.spec_message(),
    {
        match self {
            ServerError::HandshakeAlreadyCompleted => String::from_str(
                "Handshake already completed",
            ),
            ServerError::HandshakeRequired => String::from_str(
                "Handshake is required before sending commands",
            ),
            ServerError::UnsupportedVersion(v) => {
                let mut s = String::from_str("Unsupported protocol version: ");
                let d = decimal(*v as u32);
                s.append(d.as_str());
                s
            },
            ServerError::InvalidMagic => String::from_str("Invalid client magic"),
            ServerError::UnknownMessageType(t) => {
                let mut s = String::from_str("Unknown message type: ");
                let d = decimal(*t as u32);
                s.append(d.as_str());
                s
            },
            ServerError::DeviceCountMismatch { expected, actual } => {
                let mut s = String::from_str("Device count mismatch: expected ");
                let e = decimal(*expected);
                s.append(e.as_str());
                s.append(", got ");
                let a = decimal(*actual);
                s.append(a.as_str());
                s
            },
            ServerError::FrameTooLarge => String::from_str("Frame too large"),
            ServerError::MalformedFrame => String::from_str("Malformed frame"),
            ServerError::OutOfTurn => String::from_str("Request out of turn"),
            ServerError::SessionClosed => String::from_str("Session is closed"),
            ServerError::SimulatorClosed => String::from_str("Simulator is closed"),
        }
    }
}

/// The one-character string of the decimal digit `d`.
fn digit(d: u32) -> (s: &'static str)
    requires
        d < 10,
    ensures
        s@ == seq![spec_digit(d as nat)],
{
    proof {
        reveal_strlit("0");
        reveal_strlit("1");
        reveal_strlit("2");
        reveal_strlit("3");
        reveal_strlit("4");
        reveal_strlit("5");
        reveal_strlit("6");
        reveal_strlit("7");
        reveal_strlit("8");
        reveal_strlit("9");
    }
    let s = if d == 0 {
        "0"
    } else if d == 1 {
        "1"
    } else if d == 2 {
        "2"
    } else if d == 3 {
        "3"
    } else if d == 4 {
        "4"
    } else if d == 5 {
        "5"
    } else if d == 6 {
        "6"
    } else if d == 7 {
        "7"
    } else if d == 8 {
        "8"
    } else {
        "9"
    };
    assert(s@ =~= seq![spec_digit(d as nat)]);
    s
}

/// The decimal numeral of `n`.
pub fn decimal(n: u32) -> (s: String)
    ensures
        s@ == spec_decimal(n as nat),
    decreases n,
{
    if n < 10 {
        String::from_str(digit(n))
    } else {
        let mut s = decimal(n / 10);
        s.append(digit(n % 10));
        assert(s@ =~= spec_decimal(n as nat));
        s
    }
}

} // verus!
