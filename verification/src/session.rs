//! The connection state machine: one session for each accepted connection.
//!
//! A session never touches the connection itself. Its driver reads bytes and hands the session
//! what it has read of the current request; the session answers with the next thing to do:
//! read more, pass a signal on to the simulation owner, or write a response. A signal that
//! was passed on is settled by telling the session whether the owner took it.
//!
//! A session starts unauthenticated, becomes ready by a handshake, and closes by a close
//! request. Every error is answered with an error response that ends the connection, and
//! leaves the session exactly as it was.

use vstd::prelude::*;
use vstd::slice::slice_subrange;
use vstd::utf8::encode_utf8;
use crate::ack_store::{spec_read_statuses, AckStore};
use crate::codec::{
    error_response, is_magic, ok_response, read_response, spec_error_response, spec_magic,
    spec_ok_response, spec_read_response, RequestView, MSG_CLOSE, MSG_CONFIG_GEOMETRY,
    MSG_HELLO, MSG_READ_DATA, MSG_SEND_DATA, MSG_UPDATE_GEOMETRY, REMOTE_PROTOCOL_VERSION,
};
use crate::error::ServerError;
use crate::geometry::{decode_geometry, spec_decode_geometry};
use crate::link::{
    commands_len, decode_commands, spec_decode_commands, RxStatus, TX_RECORD_SIZE,
};
use crate::signal::{Signal, SignalView};
use crate::wire::{get_u16_le, get_u32_le, spec_u16_from_le, spec_u32_from_le};

verus! {

/// Bytes in a handshake request: the type, the version, the magic token.
pub const HELLO_FRAME_LEN: usize = 14;

/// Where a session stands.
#[derive(Clone, Copy, Debug, PartialEq, Eq, Structural)]
pub enum SessionState {
    /// No handshake has completed.
    Unauthenticated,
    /// Commands are served.
    Ready,
    /// The client has closed the session.
    Closed,
}

/// The request whose signal was passed on and awaits its outcome.
#[derive(Clone, Copy, Debug, PartialEq, Eq, Structural)]
pub enum Pending {
    /// A geometry of this many devices is being configured.
    ConfigGeometry(u32),
    UpdateGeometry,
    Send,
    Close,
}

/// What is written back to the client.
#[derive(Debug, PartialEq, Eq)]
pub struct Reply {
    /// The bytes of the response.
    pub bytes: Vec<u8>,
    /// Whether the connection ends once the response is written.
    pub close: bool,
    /// The error that the response reports, if it reports one.
    pub error: Option<ServerError>,
}

/// A reply as plain values.
pub struct ReplyView {
    pub bytes: Seq<u8>,
    pub close: bool,
    pub error: Option<ServerError>,
}

impl View for Reply {
    type V = ReplyView;

    open spec fn view(&self) -> ReplyView {
        ReplyView { bytes: self.bytes@, close: self.close, error: self.error }
    }
}

/// What the driver of a session does next.
#[derive(Debug, PartialEq, Eq)]
pub enum Action {
    /// Read exactly this many bytes more, append them to the frame, and step again.
    Read(usize),
    /// Pass the signal on to the simulation owner, then settle the session with the outcome.
    Forward(Signal),
    /// Write the response; the request is over.
    Respond(Reply),
}

/// An action as plain values.
pub enum ActionView {
    Read(nat),
    Forward(SignalView),
    Respond(ReplyView),
}

impl View for Action {
    type V = ActionView;

    open spec fn view(&self) -> ActionView {
        match self {
            Action::Read(n) => ActionView::Read(*n as nat),
            Action::Forward(signal) => ActionView::Forward(signal@),
            Action::Respond(reply) => ActionView::Respond(reply@),
        }
    }
}

/// The state of one connection.
#[derive(Debug, PartialEq, Eq)]
pub struct Session {
    state: SessionState,
    device_count: u32,
    awaiting: Option<Pending>,
    last_read: Vec<RxStatus>,
}

/// A session as plain values.
pub struct SessionView {
    /// Where the session stands.
    pub state: SessionState,
    /// How many devices the geometry has that this session configured last.
    pub device_count: u32,
    /// The request whose signal awaits its outcome, if one does.
    pub awaiting: Option<Pending>,
    /// The statuses that the last read request was answered with.
    pub last_read: Seq<RxStatus>,
}

impl View for Session {
    type V = SessionView;

    closed spec fn view(&self) -> SessionView {
        SessionView {
            state: self.state,
            device_count: self.device_count,
            awaiting: self.awaiting,
            last_read: self.last_read@,
        }
    }
}

/// What holds of a session in every state it can reach: only a ready session has a signal
/// awaiting its outcome, and a session that never completed a handshake has configured no
/// geometry and answered no read.
pub open spec fn spec_session_inv(s: SessionView) -> bool {
    &&& s.awaiting is Some ==> s.state is Ready
    &&& s.state is Unauthenticated ==> s.device_count == 0 && s.last_read.len() == 0
}

/// A session as it is when a connection has just been accepted.
pub open spec fn spec_fresh() -> SessionView {
    SessionView {
        state: SessionState::Unauthenticated,
        device_count: 0,
        awaiting: None,
        last_read: Seq::empty(),
    }
}

/// The reply that reports `e`: an error response with its message, and the connection ends.
pub open spec fn spec_error_reply(e: ServerError) -> ReplyView {
    ReplyView {
        bytes: spec_error_response(encode_utf8(e.spec_message())),
        close: true,
        error: Some(e),
    }
}

/// The reply to a request that was carried out and returns nothing.
pub open spec fn spec_ok_reply(close: bool) -> ReplyView {
    ReplyView { bytes: spec_ok_response(), close, error: None }
}

/// A request is refused: the session stays as it was, and the client is told why.
pub open spec fn spec_reject(s: SessionView, e: ServerError) -> (SessionView, ActionView) {
    (s, ActionView::Respond(spec_error_reply(e)))
}

/// More of the frame is needed: the session stays as it was.
pub open spec fn spec_more(s: SessionView, have: nat, need: nat) -> (SessionView, ActionView) {
    (s, ActionView::Read((need - have) as nat))
}

/// A signal is passed on, and the session remembers what awaits its outcome.
pub open spec fn spec_forward(s: SessionView, pending: Pending, signal: SignalView) -> (
    SessionView,
    ActionView,
) {
    (SessionView { awaiting: Some(pending), ..s }, ActionView::Forward(signal))
}

/// A step on a handshake frame, in a session that is not closed.
pub open spec fn spec_step_hello(s: SessionView, frame: Seq<u8>) -> (SessionView, ActionView) {
    let version = spec_u16_from_le(frame.subrange(1, 3));
    if s.state is Ready {
        spec_reject(s, ServerError::HandshakeAlreadyCompleted)
    } else if frame.len() < 3 {
        spec_more(s, frame.len(), 3)
    } else if version != REMOTE_PROTOCOL_VERSION {
        spec_reject(s, ServerError::UnsupportedVersion(version))
    } else if frame.len() < HELLO_FRAME_LEN {
        spec_more(s, frame.len(), HELLO_FRAME_LEN as nat)
    } else if frame.len() > HELLO_FRAME_LEN {
        spec_reject(s, ServerError::MalformedFrame)
    } else if frame.subrange(3, HELLO_FRAME_LEN as int) != spec_magic() {
        spec_reject(s, ServerError::InvalidMagic)
    } else {
        (
            SessionView { state: SessionState::Ready, ..s },
            ActionView::Respond(spec_ok_reply(false)),
        )
    }
}

/// A step on a geometry frame, in a session that is ready.
pub open spec fn spec_step_geometry(s: SessionView, frame: Seq<u8>) -> (SessionView, ActionView) {
    let update = frame[0] == MSG_UPDATE_GEOMETRY;
    let count = spec_u32_from_le(frame.subrange(1, 5));
    let need = 5 + 28 * count;
    if frame.len() < 5 {
        spec_more(s, frame.len(), 5)
    } else if update && count != s.device_count {
        spec_reject(s, ServerError::DeviceCountMismatch { expected: s.device_count, actual: count })
    } else if need > usize::MAX {
        spec_reject(s, ServerError::FrameTooLarge)
    } else if frame.len() < need {
        spec_more(s, frame.len(), need as nat)
    } else if frame.len() > need {
        spec_reject(s, ServerError::MalformedFrame)
    } else {
        let devices = spec_decode_geometry(frame.subrange(1, frame.len() as int));
        if update {
            spec_forward(s, Pending::UpdateGeometry, SignalView::UpdateGeometry(devices))
        } else {
            spec_forward(s, Pending::ConfigGeometry(count), SignalView::ConfigGeometry(devices))
        }
    }
}

/// A step on a send frame, in a session that is ready.
pub open spec fn spec_step_send(s: SessionView, frame: Seq<u8>) -> (SessionView, ActionView) {
    let need = 1 + TX_RECORD_SIZE * s.device_count;
    if need > usize::MAX {
        spec_reject(s, ServerError::FrameTooLarge)
    } else if frame.len() < need {
        spec_more(s, frame.len(), need as nat)
    } else if frame.len() > need {
        spec_reject(s, ServerError::MalformedFrame)
    } else {
        spec_forward(
            s,
            Pending::Send,
            SignalView::Send(
                spec_decode_commands(
                    frame.subrange(1, frame.len() as int),
                    s.device_count as nat,
                ),
            ),
        )
    }
}

/// A step on a read frame, in a session that is ready.
pub open spec fn spec_step_read(s: SessionView, frame: Seq<u8>, store: Seq<RxStatus>) -> (
    SessionView,
    ActionView,
) {
    let statuses = spec_read_statuses(store, s.device_count as nat);
    if frame.len() > 1 {
        spec_reject(s, ServerError::MalformedFrame)
    } else if 1 + 2 * s.device_count > usize::MAX {
        spec_reject(s, ServerError::FrameTooLarge)
    } else {
        (
            SessionView { last_read: statuses, ..s },
            ActionView::Respond(
                ReplyView { bytes: spec_read_response(statuses), close: false, error: None },
            ),
        )
    }
}

/// A step on a close frame, in a session that is ready.
pub open spec fn spec_step_close(s: SessionView, frame: Seq<u8>) -> (SessionView, ActionView) {
    if frame.len() > 1 {
        spec_reject(s, ServerError::MalformedFrame)
    } else {
        spec_forward(s, Pending::Close, SignalView::Close)
    }
}

/// What a session does with the bytes read so far of the current request, given the
/// acknowledgment store as it stands: the session afterwards, and what the driver does next.
pub open spec fn spec_step(s: SessionView, frame: Seq<u8>, store: Seq<RxStatus>) -> (
    SessionView,
    ActionView,
) {
    if s.awaiting is Some {
        spec_reject(s, ServerError::OutOfTurn)
    } else if frame.len() == 0 {
        spec_more(s, 0, 1)
    } else if s.state is Closed {
        spec_reject(s, ServerError::SessionClosed)
    } else if frame[0] == MSG_HELLO {
        spec_step_hello(s, frame)
    } else if s.state is Unauthenticated {
        spec_reject(s, ServerError::HandshakeRequired)
    } else if frame[0] == MSG_CONFIG_GEOMETRY || frame[0] == MSG_UPDATE_GEOMETRY {
        spec_step_geometry(s, frame)
    } else if frame[0] == MSG_SEND_DATA {
        spec_step_send(s, frame)
    } else if frame[0] == MSG_READ_DATA {
        spec_step_read(s, frame, store)
    } else if frame[0] == MSG_CLOSE {
        spec_step_close(s, frame)
    } else {
        spec_reject(s, ServerError::UnknownMessageType(frame[0]))
    }
}

/// What a session does with one whole request, given the acknowledgment store as it stands.
///
/// This says the same as `spec_step` says of the whole frame of the request, in terms of
/// what the request asks for.
pub open spec fn spec_serve(s: SessionView, request: RequestView, store: Seq<RxStatus>) -> (
    SessionView,
    ActionView,
) {
    if s.awaiting is Some {
        spec_reject(s, ServerError::OutOfTurn)
    } else if s.state is Closed {
        spec_reject(s, ServerError::SessionClosed)
    } else if request is Hello {
        if s.state is Ready {
            spec_reject(s, ServerError::HandshakeAlreadyCompleted)
        } else if request->version != REMOTE_PROTOCOL_VERSION {
            spec_reject(s, ServerError::UnsupportedVersion(request->version))
        } else if request->magic != spec_magic() {
            spec_reject(s, ServerError::InvalidMagic)
        } else {
            (
                SessionView { state: SessionState::Ready, ..s },
                ActionView::Respond(spec_ok_reply(false)),
            )
        }
    } else if s.state is Unauthenticated {
        spec_reject(s, ServerError::HandshakeRequired)
    } else {
        match request {
            RequestView::Hello { version, magic } => spec_reject(s, ServerError::OutOfTurn),
            RequestView::ConfigGeometry(devices) => if 5 + 28 * devices.len() > usize::MAX {
                spec_reject(s, ServerError::FrameTooLarge)
            } else {
                spec_forward(
                    s,
                    Pending::ConfigGeometry(devices.len() as u32),
                    SignalView::ConfigGeometry(devices),
                )
            },
            RequestView::UpdateGeometry(devices) => if devices.len() != s.device_count {
                spec_reject(
                    s,
                    ServerError::DeviceCountMismatch {
                        expected: s.device_count,
                        actual: devices.len() as u32,
                    },
                )
            } else if 5 + 28 * devices.len() > usize::MAX {
                spec_reject(s, ServerError::FrameTooLarge)
            } else {
                spec_forward(s, Pending::UpdateGeometry, SignalView::UpdateGeometry(devices))
            },
            RequestView::Send(records) => if 1 + TX_RECORD_SIZE * s.device_count > usize::MAX {
                spec_reject(s, ServerError::FrameTooLarge)
            } else {
                spec_forward(s, Pending::Send, SignalView::Send(records))
            },
            RequestView::Read => spec_step_read(s, seq![MSG_READ_DATA], store),
            RequestView::Close => spec_forward(s, Pending::Close, SignalView::Close),
        }
    }
}

/// What a session does when told whether the owner took the signal: the session afterwards,
/// and the reply, if a signal was awaiting its outcome at all.
pub open spec fn spec_settle(s: SessionView, delivered: bool) -> (SessionView, Option<ReplyView>) {
    match s.awaiting {
        None => (s, None),
        Some(pending) => {
            let rest = SessionView { awaiting: None, ..s };
            if !delivered {
                (rest, Some(spec_error_reply(ServerError::SimulatorClosed)))
            } else {
                match pending {
                    Pending::ConfigGeometry(count) => (
                        SessionView { device_count: count, ..rest },
                        Some(spec_ok_reply(false)),
                    ),
                    Pending::UpdateGeometry => (rest, Some(spec_ok_reply(false))),
                    Pending::Send => (rest, Some(spec_ok_reply(false))),
                    Pending::Close => (
                        SessionView { state: SessionState::Closed, ..rest },
                        Some(spec_ok_reply(true)),
                    ),
                }
            }
        },
    }
}

/// The reply that reports `e`.
pub fn error_reply(e: ServerError) -> (r: Reply)
    ensures
        r@ == spec_error_reply(e),
{
    let message = e.message();
    let bytes = error_response(message.as_str());
    Reply { bytes, close: true, error: Some(e) }
}

/// The reply to a request that was carried out and returns nothing.
pub fn ok_reply(close: bool) -> (r: Reply)
    ensures
        r@ == spec_ok_reply(close),
{
    Reply { bytes: ok_response(), close, error: None }
}

impl Session {
    /// A session is always in a state it can reach.
    #[verifier::type_invariant]
    pub closed spec fn wf(self) -> bool {
        spec_session_inv(self@)
    }

    /// The session of a connection that has just been accepted.
    pub fn new() -> (s: Session)
        ensures
            s.wf(),
            s@ == spec_fresh(),
    {
        Session {
            state: SessionState::Unauthenticated,
            device_count: 0,
            awaiting: None,
            last_read: Vec::new(),
        }
    }

    /// Where the session stands.
    pub fn state(&self) -> (r: SessionState)
        ensures
            r == self@.state,
    {
        self.state
    }

    /// How many devices the geometry has that this session configured last.
    pub fn device_count(&self) -> (r: u32)
        ensures
            r == self@.device_count,
    {
        self.device_count
    }

    /// The request whose signal awaits its outcome, if one does.
    pub fn awaiting(&self) -> (r: Option<Pending>)
        ensures
            r == self@.awaiting,
    {
        self.awaiting
    }

    /// The statuses that the last read request was answered with.
    pub fn last_read(&self) -> (r: &[RxStatus])
        ensures
            r@ == self@.last_read,
    {
        self.last_read.as_slice()
    }

    fn step_hello(&mut self, frame: &[u8]) -> (action: Action)
        requires
            old(self)@.awaiting is None,
            !(old(self)@.state is Closed),
            frame@.len() > 0,
        ensures
            (final(self)@, action@) == spec_step_hello(old(self)@, frame@),
    {
        proof {
            use_type_invariant(&*self);
        }
        let len = frame.len();
        match self.state {
            SessionState::Ready => {
                return Action::Respond(error_reply(ServerError::HandshakeAlreadyCompleted));
            },
            _ => {},
        }
        if len < 3 {
            return Action::Read(3 - len);
        }
        let version = get_u16_le(frame, 1);
        if version != REMOTE_PROTOCOL_VERSION {
            return Action::Respond(error_reply(ServerError::UnsupportedVersion(version)));
        }
        if len < HELLO_FRAME_LEN {
            return Action::Read(HELLO_FRAME_LEN - len);
        }
        if len > HELLO_FRAME_LEN {
            return Action::Respond(error_reply(ServerError::MalformedFrame));
        }
        if !is_magic(frame, 3) {
            return Action::Respond(error_reply(ServerError::InvalidMagic));
        }
        self.state = SessionState::Ready;
        Action::Respond(ok_reply(false))
    }

    fn step_geometry(&mut self, frame: &[u8]) -> (action: Action)
        requires
            old(self)@.awaiting is None,
            old(self)@.state is Ready,
            frame@.len() > 0,
        ensures
            (final(self)@, action@) == spec_step_geometry(old(self)@, frame@),
    {
        let len = frame.len();
        if len < 5 {
            return Action::Read(5 - len);
        }
        let update = frame[0] == MSG_UPDATE_GEOMETRY;
        let count = get_u32_le(frame, 1);
        if update && count != self.device_count {
            return Action::Respond(
                error_reply(
                    ServerError::DeviceCountMismatch {
                        expected: self.device_count,
                        actual: count,
                    },
                ),
            );
        }
        let need: u64 = 5 + 28 * (count as u64);
        if need > usize::MAX as u64 {
            return Action::Respond(error_reply(ServerError::FrameTooLarge));
        }
        if (len as u64) < need {
            return Action::Read((need - len as u64) as usize);
        }
        if len as u64 > need {
            return Action::Respond(error_reply(ServerError::MalformedFrame));
        }
        let body = slice_subrange(frame, 1, len);
        proof {
            assert(body@.subrange(0, 4) =~= frame@.subrange(1, 5));
        }
        match decode_geometry(body) {
            Some(geometry) => {
                if update {
                    self.awaiting = Some(Pending::UpdateGeometry);
                    Action::Forward(Signal::UpdateGeometry(geometry))
                } else {
                    self.awaiting = Some(Pending::ConfigGeometry(count));
                    Action::Forward(Signal::ConfigGeometry(geometry))
                }
            },
            None => {
                proof {
                    assert(false);
                }
                Action::Respond(error_reply(ServerError::MalformedFrame))
            },
        }
    }

    fn step_send(&mut self, frame: &[u8]) -> (action: Action)
        requires
            old(self)@.awaiting is None,
            old(self)@.state is Ready,
            frame@.len() > 0,
        ensures
            (final(self)@, action@) == spec_step_send(old(self)@, frame@),
    {
        let len = frame.len();
        let need: u64 = 1 + commands_len(self.device_count);
        if need > usize::MAX as u64 {
            return Action::Respond(error_reply(ServerError::FrameTooLarge));
        }
        if (len as u64) < need {
            return Action::Read((need - len as u64) as usize);
        }
        if len as u64 > need {
            return Action::Respond(error_reply(ServerError::MalformedFrame));
        }
        let body = slice_subrange(frame, 1, len);
        match decode_commands(body) {
            Some(cmds) => {
                self.awaiting = Some(Pending::Send);
                Action::Forward(Signal::Send(cmds))
            },
            None => {
                proof {
                    assert(false);
                }
                Action::Respond(error_reply(ServerError::MalformedFrame))
            },
        }
    }

    fn step_read(&mut self, frame: &[u8], store: &AckStore) -> (action: Action)
        requires
            old(self)@.awaiting is None,
            old(self)@.state is Ready,
            frame@.len() > 0,
        ensures
            (final(self)@, action@) == spec_step_read(old(self)@, frame@, store@),
    {
        if frame.len() > 1 {
            return Action::Respond(error_reply(ServerError::MalformedFrame));
        }
        let need: u64 = 1 + 2 * (self.device_count as u64);
        if need > usize::MAX as u64 {
            return Action::Respond(error_reply(ServerError::FrameTooLarge));
        }
        let statuses = store.read(self.device_count as usize);
        let bytes = read_response(statuses.as_slice());
        self.last_read = statuses;
        Action::Respond(Reply { bytes, close: false, error: None })
    }

    fn step_close(&mut self, frame: &[u8]) -> (action: Action)
        requires
            old(self)@.awaiting is None,
            old(self)@.state is Ready,
            frame@.len() > 0,
        ensures
            (final(self)@, action@) == spec_step_close(old(self)@, frame@),
    {
        if frame.len() > 1 {
            return Action::Respond(error_reply(ServerError::MalformedFrame));
        }
        self.awaiting = Some(Pending::Close);
        Action::Forward(Signal::Close)
    }

    /// Takes the bytes read so far of the current request, and the acknowledgment store as it
    /// stands, and says what the driver does next.
    pub fn step(&mut self, frame: &[u8], store: &AckStore) -> (action: Action)
        ensures
            (final(self)@, action@) == spec_step(old(self)@, frame@, store@),
    {
        if self.awaiting.is_some() {
            return Action::Respond(error_reply(ServerError::OutOfTurn));
        }
        if frame.len() == 0 {
            return Action::Read(1);
        }
        match self.state {
            SessionState::Closed => {
                return Action::Respond(error_reply(ServerError::SessionClosed));
            },
            _ => {},
        }
        let kind = frame[0];
        if kind == MSG_HELLO {
            return self.step_hello(frame);
        }
        match self.state {
            SessionState::Unauthenticated => {
                return Action::Respond(error_reply(ServerError::HandshakeRequired));
            },
            _ => {},
        }
        if kind == MSG_CONFIG_GEOMETRY || kind == MSG_UPDATE_GEOMETRY {
            self.step_geometry(frame)
        } else if kind == MSG_SEND_DATA {
            self.step_send(frame)
        } else if kind == MSG_READ_DATA {
            self.step_read(frame, store)
        } else if kind == MSG_CLOSE {
            self.step_close(frame)
        } else {
            Action::Respond(error_reply(ServerError::UnknownMessageType(kind)))
        }
    }

    /// Settles the signal that was passed on: `delivered` tells whether the simulation owner
    /// took it. Gives the reply to write, or nothing where no signal was awaiting its outcome.
    pub fn settle(&mut self, delivered: bool) -> (reply: Option<Reply>)
        ensures
            final(self)@ == spec_settle(old(self)@, delivered).0,
            match reply {
                Some(r) => spec_settle(old(self)@, delivered).1 == Some(r@),
                None => spec_settle(old(self)@, delivered).1.is_none(),
            },
    {
        proof {
            use_type_invariant(&*self);
        }
        match self.awaiting {
            None => None,
            Some(pending) => {
                self.awaiting = None;
                if !delivered {
                    return Some(error_reply(ServerError::SimulatorClosed));
                }
                match pending {
                    Pending::ConfigGeometry(count) => {
                        self.device_count = count;
                        Some(ok_reply(false))
                    },
                    Pending::UpdateGeometry => Some(ok_reply(false)),
                    Pending::Send => Some(ok_reply(false)),
                    Pending::Close => {
                        self.state = SessionState::Closed;
                        Some(ok_reply(true))
                    },
                }
            },
        }
    }
}

} // verus!
