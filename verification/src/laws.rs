//! What holds of the protocol and of the simulation owner, whatever the inputs.

use vstd::prelude::*;
use crate::ack_store::{spec_publish, spec_read_statuses, spec_zero_statuses};
use crate::channel::{
    lemma_recv_all_takes_in_order, lemma_send_all_appends, spec_close, spec_recv,
    spec_recv_all, spec_send, spec_send_all, ChannelView,
};
use crate::codec::{
    spec_decode_request, spec_encode_request, spec_magic, spec_request_framed, RequestView,
    MSG_CONFIG_GEOMETRY, MSG_HELLO, MSG_OK, MSG_READ_DATA, MSG_UPDATE_GEOMETRY,
    REMOTE_PROTOCOL_VERSION,
};
use crate::error::{ErrorKind, ServerError};
use crate::geometry::{
    lemma_devices_len, lemma_geometry_decode_encode, lemma_geometry_encode_decode,
    spec_decode_geometry, spec_encode_geometry, spec_geometry_framed, Device,
};
use crate::link::{
    commands_wf, lemma_commands_decode_encode, spec_encode_commands, spec_encode_status,
    spec_encode_statuses, RxStatus, TX_RECORD_SIZE,
};
use crate::record::{lemma_concat_empty, lemma_concat_push};
use crate::session::{
    spec_error_reply, spec_forward, spec_fresh, spec_ok_reply, spec_reject, spec_serve,
    spec_session_inv, spec_settle, spec_step, spec_step_geometry, ActionView, Pending, ReplyView, SessionState, SessionView,
};
use crate::signal::SignalView;
use crate::simulator::{
    spec_claimant, spec_drain, spec_recompute, spec_resets_store, spec_serves,
    spec_simulator_inv, spec_update, DirectiveView, SimulatorView, Step,
};
use crate::update_flag::UpdateKind;
use crate::wire::{lemma_u16_decode_encode, lemma_u32_decode_encode, spec_u32_from_le};

verus! {

/// A geometry goes through the wire unchanged: decoding its encoding gives the geometry
/// back, so encoding, decoding and encoding again gives the same bytes as encoding once.
pub proof fn law_geometry_roundtrip(devices: Seq<Device>)
    requires
        devices.len() <= u32::MAX,
    ensures
        spec_geometry_framed(spec_encode_geometry(devices)),
        spec_decode_geometry(spec_encode_geometry(devices)) == devices,
        spec_encode_geometry(spec_decode_geometry(spec_encode_geometry(devices)))
            == spec_encode_geometry(devices),
{
    lemma_geometry_decode_encode(devices);
}

/// Every well-framed geometry body is the encoding of the geometry it decodes to, so no two
/// bodies stand for one geometry.
pub proof fn law_geometry_bytes_roundtrip(bytes: Seq<u8>)
    requires
        spec_geometry_framed(bytes),
    ensures
        spec_decode_geometry(bytes).len() <= u32::MAX,
        spec_encode_geometry(spec_decode_geometry(bytes)) == bytes,
{
    lemma_geometry_encode_decode(bytes);
}

/// A session refuses, as it stands, whatever is refused: an error leaves the session
/// unchanged, ends the connection, and passes no signal on.
pub proof fn law_reject_changes_nothing(s: SessionView, e: ServerError)
    ensures
        spec_reject(s, e).0 == s,
        spec_reject(s, e).1 == ActionView::Respond(spec_error_reply(e)),
        spec_error_reply(e).close,
        spec_error_reply(e).error == Some(e),
{
}

/// Before a handshake has completed, any request that is not a handshake is refused as a
/// protocol error: no signal reaches the simulation, and the session stays as it was.
pub proof fn law_command_before_handshake(s: SessionView, frame: Seq<u8>, store: Seq<RxStatus>)
    requires
        spec_session_inv(s),
        s.state is Unauthenticated,
        frame.len() > 0,
        frame[0] != MSG_HELLO,
    ensures
        spec_step(s, frame, store) == spec_reject(s, ServerError::HandshakeRequired),
        ServerError::HandshakeRequired.spec_kind() == ErrorKind::Protocol,
{
}

/// A geometry update that names another device count than the configured one is refused as
/// a protocol error as soon as the count has been read: no signal reaches the simulation,
/// and the session stays as it was.
pub proof fn law_update_with_other_count(s: SessionView, frame: Seq<u8>, store: Seq<RxStatus>)
    requires
        s.state is Ready,
        frame.len() >= 5,
        frame[0] == MSG_UPDATE_GEOMETRY,
        spec_u32_from_le(frame.subrange(1, 5)) != s.device_count,
    ensures
        spec_step(s, frame, store) == spec_reject(
            s,
            if s.awaiting is Some {
                ServerError::OutOfTurn
            } else {
                ServerError::DeviceCountMismatch {
                    expected: s.device_count,
                    actual: spec_u32_from_le(frame.subrange(1, 5)),
                }
            },
        ),
        ServerError::OutOfTurn.spec_kind() == ErrorKind::Protocol,
        (ServerError::DeviceCountMismatch {
            expected: s.device_count,
            actual: spec_u32_from_le(frame.subrange(1, 5)),
        }).spec_kind() == ErrorKind::Protocol,
{
}

/// The simulation owner ignores a geometry update whose device count is not that of the
/// geometry: state, store and marks stay as they were.
pub proof fn law_owner_ignores_other_count(
    sim: SimulatorView,
    store: Seq<RxStatus>,
    devices: Seq<Device>,
)
    requires
        devices.len() != sim.device_count(),
    ensures
        spec_update(sim, store, Some(SignalView::UpdateGeometry(devices))) == (
            sim,
            store,
            DirectiveView::Tick,
        ),
{
}

/// A handshake with another version than the supported one, or with another token than the
/// magic one, is refused, and the session remains unauthenticated.
pub proof fn law_bad_handshake(
    s: SessionView,
    version: u16,
    magic: Seq<u8>,
    store: Seq<RxStatus>,
)
    requires
        spec_session_inv(s),
        s.state is Unauthenticated,
        magic.len() == 11,
        version != REMOTE_PROTOCOL_VERSION || magic != spec_magic(),
    ensures
        spec_step(s, spec_encode_request(RequestView::Hello { version, magic }), store)
            == spec_reject(
            s,
            if version != REMOTE_PROTOCOL_VERSION {
                ServerError::UnsupportedVersion(version)
            } else {
                ServerError::InvalidMagic
            },
        ),
        spec_step(s, spec_encode_request(RequestView::Hello { version, magic }), store).0.state
            is Unauthenticated,
{
    let frame = spec_encode_request(RequestView::Hello { version, magic });
    lemma_u16_decode_encode(version);
    assert(frame.subrange(1, 3) =~= crate::wire::spec_u16_le(version));
    assert(frame.subrange(3, 14) =~= magic);
}

/// A handshake with the supported version and the magic token makes an unauthenticated
/// session ready, and is answered with the one byte that says so.
pub proof fn law_good_handshake(s: SessionView, store: Seq<RxStatus>)
    requires
        spec_session_inv(s),
        s.state is Unauthenticated,
    ensures
        spec_step(
            s,
            spec_encode_request(
                RequestView::Hello { version: REMOTE_PROTOCOL_VERSION, magic: spec_magic() },
            ),
            store,
        ) == (
            SessionView { state: SessionState::Ready, ..s },
            ActionView::Respond(spec_ok_reply(false)),
        ),
        spec_ok_reply(false).bytes == seq![MSG_OK],
{
    let frame = spec_encode_request(
        RequestView::Hello { version: REMOTE_PROTOCOL_VERSION, magic: spec_magic() },
    );
    lemma_u16_decode_encode(REMOTE_PROTOCOL_VERSION);
    assert(frame.subrange(1, 3) =~= crate::wire::spec_u16_le(REMOTE_PROTOCOL_VERSION));
    assert(frame.subrange(3, 14) =~= spec_magic());
}

/// The shape of a geometry request: the type byte, the count, and 28 bytes for each device.
proof fn lemma_geometry_frame(devices: Seq<Device>, kind: u8)
    requires
        devices.len() <= u32::MAX,
    ensures
        ({
            let frame = seq![kind] + spec_encode_geometry(devices);
            &&& frame.len() == 5 + 28 * devices.len()
            &&& frame[0] == kind
            &&& spec_u32_from_le(frame.subrange(1, 5)) == devices.len()
            &&& frame.subrange(1, frame.len() as int) == spec_encode_geometry(devices)
        }),
{
    let body = spec_encode_geometry(devices);
    let frame = seq![kind] + body;
    lemma_devices_len(devices);
    lemma_u32_decode_encode(devices.len() as u32);
    assert(frame.subrange(1, frame.len() as int) =~= body);
    assert(frame.subrange(1, 5) =~= crate::wire::spec_u32_le(devices.len() as u32));
}

/// A ready session passes a whole geometry configuration on as the signal that carries the
/// same devices.
pub proof fn law_config_request_is_forwarded(
    s: SessionView,
    devices: Seq<Device>,
    store: Seq<RxStatus>,
)
    requires
        s.state is Ready,
        s.awaiting is None,
        devices.len() <= u32::MAX,
        5 + 28 * devices.len() <= usize::MAX,
    ensures
        spec_step(s, spec_encode_request(RequestView::ConfigGeometry(devices)), store)
            == spec_forward(
            s,
            Pending::ConfigGeometry(devices.len() as u32),
            SignalView::ConfigGeometry(devices),
        ),
{
    let frame = spec_encode_request(RequestView::ConfigGeometry(devices));
    assert(frame == seq![MSG_CONFIG_GEOMETRY] + spec_encode_geometry(devices));
    lemma_geometry_frame(devices, MSG_CONFIG_GEOMETRY);
    lemma_geometry_decode_encode(devices);
    assert(spec_step(s, frame, store) == spec_step_geometry(s, frame));
}

/// A ready session passes a whole geometry update on as the signal that carries the same
/// devices, where there are as many as the session has configured.
pub proof fn law_update_request_is_forwarded(
    s: SessionView,
    devices: Seq<Device>,
    store: Seq<RxStatus>,
)
    requires
        s.state is Ready,
        s.awaiting is None,
        devices.len() == s.device_count,
        5 + 28 * devices.len() <= usize::MAX,
    ensures
        spec_step(s, spec_encode_request(RequestView::UpdateGeometry(devices)), store)
            == spec_forward(s, Pending::UpdateGeometry, SignalView::UpdateGeometry(devices)),
{
    let frame = spec_encode_request(RequestView::UpdateGeometry(devices));
    assert(frame == seq![MSG_UPDATE_GEOMETRY] + spec_encode_geometry(devices));
    lemma_geometry_frame(devices, MSG_UPDATE_GEOMETRY);
    lemma_geometry_decode_encode(devices);
    assert(spec_step(s, frame, store) == spec_step_geometry(s, frame));
}

/// A ready session passes a whole send request on as the signal that carries the same
/// records, where there is one record for each device of the session.
pub proof fn law_send_request_is_forwarded(
    s: SessionView,
    records: Seq<Seq<u8>>,
    store: Seq<RxStatus>,
)
    requires
        s.state is Ready,
        s.awaiting is None,
        commands_wf(records),
        records.len() == s.device_count,
        1 + TX_RECORD_SIZE * records.len() <= usize::MAX,
    ensures
        spec_step(s, spec_encode_request(RequestView::Send(records)), store) == spec_forward(
            s,
            Pending::Send,
            SignalView::Send(records),
        ),
{
    let body = spec_encode_commands(records);
    let frame = spec_encode_request(RequestView::Send(records));
    lemma_commands_decode_encode(records);
    assert(frame.subrange(1, frame.len() as int) =~= body);
}

/// The session serves a whole frame as it serves the request that the frame holds: what the
/// state machine reads off the bytes is what the codec reads off them.
pub proof fn law_step_serves_the_request(s: SessionView, frame: Seq<u8>, store: Seq<RxStatus>)
    requires
        spec_request_framed(frame, s.device_count as nat),
    ensures
        spec_step(s, frame, store) == spec_serve(
            s,
            spec_decode_request(frame, s.device_count as nat),
            store,
        ),
{
    let body = frame.subrange(1, frame.len() as int);
    if frame[0] == MSG_CONFIG_GEOMETRY || frame[0] == MSG_UPDATE_GEOMETRY {
        assert(body.subrange(0, 4) =~= frame.subrange(1, 5));
    } else if frame[0] == MSG_HELLO {
        assert(frame.subrange(3, frame.len() as int) =~= frame.subrange(3, 14));
    } else if frame[0] == MSG_READ_DATA {
        assert(frame =~= seq![MSG_READ_DATA]);
    }
}

/// While a request is still arriving, the session asks for bytes of that request and no
/// others: on any proper prefix of a whole frame it either asks for more, and never for
/// more than the frame has left, or refuses at once what it would refuse of the whole
/// frame. It passes no signal on and reports no success before the frame is whole.
pub proof fn law_reads_stay_within_the_request(
    s: SessionView,
    frame: Seq<u8>,
    store: Seq<RxStatus>,
    k: int,
)
    requires
        spec_request_framed(frame, s.device_count as nat),
        0 <= k < frame.len(),
    ensures
        match spec_step(s, frame.take(k), store).1 {
            ActionView::Read(n) => n > 0 && k + n <= frame.len() && spec_step(
                s,
                frame.take(k),
                store,
            ).0 == s,
            ActionView::Respond(reply) => reply.error is Some && spec_step(s, frame, store)
                == spec_step(s, frame.take(k), store),
            ActionView::Forward(signal) => false,
        },
{
    let part = frame.take(k);
    let body = frame.subrange(1, frame.len() as int);
    if k >= 1 {
        assert(part[0] == frame[0]);
    }
    if k >= 3 {
        assert(part.subrange(1, 3) =~= frame.subrange(1, 3));
    }
    if k >= 5 {
        assert(part.subrange(1, 5) =~= frame.subrange(1, 5));
    }
    if frame[0] == MSG_CONFIG_GEOMETRY || frame[0] == MSG_UPDATE_GEOMETRY {
        assert(body.subrange(0, 4) =~= frame.subrange(1, 5));
    }
}

/// The wire form of statuses that have reported nothing is all zeros.
pub proof fn lemma_zero_statuses_bytes(n: nat)
    ensures
        spec_encode_statuses(spec_zero_statuses(n)) == Seq::new(2 * n, |i: int| 0u8),
    decreases n,
{
    let enc = |s: RxStatus| spec_encode_status(s);
    let statuses = spec_zero_statuses(n);
    if n == 0 {
        lemma_concat_empty(statuses, enc);
        assert(spec_encode_statuses(statuses) =~= Seq::new(2 * n, |i: int| 0u8));
    } else {
        let m = (n - 1) as nat;
        let zero = RxStatus { data: 0, ack: 0 };
        lemma_zero_statuses_bytes(m);
        assert(statuses =~= spec_zero_statuses(m).push(zero));
        lemma_concat_push(spec_zero_statuses(m), zero, enc);
        assert(spec_encode_status(zero) =~= seq![0u8, 0u8]);
        assert(Seq::new(2 * m, |i: int| 0u8) + seq![0u8, 0u8] =~= Seq::new(2 * n, |i: int| 0u8));
    }
}

/// After a geometry of `n` devices has been configured, and before any command batch has
/// been applied, a read is answered with the status byte and `n` records of zeros.
pub proof fn law_read_after_configure(
    s: SessionView,
    sim: SimulatorView,
    store: Seq<RxStatus>,
    devices: Seq<Device>,
)
    requires
        s.state is Ready,
        s.awaiting is None,
        devices.len() <= u32::MAX,
        5 + 28 * devices.len() <= usize::MAX,
    ensures
        ({
            let configure = spec_encode_request(RequestView::ConfigGeometry(devices));
            let passed = spec_step(s, configure, store);
            let applied = spec_update(sim, store, Some(SignalView::ConfigGeometry(devices)));
            let settled = spec_settle(passed.0, true);
            let read = spec_step(settled.0, seq![MSG_READ_DATA], applied.1);
            &&& passed.1 == ActionView::Forward(SignalView::ConfigGeometry(devices))
            &&& settled.1 == Some(spec_ok_reply(false))
            &&& read.1 == ActionView::Respond(
                ReplyView {
                    bytes: seq![MSG_OK] + Seq::new(2 * devices.len(), |i: int| 0u8),
                    close: false,
                    error: None,
                },
            )
        }),
{
    law_config_request_is_forwarded(s, devices, store);
    lemma_zero_statuses_bytes(devices.len());
    let n = devices.len();
    assert(spec_read_statuses(spec_zero_statuses(n), n) =~= spec_zero_statuses(n));
}

/// Whatever the event, once the owner has applied it and handed out the marks, nothing is
/// marked any more.
pub proof fn law_pass_leaves_no_mark(
    sim: SimulatorView,
    store: Seq<RxStatus>,
    event: Option<SignalView>,
)
    ensures
        spec_drain(spec_update(sim, store, event).0).0.flags == Set::<UpdateKind>::empty(),
{
}

/// When the marks are handed out, a step runs exactly where a mark that it serves is set,
/// and every mark that is set makes the one step run that clears it: no mark is lost, and
/// none is cleared twice.
pub proof fn law_marks_are_claimed(flags: Set<UpdateKind>, step: Step, kind: UpdateKind)
    ensures
        spec_recompute(flags).spec_runs(step) <==> exists|k: UpdateKind|
            flags.contains(k) && spec_serves(step, k),
        flags.contains(kind) ==> spec_recompute(flags).spec_runs(spec_claimant(kind)),
{
    let plan = spec_recompute(flags);
    if plan.spec_runs(step) {
        let k = match step {
            Step::Camera => UpdateKind::Camera,
            Step::TransPos => UpdateKind::TransPos,
            Step::TransState => UpdateKind::TransState,
            Step::TransColor => if flags.contains(UpdateKind::TransAlpha) {
                UpdateKind::TransAlpha
            } else {
                UpdateKind::TransState
            },
            Step::Slice => if flags.contains(UpdateKind::SlicePos) {
                UpdateKind::SlicePos
            } else {
                UpdateKind::SliceSize
            },
            Step::Config => UpdateKind::Config,
            Step::ColorMap => UpdateKind::SliceColorMap,
        };
        assert(flags.contains(k) && spec_serves(step, k));
    }
}

/// Whatever the event, the owner stays in a state it can reach, as long as the geometry it
/// is handed can be counted in four bytes.
pub proof fn law_owner_invariant(
    sim: SimulatorView,
    store: Seq<RxStatus>,
    event: Option<SignalView>,
)
    requires
        spec_simulator_inv(sim),
        event matches Some(SignalView::ConfigGeometry(devices)) ==> devices.len() <= u32::MAX,
    ensures
        spec_simulator_inv(spec_update(sim, store, event).0),
        spec_simulator_inv(spec_drain(sim).0),
{
}

/// The store covers the devices of the geometry, one status for each, and goes on doing so
/// whatever the event: it is sized anew with the geometry, and a snapshot of another size is
/// never taken in.
pub proof fn law_store_covers_the_geometry(
    sim: SimulatorView,
    store: Seq<RxStatus>,
    event: Option<SignalView>,
    statuses: Seq<RxStatus>,
)
    requires
        store.len() == sim.device_count(),
    ensures
        spec_update(sim, store, event).1.len() == spec_update(sim, store, event).0.device_count(),
        spec_publish(store, statuses).len() == sim.device_count(),
        spec_resets_store(event) ==> spec_update(sim, store, event).1 == spec_zero_statuses(
            spec_update(sim, store, event).0.device_count(),
        ),
        !spec_resets_store(event) ==> spec_update(sim, store, event).1 == store,
{
}

/// Signals leave the channel in the order in which they arrived.
pub proof fn law_channel_is_fifo(signals: Seq<SignalView>)
    ensures
        spec_recv_all(
            spec_send_all(ChannelView { pending: Seq::empty(), open: true }, signals),
            signals.len(),
        ) == signals,
{
    let start = ChannelView { pending: Seq::empty(), open: true };
    lemma_send_all_appends(start, signals);
    assert(start.pending + signals =~= signals);
    lemma_recv_all_takes_in_order(spec_send_all(start, signals));
}

/// A channel that the owner has shut takes nothing in, whatever is offered.
pub proof fn law_shut_channel_refuses(c: ChannelView, signal: SignalView)
    ensures
        spec_send(spec_close(c), signal) == (spec_close(c), false),
        spec_recv(spec_close(c)).1.is_none(),
{
}

/// A fresh session is in a state it can reach, and neither a step nor a settlement leads out
/// of such states; a closed session stays closed.
pub proof fn law_session_invariant(
    s: SessionView,
    frame: Seq<u8>,
    store: Seq<RxStatus>,
    delivered: bool,
)
    requires
        spec_session_inv(s),
    ensures
        spec_session_inv(spec_fresh()),
        spec_session_inv(spec_step(s, frame, store).0),
        spec_session_inv(spec_settle(s, delivered).0),
        s.state is Closed ==> spec_step(s, frame, store).0.state is Closed && spec_settle(
            s,
            delivered,
        ).0.state is Closed,
{
}

} // verus!
