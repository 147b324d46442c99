//! The frames of the device-link protocol.
//!
//! Every request starts with one byte that names its type. A handshake carries the protocol
//! version in two bytes and the magic token in eleven. A geometry request carries the device
//! count in four bytes and then 28 bytes for each device. A send request carries one command
//! record for each configured device. Read and close requests carry nothing. A response starts
//! with a status byte; an error carries the length of its message in four bytes and then the
//! message. All numbers are little-endian.

use vstd::prelude::*;
use vstd::slice::slice_subrange;
use vstd::string::StringSliceAdditionalSpecFns;
use crate::geometry::{
    decode_geometry, encode_geometry, lemma_geometry_decode_encode,
    lemma_geometry_encode_decode, spec_decode_geometry, spec_encode_geometry,
    spec_geometry_framed, Device, Geometry,
};
use crate::link::{
    command_bytes, commands_len, commands_wf, decode_commands, encode_commands, encode_statuses,
    lemma_commands_decode_encode, lemma_commands_encode_decode, spec_decode_commands,
    spec_encode_commands, spec_encode_statuses, RxStatus, TxCommand, TX_RECORD_SIZE,
};
use crate::wire::{
    get_u16_le, get_u32_le, lemma_u16_decode_encode, lemma_u16_encode_decode,
    lemma_u32_decode_encode, put_u16_le, put_u32_le, spec_u16_from_le, spec_u16_le,
    spec_u32_from_le, spec_u32_le,
};

verus! {

/// The type byte of a request that replaces the geometry.
pub const MSG_CONFIG_GEOMETRY: u8 = 0x01;

/// The type byte of a request that moves the devices of the geometry.
pub const MSG_UPDATE_GEOMETRY: u8 = 0x02;

/// The type byte of a request that carries command records.
pub const MSG_SEND_DATA: u8 = 0x03;

/// The type byte of a request for the statuses.
pub const MSG_READ_DATA: u8 = 0x04;

/// The type byte of a request that closes the session.
pub const MSG_CLOSE: u8 = 0x05;

/// The type byte of a handshake.
pub const MSG_HELLO: u8 = 0x10;

/// The status byte of a response to a request that was carried out.
pub const MSG_OK: u8 = 0x00;

/// The status byte of a response to a request that failed.
pub const MSG_ERROR: u8 = 0xFF;

/// The one protocol version that is served.
pub const REMOTE_PROTOCOL_VERSION: u16 = 1;

/// Bytes in the magic token.
pub const MAGIC_LEN: usize = 11;

/// The magic token, `AUTD3REMOTE` in ASCII.
pub open spec fn spec_magic() -> Seq<u8> {
    seq![0x41u8, 0x55u8, 0x54u8, 0x44u8, 0x33u8, 0x52u8, 0x45u8, 0x4Du8, 0x4Fu8, 0x54u8, 0x45u8]
}

/// The byte of the magic token at `index`.
fn magic_byte(index: usize) -> (b: u8)
    requires
        index < MAGIC_LEN,
    ensures
        b == spec_magic()[index as int],
{
    if index == 0 {
        0x41
    } else if index == 1 {
        0x55
    } else if index == 2 {
        0x54
    } else if index == 3 {
        0x44
    } else if index == 4 {
        0x33
    } else if index == 5 {
        0x52
    } else if index == 6 {
        0x45
    } else if index == 7 {
        0x4D
    } else if index == 8 {
        0x4F
    } else if index == 9 {
        0x54
    } else {
        0x45
    }
}

/// The magic token.
pub fn magic() -> (m: Vec<u8>)
    ensures
        m@ == spec_magic(),
{
    let mut m: Vec<u8> = Vec::new();
    let mut i: usize = 0;
    while i < MAGIC_LEN
        invariant
            i <= MAGIC_LEN,
            m@ == spec_magic().take(i as int),
        decreases MAGIC_LEN - i,
    {
        m.push(magic_byte(i));
        i += 1;
        assert(m@ =~= spec_magic().take(i as int));
    }
    assert(spec_magic().take(MAGIC_LEN as int) =~= spec_magic());
    m
}

/// Whether the eleven bytes of `bytes` from `at` on are the magic token.
pub(crate) fn is_magic(bytes: &[u8], at: usize) -> (r: bool)
    requires
        at + MAGIC_LEN <= bytes@.len(),
    ensures
        r <==> bytes@.subrange(at as int, at + MAGIC_LEN) == spec_magic(),
{
    let total = bytes.len();
    let ghost token = bytes@.subrange(at as int, at + MAGIC_LEN);
    let mut i: usize = 0;
    while i < MAGIC_LEN
        invariant
            total == bytes@.len(),
            at + MAGIC_LEN <= total,
            i <= MAGIC_LEN,
            token == bytes@.subrange(at as int, at + MAGIC_LEN),
            forall|k: int| 0 <= k < i ==> token[k] == spec_magic()[k],
        decreases MAGIC_LEN - i,
    {
        if bytes[at + i] != magic_byte(i) {
            assert(token[i as int] != spec_magic()[i as int]);
            return false;
        }
        i += 1;
    }
    assert(token =~= spec_magic());
    true
}

/// Appends every byte of `src` to `out`.
pub fn put_bytes(out: &mut Vec<u8>, src: &[u8])
    ensures
        final(out)@ == old(out)@ + src@,
{
    let mut i: usize = 0;
    while i < src.len()
        invariant
            i <= src@.len(),
            out@ == old(out)@ + src@.take(i as int),
        decreases src@.len() - i,
    {
        out.push(src[i]);
        i += 1;
        assert(out@ =~= old(out)@ + src@.take(i as int));
    }
    assert(src@.take(src@.len() as int) =~= src@);
}

/// What a client may ask for.
#[derive(Debug, PartialEq, Eq)]
pub enum Request {
    Hello { version: u16, magic: Vec<u8> },
    ConfigGeometry(Geometry),
    UpdateGeometry(Geometry),
    Send(Vec<TxCommand>),
    Read,
    Close,
}

/// A request as plain values.
pub enum RequestView {
    Hello { version: u16, magic: Seq<u8> },
    ConfigGeometry(Seq<Device>),
    UpdateGeometry(Seq<Device>),
    Send(Seq<Seq<u8>>),
    Read,
    Close,
}

impl View for Request {
    type V = RequestView;

    open spec fn view(&self) -> RequestView {
        match self {
            Request::Hello { version, magic } => RequestView::Hello {
                version: *version,
                magic: magic@,
            },
            Request::ConfigGeometry(g) => RequestView::ConfigGeometry(g@),
            Request::UpdateGeometry(g) => RequestView::UpdateGeometry(g@),
            Request::Send(cmds) => RequestView::Send(command_bytes(cmds@)),
            Request::Read => RequestView::Read,
            Request::Close => RequestView::Close,
        }
    }
}

/// The frame of a request.
pub open spec fn spec_encode_request(r: RequestView) -> Seq<u8> {
    match r {
        RequestView::Hello { version, magic } => seq![MSG_HELLO] + spec_u16_le(version) + magic,
        RequestView::ConfigGeometry(ds) => seq![MSG_CONFIG_GEOMETRY] + spec_encode_geometry(ds),
        RequestView::UpdateGeometry(ds) => seq![MSG_UPDATE_GEOMETRY] + spec_encode_geometry(ds),
        RequestView::Send(records) => seq![MSG_SEND_DATA] + spec_encode_commands(records),
        RequestView::Read => seq![MSG_READ_DATA],
        RequestView::Close => seq![MSG_CLOSE],
    }
}

/// The frame of `request`.
pub fn encode_request(request: &Request) -> (out: Vec<u8>)
    ensures
        out@ == spec_encode_request(request@),
{
    let mut out: Vec<u8> = Vec::new();
    match request {
        Request::Hello { version, magic } => {
            out.push(MSG_HELLO);
            put_u16_le(&mut out, *version);
            put_bytes(&mut out, magic.as_slice());
        },
        Request::ConfigGeometry(g) => {
            out.push(MSG_CONFIG_GEOMETRY);
            let body = encode_geometry(g);
            put_bytes(&mut out, body.as_slice());
        },
        Request::UpdateGeometry(g) => {
            out.push(MSG_UPDATE_GEOMETRY);
            let body = encode_geometry(g);
            put_bytes(&mut out, body.as_slice());
        },
        Request::Send(cmds) => {
            out.push(MSG_SEND_DATA);
            let body = encode_commands(cmds);
            put_bytes(&mut out, body.as_slice());
        },
        Request::Read => {
            out.push(MSG_READ_DATA);
        },
        Request::Close => {
            out.push(MSG_CLOSE);
        },
    }
    assert(out@ =~= spec_encode_request(request@));
    out
}

/// The response to a request that was carried out and returns nothing.
pub open spec fn spec_ok_response() -> Seq<u8> {
    seq![MSG_OK]
}

/// The response to a read request: the status byte, then the statuses.
pub open spec fn spec_read_response(statuses: Seq<RxStatus>) -> Seq<u8> {
    seq![MSG_OK] + spec_encode_statuses(statuses)
}

/// The part of a message that an error response carries: all of it, up to what its four
/// length bytes can count.
pub open spec fn spec_error_text(message: Seq<u8>) -> Seq<u8> {
    if message.len() <= u32::MAX {
        message
    } else {
        message.take(u32::MAX as int)
    }
}

/// The response to a request that failed: the status byte, the length of the message, and
/// the message.
pub open spec fn spec_error_response(message: Seq<u8>) -> Seq<u8> {
    seq![MSG_ERROR] + spec_u32_le(spec_error_text(message).len() as u32) + spec_error_text(
        message,
    )
}

/// The response to a request that was carried out and returns nothing.
pub fn ok_response() -> (out: Vec<u8>)
    ensures
        out@ == spec_ok_response(),
{
    let mut out: Vec<u8> = Vec::new();
    out.push(MSG_OK);
    assert(out@ =~= spec_ok_response());
    out
}

/// The response to a read request that returns `statuses`.
pub fn read_response(statuses: &[RxStatus]) -> (out: Vec<u8>)
    ensures
        out@ == spec_read_response(statuses@),
        out@.len() == 1 + 2 * statuses@.len(),
{
    let mut out: Vec<u8> = Vec::new();
    out.push(MSG_OK);
    let body = encode_statuses(statuses);
    put_bytes(&mut out, body.as_slice());
    assert(out@ =~= spec_read_response(statuses@));
    out
}

/// The response that tells the client `message`.
pub fn error_response(message: &str) -> (out: Vec<u8>)
    ensures
        out@ == spec_error_response(message.spec_bytes()),
{
    let bytes = message.as_bytes();
    let len = bytes.len();
    let count: u32 = if len as u64 <= u32::MAX as u64 {
        len as u32
    } else {
        u32::MAX
    };
    let mut out: Vec<u8> = Vec::new();
    out.push(MSG_ERROR);
    put_u32_le(&mut out, count);
    let ghost head = out@;
    let mut i: usize = 0;
    while i < count as usize
        invariant
            len == bytes@.len(),
            count <= len,
            i <= count,
            out@ == head + bytes@.take(i as int),
        decreases count - i,
    {
        out.push(bytes[i]);
        i += 1;
        assert(out@ =~= head + bytes@.take(i as int));
    }
    proof {
        assert(bytes@.take(count as int) =~= spec_error_text(bytes@));
        assert(out@ =~= spec_error_response(bytes@));
    }
    out
}

/// Whether `frame` is one whole request, for a session of `device_count` devices.
pub open spec fn spec_request_framed(frame: Seq<u8>, device_count: nat) -> bool {
    frame.len() >= 1 && if frame[0] == MSG_HELLO {
        frame.len() == 3 + MAGIC_LEN
    } else if frame[0] == MSG_CONFIG_GEOMETRY || frame[0] == MSG_UPDATE_GEOMETRY {
        spec_geometry_framed(frame.subrange(1, frame.len() as int))
    } else if frame[0] == MSG_SEND_DATA {
        frame.len() == 1 + TX_RECORD_SIZE * device_count
    } else if frame[0] == MSG_READ_DATA || frame[0] == MSG_CLOSE {
        frame.len() == 1
    } else {
        false
    }
}

/// The request that a whole frame holds.
pub open spec fn spec_decode_request(frame: Seq<u8>, device_count: nat) -> RequestView
    recommends
        spec_request_framed(frame, device_count),
{
    let body = frame.subrange(1, frame.len() as int);
    if frame[0] == MSG_HELLO {
        RequestView::Hello {
            version: spec_u16_from_le(frame.subrange(1, 3)),
            magic: frame.subrange(3, frame.len() as int),
        }
    } else if frame[0] == MSG_CONFIG_GEOMETRY {
        RequestView::ConfigGeometry(spec_decode_geometry(body))
    } else if frame[0] == MSG_UPDATE_GEOMETRY {
        RequestView::UpdateGeometry(spec_decode_geometry(body))
    } else if frame[0] == MSG_SEND_DATA {
        RequestView::Send(spec_decode_commands(body, device_count))
    } else if frame[0] == MSG_READ_DATA {
        RequestView::Read
    } else {
        RequestView::Close
    }
}

/// Whether a request can be put on the wire for a session of `device_count` devices: the
/// token has its eleven bytes, the devices can be counted in four bytes, and there is one
/// whole command record for each device.
pub open spec fn spec_request_wf(r: RequestView, device_count: nat) -> bool {
    match r {
        RequestView::Hello { version, magic } => magic.len() == MAGIC_LEN,
        RequestView::ConfigGeometry(ds) => ds.len() <= u32::MAX,
        RequestView::UpdateGeometry(ds) => ds.len() <= u32::MAX,
        RequestView::Send(records) => records.len() == device_count && commands_wf(records),
        RequestView::Read => true,
        RequestView::Close => true,
    }
}

/// The request that `frame` holds, where it is one whole request for a session of
/// `device_count` devices.
pub fn decode_request(frame: &[u8], device_count: u32) -> (r: Option<Request>)
    ensures
        r is Some <==> spec_request_framed(frame@, device_count as nat),
        r matches Some(request) ==> request@ == spec_decode_request(frame@, device_count as nat),
{
    let len = frame.len();
    if len < 1 {
        return None;
    }
    let kind = frame[0];
    if kind == MSG_HELLO {
        if len != 3 + MAGIC_LEN {
            return None;
        }
        let version = get_u16_le(frame, 1);
        let mut magic: Vec<u8> = Vec::new();
        put_bytes(&mut magic, slice_subrange(frame, 3, len));
        assert(magic@ =~= frame@.subrange(3, len as int));
        Some(Request::Hello { version, magic })
    } else if kind == MSG_CONFIG_GEOMETRY || kind == MSG_UPDATE_GEOMETRY {
        match decode_geometry(slice_subrange(frame, 1, len)) {
            Some(g) => if kind == MSG_CONFIG_GEOMETRY {
                Some(Request::ConfigGeometry(g))
            } else {
                Some(Request::UpdateGeometry(g))
            },
            None => None,
        }
    } else if kind == MSG_SEND_DATA {
        let need: u64 = 1 + commands_len(device_count);
        if len as u64 != need {
            return None;
        }
        match decode_commands(slice_subrange(frame, 1, len)) {
            Some(cmds) => Some(Request::Send(cmds)),
            None => {
                proof {
                    assert(false);
                }
                None
            },
        }
    } else if kind == MSG_READ_DATA {
        if len == 1 {
            Some(Request::Read)
        } else {
            None
        }
    } else if kind == MSG_CLOSE {
        if len == 1 {
            Some(Request::Close)
        } else {
            None
        }
    } else {
        None
    }
}

/// A request that can be put on the wire comes back from its frame unchanged.
pub proof fn lemma_request_decode_encode(r: RequestView, device_count: nat)
    requires
        spec_request_wf(r, device_count),
    ensures
        spec_request_framed(spec_encode_request(r), device_count),
        spec_decode_request(spec_encode_request(r), device_count) == r,
{
    let frame = spec_encode_request(r);
    let body = frame.subrange(1, frame.len() as int);
    match r {
        RequestView::Hello { version, magic } => {
            lemma_u16_decode_encode(version);
            assert(frame.subrange(1, 3) =~= spec_u16_le(version));
            assert(frame.subrange(3, frame.len() as int) =~= magic);
        },
        RequestView::ConfigGeometry(ds) => {
            assert(body =~= spec_encode_geometry(ds));
            lemma_geometry_decode_encode(ds);
        },
        RequestView::UpdateGeometry(ds) => {
            assert(body =~= spec_encode_geometry(ds));
            lemma_geometry_decode_encode(ds);
        },
        RequestView::Send(records) => {
            assert(body =~= spec_encode_commands(records));
            lemma_commands_decode_encode(records);
        },
        RequestView::Read => {},
        RequestView::Close => {},
    }
}

/// A whole frame is the encoding of the request it holds.
pub proof fn lemma_request_encode_decode(frame: Seq<u8>, device_count: nat)
    requires
        spec_request_framed(frame, device_count),
    ensures
        spec_request_wf(spec_decode_request(frame, device_count), device_count),
        spec_encode_request(spec_decode_request(frame, device_count)) == frame,
{
    let body = frame.subrange(1, frame.len() as int);
    if frame[0] == MSG_HELLO {
        lemma_u16_encode_decode(frame.subrange(1, 3));
        assert(seq![MSG_HELLO] + frame.subrange(1, 3) + frame.subrange(3, frame.len() as int)
            =~= frame);
    } else if frame[0] == MSG_CONFIG_GEOMETRY || frame[0] == MSG_UPDATE_GEOMETRY {
        lemma_geometry_encode_decode(body);
        assert(seq![frame[0]] + body =~= frame);
    } else if frame[0] == MSG_SEND_DATA {
        lemma_commands_encode_decode(body, device_count);
        assert(seq![frame[0]] + body =~= frame);
    } else {
        assert(seq![frame[0]] =~= frame);
    }
}

/// What a server answers.
#[derive(Debug, PartialEq, Eq)]
pub enum Response {
    /// The request was carried out; the bytes are what it returns.
    Done(Vec<u8>),
    /// The request failed; the bytes are the message.
    Failed(Vec<u8>),
}

/// A response as plain values.
pub enum ResponseView {
    Done(Seq<u8>),
    Failed(Seq<u8>),
}

impl View for Response {
    type V = ResponseView;

    open spec fn view(&self) -> ResponseView {
        match self {
            Response::Done(body) => ResponseView::Done(body@),
            Response::Failed(message) => ResponseView::Failed(message@),
        }
    }
}

/// The bytes of a response.
pub open spec fn spec_encode_response(r: ResponseView) -> Seq<u8> {
    match r {
        ResponseView::Done(body) => seq![MSG_OK] + body,
        ResponseView::Failed(message) => spec_error_response(message),
    }
}

/// Whether `bytes` is one whole response: a success with whatever follows, or an error
/// whose message is as long as its length says.
pub open spec fn spec_response_framed(bytes: Seq<u8>) -> bool {
    bytes.len() >= 1 && if bytes[0] == MSG_OK {
        true
    } else if bytes[0] == MSG_ERROR {
        bytes.len() >= 5 && bytes.len() == 5 + spec_u32_from_le(bytes.subrange(1, 5))
    } else {
        false
    }
}

/// The response that whole bytes hold.
pub open spec fn spec_decode_response(bytes: Seq<u8>) -> ResponseView
    recommends
        spec_response_framed(bytes),
{
    if bytes[0] == MSG_OK {
        ResponseView::Done(bytes.subrange(1, bytes.len() as int))
    } else {
        ResponseView::Failed(bytes.subrange(5, bytes.len() as int))
    }
}

/// The response that `bytes` holds, where they are one whole response.
pub fn decode_response(bytes: &[u8]) -> (r: Option<Response>)
    ensures
        r is Some <==> spec_response_framed(bytes@),
        r matches Some(response) ==> response@ == spec_decode_response(bytes@),
{
    let len = bytes.len();
    if len < 1 {
        return None;
    }
    if bytes[0] == MSG_OK {
        let mut body: Vec<u8> = Vec::new();
        put_bytes(&mut body, slice_subrange(bytes, 1, len));
        assert(body@ =~= bytes@.subrange(1, len as int));
        Some(Response::Done(body))
    } else if bytes[0] == MSG_ERROR {
        if len < 5 {
            return None;
        }
        let count = get_u32_le(bytes, 1);
        if len as u64 != 5 + count as u64 {
            return None;
        }
        let mut message: Vec<u8> = Vec::new();
        put_bytes(&mut message, slice_subrange(bytes, 5, len));
        assert(message@ =~= bytes@.subrange(5, len as int));
        Some(Response::Failed(message))
    } else {
        None
    }
}

/// A response comes back from its bytes unchanged, where its message is no longer than four
/// bytes can count.
pub proof fn lemma_response_decode_encode(r: ResponseView)
    requires
        r matches ResponseView::Failed(message) ==> message.len() <= u32::MAX,
    ensures
        spec_response_framed(spec_encode_response(r)),
        spec_decode_response(spec_encode_response(r)) == r,
{
    let bytes = spec_encode_response(r);
    match r {
        ResponseView::Done(body) => {
            assert(bytes.subrange(1, bytes.len() as int) =~= body);
        },
        ResponseView::Failed(message) => {
            lemma_u32_decode_encode(message.len() as u32);
            assert(bytes.subrange(1, 5) =~= spec_u32_le(message.len() as u32));
            assert(bytes.subrange(5, bytes.len() as int) =~= message);
        },
    }
}

} // verus!
