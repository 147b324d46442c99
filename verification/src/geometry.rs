//! The configured devices: where each one stands and how it is turned.
//!
//! Every coordinate is kept as the bit pattern of an IEEE 754 binary32 number, which is what
//! travels on the wire; the library never computes with the numbers themselves.

use vstd::prelude::*;
use crate::record::{
    concat_records, lemma_concat_empty, lemma_concat_len, lemma_concat_of_split, lemma_concat_push,
    lemma_split_of_concat, split_records,
};
use crate::wire::{
    get_u32_le, lemma_u32_decode_encode, lemma_u32_encode_decode, put_u32_le, spec_u32_from_le,
    spec_u32_le,
};

verus! {

/// Bytes one device takes on the wire: three words of position, four of rotation.
pub const DEVICE_WIRE_SIZE: usize = 28;

/// A point, by the bit patterns of its three coordinates.
#[derive(Clone, Copy, Debug, PartialEq, Eq, Structural)]
pub struct Position {
    pub x: u32,
    pub y: u32,
    pub z: u32,
}

/// A unit quaternion, by the bit patterns of its four components.
#[derive(Clone, Copy, Debug, PartialEq, Eq, Structural)]
pub struct Rotation {
    pub w: u32,
    pub i: u32,
    pub j: u32,
    pub k: u32,
}

/// One device of the array.
#[derive(Clone, Copy, Debug, PartialEq, Eq, Structural)]
pub struct Device {
    pub pos: Position,
    pub rot: Rotation,
}

/// The wire form of a device: x, y, z, then w, i, j, k, each little-endian.
pub open spec fn spec_encode_device(d: Device) -> Seq<u8> {
    spec_u32_le(d.pos.x) + spec_u32_le(d.pos.y) + spec_u32_le(d.pos.z) + spec_u32_le(d.rot.w)
        + spec_u32_le(d.rot.i) + spec_u32_le(d.rot.j) + spec_u32_le(d.rot.k)
}

/// The device whose wire form is the first 28 bytes of `s`.
pub open spec fn spec_decode_device(s: Seq<u8>) -> Device
    recommends
        s.len() >= 28,
{
    Device {
        pos: Position {
            x: spec_u32_from_le(s.subrange(0, 4)),
            y: spec_u32_from_le(s.subrange(4, 8)),
            z: spec_u32_from_le(s.subrange(8, 12)),
        },
        rot: Rotation {
            w: spec_u32_from_le(s.subrange(12, 16)),
            i: spec_u32_from_le(s.subrange(16, 20)),
            j: spec_u32_from_le(s.subrange(20, 24)),
            k: spec_u32_from_le(s.subrange(24, 28)),
        },
    }
}

/// The wire form of a run of devices.
pub open spec fn spec_encode_devices(ds: Seq<Device>) -> Seq<u8> {
    concat_records(ds, |d: Device| spec_encode_device(d))
}

/// The `n` devices that lie in `bytes`.
pub open spec fn spec_decode_devices(bytes: Seq<u8>, n: nat) -> Seq<Device> {
    split_records(bytes, 28, n, |s: Seq<u8>| spec_decode_device(s))
}

/// The body of a geometry request: the device count in four bytes, then the devices.
pub open spec fn spec_encode_geometry(ds: Seq<Device>) -> Seq<u8>
    recommends
        ds.len() <= u32::MAX,
{
    spec_u32_le(ds.len() as u32) + spec_encode_devices(ds)
}

/// Whether `bytes` is a count followed by exactly that many devices.
pub open spec fn spec_geometry_framed(bytes: Seq<u8>) -> bool {
    bytes.len() >= 4 && bytes.len() == 4 + 28 * spec_u32_from_le(bytes.subrange(0, 4))
}

/// The devices that a well-framed geometry body holds.
pub open spec fn spec_decode_geometry(bytes: Seq<u8>) -> Seq<Device>
    recommends
        spec_geometry_framed(bytes),
{
    spec_decode_devices(
        bytes.subrange(4, bytes.len() as int),
        spec_u32_from_le(bytes.subrange(0, 4)) as nat,
    )
}

/// A device takes 28 bytes, and decoding them gives the device back.
pub proof fn lemma_device_decode_encode(d: Device)
    ensures
        spec_encode_device(d).len() == 28,
        spec_decode_device(spec_encode_device(d)) == d,
{
    let s = spec_encode_device(d);
    lemma_u32_decode_encode(d.pos.x);
    lemma_u32_decode_encode(d.pos.y);
    lemma_u32_decode_encode(d.pos.z);
    lemma_u32_decode_encode(d.rot.w);
    lemma_u32_decode_encode(d.rot.i);
    lemma_u32_decode_encode(d.rot.j);
    lemma_u32_decode_encode(d.rot.k);
    assert(s.subrange(0, 4) =~= spec_u32_le(d.pos.x));
    assert(s.subrange(4, 8) =~= spec_u32_le(d.pos.y));
    assert(s.subrange(8, 12) =~= spec_u32_le(d.pos.z));
    assert(s.subrange(12, 16) =~= spec_u32_le(d.rot.w));
    assert(s.subrange(16, 20) =~= spec_u32_le(d.rot.i));
    assert(s.subrange(20, 24) =~= spec_u32_le(d.rot.j));
    assert(s.subrange(24, 28) =~= spec_u32_le(d.rot.k));
}

/// Any 28 bytes are the wire form of the device they decode to.
pub proof fn lemma_device_encode_decode(s: Seq<u8>)
    requires
        s.len() == 28,
    ensures
        spec_encode_device(spec_decode_device(s)) == s,
{
    lemma_u32_encode_decode(s.subrange(0, 4));
    lemma_u32_encode_decode(s.subrange(4, 8));
    lemma_u32_encode_decode(s.subrange(8, 12));
    lemma_u32_encode_decode(s.subrange(12, 16));
    lemma_u32_encode_decode(s.subrange(16, 20));
    lemma_u32_encode_decode(s.subrange(20, 24));
    lemma_u32_encode_decode(s.subrange(24, 28));
    assert(spec_encode_device(spec_decode_device(s)) =~= s);
}

/// Appends the wire form of `d` to `out`.
pub fn put_device(out: &mut Vec<u8>, d: &Device)
    ensures
        final(out)@ == old(out)@ + spec_encode_device(*d),
{
    put_u32_le(out, d.pos.x);
    put_u32_le(out, d.pos.y);
    put_u32_le(out, d.pos.z);
    put_u32_le(out, d.rot.w);
    put_u32_le(out, d.rot.i);
    put_u32_le(out, d.rot.j);
    put_u32_le(out, d.rot.k);
    assert(out@ =~= old(out)@ + spec_encode_device(*d));
}

/// Reads the device that starts at `at`.
pub(crate) fn get_device(bytes: &[u8], at: usize) -> (d: Device)
    requires
        at + 28 <= bytes@.len(),
    ensures
        d == spec_decode_device(bytes@.subrange(at as int, at + 28)),
{
    let total = bytes.len();
    let ghost s = bytes@.subrange(at as int, at + 28);
    proof {
        assert(at + 28 <= total);
        assert(s.subrange(0, 4) =~= bytes@.subrange(at as int, at + 4));
        assert(s.subrange(4, 8) =~= bytes@.subrange(at + 4, at + 8));
        assert(s.subrange(8, 12) =~= bytes@.subrange(at + 8, at + 12));
        assert(s.subrange(12, 16) =~= bytes@.subrange(at + 12, at + 16));
        assert(s.subrange(16, 20) =~= bytes@.subrange(at + 16, at + 20));
        assert(s.subrange(20, 24) =~= bytes@.subrange(at + 20, at + 24));
        assert(s.subrange(24, 28) =~= bytes@.subrange(at + 24, at + 28));
    }
    Device {
        pos: Position {
            x: get_u32_le(bytes, at),
            y: get_u32_le(bytes, at + 4),
            z: get_u32_le(bytes, at + 8),
        },
        rot: Rotation {
            w: get_u32_le(bytes, at + 12),
            i: get_u32_le(bytes, at + 16),
            j: get_u32_le(bytes, at + 20),
            k: get_u32_le(bytes, at + 24),
        },
    }
}

/// An ordered list of devices, short enough for its length to travel in four bytes.
#[derive(Debug, PartialEq, Eq)]
pub struct Geometry {
    devices: Vec<Device>,
}

impl View for Geometry {
    type V = Seq<Device>;

    closed spec fn view(&self) -> Seq<Device> {
        self.devices@
    }
}

impl Geometry {
    /// The device count fits the four bytes the wire gives it.
    #[verifier::type_invariant]
    pub closed spec fn wf(self) -> bool {
        self.devices@.len() <= u32::MAX
    }

    /// The geometry of `devices`, or nothing where there are more than the wire can count.
    pub fn new(devices: Vec<Device>) -> (r: Option<Geometry>)
        ensures
            r is Some <==> devices@.len() <= u32::MAX,
            r matches Some(g) ==> g.wf() && g@ == devices@,
    {
        if devices.len() as u64 <= u32::MAX as u64 {
            Some(Geometry { devices })
        } else {
            None
        }
    }

    /// How many devices there are.
    pub fn num_devices(&self) -> (n: usize)
        ensures
            n == self@.len(),
            n <= u32::MAX,
    {
        proof {
            use_type_invariant(self);
        }
        self.devices.len()
    }

    /// The device at `index`, or nothing past the end.
    pub fn device(&self, index: usize) -> (r: Option<Device>)
        ensures
            r == if index < self@.len() {
                Some(self@[index as int])
            } else {
                None
            },
    {
        if index < self.devices.len() {
            Some(self.devices[index])
        } else {
            None
        }
    }

    /// A copy of this geometry.
    pub fn duplicate(&self) -> (r: Geometry)
        ensures
            r.wf(),
            r@ == self@,
    {
        proof {
            use_type_invariant(self);
        }
        let mut devices: Vec<Device> = Vec::new();
        let mut i: usize = 0;
        while i < self.devices.len()
            invariant
                i <= self.devices@.len(),
                devices@ == self.devices@.take(i as int),
            decreases self.devices@.len() - i,
        {
            devices.push(self.devices[i]);
            i += 1;
            assert(devices@ =~= self.devices@.take(i as int));
        }
        assert(devices@ =~= self.devices@);
        Geometry { devices }
    }
}

impl Clone for Geometry {
    fn clone(&self) -> (r: Geometry)
        ensures
            r.wf(),
            r@ == self@,
    {
        self.duplicate()
    }
}

/// The wire form of a run of devices is 28 bytes for each.
pub proof fn lemma_devices_len(ds: Seq<Device>)
    ensures
        spec_encode_devices(ds).len() == 28 * ds.len(),
{
    let enc = |d: Device| spec_encode_device(d);
    assert forall|i: int| 0 <= i < ds.len() implies (#[trigger] enc(ds[i])).len() == 28 by {
        lemma_device_decode_encode(ds[i]);
    }
    lemma_concat_len(ds, enc, 28);
}

/// Decoding the wire form of a geometry gives the geometry back.
pub proof fn lemma_geometry_decode_encode(ds: Seq<Device>)
    requires
        ds.len() <= u32::MAX,
    ensures
        spec_geometry_framed(spec_encode_geometry(ds)),
        spec_decode_geometry(spec_encode_geometry(ds)) == ds,
{
    let enc = |d: Device| spec_encode_device(d);
    let dec = |s: Seq<u8>| spec_decode_device(s);
    let bytes = spec_encode_geometry(ds);
    lemma_u32_decode_encode(ds.len() as u32);
    lemma_devices_len(ds);
    assert(bytes.subrange(0, 4) =~= spec_u32_le(ds.len() as u32));
    assert(bytes.subrange(4, bytes.len() as int) =~= spec_encode_devices(ds));
    assert forall|i: int| 0 <= i < ds.len() implies (#[trigger] enc(ds[i])).len() == 28 && dec(
        enc(ds[i]),
    ) == ds[i] by {
        lemma_device_decode_encode(ds[i]);
    }
    lemma_split_of_concat(ds, enc, dec, 28);
}

/// Encoding what a well-framed geometry body decodes to gives the same bytes.
pub proof fn lemma_geometry_encode_decode(bytes: Seq<u8>)
    requires
        spec_geometry_framed(bytes),
    ensures
        spec_decode_geometry(bytes).len() <= u32::MAX,
        spec_encode_geometry(spec_decode_geometry(bytes)) == bytes,
{
    let enc = |d: Device| spec_encode_device(d);
    let dec = |s: Seq<u8>| spec_decode_device(s);
    let head = bytes.subrange(0, 4);
    let body = bytes.subrange(4, bytes.len() as int);
    let n = spec_u32_from_le(head) as nat;
    lemma_u32_encode_decode(head);
    assert forall|s: Seq<u8>| s.len() == 28 implies #[trigger] enc(dec(s)) == s by {
        lemma_device_encode_decode(s);
    }
    lemma_concat_of_split(body, enc, dec, 28, n);
    assert(head + body =~= bytes);
}

/// The body of a geometry request for `g`.
pub fn encode_geometry(g: &Geometry) -> (out: Vec<u8>)
    ensures
        out@ == spec_encode_geometry(g@),
{
    proof {
        use_type_invariant(g);
    }
    let n = g.devices.len();
    let mut out: Vec<u8> = Vec::new();
    put_u32_le(&mut out, n as u32);
    let mut i: usize = 0;
    proof {
        lemma_concat_empty(g.devices@.take(0), |d: Device| spec_encode_device(d));
        assert(out@ =~= spec_u32_le(n as u32) + spec_encode_devices(g.devices@.take(0)));
    }
    while i < n
        invariant
            n == g.devices@.len(),
            i <= n,
            out@ == spec_u32_le(n as u32) + spec_encode_devices(g.devices@.take(i as int)),
        decreases n - i,
    {
        proof {
            lemma_concat_push(
                g.devices@.take(i as int),
                g.devices@[i as int],
                |d: Device| spec_encode_device(d),
            );
            assert(g.devices@.take(i as int).push(g.devices@[i as int]) =~= g.devices@.take(
                i + 1,
            ));
        }
        put_device(&mut out, &g.devices[i]);
        i += 1;
        assert(out@ =~= spec_u32_le(n as u32) + spec_encode_devices(g.devices@.take(i as int)));
    }
    assert(g.devices@.take(n as int) =~= g.devices@);
    out
}

/// The geometry that `bytes` holds, where they are a count followed by that many devices.
pub fn decode_geometry(bytes: &[u8]) -> (r: Option<Geometry>)
    ensures
        r is Some <==> spec_geometry_framed(bytes@),
        r matches Some(g) ==> g.wf() && g@ == spec_decode_geometry(bytes@),
{
    if bytes.len() < 4 {
        return None;
    }
    let count = get_u32_le(bytes, 0);
    if bytes.len() as u64 != 4 + 28 * (count as u64) {
        return None;
    }
    let total = bytes.len();
    let ghost body = bytes@.subrange(4, bytes@.len() as int);
    let mut devices: Vec<Device> = Vec::new();
    let mut i: usize = 0;
    while i < count as usize
        invariant
            total == bytes@.len(),
            bytes@.len() == 4 + 28 * count,
            body == bytes@.subrange(4, bytes@.len() as int),
            i <= count,
            devices@ == spec_decode_devices(body, i as nat),
        decreases count - i,
    {
        let d = get_device(bytes, 4 + 28 * i);
        proof {
            assert(body.subrange(i * 28, i * 28 + 28) =~= bytes@.subrange(
                4 + 28 * i,
                4 + 28 * i + 28,
            ));
        }
        devices.push(d);
        i += 1;
        assert(devices@ =~= spec_decode_devices(body, i as nat));
    }
    Some(Geometry { devices })
}

} // verus!
