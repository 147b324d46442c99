//! The records exchanged with the device emulator: commands out, statuses back.
//!
//! Both are opaque here. The protocol knows how many bytes one record takes and that there is
//! one record per device; what the bytes mean is the emulator's business.

use vstd::prelude::*;
use crate::record::{
    concat_records, lemma_concat_empty, lemma_concat_len, lemma_concat_of_split,
    lemma_concat_push, lemma_split_of_concat, split_records,
};

verus! {

/// Bytes in one command record.
pub const TX_RECORD_SIZE: usize = 626;

/// Bytes in one status record.
pub const RX_RECORD_SIZE: usize = 2;

/// One command record, addressed to one device.
#[derive(Debug, PartialEq, Eq)]
pub struct TxCommand {
    bytes: Vec<u8>,
}

impl View for TxCommand {
    type V = Seq<u8>;

    /// The bytes of the record.
    closed spec fn view(&self) -> Seq<u8> {
        self.bytes@
    }
}

impl TxCommand {
    /// A record is always exactly `TX_RECORD_SIZE` bytes long.
    #[verifier::type_invariant]
    pub open spec fn wf(self) -> bool {
        self@.len() == TX_RECORD_SIZE
    }

    /// The neutral record: every byte zero.
    pub fn new() -> (r: TxCommand)
        ensures
            r.wf(),
            r@ == Seq::new(TX_RECORD_SIZE as nat, |i: int| 0u8),
    {
        let mut bytes: Vec<u8> = Vec::new();
        let mut i: usize = 0;
        while i < TX_RECORD_SIZE
            invariant
                i <= TX_RECORD_SIZE,
                bytes@ == Seq::new(i as nat, |k: int| 0u8),
            decreases TX_RECORD_SIZE - i,
        {
            bytes.push(0);
            i += 1;
            assert(bytes@ =~= Seq::new(i as nat, |k: int| 0u8));
        }
        TxCommand { bytes }
    }

    /// The record made of `bytes`, where there are exactly `TX_RECORD_SIZE` of them.
    pub fn from_bytes(bytes: &[u8]) -> (r: Option<TxCommand>)
        ensures
            r is Some <==> bytes@.len() == TX_RECORD_SIZE,
            r matches Some(c) ==> c.wf() && c@ == bytes@,
    {
        if bytes.len() == TX_RECORD_SIZE {
            let c = TxCommand::read_at(bytes, 0);
            assert(bytes@.subrange(0, TX_RECORD_SIZE as int) =~= bytes@);
            Some(c)
        } else {
            None
        }
    }

    /// The record that lies in `bytes` from `at` on.
    pub(crate) fn read_at(bytes: &[u8], at: usize) -> (r: TxCommand)
        requires
            at + TX_RECORD_SIZE <= bytes@.len(),
        ensures
            r.wf(),
            r@ == bytes@.subrange(at as int, at + TX_RECORD_SIZE),
    {
        let total = bytes.len();
        let mut out: Vec<u8> = Vec::new();
        let mut i: usize = 0;
        while i < TX_RECORD_SIZE
            invariant
                total == bytes@.len(),
                at + TX_RECORD_SIZE <= total,
                i <= TX_RECORD_SIZE,
                out@ == bytes@.subrange(at as int, at + i),
            decreases TX_RECORD_SIZE - i,
        {
            out.push(bytes[at + i]);
            i += 1;
            assert(out@ =~= bytes@.subrange(at as int, at + i));
        }
        TxCommand { bytes: out }
    }

    /// The bytes of the record.
    pub fn as_bytes(&self) -> (r: &[u8])
        ensures
            r@ == self@,
            r@.len() == TX_RECORD_SIZE,
    {
        proof {
            use_type_invariant(self);
        }
        self.bytes.as_slice()
    }

    /// A copy of this record.
    pub fn duplicate(&self) -> (r: TxCommand)
        ensures
            r.wf(),
            r@ == self@,
    {
        proof {
            use_type_invariant(self);
        }
        let r = TxCommand::read_at(self.bytes.as_slice(), 0);
        assert(self.bytes@.subrange(0, TX_RECORD_SIZE as int) =~= self.bytes@);
        r
    }
}

impl Clone for TxCommand {
    fn clone(&self) -> (r: TxCommand)
        ensures
            r.wf(),
            r@ == self@,
    {
        self.duplicate()
    }
}

/// The byte strings of a run of commands.
pub open spec fn command_bytes(cmds: Seq<TxCommand>) -> Seq<Seq<u8>> {
    Seq::new(cmds.len(), |i: int| cmds[i]@)
}

/// Whether every record of `records` has the length of a command.
pub open spec fn commands_wf(records: Seq<Seq<u8>>) -> bool {
    forall|i: int| 0 <= i < records.len() ==> (#[trigger] records[i]).len() == TX_RECORD_SIZE
}

/// The payload of a send request: the records one after the other.
pub open spec fn spec_encode_commands(records: Seq<Seq<u8>>) -> Seq<u8> {
    concat_records(records, |r: Seq<u8>| r)
}

/// The `n` command records that lie in `bytes`.
pub open spec fn spec_decode_commands(bytes: Seq<u8>, n: nat) -> Seq<Seq<u8>> {
    split_records(bytes, TX_RECORD_SIZE as nat, n, |s: Seq<u8>| s)
}

/// `n` neutral records.
pub open spec fn spec_neutral_commands(n: nat) -> Seq<Seq<u8>> {
    Seq::new(n, |i: int| Seq::new(TX_RECORD_SIZE as nat, |k: int| 0u8))
}

/// The payload of well-formed commands is `TX_RECORD_SIZE` bytes for each.
pub proof fn lemma_commands_len(records: Seq<Seq<u8>>)
    requires
        commands_wf(records),
    ensures
        spec_encode_commands(records).len() == records.len() * TX_RECORD_SIZE,
{
    let enc = |r: Seq<u8>| r;
    assert forall|i: int| 0 <= i < records.len() implies (#[trigger] enc(records[i])).len()
        == TX_RECORD_SIZE by {
        assert(records[i].len() == TX_RECORD_SIZE);
    }
    lemma_concat_len(records, enc, TX_RECORD_SIZE as nat);
}

/// Splitting the payload of well-formed commands gives the commands back.
pub proof fn lemma_commands_decode_encode(records: Seq<Seq<u8>>)
    requires
        commands_wf(records),
    ensures
        spec_encode_commands(records).len() == records.len() * TX_RECORD_SIZE,
        spec_decode_commands(spec_encode_commands(records), records.len()) == records,
{
    let enc = |r: Seq<u8>| r;
    let dec = |b: Seq<u8>| b;
    lemma_commands_len(records);
    assert forall|i: int| 0 <= i < records.len() implies (#[trigger] enc(records[i])).len()
        == TX_RECORD_SIZE && dec(enc(records[i])) == records[i] by {
        assert(records[i].len() == TX_RECORD_SIZE);
    }
    lemma_split_of_concat(records, enc, dec, TX_RECORD_SIZE as nat);
}

/// Joining the commands split from a payload of `n` records gives the payload back.
pub proof fn lemma_commands_encode_decode(bytes: Seq<u8>, n: nat)
    requires
        bytes.len() == n * TX_RECORD_SIZE,
    ensures
        commands_wf(spec_decode_commands(bytes, n)),
        spec_decode_commands(bytes, n).len() == n,
        spec_encode_commands(spec_decode_commands(bytes, n)) == bytes,
{
    let enc = |r: Seq<u8>| r;
    let dec = |b: Seq<u8>| b;
    lemma_concat_of_split(bytes, enc, dec, TX_RECORD_SIZE as nat, n);
    let records = spec_decode_commands(bytes, n);
    assert forall|i: int| 0 <= i < records.len() implies (#[trigger] records[i]).len()
        == TX_RECORD_SIZE by {
        assert(i * TX_RECORD_SIZE + TX_RECORD_SIZE <= n * TX_RECORD_SIZE) by (nonlinear_arith)
            requires
                0 <= i < n,
        ;
    }
}

/// The status of one device as the emulator last reported it.
#[derive(Clone, Copy, Debug, PartialEq, Eq, Structural)]
pub struct RxStatus {
    pub data: u8,
    pub ack: u8,
}

/// The wire form of a status: the data byte, then the acknowledgment byte.
pub open spec fn spec_encode_status(s: RxStatus) -> Seq<u8> {
    seq![s.data, s.ack]
}

/// The status whose wire form is the first two bytes of `s`.
pub open spec fn spec_decode_status(s: Seq<u8>) -> RxStatus
    recommends
        s.len() >= 2,
{
    RxStatus { data: s[0], ack: s[1] }
}

/// The wire form of a run of statuses.
pub open spec fn spec_encode_statuses(statuses: Seq<RxStatus>) -> Seq<u8> {
    concat_records(statuses, |s: RxStatus| spec_encode_status(s))
}

/// The `n` statuses that lie in `bytes`.
pub open spec fn spec_decode_statuses(bytes: Seq<u8>, n: nat) -> Seq<RxStatus> {
    split_records(bytes, RX_RECORD_SIZE as nat, n, |s: Seq<u8>| spec_decode_status(s))
}

/// The wire form of a run of statuses is two bytes for each.
pub proof fn lemma_statuses_len(statuses: Seq<RxStatus>)
    ensures
        spec_encode_statuses(statuses).len() == 2 * statuses.len(),
{
    let enc = |s: RxStatus| spec_encode_status(s);
    assert forall|i: int| 0 <= i < statuses.len() implies (#[trigger] enc(statuses[i])).len()
        == 2 by {}
    lemma_concat_len(statuses, enc, 2);
}

/// The acknowledgment byte for a message id and an error code: the low four bits of the
/// error code above the low four bits of the id.
pub open spec fn spec_ack(msg_id: u8, err: u8) -> u8 {
    ((err % 16) * 16 + msg_id % 16) as u8
}

impl RxStatus {
    /// The status of a device that has reported nothing.
    pub fn zero() -> (r: RxStatus)
        ensures
            r == (RxStatus { data: 0, ack: 0 }),
    {
        RxStatus { data: 0, ack: 0 }
    }

    /// The status that reports `data` and acknowledges message `msg_id` with error `err`.
    pub fn from_parts(data: u8, msg_id: u8, err: u8) -> (r: RxStatus)
        ensures
            r == (RxStatus { data, ack: spec_ack(msg_id, err) }),
    {
        RxStatus { data, ack: (err % 16) * 16 + msg_id % 16 }
    }

    /// The id of the message that is acknowledged.
    pub fn msg_id(&self) -> (r: u8)
        ensures
            r == self.ack % 16,
    {
        self.ack % 16
    }

    /// The error code of the acknowledgment; zero where there was no error.
    pub fn err(&self) -> (r: u8)
        ensures
            r == self.ack / 16,
    {
        self.ack / 16
    }
}

/// An acknowledgment byte gives back the id and the error code it was made of, as far as
/// four bits hold them.
pub proof fn lemma_ack_parts(msg_id: u8, err: u8)
    ensures
        spec_ack(msg_id, err) % 16 == msg_id % 16,
        spec_ack(msg_id, err) / 16 == err % 16,
{
}

/// How many bytes the command records of `device_count` devices take.
pub fn commands_len(device_count: u32) -> (n: u64)
    ensures
        n == TX_RECORD_SIZE * device_count,
{
    let per: u64 = TX_RECORD_SIZE as u64;
    let count: u64 = device_count as u64;
    assert(per * count <= 626 * 0xFFFF_FFFF) by (nonlinear_arith)
        requires
            per == 626,
            count <= 0xFFFF_FFFF,
    ;
    per * count
}

/// The payload that carries `cmds`.
pub fn encode_commands(cmds: &Vec<TxCommand>) -> (out: Vec<u8>)
    ensures
        out@ == spec_encode_commands(command_bytes(cmds@)),
        out@.len() == cmds@.len() * TX_RECORD_SIZE,
{
    let ghost records = command_bytes(cmds@);
    let mut out: Vec<u8> = Vec::new();
    let mut i: usize = 0;
    proof {
        lemma_concat_empty(records.take(0), |r: Seq<u8>| r);
    }
    while i < cmds.len()
        invariant
            i <= cmds@.len(),
            records == command_bytes(cmds@),
            out@ == spec_encode_commands(records.take(i as int)),
            commands_wf(records.take(i as int)),
        decreases cmds@.len() - i,
    {
        let c = &cmds[i];
        let bytes = c.as_bytes();
        proof {
            lemma_concat_push(records.take(i as int), records[i as int], |r: Seq<u8>| r);
            assert(records.take(i as int).push(records[i as int]) =~= records.take(i + 1));
        }
        let mut k: usize = 0;
        while k < TX_RECORD_SIZE
            invariant
                k <= TX_RECORD_SIZE,
                bytes@.len() == TX_RECORD_SIZE,
                out@ == spec_encode_commands(records.take(i as int)) + bytes@.take(k as int),
            decreases TX_RECORD_SIZE - k,
        {
            out.push(bytes[k]);
            k += 1;
            assert(out@ =~= spec_encode_commands(records.take(i as int)) + bytes@.take(k as int));
        }
        assert(bytes@.take(TX_RECORD_SIZE as int) =~= bytes@);
        i += 1;
    }
    proof {
        assert(records.take(cmds@.len() as int) =~= records);
        lemma_commands_len(records);
    }
    out
}

/// The commands that `bytes` carries, where they are a whole number of records.
pub fn decode_commands(bytes: &[u8]) -> (r: Option<Vec<TxCommand>>)
    ensures
        r is Some <==> bytes@.len() % (TX_RECORD_SIZE as nat) == 0,
        r matches Some(cmds) ==> {
            &&& cmds@.len() * TX_RECORD_SIZE == bytes@.len()
            &&& command_bytes(cmds@) == spec_decode_commands(bytes@, cmds@.len())
            &&& commands_wf(command_bytes(cmds@))
        },
{
    let total = bytes.len();
    if total % TX_RECORD_SIZE != 0 {
        return None;
    }
    let n = total / TX_RECORD_SIZE;
    let mut cmds: Vec<TxCommand> = Vec::new();
    let mut i: usize = 0;
    while i < n
        invariant
            TX_RECORD_SIZE == 626,
            total == bytes@.len(),
            total == n * TX_RECORD_SIZE,
            i <= n,
            cmds@.len() == i,
            command_bytes(cmds@) == spec_decode_commands(bytes@, i as nat),
            commands_wf(command_bytes(cmds@)),
        decreases n - i,
    {
        let c = TxCommand::read_at(bytes, i * TX_RECORD_SIZE);
        let ghost before = cmds@;
        cmds.push(c);
        i += 1;
        proof {
            assert forall|k: int| 0 <= k < i implies command_bytes(cmds@)[k]
                == spec_decode_commands(bytes@, i as nat)[k] by {
                if k < i - 1 {
                    assert(cmds@[k] == before[k]);
                    assert(command_bytes(before)[k] == spec_decode_commands(
                        bytes@,
                        (i - 1) as nat,
                    )[k]);
                }
            }
            assert(command_bytes(cmds@) =~= spec_decode_commands(bytes@, i as nat));
        }
    }
    Some(cmds)
}

/// `n` neutral commands: what is issued when nothing else has been.
pub fn neutral_commands(n: usize) -> (cmds: Vec<TxCommand>)
    ensures
        command_bytes(cmds@) == spec_neutral_commands(n as nat),
{
    let mut cmds: Vec<TxCommand> = Vec::new();
    let mut i: usize = 0;
    while i < n
        invariant
            i <= n,
            cmds@.len() == i,
            command_bytes(cmds@) == spec_neutral_commands(i as nat),
        decreases n - i,
    {
        let ghost before = cmds@;
        cmds.push(TxCommand::new());
        i += 1;
        proof {
            assert forall|k: int| 0 <= k < i implies command_bytes(cmds@)[k]
                == spec_neutral_commands(i as nat)[k] by {
                if k < i - 1 {
                    assert(cmds@[k] == before[k]);
                    assert(command_bytes(before)[k] == spec_neutral_commands((i - 1) as nat)[k]);
                }
            }
            assert(command_bytes(cmds@) =~= spec_neutral_commands(i as nat));
        }
    }
    cmds
}

/// A copy of `cmds`.
pub fn copy_commands(cmds: &Vec<TxCommand>) -> (r: Vec<TxCommand>)
    ensures
        command_bytes(r@) == command_bytes(cmds@),
{
    let mut out: Vec<TxCommand> = Vec::new();
    let mut i: usize = 0;
    while i < cmds.len()
        invariant
            i <= cmds@.len(),
            out@.len() == i,
            forall|k: int| 0 <= k < i ==> (#[trigger] out@[k])@ == cmds@[k]@,
        decreases cmds@.len() - i,
    {
        let c = cmds[i].duplicate();
        out.push(c);
        i += 1;
    }
    assert(command_bytes(out@) =~= command_bytes(cmds@));
    out
}

/// The wire form of `statuses`.
pub fn encode_statuses(statuses: &[RxStatus]) -> (out: Vec<u8>)
    ensures
        out@ == spec_encode_statuses(statuses@),
        out@.len() == 2 * statuses@.len(),
{
    let mut out: Vec<u8> = Vec::new();
    let mut i: usize = 0;
    proof {
        lemma_concat_empty(statuses@.take(0), |s: RxStatus| spec_encode_status(s));
    }
    while i < statuses.len()
        invariant
            i <= statuses@.len(),
            out@ == spec_encode_statuses(statuses@.take(i as int)),
        decreases statuses@.len() - i,
    {
        proof {
            lemma_concat_push(
                statuses@.take(i as int),
                statuses@[i as int],
                |s: RxStatus| spec_encode_status(s),
            );
            assert(statuses@.take(i as int).push(statuses@[i as int]) =~= statuses@.take(i + 1));
        }
        let s = statuses[i];
        out.push(s.data);
        out.push(s.ack);
        i += 1;
        assert(out@ =~= spec_encode_statuses(statuses@.take(i as int)));
    }
    proof {
        assert(statuses@.take(statuses@.len() as int) =~= statuses@);
        lemma_statuses_len(statuses@);
    }
    out
}

/// The statuses that `bytes` carries, where they are a whole number of records.
pub fn decode_statuses(bytes: &[u8]) -> (r: Option<Vec<RxStatus>>)
    ensures
        r is Some <==> bytes@.len() % 2 == 0,
        r matches Some(statuses) ==> {
            &&& 2 * statuses@.len() == bytes@.len()
            &&& statuses@ == spec_decode_statuses(bytes@, statuses@.len())
        },
{
    let total = bytes.len();
    if total % 2 != 0 {
        return None;
    }
    let n = total / 2;
    let mut statuses: Vec<RxStatus> = Vec::new();
    let mut i: usize = 0;
    while i < n
        invariant
            total == bytes@.len(),
            total == 2 * n,
            i <= n,
            statuses@ == spec_decode_statuses(bytes@, i as nat),
        decreases n - i,
    {
        let s = RxStatus { data: bytes[2 * i], ack: bytes[2 * i + 1] };
        statuses.push(s);
        i += 1;
        assert(statuses@ =~= spec_decode_statuses(bytes@, i as nat));
    }
    Some(statuses)
}

} // verus!
