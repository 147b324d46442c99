//! The acknowledgment store: the latest status of every device.
//!
//! The simulation owner is its only writer and replaces the whole snapshot after each command
//! batch or tick; connection handlers only read it. Each change of the snapshot takes the next
//! version number, so a reader can tell one snapshot from another.

use vstd::prelude::*;
use crate::link::RxStatus;

verus! {

/// The statuses of `n` devices that have reported nothing.
pub open spec fn spec_zero_statuses(n: nat) -> Seq<RxStatus> {
    Seq::new(n, |i: int| RxStatus { data: 0, ack: 0 })
}

/// The first `n` records of `records`, with records of zeros where it has fewer.
pub open spec fn spec_read_statuses(records: Seq<RxStatus>, n: nat) -> Seq<RxStatus> {
    Seq::new(
        n,
        |i: int|
            if i < records.len() {
                records[i]
            } else {
                RxStatus { data: 0, ack: 0 }
            },
    )
}

/// The snapshot after `statuses` were offered to a store that holds `records`: the new
/// statuses where they cover as many devices, else the old records.
pub open spec fn spec_publish(records: Seq<RxStatus>, statuses: Seq<RxStatus>) -> Seq<RxStatus> {
    if statuses.len() == records.len() {
        statuses
    } else {
        records
    }
}

/// The version that follows `v`: the next number, starting over after the last one.
pub open spec fn spec_next_version(v: u64) -> u64 {
    if v < u64::MAX {
        (v + 1) as u64
    } else {
        0
    }
}

/// The latest per-device statuses, as one snapshot.
#[derive(Debug, PartialEq, Eq)]
pub struct AckStore {
    version: u64,
    records: Vec<RxStatus>,
}

impl View for AckStore {
    type V = Seq<RxStatus>;

    /// The statuses, by device index.
    closed spec fn view(&self) -> Seq<RxStatus> {
        self.records@
    }
}

impl AckStore {
    /// The version of the snapshot held.
    pub closed spec fn spec_version(&self) -> u64 {
        self.version
    }

    /// An empty store, for a simulation with no geometry.
    pub fn new() -> (r: AckStore)
        ensures
            r@ == Seq::<RxStatus>::empty(),
            r.spec_version() == 0,
    {
        AckStore { version: 0, records: Vec::new() }
    }

    /// How many devices the snapshot covers.
    pub fn len(&self) -> (n: usize)
        ensures
            n == self@.len(),
    {
        self.records.len()
    }

    /// The version of the snapshot held.
    pub fn version(&self) -> (v: u64)
        ensures
            v == self.spec_version(),
    {
        self.version
    }

    /// The statuses, by device index.
    pub fn records(&self) -> (r: &[RxStatus])
        ensures
            r@ == self@,
    {
        self.records.as_slice()
    }

    fn bump(&mut self)
        ensures
            final(self)@ == old(self)@,
            final(self).spec_version() == spec_next_version(old(self).spec_version()),
    {
        if self.version < u64::MAX {
            self.version = self.version + 1;
        } else {
            self.version = 0;
        }
    }

    /// Starts over with `n` devices that have reported nothing.
    pub fn reset(&mut self, n: usize)
        ensures
            final(self)@ == spec_zero_statuses(n as nat),
            final(self).spec_version() == spec_next_version(old(self).spec_version()),
    {
        let mut records: Vec<RxStatus> = Vec::new();
        let mut i: usize = 0;
        while i < n
            invariant
                i <= n,
                records@ == spec_zero_statuses(i as nat),
            decreases n - i,
        {
            records.push(RxStatus::zero());
            i += 1;
            assert(records@ =~= spec_zero_statuses(i as nat));
        }
        self.records = records;
        self.bump();
    }

    /// Replaces the snapshot by `statuses`, where they cover as many devices as the store
    /// does; leaves the store as it is where they do not. Tells whether it replaced.
    pub fn publish(&mut self, statuses: Vec<RxStatus>) -> (accepted: bool)
        ensures
            accepted <==> statuses@.len() == old(self)@.len(),
            final(self)@ == spec_publish(old(self)@, statuses@),
            final(self).spec_version() == if accepted {
                spec_next_version(old(self).spec_version())
            } else {
                old(self).spec_version()
            },
    {
        if statuses.len() == self.records.len() {
            self.records = statuses;
            self.bump();
            true
        } else {
            false
        }
    }

    /// A copy of the snapshot.
    pub fn snapshot(&self) -> (r: Vec<RxStatus>)
        ensures
            r@ == self@,
    {
        let r = self.read(self.records.len());
        assert(r@ =~= self@);
        r
    }

    /// The statuses of the first `n` devices. A device that the snapshot does not cover has
    /// reported nothing.
    pub fn read(&self, n: usize) -> (r: Vec<RxStatus>)
        ensures
            r@ == spec_read_statuses(self@, n as nat),
    {
        let mut out: Vec<RxStatus> = Vec::new();
        let mut i: usize = 0;
        while i < n
            invariant
                i <= n,
                out@ == spec_read_statuses(self@, i as nat),
            decreases n - i,
        {
            if i < self.records.len() {
                out.push(self.records[i]);
            } else {
                out.push(RxStatus::zero());
            }
            i += 1;
            assert(out@ =~= spec_read_statuses(self@, i as nat));
        }
        out
    }
}

} // verus!
