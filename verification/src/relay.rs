//! The outbound command relay: a slot for the last command batch issued.
//!
//! The slot holds at most one batch. A new batch takes the place of one that nobody fetched,
//! so the producer never waits and the consumer always finds the latest.

use vstd::prelude::*;
use crate::link::{command_bytes, neutral_commands, spec_neutral_commands, TxCommand};

verus! {

/// A slot that holds the latest command batch until it is fetched.
#[derive(Debug, PartialEq, Eq)]
pub struct CommandRelay {
    slot: Option<Vec<TxCommand>>,
}

impl View for CommandRelay {
    type V = Option<Seq<Seq<u8>>>;

    /// The records of the batch held, if one is.
    closed spec fn view(&self) -> Option<Seq<Seq<u8>>> {
        match self.slot {
            Some(cmds) => Some(command_bytes(cmds@)),
            None => None,
        }
    }
}

impl CommandRelay {
    /// A relay that holds nothing.
    pub fn new() -> (r: CommandRelay)
        ensures
            r@.is_none(),
    {
        CommandRelay { slot: None }
    }

    /// Whether a batch is held.
    pub fn is_full(&self) -> (r: bool)
        ensures
            r <==> self@.is_some(),
    {
        self.slot.is_some()
    }

    /// Puts `cmds` into the slot, in place of whatever was there. Tells whether a batch that
    /// nobody fetched was displaced.
    pub fn offer(&mut self, cmds: Vec<TxCommand>) -> (displaced: bool)
        ensures
            final(self)@ == Some(command_bytes(cmds@)),
            displaced <==> old(self)@.is_some(),
    {
        let displaced = self.slot.is_some();
        self.slot = Some(cmds);
        displaced
    }

    /// Fetches the batch held, and leaves the slot empty.
    pub fn take(&mut self) -> (r: Option<Vec<TxCommand>>)
        ensures
            final(self)@.is_none(),
            match r {
                Some(cmds) => old(self)@ == Some(command_bytes(cmds@)),
                None => old(self)@.is_none(),
            },
    {
        let mut slot: Option<Vec<TxCommand>> = None;
        core::mem::swap(&mut self.slot, &mut slot);
        slot
    }

    /// Fetches the batch held where it has one record for each of `device_count` devices;
    /// else makes up a neutral batch of that size. Leaves the slot empty either way.
    pub fn take_or_neutral(&mut self, device_count: usize) -> (cmds: Vec<TxCommand>)
        ensures
            final(self)@.is_none(),
            command_bytes(cmds@) == spec_latest_or_neutral(old(self)@, device_count as nat),
    {
        match self.take() {
            Some(cmds) => {
                if cmds.len() == device_count {
                    cmds
                } else {
                    neutral_commands(device_count)
                }
            },
            None => neutral_commands(device_count),
        }
    }

    /// Empties the slot.
    pub fn clear(&mut self)
        ensures
            final(self)@.is_none(),
    {
        self.slot = None;
    }
}

/// The batch in `slot` where it fits `n` devices, else `n` neutral records.
pub open spec fn spec_latest_or_neutral(slot: Option<Seq<Seq<u8>>>, n: nat) -> Seq<Seq<u8>> {
    match slot {
        Some(records) => if records.len() == n {
            records
        } else {
            spec_neutral_commands(n)
        },
        None => spec_neutral_commands(n),
    }
}

} // verus!
