//! What a connection asks the simulation owner to do.

use vstd::prelude::*;
use crate::geometry::{Device, Geometry};
use crate::link::{command_bytes, TxCommand};

verus! {

/// A command on its way from a connection to the simulation owner.
#[derive(Debug, PartialEq, Eq)]
pub enum Signal {
    /// Replace the geometry, and everything sized by it.
    ConfigGeometry(Geometry),
    /// Move the devices of the geometry in place.
    UpdateGeometry(Geometry),
    /// Hand one command record to each device.
    Send(Vec<TxCommand>),
    /// Tear the geometry down.
    Close,
}

/// A signal as plain values.
pub enum SignalView {
    ConfigGeometry(Seq<Device>),
    UpdateGeometry(Seq<Device>),
    Send(Seq<Seq<u8>>),
    Close,
}

impl View for Signal {
    type V = SignalView;

    open spec fn view(&self) -> SignalView {
        match self {
            Signal::ConfigGeometry(g) => SignalView::ConfigGeometry(g@),
            Signal::UpdateGeometry(g) => SignalView::UpdateGeometry(g@),
            Signal::Send(cmds) => SignalView::Send(command_bytes(cmds@)),
            Signal::Close => SignalView::Close,
        }
    }
}

} // verus!
