//! The core of a simulator for arrays of ultrasound transducer devices: the device-link
//! protocol that a client drives the simulation with, and the bookkeeping of the one thread
//! that owns the simulation.
//!
//! Nothing here reads a socket, runs a device emulator or draws. Each part is a value with
//! operations on it, and its driver does the rest:
//!
//! - [`wire`], [`record`], [`geometry`], [`link`] and [`codec`] say how requests and responses
//!   lie in bytes;
//! - [`session`] is the state machine of one connection, from handshake to close;
//! - [`channel`] carries signals from the connections to the simulation owner, in order;
//! - [`simulator`] applies signals to the simulation state, and hands out the marks of what
//!   has to be recomputed, kept in [`update_flag`];
//! - [`ack_store`] holds the latest status of every device, and [`relay`] the last command
//!   batch;
//! - [`layout`] places the transducers of each device in the run of all of them;
//! - [`event`] plans when the next frame is painted;
//! - [`args`] reads values given on the command line;
//! - [`laws`] states what holds of all of this whatever the inputs.

pub mod args;
pub mod update_flag;
pub mod wire;
pub mod record;
pub mod geometry;
pub mod link;
pub mod error;
pub mod codec;
pub mod ack_store;
pub mod relay;
pub mod signal;
pub mod channel;
pub mod session;
pub mod layout;
pub mod event;
pub mod simulator;
pub mod laws;

pub use crate::event::EventResult;
pub use crate::signal::Signal;
pub use crate::simulator::Simulator;
pub use crate::update_flag::UpdateFlag;
