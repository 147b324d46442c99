//! The signal channel: the queue that carries signals from connections to the simulation
//! owner.
//!
//! Signals leave in the order in which they arrived. Putting a signal in never waits. Once
//! the owner has shut the channel, nothing more is taken in, and the sender is told so.

use std::collections::VecDeque;
use vstd::prelude::*;
use crate::signal::{Signal, SignalView};

verus! {

/// A channel as plain values.
pub struct ChannelView {
    /// The signals that wait to be received, oldest first.
    pub pending: Seq<SignalView>,
    /// Whether the owner still takes signals.
    pub open: bool,
}

/// The channel after a signal was offered, and whether it was taken in.
pub open spec fn spec_send(c: ChannelView, signal: SignalView) -> (ChannelView, bool) {
    if c.open {
        (ChannelView { pending: c.pending.push(signal), ..c }, true)
    } else {
        (c, false)
    }
}

/// The channel after the owner asked for a signal, and the signal it got, if one waited.
pub open spec fn spec_recv(c: ChannelView) -> (ChannelView, Option<SignalView>) {
    if c.pending.len() > 0 {
        (ChannelView { pending: c.pending.drop_first(), ..c }, Some(c.pending.first()))
    } else {
        (c, None)
    }
}

/// The channel after the owner has shut it: what waited is dropped.
pub open spec fn spec_close(c: ChannelView) -> ChannelView {
    ChannelView { pending: Seq::empty(), open: false }
}

/// The channel after each of `signals` was offered in turn.
pub open spec fn spec_send_all(c: ChannelView, signals: Seq<SignalView>) -> ChannelView
    decreases signals.len(),
{
    if signals.len() == 0 {
        c
    } else {
        spec_send(spec_send_all(c, signals.drop_last()), signals.last()).0
    }
}

/// What the owner gets when it asks `n` times.
pub open spec fn spec_recv_all(c: ChannelView, n: nat) -> Seq<SignalView>
    decreases n,
{
    if n == 0 || c.pending.len() == 0 {
        Seq::empty()
    } else {
        seq![c.pending.first()] + spec_recv_all(spec_recv(c).0, (n - 1) as nat)
    }
}

/// The queue of signals between the connections and the simulation owner.
#[derive(Debug, PartialEq, Eq)]
pub struct SignalChannel {
    queue: VecDeque<Signal>,
    open: bool,
}

impl View for SignalChannel {
    type V = ChannelView;

    closed spec fn view(&self) -> ChannelView {
        ChannelView {
            pending: Seq::new(self.queue@.len(), |i: int| self.queue@[i]@),
            open: self.open,
        }
    }
}

impl SignalChannel {
    /// An open channel with nothing in it.
    pub fn new() -> (r: SignalChannel)
        ensures
            r@.open,
            r@.pending == Seq::<SignalView>::empty(),
    {
        let r = SignalChannel { queue: VecDeque::new(), open: true };
        assert(r@.pending =~= Seq::<SignalView>::empty());
        r
    }

    /// Whether the owner still takes signals.
    pub fn is_open(&self) -> (r: bool)
        ensures
            r == self@.open,
    {
        self.open
    }

    /// How many signals wait to be received.
    pub fn len(&self) -> (n: usize)
        ensures
            n == self@.pending.len(),
    {
        self.queue.len()
    }

    /// Whether no signal waits to be received.
    pub fn is_empty(&self) -> (r: bool)
        ensures
            r <==> self@.pending.len() == 0,
    {
        self.queue.len() == 0
    }

    /// Puts `signal` at the end of the queue, or hands it back where the channel is shut.
    pub fn send(&mut self, signal: Signal) -> (r: Result<(), Signal>)
        ensures
            final(self)@ == spec_send(old(self)@, signal@).0,
            r is Ok <==> old(self)@.open,
            r matches Err(back) ==> back == signal,
    {
        if self.open {
            self.queue.push_back(signal);
            assert(self@.pending =~= old(self)@.pending.push(signal@));
            Ok(())
        } else {
            Err(signal)
        }
    }

    /// Takes the oldest signal out of the queue, if one waits.
    pub fn recv(&mut self) -> (r: Option<Signal>)
        ensures
            final(self)@ == spec_recv(old(self)@).0,
            match r {
                Some(signal) => spec_recv(old(self)@).1 == Some(signal@),
                None => spec_recv(old(self)@).1.is_none(),
            },
    {
        let r = self.queue.pop_front();
        proof {
            if r.is_some() {
                assert(self@.pending =~= old(self)@.pending.drop_first());
            } else {
                assert(self@.pending =~= old(self)@.pending);
            }
        }
        r
    }

    /// Shuts the channel: what waits is dropped, and nothing more is taken in.
    pub fn close(&mut self)
        ensures
            final(self)@ == spec_close(old(self)@),
    {
        self.queue.clear();
        self.open = false;
        assert(self@.pending =~= Seq::<SignalView>::empty());
    }
}

/// Offering signals to an open channel appends them, in the order offered, to what waits.
pub proof fn lemma_send_all_appends(c: ChannelView, signals: Seq<SignalView>)
    requires
        c.open,
    ensures
        spec_send_all(c, signals) == (ChannelView { pending: c.pending + signals, ..c }),
    decreases signals.len(),
{
    if signals.len() == 0 {
        assert(c.pending + signals =~= c.pending);
    } else {
        lemma_send_all_appends(c, signals.drop_last());
        assert((c.pending + signals.drop_last()).push(signals.last()) =~= c.pending + signals);
    }
}

/// Asking as often as signals wait gets all of them, oldest first.
pub proof fn lemma_recv_all_takes_in_order(c: ChannelView)
    ensures
        spec_recv_all(c, c.pending.len()) == c.pending,
    decreases c.pending.len(),
{
    if c.pending.len() > 0 {
        let rest = spec_recv(c).0;
        lemma_recv_all_takes_in_order(rest);
        assert(seq![c.pending.first()] + c.pending.drop_first() =~= c.pending);
    }
}

} // verus!
