//! What an event handler tells the event loop, and when the window is painted next.
//!
//! Times are nanoseconds on a clock of the application's choosing that never runs backwards.

use vstd::prelude::*;

verus! {

/// What an event handler tells the event loop.
#[derive(Clone, Copy, Debug, PartialEq, Eq, Structural)]
pub enum EventResult {
    /// Sleep until the next event.
    Wait,
    /// Paint as soon as possible.
    RepaintNow,
    /// Paint at the next turn of the loop.
    RepaintNext,
    /// Paint at the given time.
    RepaintAt(u64),
    /// Leave the loop.
    Exit,
}

/// How the event loop waits.
#[derive(Clone, Copy, Debug, PartialEq, Eq, Structural)]
pub enum Control {
    /// Until the next event.
    Wait,
    /// Until the next event or the given time, whichever comes first.
    WaitUntil(u64),
}

/// What the event loop does after an event was handled.
#[derive(Clone, Copy, Debug, PartialEq, Eq, Structural)]
pub struct LoopDirective {
    /// How to wait from now on; nothing leaves it as it was.
    pub control: Option<Control>,
    /// Whether to ask for the window to be painted.
    pub redraw: bool,
    /// Whether to leave the loop.
    pub exit: bool,
}

/// The earlier of a planned time, if there is one, and `at`.
pub open spec fn spec_earliest(planned: Option<u64>, at: u64) -> u64 {
    match planned {
        Some(t) => if t <= at {
            t
        } else {
            at
        },
        None => at,
    }
}

/// The time planned for the next painting after a handler's result. A handler that failed
/// plans nothing new, like one that asks to wait or to leave.
pub open spec fn spec_plan(planned: Option<u64>, result: Option<EventResult>, now: u64) -> Option<
    u64,
> {
    match result {
        Some(EventResult::RepaintNow) => Some(now),
        Some(EventResult::RepaintNext) => Some(now),
        Some(EventResult::RepaintAt(at)) => Some(spec_earliest(planned, at)),
        _ => planned,
    }
}

/// What is due at `now` of a planned painting: the plan that remains, whether to paint, and
/// how to wait.
pub open spec fn spec_due(planned: Option<u64>, now: u64) -> (Option<u64>, bool, Option<Control>) {
    match planned {
        Some(t) => if now >= t {
            (None, true, None)
        } else {
            (planned, false, Some(Control::WaitUntil(t)))
        },
        None => (None, false, None),
    }
}

/// The plan that remains and what the loop does, after a handler's result at `now`.
pub open spec fn spec_handle(planned: Option<u64>, result: Option<EventResult>, now: u64) -> (
    Option<u64>,
    LoopDirective,
) {
    let due = spec_due(spec_plan(planned, result, now), now);
    (
        due.0,
        LoopDirective {
            control: match due.2 {
                Some(c) => Some(c),
                None => if result == Some(EventResult::Wait) {
                    Some(Control::Wait)
                } else {
                    None
                },
            },
            redraw: due.1,
            exit: result.is_none() || result == Some(EventResult::Exit),
        },
    )
}

/// When the window is painted next.
#[derive(Clone, Copy, Debug, PartialEq, Eq, Structural)]
pub struct RepaintSchedule {
    next: Option<u64>,
}

impl View for RepaintSchedule {
    type V = Option<u64>;

    /// The time planned for the next painting, if one is planned.
    closed spec fn view(&self) -> Option<u64> {
        self.next
    }
}

impl RepaintSchedule {
    /// A schedule with nothing planned.
    pub fn new() -> (r: RepaintSchedule)
        ensures
            r@.is_none(),
    {
        RepaintSchedule { next: None }
    }

    /// The time planned for the next painting, if one is planned.
    pub fn next(&self) -> (r: Option<u64>)
        ensures
            r == self@,
    {
        self.next
    }

    /// Takes in what a handler returned at `now`, nothing standing for a handler that failed,
    /// and says what the event loop does.
    pub fn handle_event_result(&mut self, result: Option<EventResult>, now: u64) -> (d:
        LoopDirective)
        ensures
            (final(self)@, d) == spec_handle(old(self)@, result, now),
    {
        let mut exit = false;
        let mut control: Option<Control> = None;
        match result {
            Some(EventResult::Wait) => {
                control = Some(Control::Wait);
            },
            Some(EventResult::RepaintNow) => {
                self.next = Some(now);
            },
            Some(EventResult::RepaintNext) => {
                self.next = Some(now);
            },
            Some(EventResult::RepaintAt(at)) => {
                self.next = match self.next {
                    Some(t) => if t <= at {
                        Some(t)
                    } else {
                        Some(at)
                    },
                    None => Some(at),
                };
            },
            Some(EventResult::Exit) => {
                exit = true;
            },
            None => {
                exit = true;
            },
        }
        let (redraw, wait) = self.check_redraw_requests(now);
        match wait {
            Some(c) => {
                control = Some(c);
            },
            None => {},
        }
        LoopDirective { control, redraw, exit }
    }

    /// Says whether the planned painting is due at `now`, and how to wait where it is not.
    pub fn check_redraw_requests(&mut self, now: u64) -> (r: (bool, Option<Control>))
        ensures
            (final(self)@, r.0, r.1) == spec_due(old(self)@, now),
    {
        match self.next {
            Some(t) => {
                if now >= t {
                    self.next = None;
                    (true, None)
                } else {
                    (false, Some(Control::WaitUntil(t)))
                }
            },
            None => (false, None),
        }
    }
}

} // verus!
