//! The simulation owner: the one place where signals change simulation state.
//!
//! The owner does not run the device emulator or the renderer itself. For each signal it says
//! what the emulator has to do, keeps the geometry, the acknowledgment store and the command
//! relay in step with one another, and marks what has to be recomputed before the next
//! frame. At the start of a frame it hands out the marks, each to the one step that clears it.

use vstd::prelude::*;
use crate::ack_store::{spec_next_version, spec_zero_statuses, AckStore};
use crate::event::EventResult;
use crate::geometry::{Device, Geometry};
use crate::link::{command_bytes, copy_commands, RxStatus, TxCommand};
use crate::relay::{spec_latest_or_neutral, CommandRelay};
use crate::signal::{Signal, SignalView};
use crate::update_flag::{every_kind, UpdateFlag, UpdateKind};

verus! {

/// What the device emulator has to do for a signal, after its tick.
#[derive(Debug, PartialEq, Eq)]
pub enum Directive {
    /// Nothing but the tick.
    Tick,
    /// Start over with one emulated device for each device of the geometry.
    Configure(Geometry),
    /// Move the emulated devices to the poses of the geometry.
    ReconfigurePose(Geometry),
    /// Hand each emulated device its record, and publish the statuses that come back.
    Apply(Vec<TxCommand>),
    /// Drop every emulated device.
    Reset,
}

/// A directive as plain values.
pub enum DirectiveView {
    Tick,
    Configure(Seq<Device>),
    ReconfigurePose(Seq<Device>),
    Apply(Seq<Seq<u8>>),
    Reset,
}

impl View for Directive {
    type V = DirectiveView;

    open spec fn view(&self) -> DirectiveView {
        match self {
            Directive::Tick => DirectiveView::Tick,
            Directive::Configure(g) => DirectiveView::Configure(g@),
            Directive::ReconfigurePose(g) => DirectiveView::ReconfigurePose(g@),
            Directive::Apply(cmds) => DirectiveView::Apply(command_bytes(cmds@)),
            Directive::Reset => DirectiveView::Reset,
        }
    }
}

/// One step that brings derived state up to date.
#[derive(Clone, Copy, Debug, PartialEq, Eq, Structural)]
pub enum Step {
    /// The view and projection matrices.
    Camera,
    /// The transducer positions.
    TransPos,
    /// The transducer amplitudes and phases.
    TransState,
    /// The transducer colors.
    TransColor,
    /// The slice position and size.
    Slice,
    /// The configuration of the field computation.
    Config,
    /// The slice color map.
    ColorMap,
}

/// The steps that bring derived state up to date, each with whether it has to run.
#[derive(Clone, Copy, Debug, PartialEq, Eq, Structural)]
pub struct Recompute {
    pub camera: bool,
    pub trans_pos: bool,
    pub trans_state: bool,
    pub trans_color: bool,
    pub slice: bool,
    pub config: bool,
    pub color_map: bool,
}

/// The one step that clears the mark of `kind`.
pub open spec fn spec_claimant(kind: UpdateKind) -> Step {
    match kind {
        UpdateKind::SliceColorMap => Step::ColorMap,
        UpdateKind::SlicePos => Step::Slice,
        UpdateKind::SliceSize => Step::Slice,
        UpdateKind::Camera => Step::Camera,
        UpdateKind::TransState => Step::TransState,
        UpdateKind::TransAlpha => Step::TransColor,
        UpdateKind::TransPos => Step::TransPos,
        UpdateKind::Config => Step::Config,
    }
}

/// Whether a mark of `kind` makes `step` run: its claimant runs, and so does the color
/// step for a state mark, because the colors follow the amplitudes.
pub open spec fn spec_serves(step: Step, kind: UpdateKind) -> bool {
    spec_claimant(kind) == step || (step is TransColor && kind is TransState)
}

/// The steps that have to run for the marks in `flags`.
pub open spec fn spec_recompute(flags: Set<UpdateKind>) -> Recompute {
    Recompute {
        camera: flags.contains(UpdateKind::Camera),
        trans_pos: flags.contains(UpdateKind::TransPos),
        trans_state: flags.contains(UpdateKind::TransState),
        trans_color: flags.contains(UpdateKind::TransAlpha) || flags.contains(
            UpdateKind::TransState,
        ),
        slice: flags.contains(UpdateKind::SlicePos) || flags.contains(UpdateKind::SliceSize),
        config: flags.contains(UpdateKind::Config),
        color_map: flags.contains(UpdateKind::SliceColorMap),
    }
}

impl Recompute {
    /// Whether `step` has to run.
    pub open spec fn spec_runs(self, step: Step) -> bool {
        match step {
            Step::Camera => self.camera,
            Step::TransPos => self.trans_pos,
            Step::TransState => self.trans_state,
            Step::TransColor => self.trans_color,
            Step::Slice => self.slice,
            Step::Config => self.config,
            Step::ColorMap => self.color_map,
        }
    }

    /// Whether `step` has to run.
    pub fn runs(&self, step: Step) -> (r: bool)
        ensures
            r == self.spec_runs(step),
    {
        match step {
            Step::Camera => self.camera,
            Step::TransPos => self.trans_pos,
            Step::TransState => self.trans_state,
            Step::TransColor => self.trans_color,
            Step::Slice => self.slice,
            Step::Config => self.config,
            Step::ColorMap => self.color_map,
        }
    }
}

/// The simulation owner's state as plain values.
pub struct SimulatorView {
    /// What is marked for recomputation.
    pub flags: Set<UpdateKind>,
    /// The devices of the geometry, if one is configured.
    pub geometry: Option<Seq<Device>>,
    /// The last command batch issued, until it is fetched.
    pub relay: Option<Seq<Seq<u8>>>,
}

impl SimulatorView {
    /// How many devices the geometry has; zero without one.
    pub open spec fn device_count(self) -> nat {
        match self.geometry {
            Some(devices) => devices.len(),
            None => 0,
        }
    }
}

/// What holds of the owner in every state it can reach: the devices of the geometry can be
/// counted in four bytes, and whatever batch is in the relay has one record for each of them.
pub open spec fn spec_simulator_inv(s: SimulatorView) -> bool {
    &&& s.device_count() <= u32::MAX
    &&& s.relay matches Some(records) ==> records.len() == s.device_count()
}

/// The owner's state, the store and the directive after `event`, from those before.
///
/// A geometry replaces everything sized by the old one and marks everything. A geometry
/// update or a command batch that does not fit the geometry changes nothing. A close tears
/// the geometry down, and the store and the relay with it.
pub open spec fn spec_update(
    s: SimulatorView,
    store: Seq<RxStatus>,
    event: Option<SignalView>,
) -> (SimulatorView, Seq<RxStatus>, DirectiveView) {
    match event {
        None => (s, store, DirectiveView::Tick),
        Some(SignalView::ConfigGeometry(devices)) => (
            SimulatorView { flags: every_kind(), geometry: Some(devices), relay: None },
            spec_zero_statuses(devices.len()),
            DirectiveView::Configure(devices),
        ),
        Some(SignalView::UpdateGeometry(devices)) => if s.geometry is Some && devices.len()
            == s.device_count() {
            (
                SimulatorView {
                    flags: s.flags.insert(UpdateKind::TransPos),
                    geometry: Some(devices),
                    ..s
                },
                store,
                DirectiveView::ReconfigurePose(devices),
            )
        } else {
            (s, store, DirectiveView::Tick)
        },
        Some(SignalView::Send(records)) => if records.len() == s.device_count() {
            (
                SimulatorView {
                    flags: s.flags.insert(UpdateKind::TransState),
                    relay: Some(records),
                    ..s
                },
                store,
                DirectiveView::Apply(records),
            )
        } else {
            (s, store, DirectiveView::Tick)
        },
        Some(SignalView::Close) => (
            SimulatorView { geometry: None, relay: None, ..s },
            spec_zero_statuses(0),
            DirectiveView::Reset,
        ),
    }
}

/// Whether `event` starts the store over under `spec_update`.
pub open spec fn spec_resets_store(event: Option<SignalView>) -> bool {
    event matches Some(signal) && (signal is ConfigGeometry || signal is Close)
}

/// The owner's state and the steps to run, when the marks are handed out.
pub open spec fn spec_drain(s: SimulatorView) -> (SimulatorView, Recompute) {
    (SimulatorView { flags: Set::<UpdateKind>::empty(), ..s }, spec_recompute(s.flags))
}

/// What the event loop is told after a frame was painted with result `painted`: to paint
/// again at once while a configured simulation plays by itself, else what the painting said.
pub open spec fn spec_after_paint(
    s: SimulatorView,
    painted: EventResult,
    auto_play: bool,
) -> EventResult {
    if s.device_count() > 0 && auto_play {
        EventResult::RepaintNow
    } else {
        painted
    }
}

/// The plain values of an event, if there is one.
pub open spec fn spec_event(event: Option<Signal>) -> Option<SignalView> {
    match event {
        Some(signal) => Some(signal@),
        None => None,
    }
}

/// The state that the simulation owner keeps between events.
#[derive(Debug, PartialEq, Eq)]
pub struct Simulator {
    update_flag: UpdateFlag,
    geometry: Option<Geometry>,
    relay: CommandRelay,
}

impl View for Simulator {
    type V = SimulatorView;

    closed spec fn view(&self) -> SimulatorView {
        SimulatorView {
            flags: self.update_flag@,
            geometry: match self.geometry {
                Some(g) => Some(g@),
                None => None,
            },
            relay: self.relay@,
        }
    }
}

impl Simulator {
    /// An owner is always in a state it can reach.
    #[verifier::type_invariant]
    pub closed spec fn wf(self) -> bool {
        spec_simulator_inv(self@)
    }

    /// An owner with no geometry, nothing marked and nothing in the relay.
    pub fn new() -> (s: Simulator)
        ensures
            s.wf(),
            s@.flags == Set::<UpdateKind>::empty(),
            s@.geometry.is_none(),
            s@.relay.is_none(),
    {
        Simulator { update_flag: UpdateFlag::empty(), geometry: None, relay: CommandRelay::new() }
    }

    /// How many devices the geometry has; zero without one.
    pub fn device_count(&self) -> (n: usize)
        ensures
            n == self@.device_count(),
    {
        match &self.geometry {
            Some(g) => g.num_devices(),
            None => 0,
        }
    }

    /// Whether a geometry with at least one device is configured.
    pub fn initialized(&self) -> (r: bool)
        ensures
            r <==> self@.device_count() > 0,
    {
        self.device_count() > 0
    }

    /// The geometry, if one is configured.
    pub fn geometry(&self) -> (r: Option<&Geometry>)
        ensures
            match r {
                Some(g) => self@.geometry == Some(g@),
                None => self@.geometry.is_none(),
            },
    {
        self.geometry.as_ref()
    }

    /// What is marked for recomputation.
    pub fn update_flag(&self) -> (f: UpdateFlag)
        ensures
            f@ == self@.flags,
    {
        self.update_flag
    }

    /// Marks the kinds of `flags` for recomputation, in addition to what is marked.
    pub fn mark(&mut self, flags: UpdateFlag)
        ensures
            final(self)@ == (SimulatorView {
                flags: old(self)@.flags.union(flags@),
                ..old(self)@
            }),
    {
        proof {
            use_type_invariant(&*self);
        }
        let mut marked = self.update_flag;
        marked.set(flags, true);
        self.update_flag = marked;
    }

    /// Applies `event` to the simulation state and says what the emulator has to do.
    pub fn update(&mut self, store: &mut AckStore, event: Option<Signal>) -> (directive:
        Directive)
        ensures
            (final(self)@, final(store)@, directive@) == spec_update(
                old(self)@,
                old(store)@,
                spec_event(event),
            ),
            final(store).spec_version() == if spec_resets_store(spec_event(event)) {
                spec_next_version(old(store).spec_version())
            } else {
                old(store).spec_version()
            },
    {
        proof {
            use_type_invariant(&*self);
        }
        match event {
            None => Directive::Tick,
            Some(Signal::ConfigGeometry(geometry)) => {
                store.reset(geometry.num_devices());
                self.relay = CommandRelay::new();
                self.update_flag = UpdateFlag::all();
                self.geometry = Some(geometry.duplicate());
                Directive::Configure(geometry)
            },
            Some(Signal::UpdateGeometry(geometry)) => {
                if self.geometry.is_some() && geometry.num_devices() == self.device_count() {
                    let mut marked = self.update_flag;
                    marked.set(UpdateFlag::of(UpdateKind::TransPos), true);
                    assert(marked@ =~= old(self)@.flags.insert(UpdateKind::TransPos));
                    self.update_flag = marked;
                    self.geometry = Some(geometry.duplicate());
                    Directive::ReconfigurePose(geometry)
                } else {
                    Directive::Tick
                }
            },
            Some(Signal::Send(cmds)) => {
                assert(command_bytes(cmds@).len() == cmds@.len());
                if cmds.len() == self.device_count() {
                    let mut relay = CommandRelay::new();
                    relay.offer(copy_commands(&cmds));
                    self.relay = relay;
                    let mut marked = self.update_flag;
                    marked.set(UpdateFlag::of(UpdateKind::TransState), true);
                    assert(marked@ =~= old(self)@.flags.insert(UpdateKind::TransState));
                    self.update_flag = marked;
                    Directive::Apply(cmds)
                } else {
                    Directive::Tick
                }
            },
            Some(Signal::Close) => {
                store.reset(0);
                self.relay = CommandRelay::new();
                self.geometry = None;
                Directive::Reset
            },
        }
    }

    /// Fetches the last command batch issued for the geometry, or a neutral batch where none
    /// was issued since the geometry was configured or since the last fetch.
    pub fn latest_commands(&mut self) -> (cmds: Vec<TxCommand>)
        ensures
            command_bytes(cmds@) == spec_latest_or_neutral(
                old(self)@.relay,
                old(self)@.device_count(),
            ),
            final(self)@ == (SimulatorView { relay: None, ..old(self)@ }),
    {
        proof {
            use_type_invariant(&*self);
        }
        let n = self.device_count();
        let mut relay = CommandRelay::new();
        core::mem::swap(&mut self.relay, &mut relay);
        relay.take_or_neutral(n)
    }

    fn claim(&mut self, kind: UpdateKind) -> (marked: bool)
        ensures
            marked == old(self)@.flags.contains(kind),
            final(self)@ == (SimulatorView {
                flags: old(self)@.flags.remove(kind),
                ..old(self)@
            }),
    {
        proof {
            use_type_invariant(&*self);
        }
        let flag = UpdateFlag::of(kind);
        let marked = self.update_flag.contains(flag);
        proof {
            assert(flag@.contains(kind));
            if old(self)@.flags.contains(kind) {
                assert(flag@.subset_of(old(self)@.flags));
            }
        }
        let mut rest = self.update_flag;
        rest.remove(flag);
        assert(rest@ =~= old(self)@.flags.remove(kind));
        self.update_flag = rest;
        marked
    }

    /// Hands out the marks at the start of a frame: says which steps have to run, and clears
    /// every mark.
    pub fn drain(&mut self) -> (plan: Recompute)
        ensures
            (final(self)@, plan) == spec_drain(old(self)@),
    {
        let camera = self.claim(UpdateKind::Camera);
        let trans_pos = self.claim(UpdateKind::TransPos);
        let trans_state = self.claim(UpdateKind::TransState);
        let trans_alpha = self.claim(UpdateKind::TransAlpha);
        let slice_pos = self.claim(UpdateKind::SlicePos);
        let slice_size = self.claim(UpdateKind::SliceSize);
        let config = self.claim(UpdateKind::Config);
        let color_map = self.claim(UpdateKind::SliceColorMap);
        proof {
            assert forall|k: UpdateKind| !self@.flags.contains(k) by {
                match k {
                    UpdateKind::SliceColorMap => {},
                    UpdateKind::SlicePos => {},
                    UpdateKind::SliceSize => {},
                    UpdateKind::Camera => {},
                    UpdateKind::TransState => {},
                    UpdateKind::TransAlpha => {},
                    UpdateKind::TransPos => {},
                    UpdateKind::Config => {},
                }
            }
            assert(self@.flags =~= Set::<UpdateKind>::empty());
        }
        Recompute {
            camera,
            trans_pos,
            trans_state,
            trans_color: trans_alpha || trans_state,
            slice: slice_pos || slice_size,
            config,
            color_map,
        }
    }

    /// What the event loop is told after a signal was applied: to paint at once where
    /// something presents the simulation, else to wait.
    pub fn after_signal(presenting: bool) -> (r: EventResult)
        ensures
            r == if presenting {
                EventResult::RepaintNow
            } else {
                EventResult::Wait
            },
    {
        if presenting {
            EventResult::RepaintNow
        } else {
            EventResult::Wait
        }
    }

    /// What the event loop is told after a frame was painted with result `painted`.
    pub fn after_paint(&self, painted: EventResult, auto_play: bool) -> (r: EventResult)
        ensures
            r == spec_after_paint(self@, painted, auto_play),
    {
        if self.initialized() && auto_play {
            EventResult::RepaintNow
        } else {
            painted
        }
    }
}

} // verus!
