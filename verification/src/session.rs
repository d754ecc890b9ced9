//! One attachment of the driver to a device, run against the loopback bank.
//!
//! [`DriverSession::attach`] drives the lifecycle state machine to rest,
//! performing each action it asks for on the regions of the device at hand:
//! claiming takes the region out of the device, mapping lays a
//! [`RegisterWindow`] over it, register accesses go through that window, and
//! releasing closes the window and drops the claim. The session keeps a
//! journal of the actions performed, in order.

use vstd::prelude::*;
use crate::claim::{claim, exposes, ClaimView, Device, Region, ResourceClaim};
use crate::error::DriverError;
use crate::identity::{identity_of, DeviceIdentity};
use crate::lifecycle::{
    lemma_occurrences_push, lemma_step_progress, occurrences, replies_left, Action, Event,
    Lifecycle, LifecycleState, Pending,
};
use crate::pin::lemma_pin_mask_26;
use crate::regmap::{
    GPIO26_CTRL_OFFSET, GPIO26_STATUS_OFFSET, PERIPHERAL_RESOURCE, RP1_C0_CHIP_ID,
    RP1_IO_BANK0_BASE,
    RP1_SET_OFFSET, RP1_SYSINFO_BASE, RP1_SYSRIO0_BASE, SYSINFO_CHIP_ID_OFFSET,
    SYSINFO_PLATFORM_OFFSET, WINDOW_CAPACITY,
};
use crate::window::{
    can_map, in_bounds, lemma_load_after_store, store_word, word_at, RegisterWindow,
    RegisterWrite, WindowView,
};

verus! {

/// What a [`DriverSession`] is, as plain values.
pub struct SessionView {
    /// The state machine's record of the session.
    pub lifecycle: Lifecycle,
    /// The open window, while the session is active.
    pub window: Option<WindowView>,
    /// The actions performed so far, oldest first.
    pub journal: Seq<Action>,
}

/// The driver's hold on one device, from attach to detach.
#[derive(Debug)]
pub struct DriverSession {
    lifecycle: Lifecycle,
    window: Option<RegisterWindow>,
    journal: Vec<Action>,
}

/// The view of a window that may not be there.
spec fn window_view(window: Option<RegisterWindow>) -> Option<WindowView> {
    match window {
        Some(w) => Some(w@),
        None => None,
    }
}

/// The view of a claim that may not be there.
spec fn claim_view(claim: Option<ResourceClaim>) -> Option<ClaimView> {
    match claim {
        Some(c) => Some(c@),
        None => None,
    }
}

impl View for DriverSession {
    type V = SessionView;

    closed spec fn view(&self) -> SessionView {
        SessionView {
            lifecycle: self.lifecycle,
            window: window_view(self.window),
            journal: self.journal@,
        }
    }
}

/// The platform that a session runs against: the device, and what the
/// session has taken from it.
struct Bench {
    device: Device,
    claim: Option<ResourceClaim>,
    window: Option<RegisterWindow>,
    journal: Vec<Action>,
}

/// What a [`Bench`] is, as plain values.
struct BenchView {
    bars: Seq<Option<Region>>,
    claim: Option<ClaimView>,
    window: Option<WindowView>,
    journal: Seq<Action>,
}

impl View for Bench {
    type V = BenchView;

    closed spec fn view(&self) -> BenchView {
        BenchView {
            bars: self.device.bars@,
            claim: claim_view(self.claim),
            window: window_view(self.window),
            journal: self.journal@,
        }
    }
}

impl BenchView {
    /// The bench after `action` was performed on it, and what it reports
    /// back; nothing for [`Action::Idle`].
    spec fn performed(self, action: Action) -> (BenchView, Option<Event>) {
        let noted = BenchView { journal: self.journal.push(action), ..self };
        match action {
            Action::Idle => (self, None),
            Action::ClaimResource { index } => {
                if self.claim is None && self.window is None && exposes(self.bars, index as int) {
                    let region = self.bars[index as int]->Some_0;
                    (
                        BenchView {
                            bars: self.bars.update(index as int, None),
                            claim: Some(
                                ClaimView { base: region.base, cells: region.cells@, claimed: true },
                            ),
                            ..noted
                        },
                        Some(
                            Event::ResourceGranted {
                                base: region.base,
                                length: region.cells@.len() as usize,
                            },
                        ),
                    )
                } else {
                    (noted, Some(Event::ResourceDenied))
                }
            },
            Action::MapWindow { capacity } => match self.claim {
                Some(held) => if can_map(held, capacity as nat) {
                    (
                        BenchView {
                            claim: None,
                            window: Some(
                                WindowView {
                                    base: held.base,
                                    cells: held.cells.subrange(0, capacity as int),
                                    beyond: held.cells.subrange(
                                        capacity as int,
                                        held.cells.len() as int,
                                    ),
                                    writes: Seq::empty(),
                                },
                            ),
                            ..noted
                        },
                        Some(Event::WindowMapped),
                    )
                } else {
                    (BenchView { claim: None, ..noted }, Some(Event::MapRejected))
                },
                None => (noted, Some(Event::MapRejected)),
            },
            Action::ReadRegister { offset } => match self.window {
                Some(open) => if in_bounds(open.capacity(), offset as int, 4) {
                    (noted, Some(Event::RegisterValue { value: word_at(open.cells, offset as int) }))
                } else {
                    (noted, Some(Event::AccessFault))
                },
                None => (noted, Some(Event::AccessFault)),
            },
            Action::WriteRegister { offset, value } => match self.window {
                Some(open) => if in_bounds(open.capacity(), offset as int, 4) {
                    (
                        BenchView {
                            window: Some(
                                WindowView {
                                    cells: store_word(open.cells, offset as int, value),
                                    writes: open.writes.push(RegisterWrite { offset, value }),
                                    ..open
                                },
                            ),
                            ..noted
                        },
                        Some(Event::WriteCompleted),
                    )
                } else {
                    (noted, Some(Event::AccessFault))
                },
                None => (noted, Some(Event::AccessFault)),
            },
            Action::ReleaseWindow => match self.window {
                Some(open) => (
                    BenchView {
                        claim: Some(
                            ClaimView {
                                base: open.base,
                                cells: open.cells + open.beyond,
                                claimed: true,
                            },
                        ),
                        window: None,
                        ..noted
                    },
                    Some(Event::Released),
                ),
                None => (noted, Some(Event::Released)),
            },
            Action::ReleaseClaim => (BenchView { claim: None, ..noted }, Some(Event::Released)),
        }
    }
}

/// The session and the bench once `action` and all that follows from it were
/// performed.
spec fn run(session: Lifecycle, bench: BenchView, action: Action) -> (Lifecycle, BenchView)
    decreases replies_left(session.pending), (if action == Action::Idle { 0nat } else { 1nat }),
{
    match bench.performed(action) {
        (after, Some(event)) => {
            proof {
                lemma_step_progress(session, event);
            }
            run(session.next(event).0, after, session.next(event).1)
        },
        (after, None) => (session, after),
    }
}

impl Bench {
    /// Performs `action` and reports how it went; nothing for
    /// [`Action::Idle`].
    fn perform(&mut self, action: Action) -> (reply: Option<Event>)
        ensures
            (final(self)@, reply) == old(self)@.performed(action),
            final(self).device.name == old(self).device.name,
    {
        match action {
            Action::Idle => None,
            Action::ClaimResource { index } => {
                self.journal.push(action);
                if self.claim.is_none() && self.window.is_none() {
                    match claim(&mut self.device, index) {
                        Ok(held) => {
                            let base = held.base();
                            let length = held.length();
                            self.claim = Some(held);
                            Some(Event::ResourceGranted { base, length })
                        },
                        Err(_) => Some(Event::ResourceDenied),
                    }
                } else {
                    Some(Event::ResourceDenied)
                }
            },
            Action::MapWindow { capacity } => {
                self.journal.push(action);
                match self.claim.take() {
                    Some(held) => match RegisterWindow::open(held, capacity) {
                        Ok(open) => {
                            self.window = Some(open);
                            Some(Event::WindowMapped)
                        },
                        Err(_) => Some(Event::MapRejected),
                    },
                    None => Some(Event::MapRejected),
                }
            },
            Action::ReadRegister { offset } => {
                self.journal.push(action);
                match &self.window {
                    Some(open) => match open.read_u32(offset) {
                        Ok(value) => Some(Event::RegisterValue { value }),
                        Err(_) => Some(Event::AccessFault),
                    },
                    None => Some(Event::AccessFault),
                }
            },
            Action::WriteRegister { offset, value } => {
                self.journal.push(action);
                match &mut self.window {
                    Some(open) => match open.write_u32(value, offset) {
                        Ok(()) => Some(Event::WriteCompleted),
                        Err(_) => Some(Event::AccessFault),
                    },
                    None => Some(Event::AccessFault),
                }
            },
            Action::ReleaseWindow => {
                self.journal.push(action);
                match self.window.take() {
                    Some(open) => {
                        self.claim = Some(open.close());
                    },
                    None => {},
                }
                Some(Event::Released)
            },
            Action::ReleaseClaim => {
                self.journal.push(action);
                match self.claim.take() {
                    Some(mut held) => {
                        held.release();
                    },
                    None => {},
                }
                Some(Event::Released)
            },
        }
    }

    /// Performs `action` and whatever the session asks for in turn, until
    /// the session has nothing more to ask.
    fn drive(&mut self, session: &mut Lifecycle, first: Action)
        ensures
            (*final(session), final(self)@) == run(*old(session), old(self)@, first),
            old(session).wf() ==> final(session).wf(),
            final(self).device.name == old(self).device.name,
    {
        let mut action = first;
        loop
            invariant
                old(session).wf() ==> session.wf(),
                self.device.name == old(self).device.name,
                run(*session, self@, action) == run(*old(session), old(self)@, first),
            ensures
                action == Action::Idle,
            decreases replies_left(session.pending), (if action == Action::Idle {
                    0nat
                } else {
                    1nat
                }),
        {
            match self.perform(action) {
                Some(event) => {
                    proof {
                        lemma_step_progress(*session, event);
                    }
                    action = session.step(event);
                },
                None => {
                    break ;
                },
            }
        }
    }
}

/// The regions of a device after a session tried to attach to it: the
/// peripheral region is gone if it was there, all else is as before.
pub open spec fn bars_after_attach(bars: Seq<Option<Region>>) -> Seq<Option<Region>> {
    if exposes(bars, PERIPHERAL_RESOURCE as int) {
        bars.update(PERIPHERAL_RESOURCE as int, None)
    } else {
        bars
    }
}

/// The actions of an attach that gets as far as judging the chip.
pub open spec fn journal_to_verdict() -> Seq<Action> {
    seq![
        Action::ClaimResource { index: PERIPHERAL_RESOURCE },
        Action::MapWindow { capacity: WINDOW_CAPACITY },
        Action::ReadRegister { offset: (RP1_SYSINFO_BASE + SYSINFO_CHIP_ID_OFFSET) as usize },
        Action::ReadRegister { offset: (RP1_SYSINFO_BASE + SYSINFO_PLATFORM_OFFSET) as usize },
    ]
}

/// The session that attaching to a device with the regions `bars` gives.
///
/// Without a peripheral region the session fails with `NoSuchResource`
/// after the one attempt to claim it. With a region shorter than the window
/// it fails with `MapError` and gives the claim back. Otherwise the window is
/// mapped and both identity registers are read; with the wrong chip id the
/// session fails with `IdentityMismatch` and gives back window and claim, in
/// this order. With the right one it reads the pin's status and control
/// registers, stores the pin's bit to the set alias of the output register,
/// and is active.
pub open spec fn attached(bars: Seq<Option<Region>>) -> SessionView {
    if !exposes(bars, PERIPHERAL_RESOURCE as int) {
        SessionView {
            lifecycle: Lifecycle {
                state: LifecycleState::Failed,
                error: Some(DriverError::NoSuchResource),
                ..Lifecycle::unbound()
            },
            window: None,
            journal: seq![Action::ClaimResource { index: PERIPHERAL_RESOURCE }],
        }
    } else {
        let region = bars[PERIPHERAL_RESOURCE as int]->Some_0;
        let granted = Lifecycle {
            base: region.base,
            length: region.cells@.len() as usize,
            ..Lifecycle::unbound()
        };
        if region.cells@.len() < WINDOW_CAPACITY {
            SessionView {
                lifecycle: Lifecycle {
                    state: LifecycleState::Failed,
                    error: Some(DriverError::MapError),
                    ..granted
                },
                window: None,
                journal: seq![
                    Action::ClaimResource { index: PERIPHERAL_RESOURCE },
                    Action::ReleaseClaim,
                ],
            }
        } else {
            let cells = region.cells@.subrange(0, WINDOW_CAPACITY as int);
            let chip_id = word_at(cells, RP1_SYSINFO_BASE + SYSINFO_CHIP_ID_OFFSET);
            let platform = word_at(cells, RP1_SYSINFO_BASE + SYSINFO_PLATFORM_OFFSET);
            match identity_of(chip_id, platform) {
                Err(error) => SessionView {
                    lifecycle: Lifecycle {
                        state: LifecycleState::Failed,
                        error: Some(error),
                        chip_id,
                        ..granted
                    },
                    window: None,
                    journal: journal_to_verdict().push(Action::ReleaseWindow).push(
                        Action::ReleaseClaim,
                    ),
                },
                Ok(identity) => {
                    let store = RegisterWrite {
                        offset: (RP1_SYSRIO0_BASE + RP1_SET_OFFSET) as usize,
                        value: 0x0400_0000,
                    };
                    SessionView {
                        lifecycle: Lifecycle {
                            state: LifecycleState::Active,
                            claimed: true,
                            mapped: true,
                            chip_id,
                            identity: Some(identity),
                            status: Some(word_at(cells, RP1_IO_BANK0_BASE + GPIO26_STATUS_OFFSET)),
                            ctrl: Some(word_at(cells, RP1_IO_BANK0_BASE + GPIO26_CTRL_OFFSET)),
                            ..granted
                        },
                        window: Some(
                            WindowView {
                                base: region.base,
                                cells: store_word(cells, store.offset as int, store.value),
                                beyond: region.cells@.subrange(
                                    WINDOW_CAPACITY as int,
                                    region.cells@.len() as int,
                                ),
                                writes: seq![store],
                            },
                        ),
                        journal: journal_to_verdict().push(
                            Action::ReadRegister {
                                offset: (RP1_IO_BANK0_BASE + GPIO26_STATUS_OFFSET) as usize,
                            },
                        ).push(
                            Action::ReadRegister {
                                offset: (RP1_IO_BANK0_BASE + GPIO26_CTRL_OFFSET) as usize,
                            },
                        ).push(
                            Action::WriteRegister { offset: store.offset, value: store.value },
                        ),
                    }
                },
            }
        }
    }
}

impl SessionView {
    /// The session after a detach: an active session gives back the window
    /// and then the claim and is detached; any other is left as it is.
    pub open spec fn detached(self) -> SessionView {
        if self.lifecycle.state == LifecycleState::Active {
            SessionView {
                lifecycle: Lifecycle {
                    state: LifecycleState::Detached,
                    claimed: false,
                    mapped: false,
                    ..self.lifecycle
                },
                window: None,
                journal: self.journal.push(Action::ReleaseWindow).push(Action::ReleaseClaim),
            }
        } else {
            self
        }
    }
}

/// The session, the bench and the action to perform once `action` was
/// performed and the session has taken the reply.
spec fn advanced(session: Lifecycle, bench: BenchView, action: Action) -> (
    Lifecycle,
    BenchView,
    Action,
) {
    match bench.performed(action) {
        (after, Some(event)) => (session.next(event).0, after, session.next(event).1),
        (after, None) => (session, after, Action::Idle),
    }
}

/// A run comes out the same from one step further on.
proof fn lemma_run_advanced(session: Lifecycle, bench: BenchView, action: Action)
    ensures
        run(session, bench, action) == run(
            advanced(session, bench, action).0,
            advanced(session, bench, action).1,
            advanced(session, bench, action).2,
        ),
        action == Action::Idle ==> run(session, bench, action) == (session, bench),
{
    reveal_with_fuel(run, 2);
}

/// Running an attach to its end on a bench that holds `bars` and nothing
/// else gives the session that [`attached`] describes, on a bench that again
/// holds nothing.
proof fn lemma_attach_run(bars: Seq<Option<Region>>)
    ensures
        run(
            Lifecycle::unbound().next(Event::Attach).0,
            BenchView { bars, claim: None, window: None, journal: Seq::empty() },
            Lifecycle::unbound().next(Event::Attach).1,
        ) == (
            attached(bars).lifecycle,
            BenchView {
                bars: bars_after_attach(bars),
                claim: None,
                window: attached(bars).window,
                journal: attached(bars).journal,
            },
        ),
{
    lemma_pin_mask_26();
    if exposes(bars, PERIPHERAL_RESOURCE as int) {
        let region = bars[PERIPHERAL_RESOURCE as int]->Some_0;
        assert(region.cells.len() == region.cells@.len());
    }
    let s0 = (
        Lifecycle::unbound().next(Event::Attach).0,
        BenchView { bars, claim: None, window: None, journal: Seq::empty() },
        Lifecycle::unbound().next(Event::Attach).1,
    );
    let s1 = advanced(s0.0, s0.1, s0.2);
    let s2 = advanced(s1.0, s1.1, s1.2);
    let s3 = advanced(s2.0, s2.1, s2.2);
    let s4 = advanced(s3.0, s3.1, s3.2);
    let s5 = advanced(s4.0, s4.1, s4.2);
    let s6 = advanced(s5.0, s5.1, s5.2);
    let s7 = advanced(s6.0, s6.1, s6.2);
    lemma_run_advanced(s0.0, s0.1, s0.2);
    lemma_run_advanced(s1.0, s1.1, s1.2);
    lemma_run_advanced(s2.0, s2.1, s2.2);
    lemma_run_advanced(s3.0, s3.1, s3.2);
    lemma_run_advanced(s4.0, s4.1, s4.2);
    lemma_run_advanced(s5.0, s5.1, s5.2);
    lemma_run_advanced(s6.0, s6.1, s6.2);
    lemma_run_advanced(s7.0, s7.1, s7.2);
    assert(s7.2 == Action::Idle);
    assert(s7.0 == attached(bars).lifecycle);
    assert(s7.1.bars == bars_after_attach(bars));
    assert(s7.1.claim is None);
    assert(s7.1.window == attached(bars).window);
    assert(s7.1.journal == attached(bars).journal);
}

/// Running a detach to its end on a session at rest, with its window on an
/// otherwise empty bench, gives the session that [`SessionView::detached`]
/// describes.
proof fn lemma_detach_run(session: SessionView)
    requires
        session.lifecycle.wf(),
        session.lifecycle.pending == Pending::Nothing,
        session.lifecycle.state == LifecycleState::Active <==> session.window is Some,
    ensures
        run(
            session.lifecycle.next(Event::Detach).0,
            BenchView {
                bars: Seq::empty(),
                claim: None,
                window: session.window,
                journal: session.journal,
            },
            session.lifecycle.next(Event::Detach).1,
        ) == (
            session.detached().lifecycle,
            BenchView {
                bars: Seq::empty(),
                claim: None,
                window: session.detached().window,
                journal: session.detached().journal,
            },
        ),
{
    let s0 = (
        session.lifecycle.next(Event::Detach).0,
        BenchView {
            bars: Seq::empty(),
            claim: None,
            window: session.window,
            journal: session.journal,
        },
        session.lifecycle.next(Event::Detach).1,
    );
    let s1 = advanced(s0.0, s0.1, s0.2);
    let s2 = advanced(s1.0, s1.1, s1.2);
    lemma_run_advanced(s0.0, s0.1, s0.2);
    lemma_run_advanced(s1.0, s1.1, s1.2);
    lemma_run_advanced(s2.0, s2.1, s2.2);
    assert(s2.2 == Action::Idle);
    assert(s2.0 == session.detached().lifecycle);
    assert(s2.1.window == session.detached().window);
    assert(s2.1.journal == session.detached().journal);
}

impl DriverSession {
    #[verifier::type_invariant]
    spec fn at_rest(self) -> bool {
        &&& self.lifecycle.wf()
        &&& self.lifecycle.pending == Pending::Nothing
        &&& self.lifecycle.state == LifecycleState::Active <==> self.window is Some
    }

    /// Attaches to `device`: claims its peripheral region, maps the register
    /// window, checks the chip id, reads the pin's status and control
    /// registers and drives the output pin high.
    ///
    /// The session that comes back is active, or has failed and holds
    /// nothing; [`attached`] says which, from the regions that the device had.
    pub fn attach(device: &mut Device) -> (session: DriverSession)
        ensures
            session@ == attached(old(device).bars@),
            final(device).bars@ == bars_after_attach(old(device).bars@),
            final(device).name == old(device).name,
    {
        let mut lifecycle = Lifecycle::new();
        let mut bench = Bench {
            device: Device { name: String::new(), bars: Vec::new() },
            claim: None,
            window: None,
            journal: Vec::new(),
        };
        core::mem::swap(device, &mut bench.device);
        let first = lifecycle.step(Event::Attach);
        bench.drive(&mut lifecycle, first);
        proof {
            lemma_attach_run(old(device).bars@);
        }
        core::mem::swap(device, &mut bench.device);
        DriverSession { lifecycle, window: bench.window, journal: bench.journal }
    }

    /// Detaches: an active session gives back the window and then the
    /// claim, and is detached. On any other session nothing happens, so a
    /// failed session, or one that was detached before, may be detached again.
    pub fn detach(&mut self)
        ensures
            final(self)@ == old(self)@.detached(),
    {
        let mut taken = DriverSession {
            lifecycle: Lifecycle::new(),
            window: None,
            journal: Vec::new(),
        };
        core::mem::swap(self, &mut taken);
        proof {
            use_type_invariant(&taken);
            lemma_detach_run(taken@);
        }
        let mut lifecycle = taken.lifecycle;
        let mut bench = Bench {
            device: Device { name: String::new(), bars: Vec::new() },
            claim: None,
            window: taken.window,
            journal: taken.journal,
        };
        let first = lifecycle.step(Event::Detach);
        bench.drive(&mut lifecycle, first);
        *self = DriverSession { lifecycle, window: bench.window, journal: bench.journal };
    }

    /// Where the session stands.
    pub fn state(&self) -> (state: LifecycleState)
        ensures
            state == self@.lifecycle.state,
    {
        self.lifecycle.state
    }

    /// Why attaching failed; `None` unless it did.
    pub fn error(&self) -> (error: Option<DriverError>)
        ensures
            error == self@.lifecycle.error,
            error is Some <==> self@.lifecycle.state == LifecycleState::Failed,
    {
        proof {
            use_type_invariant(self);
        }
        self.lifecycle.error
    }

    /// What the chip was recognised as; `None` if it never was.
    pub fn identity(&self) -> (identity: Option<DeviceIdentity>)
        ensures
            identity == self@.lifecycle.identity,
    {
        self.lifecycle.identity
    }

    /// The state machine's record of the session.
    pub fn lifecycle(&self) -> (lifecycle: Lifecycle)
        ensures
            lifecycle == self@.lifecycle,
            lifecycle.wf(),
            lifecycle.pending == Pending::Nothing,
    {
        proof {
            use_type_invariant(self);
        }
        self.lifecycle
    }

    /// The open window; there is one exactly while the session is active.
    pub fn window(&self) -> (window: Option<&RegisterWindow>)
        ensures
            window is Some <==> self@.lifecycle.state == LifecycleState::Active,
            window is Some ==> self@.window == Some(window->Some_0@),
            window is None ==> self@.window is None,
    {
        proof {
            use_type_invariant(self);
        }
        self.window.as_ref()
    }

    /// The actions performed so far, oldest first.
    pub fn journal(&self) -> (journal: &Vec<Action>)
        ensures
            journal@ == self@.journal,
    {
        &self.journal
    }
}

/// Up to the verdict on the chip, an attach claims, maps and reads, and does
/// nothing else.
proof fn lemma_occurrences_to_verdict(action: Action)
    requires
        !(action is ClaimResource),
        !(action is MapWindow),
        !(action is ReadRegister),
    ensures
        occurrences(journal_to_verdict(), action) == 0,
{
    let j0 = Seq::<Action>::empty();
    let j1 = j0.push(Action::ClaimResource { index: PERIPHERAL_RESOURCE });
    let j2 = j1.push(Action::MapWindow { capacity: WINDOW_CAPACITY });
    let j3 = j2.push(
        Action::ReadRegister { offset: (RP1_SYSINFO_BASE + SYSINFO_CHIP_ID_OFFSET) as usize },
    );
    let j4 = j3.push(
        Action::ReadRegister { offset: (RP1_SYSINFO_BASE + SYSINFO_PLATFORM_OFFSET) as usize },
    );
    assert(journal_to_verdict() =~= j4);
    lemma_occurrences_push(j0, j1.last(), action);
    lemma_occurrences_push(j1, j2.last(), action);
    lemma_occurrences_push(j2, j3.last(), action);
    lemma_occurrences_push(j3, j4.last(), action);
}

/// With the expected chip behind a region that is long enough, attach
/// succeeds: the session is active with the window open, the chip's identity
/// is known, and the one store that was issued set the bit of pin 26 through
/// the set alias of the output register, where it can be read back.
pub proof fn lemma_attach_succeeds(bars: Seq<Option<Region>>)
    requires
        exposes(bars, PERIPHERAL_RESOURCE as int),
        bars[PERIPHERAL_RESOURCE as int]->Some_0.cells@.len() >= WINDOW_CAPACITY,
        word_at(bars[PERIPHERAL_RESOURCE as int]->Some_0.cells@, 0) == RP1_C0_CHIP_ID,
    ensures
        attached(bars).lifecycle.state == LifecycleState::Active,
        attached(bars).lifecycle.error is None,
        attached(bars).lifecycle.identity == Some(
            DeviceIdentity {
                chip_id: RP1_C0_CHIP_ID,
                platform: word_at(bars[PERIPHERAL_RESOURCE as int]->Some_0.cells@, 4),
            },
        ),
        attached(bars).window is Some,
        attached(bars).window->Some_0.capacity() == WINDOW_CAPACITY,
        attached(bars).window->Some_0.writes == seq![
            RegisterWrite { offset: 0xe_2000, value: 0x0400_0000 },
        ],
        word_at(attached(bars).window->Some_0.cells, 0xe_2000) == 0x0400_0000u32,
        occurrences(
            attached(bars).journal,
            Action::WriteRegister { offset: 0xe_2000, value: 0x0400_0000 },
        ) == 1,
        occurrences(attached(bars).journal, Action::ReleaseWindow) == 0,
        occurrences(attached(bars).journal, Action::ReleaseClaim) == 0,
{
    let region = bars[PERIPHERAL_RESOURCE as int]->Some_0;
    let cells = region.cells@.subrange(0, WINDOW_CAPACITY as int);
    let view = WindowView {
        base: region.base,
        cells,
        beyond: Seq::empty(),
        writes: Seq::empty(),
    };
    lemma_load_after_store(view, 0x0400_0000, 0xe_2000);
    let status = Action::ReadRegister {
        offset: (RP1_IO_BANK0_BASE + GPIO26_STATUS_OFFSET) as usize,
    };
    let ctrl = Action::ReadRegister { offset: (RP1_IO_BANK0_BASE + GPIO26_CTRL_OFFSET) as usize };
    let store = Action::WriteRegister { offset: 0xe_2000, value: 0x0400_0000 };
    let j4 = journal_to_verdict();
    lemma_occurrences_to_verdict(store);
    lemma_occurrences_to_verdict(Action::ReleaseWindow);
    lemma_occurrences_to_verdict(Action::ReleaseClaim);
    lemma_occurrences_push(j4, status, store);
    lemma_occurrences_push(j4.push(status), ctrl, store);
    lemma_occurrences_push(j4.push(status).push(ctrl), store, store);
    lemma_occurrences_push(j4, status, Action::ReleaseWindow);
    lemma_occurrences_push(j4.push(status), ctrl, Action::ReleaseWindow);
    lemma_occurrences_push(j4.push(status).push(ctrl), store, Action::ReleaseWindow);
    lemma_occurrences_push(j4, status, Action::ReleaseClaim);
    lemma_occurrences_push(j4.push(status), ctrl, Action::ReleaseClaim);
    lemma_occurrences_push(j4.push(status).push(ctrl), store, Action::ReleaseClaim);
}

/// With any other chip id, attach fails with `IdentityMismatch` and leaks
/// nothing: the session holds neither window nor claim, each was released
/// exactly once, and no store was issued.
pub proof fn lemma_mismatch_fails_without_leak(bars: Seq<Option<Region>>)
    requires
        exposes(bars, PERIPHERAL_RESOURCE as int),
        bars[PERIPHERAL_RESOURCE as int]->Some_0.cells@.len() >= WINDOW_CAPACITY,
        word_at(bars[PERIPHERAL_RESOURCE as int]->Some_0.cells@, 0) != RP1_C0_CHIP_ID,
    ensures
        attached(bars).lifecycle.state == LifecycleState::Failed,
        attached(bars).lifecycle.error == Some(DriverError::IdentityMismatch),
        attached(bars).window is None,
        !attached(bars).lifecycle.claimed,
        !attached(bars).lifecycle.mapped,
        occurrences(attached(bars).journal, Action::ReleaseWindow) == 1,
        occurrences(attached(bars).journal, Action::ReleaseClaim) == 1,
        forall|action: Action|
            action is WriteRegister ==> #[trigger] occurrences(attached(bars).journal, action)
                == 0,
{
    let j4 = journal_to_verdict();
    lemma_occurrences_to_verdict(Action::ReleaseWindow);
    lemma_occurrences_to_verdict(Action::ReleaseClaim);
    lemma_occurrences_push(j4, Action::ReleaseWindow, Action::ReleaseWindow);
    lemma_occurrences_push(
        j4.push(Action::ReleaseWindow),
        Action::ReleaseClaim,
        Action::ReleaseWindow,
    );
    lemma_occurrences_push(j4, Action::ReleaseWindow, Action::ReleaseClaim);
    lemma_occurrences_push(
        j4.push(Action::ReleaseWindow),
        Action::ReleaseClaim,
        Action::ReleaseClaim,
    );
    assert forall|store: Action| store is WriteRegister implies #[trigger] occurrences(
        attached(bars).journal,
        store,
    ) == 0 by {
        lemma_occurrences_to_verdict(store);
        lemma_occurrences_push(j4, Action::ReleaseWindow, store);
        lemma_occurrences_push(j4.push(Action::ReleaseWindow), Action::ReleaseClaim, store);
    }
}

/// Whatever the device offers, the session that attach gives is at rest, and
/// has failed exactly if it is not active; a failed session holds nothing,
/// and the peripheral region has left the device if it was there.
pub proof fn lemma_attach_comes_to_rest(bars: Seq<Option<Region>>)
    ensures
        attached(bars).lifecycle.wf(),
        attached(bars).lifecycle.pending == Pending::Nothing,
        attached(bars).lifecycle.state == LifecycleState::Active || attached(bars).lifecycle.state
            == LifecycleState::Failed,
        attached(bars).lifecycle.state == LifecycleState::Active <==> attached(bars).window
            is Some,
        attached(bars).lifecycle.state == LifecycleState::Failed ==> !attached(
            bars,
        ).lifecycle.claimed && !attached(bars).lifecycle.mapped,
        !exposes(bars_after_attach(bars), PERIPHERAL_RESOURCE as int),
{
    if exposes(bars, PERIPHERAL_RESOURCE as int) {
        let region = bars[PERIPHERAL_RESOURCE as int]->Some_0;
        assert(region.cells.len() == region.cells@.len());
    }
}

/// Detach after an attach that succeeded releases the window and then the
/// claim, each exactly once, and leaves the session detached with nothing
/// held.
pub proof fn lemma_detach_after_attach(bars: Seq<Option<Region>>)
    requires
        attached(bars).lifecycle.state == LifecycleState::Active,
    ensures
        attached(bars).detached().lifecycle.state == LifecycleState::Detached,
        attached(bars).detached().lifecycle.error is None,
        attached(bars).detached().window is None,
        !attached(bars).detached().lifecycle.claimed,
        !attached(bars).detached().lifecycle.mapped,
        attached(bars).detached().journal == attached(bars).journal.push(
            Action::ReleaseWindow,
        ).push(Action::ReleaseClaim),
        occurrences(attached(bars).detached().journal, Action::ReleaseWindow) == 1,
        occurrences(attached(bars).detached().journal, Action::ReleaseClaim) == 1,
{
    lemma_attach_succeeds(bars);
    lemma_detach_releases_in_order(attached(bars));
}

/// Detaching an active session releases the window and then the claim, each
/// exactly once if neither was released before, and leaves the session
/// detached with nothing held.
pub proof fn lemma_detach_releases_in_order(session: SessionView)
    requires
        session.lifecycle.state == LifecycleState::Active,
        occurrences(session.journal, Action::ReleaseWindow) == 0,
        occurrences(session.journal, Action::ReleaseClaim) == 0,
    ensures
        session.detached().lifecycle.state == LifecycleState::Detached,
        session.detached().window is None,
        !session.detached().lifecycle.claimed,
        !session.detached().lifecycle.mapped,
        session.detached().journal.len() == session.journal.len() + 2,
        session.detached().journal.subrange(0, session.journal.len() as int) == session.journal,
        session.detached().journal[session.journal.len() as int] == Action::ReleaseWindow,
        session.detached().journal[session.journal.len() as int + 1] == Action::ReleaseClaim,
        occurrences(session.detached().journal, Action::ReleaseWindow) == 1,
        occurrences(session.detached().journal, Action::ReleaseClaim) == 1,
{
    let released = session.journal.push(Action::ReleaseWindow);
    lemma_occurrences_push(session.journal, Action::ReleaseWindow, Action::ReleaseWindow);
    lemma_occurrences_push(released, Action::ReleaseClaim, Action::ReleaseWindow);
    lemma_occurrences_push(session.journal, Action::ReleaseWindow, Action::ReleaseClaim);
    lemma_occurrences_push(released, Action::ReleaseClaim, Action::ReleaseClaim);
    assert(session.detached().journal.subrange(0, session.journal.len() as int)
        =~= session.journal);
}

/// Detach may be repeated, and may be applied to a session that never
/// became active: a second detach changes nothing, and neither does a
/// detach of a failed session.
pub proof fn lemma_detach_is_idempotent(session: SessionView)
    ensures
        session.detached().detached() == session.detached(),
        session.lifecycle.state != LifecycleState::Active ==> session.detached() == session,
{
}

} // verus!
