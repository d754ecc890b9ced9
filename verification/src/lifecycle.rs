//! The attach and detach sequence as a state machine that does no I/O.
//!
//! The machine decides; the platform acts. [`Lifecycle::step`] takes what the
//! platform reports, moves to the next state and answers with the one
//! [`Action`] to perform next. The platform performs it, whatever that takes
//! on the bus at hand, and comes back with the [`Event`] that tells how it
//! went. An answer of [`Action::Idle`] ends the exchange: the session has
//! come to rest, or the event was none that the machine was waiting for.
//!
//! A session passes through `Unbound`, `Claiming`, `Mapped`, `Verified` and
//! `Active`, and ends in `Failed` or `Detached`. Any failure on the way to
//! `Active` is followed by the release of the window, if one was mapped, and
//! then of the claim, if one was granted, before the session comes to rest in
//! `Failed`.

use vstd::prelude::*;
use crate::error::DriverError;
use crate::identity::{check_identity, identity_of, DeviceIdentity};
use crate::pin::{lemma_pin_mask_26, pin_write, pin_write_of};
use crate::regmap::{
    GPIO26_CTRL_OFFSET, GPIO26_STATUS_OFFSET, OUTPUT_LEVEL, OUTPUT_PIN, PERIPHERAL_RESOURCE,
    RP1_C0_CHIP_ID, RP1_IO_BANK0_BASE, RP1_SYSINFO_BASE, RP1_SYSRIO0_BASE, SYSINFO_CHIP_ID_OFFSET,
    SYSINFO_PLATFORM_OFFSET, WINDOW_CAPACITY,
};
use crate::window::in_bounds;

verus! {

/// Where a session stands.
#[derive(Clone, Copy, Debug, PartialEq, Eq, Structural)]
pub enum LifecycleState {
    /// Nothing has happened yet.
    Unbound,
    /// The resource is being claimed and the window laid over it.
    Claiming,
    /// The window is open; the chip is being identified.
    Mapped,
    /// The chip is the expected one; the pin is being set up.
    Verified,
    /// The device is in service.
    Active,
    /// Attaching failed; nothing is held.
    Failed,
    /// The device was given back; nothing is held.
    Detached,
}

/// What the machine asks the platform to do next.
#[derive(Clone, Copy, Debug, PartialEq, Eq, Structural)]
pub enum Action {
    /// Take the device's resource at `index`.
    ClaimResource { index: usize },
    /// Map `capacity` bytes of the claimed resource.
    MapWindow { capacity: usize },
    /// Load the 32-bit register at byte `offset` of the window.
    ReadRegister { offset: usize },
    /// Store `value` into the 32-bit register at byte `offset` of the window.
    WriteRegister { offset: usize, value: u32 },
    /// Unmap the window.
    ReleaseWindow,
    /// Give the claimed resource back.
    ReleaseClaim,
    /// Nothing.
    Idle,
}

/// What the platform reports to the machine.
#[derive(Clone, Copy, Debug, PartialEq, Eq, Structural)]
pub enum Event {
    /// The bus found a matching device and wants it attached.
    Attach,
    /// The bus wants the device given back.
    Detach,
    /// The resource asked for was granted; it starts at `base` and is
    /// `length` bytes long.
    ResourceGranted { base: usize, length: usize },
    /// The device has no such resource, or somebody else holds it.
    ResourceDenied,
    /// The window is open.
    WindowMapped,
    /// The platform could not map the window.
    MapRejected,
    /// The register asked for holds `value`.
    RegisterValue { value: u32 },
    /// The store was carried out.
    WriteCompleted,
    /// The platform refused the register access.
    AccessFault,
    /// The window, or the claim, has been released.
    Released,
}

/// The reply that the machine is waiting for.
#[derive(Clone, Copy, Debug, PartialEq, Eq, Structural)]
pub enum Pending {
    /// None: the session is at rest.
    Nothing,
    /// Whether the resource was granted.
    Claim,
    /// Whether the window was mapped.
    Mapping,
    /// The chip id.
    ChipId,
    /// The platform word.
    Platform,
    /// The status register of the pin.
    Status,
    /// The control register of the pin.
    Ctrl,
    /// Whether the pin was driven.
    PinWrite,
    /// That the window is released.
    WindowRelease,
    /// That the claim is released.
    ClaimRelease,
}

/// One session of the driver with one device.
#[derive(Clone, Copy, Debug, PartialEq, Eq)]
pub struct Lifecycle {
    /// Where the session stands.
    pub state: LifecycleState,
    /// The reply that is awaited.
    pub pending: Pending,
    /// Whether the resource is held.
    pub claimed: bool,
    /// Bus address of the resource last granted.
    pub base: usize,
    /// Length in bytes of the resource last granted.
    pub length: usize,
    /// Whether the window is open.
    pub mapped: bool,
    /// The chip id as read, zero before.
    pub chip_id: u32,
    /// What the chip was recognised as.
    pub identity: Option<DeviceIdentity>,
    /// The pin's status register as read, for diagnostics.
    pub status: Option<u32>,
    /// The pin's control register as read, for diagnostics.
    pub ctrl: Option<u32>,
    /// Why attaching failed.
    pub error: Option<DriverError>,
}

impl Lifecycle {
    /// A session before anything has happened.
    pub open spec fn unbound() -> Lifecycle {
        Lifecycle {
            state: LifecycleState::Unbound,
            pending: Pending::Nothing,
            claimed: false,
            base: 0,
            length: 0,
            mapped: false,
            chip_id: 0,
            identity: None,
            status: None,
            ctrl: None,
            error: None,
        }
    }

    /// The session come to rest: in `Failed` where an error was noted, in
    /// `Detached` otherwise.
    pub open spec fn settled(self) -> (Lifecycle, Action) {
        (
            Lifecycle {
                state: if self.error is Some {
                    LifecycleState::Failed
                } else {
                    LifecycleState::Detached
                },
                pending: Pending::Nothing,
                ..self
            },
            Action::Idle,
        )
    }

    /// The next step of giving back what is held: the window first, then the
    /// claim, then rest.
    pub open spec fn unwound(self) -> (Lifecycle, Action) {
        if self.mapped {
            (Lifecycle { pending: Pending::WindowRelease, ..self }, Action::ReleaseWindow)
        } else if self.claimed {
            (Lifecycle { pending: Pending::ClaimRelease, ..self }, Action::ReleaseClaim)
        } else {
            self.settled()
        }
    }

    /// The session after `error` struck: the error is noted and what is held
    /// is given back.
    pub open spec fn failed(self, error: DriverError) -> (Lifecycle, Action) {
        (Lifecycle { error: Some(error), ..self }).unwound()
    }

    /// The session once the diagnostic reads are done: the store that drives
    /// the output pin is next.
    pub open spec fn driving(self) -> (Lifecycle, Action) {
        match pin_write_of(RP1_SYSRIO0_BASE, OUTPUT_PIN, OUTPUT_LEVEL) {
            Ok(write) => (
                Lifecycle { pending: Pending::PinWrite, ..self },
                Action::WriteRegister { offset: write.offset, value: write.value },
            ),
            Err(error) => self.failed(error),
        }
    }

    /// The transition function: the session after `event`, and the action
    /// that the platform is to perform next. An event that the session is not
    /// waiting for leaves it as it is, with nothing to do.
    pub open spec fn next(self, event: Event) -> (Lifecycle, Action) {
        match self.pending {
            Pending::Nothing => match event {
                Event::Attach => if self.state == LifecycleState::Unbound {
                    (
                        Lifecycle {
                            state: LifecycleState::Claiming,
                            pending: Pending::Claim,
                            ..self
                        },
                        Action::ClaimResource { index: PERIPHERAL_RESOURCE },
                    )
                } else {
                    (self, Action::Idle)
                },
                Event::Detach => if self.state == LifecycleState::Active {
                    self.unwound()
                } else {
                    (self, Action::Idle)
                },
                _ => (self, Action::Idle),
            },
            Pending::Claim => match event {
                Event::ResourceGranted { base, length } => {
                    let held = Lifecycle { claimed: true, base, length, ..self };
                    if length < WINDOW_CAPACITY {
                        held.failed(DriverError::MapError)
                    } else {
                        (
                            Lifecycle { pending: Pending::Mapping, ..held },
                            Action::MapWindow { capacity: WINDOW_CAPACITY },
                        )
                    }
                },
                Event::ResourceDenied => self.failed(DriverError::NoSuchResource),
                _ => (self, Action::Idle),
            },
            Pending::Mapping => match event {
                Event::WindowMapped => (
                    Lifecycle {
                        state: LifecycleState::Mapped,
                        pending: Pending::ChipId,
                        mapped: true,
                        ..self
                    },
                    Action::ReadRegister {
                        offset: (RP1_SYSINFO_BASE + SYSINFO_CHIP_ID_OFFSET) as usize,
                    },
                ),
                Event::MapRejected => self.failed(DriverError::MapError),
                _ => (self, Action::Idle),
            },
            Pending::ChipId => match event {
                Event::RegisterValue { value } => (
                    Lifecycle { pending: Pending::Platform, chip_id: value, ..self },
                    Action::ReadRegister {
                        offset: (RP1_SYSINFO_BASE + SYSINFO_PLATFORM_OFFSET) as usize,
                    },
                ),
                Event::AccessFault => self.failed(DriverError::OutOfBounds),
                _ => (self, Action::Idle),
            },
            Pending::Platform => match event {
                Event::RegisterValue { value } => match identity_of(self.chip_id, value) {
                    Ok(identity) => (
                        Lifecycle {
                            state: LifecycleState::Verified,
                            pending: Pending::Status,
                            identity: Some(identity),
                            ..self
                        },
                        Action::ReadRegister {
                            offset: (RP1_IO_BANK0_BASE + GPIO26_STATUS_OFFSET) as usize,
                        },
                    ),
                    Err(error) => self.failed(error),
                },
                Event::AccessFault => self.failed(DriverError::OutOfBounds),
                _ => (self, Action::Idle),
            },
            Pending::Status => match event {
                Event::RegisterValue { value } => (
                    Lifecycle { pending: Pending::Ctrl, status: Some(value), ..self },
                    Action::ReadRegister {
                        offset: (RP1_IO_BANK0_BASE + GPIO26_CTRL_OFFSET) as usize,
                    },
                ),
                Event::AccessFault => (
                    Lifecycle { pending: Pending::Ctrl, ..self },
                    Action::ReadRegister {
                        offset: (RP1_IO_BANK0_BASE + GPIO26_CTRL_OFFSET) as usize,
                    },
                ),
                _ => (self, Action::Idle),
            },
            Pending::Ctrl => match event {
                Event::RegisterValue { value } => (Lifecycle { ctrl: Some(value), ..self }).driving(),
                Event::AccessFault => self.driving(),
                _ => (self, Action::Idle),
            },
            Pending::PinWrite => match event {
                Event::WriteCompleted => (
                    Lifecycle {
                        state: LifecycleState::Active,
                        pending: Pending::Nothing,
                        ..self
                    },
                    Action::Idle,
                ),
                Event::AccessFault => self.failed(DriverError::OutOfBounds),
                _ => (self, Action::Idle),
            },
            Pending::WindowRelease => match event {
                Event::Released => (Lifecycle { mapped: false, ..self }).unwound(),
                _ => (self, Action::Idle),
            },
            Pending::ClaimRelease => match event {
                Event::Released => (Lifecycle { claimed: false, ..self }).settled(),
                _ => (self, Action::Idle),
            },
        }
    }

    /// What holds of every session that started unbound and was only ever
    /// moved by [`Lifecycle::step`].
    pub open spec fn wf(self) -> bool {
        &&& self.mapped ==> self.claimed && self.length >= WINDOW_CAPACITY
        &&& self.state == LifecycleState::Failed ==> self.error is Some
        &&& self.state == LifecycleState::Active || self.state == LifecycleState::Detached
            || self.state == LifecycleState::Unbound ==> self.error is None
        &&& self.state == LifecycleState::Verified || self.state == LifecycleState::Active
            || self.state == LifecycleState::Detached ==> self.identity is Some
            && self.identity->Some_0.chip_id == RP1_C0_CHIP_ID
        &&& match self.pending {
            Pending::Nothing => {
                &&& self.state == LifecycleState::Unbound || self.state == LifecycleState::Active
                    || self.state == LifecycleState::Failed || self.state
                    == LifecycleState::Detached
                &&& self.state == LifecycleState::Active ==> self.mapped
                &&& self.state != LifecycleState::Active ==> !self.claimed
            },
            Pending::Claim => {
                &&& self.state == LifecycleState::Claiming
                &&& !self.claimed
                &&& self.error is None
            },
            Pending::Mapping => {
                &&& self.state == LifecycleState::Claiming
                &&& self.claimed
                &&& !self.mapped
                &&& self.length >= WINDOW_CAPACITY
                &&& self.error is None
            },
            Pending::ChipId | Pending::Platform => {
                &&& self.state == LifecycleState::Mapped
                &&& self.mapped
                &&& self.error is None
            },
            Pending::Status | Pending::Ctrl | Pending::PinWrite => {
                &&& self.state == LifecycleState::Verified
                &&& self.mapped
                &&& self.error is None
            },
            Pending::WindowRelease => {
                &&& self.mapped
                &&& self.state == LifecycleState::Mapped || self.state == LifecycleState::Verified
                    || self.state == LifecycleState::Active
                &&& self.state != LifecycleState::Active ==> self.error is Some
            },
            Pending::ClaimRelease => {
                &&& self.claimed
                &&& !self.mapped
                &&& self.state == LifecycleState::Claiming || self.state == LifecycleState::Mapped
                    || self.state == LifecycleState::Verified || self.state
                    == LifecycleState::Active
                &&& self.state != LifecycleState::Active ==> self.error is Some
            },
        }
    }

    /// A fresh session, unbound.
    pub fn new() -> (session: Lifecycle)
        ensures
            session == Lifecycle::unbound(),
            session.wf(),
    {
        Lifecycle {
            state: LifecycleState::Unbound,
            pending: Pending::Nothing,
            claimed: false,
            base: 0,
            length: 0,
            mapped: false,
            chip_id: 0,
            identity: None,
            status: None,
            ctrl: None,
            error: None,
        }
    }

    fn settle(&mut self) -> (action: Action)
        ensures
            (*final(self), action) == old(self).settled(),
    {
        self.state = if self.error.is_some() {
            LifecycleState::Failed
        } else {
            LifecycleState::Detached
        };
        self.pending = Pending::Nothing;
        Action::Idle
    }

    fn unwind(&mut self) -> (action: Action)
        ensures
            (*final(self), action) == old(self).unwound(),
    {
        if self.mapped {
            self.pending = Pending::WindowRelease;
            Action::ReleaseWindow
        } else if self.claimed {
            self.pending = Pending::ClaimRelease;
            Action::ReleaseClaim
        } else {
            self.settle()
        }
    }

    fn fail(&mut self, error: DriverError) -> (action: Action)
        ensures
            (*final(self), action) == old(self).failed(error),
    {
        self.error = Some(error);
        self.unwind()
    }

    fn drive(&mut self) -> (action: Action)
        ensures
            (*final(self), action) == old(self).driving(),
    {
        match pin_write(RP1_SYSRIO0_BASE, OUTPUT_PIN, OUTPUT_LEVEL) {
            Ok(write) => {
                self.pending = Pending::PinWrite;
                Action::WriteRegister { offset: write.offset, value: write.value }
            },
            Err(error) => self.fail(error),
        }
    }

    /// Moves the session on by `event` and says what the platform is to do
    /// next.
    pub fn step(&mut self, event: Event) -> (action: Action)
        ensures
            (*final(self), action) == old(self).next(event),
            old(self).wf() ==> final(self).wf(),
    {
        proof {
            if old(self).wf() {
                lemma_next_preserves_wf(*old(self), event);
            }
        }
        match self.pending {
            Pending::Nothing => match event {
                Event::Attach => match self.state {
                    LifecycleState::Unbound => {
                        self.state = LifecycleState::Claiming;
                        self.pending = Pending::Claim;
                        Action::ClaimResource { index: PERIPHERAL_RESOURCE }
                    },
                    _ => Action::Idle,
                },
                Event::Detach => match self.state {
                    LifecycleState::Active => self.unwind(),
                    _ => Action::Idle,
                },
                _ => Action::Idle,
            },
            Pending::Claim => match event {
                Event::ResourceGranted { base, length } => {
                    self.claimed = true;
                    self.base = base;
                    self.length = length;
                    if length < WINDOW_CAPACITY {
                        self.fail(DriverError::MapError)
                    } else {
                        self.pending = Pending::Mapping;
                        Action::MapWindow { capacity: WINDOW_CAPACITY }
                    }
                },
                Event::ResourceDenied => self.fail(DriverError::NoSuchResource),
                _ => Action::Idle,
            },
            Pending::Mapping => match event {
                Event::WindowMapped => {
                    self.state = LifecycleState::Mapped;
                    self.pending = Pending::ChipId;
                    self.mapped = true;
                    Action::ReadRegister { offset: RP1_SYSINFO_BASE + SYSINFO_CHIP_ID_OFFSET }
                },
                Event::MapRejected => self.fail(DriverError::MapError),
                _ => Action::Idle,
            },
            Pending::ChipId => match event {
                Event::RegisterValue { value } => {
                    self.pending = Pending::Platform;
                    self.chip_id = value;
                    Action::ReadRegister { offset: RP1_SYSINFO_BASE + SYSINFO_PLATFORM_OFFSET }
                },
                Event::AccessFault => self.fail(DriverError::OutOfBounds),
                _ => Action::Idle,
            },
            Pending::Platform => match event {
                Event::RegisterValue { value } => match check_identity(self.chip_id, value) {
                    Ok(identity) => {
                        self.state = LifecycleState::Verified;
                        self.pending = Pending::Status;
                        self.identity = Some(identity);
                        Action::ReadRegister { offset: RP1_IO_BANK0_BASE + GPIO26_STATUS_OFFSET }
                    },
                    Err(error) => self.fail(error),
                },
                Event::AccessFault => self.fail(DriverError::OutOfBounds),
                _ => Action::Idle,
            },
            Pending::Status => match event {
                Event::RegisterValue { value } => {
                    self.pending = Pending::Ctrl;
                    self.status = Some(value);
                    Action::ReadRegister { offset: RP1_IO_BANK0_BASE + GPIO26_CTRL_OFFSET }
                },
                Event::AccessFault => {
                    self.pending = Pending::Ctrl;
                    Action::ReadRegister { offset: RP1_IO_BANK0_BASE + GPIO26_CTRL_OFFSET }
                },
                _ => Action::Idle,
            },
            Pending::Ctrl => match event {
                Event::RegisterValue { value } => {
                    self.ctrl = Some(value);
                    self.drive()
                },
                Event::AccessFault => self.drive(),
                _ => Action::Idle,
            },
            Pending::PinWrite => match event {
                Event::WriteCompleted => {
                    self.state = LifecycleState::Active;
                    self.pending = Pending::Nothing;
                    Action::Idle
                },
                Event::AccessFault => self.fail(DriverError::OutOfBounds),
                _ => Action::Idle,
            },
            Pending::WindowRelease => match event {
                Event::Released => {
                    self.mapped = false;
                    self.unwind()
                },
                _ => Action::Idle,
            },
            Pending::ClaimRelease => match event {
                Event::Released => {
                    self.claimed = false;
                    self.settle()
                },
                _ => Action::Idle,
            },
        }
    }
}

/// How many replies a session may still wait for, at most.
pub open spec fn replies_left(pending: Pending) -> nat {
    match pending {
        Pending::Nothing => 0,
        Pending::ClaimRelease => 1,
        Pending::WindowRelease => 2,
        Pending::PinWrite => 3,
        Pending::Ctrl => 4,
        Pending::Status => 5,
        Pending::Platform => 6,
        Pending::ChipId => 7,
        Pending::Mapping => 8,
        Pending::Claim => 9,
    }
}

/// No reply sets a session back: whatever the platform reports in answer to an
/// action, the session waits for fewer replies afterwards, or has nothing
/// more to ask.
pub proof fn lemma_step_progress(session: Lifecycle, event: Event)
    requires
        event != Event::Attach,
        event != Event::Detach,
    ensures
        replies_left(session.next(event).0.pending) <= replies_left(session.pending),
        session.next(event).1 != Action::Idle ==> replies_left(session.next(event).0.pending)
            < replies_left(session.pending),
{
}

/// Every step keeps a well-formed session well-formed.
pub proof fn lemma_next_preserves_wf(session: Lifecycle, event: Event)
    requires
        session.wf(),
    ensures
        session.next(event).0.wf(),
{
}

/// The machine never asks for a register outside the window: whatever the
/// session and the event, a register access that it answers with lies inside
/// a window of the capacity that it maps, and it asks for that capacity only
/// of a resource that is long enough.
pub proof fn lemma_accesses_lie_in_window(session: Lifecycle, event: Event)
    ensures
        match session.next(event).1 {
            Action::ReadRegister { offset } => in_bounds(
                WINDOW_CAPACITY as nat,
                offset as int,
                4,
            ),
            Action::WriteRegister { offset, value } => in_bounds(
                WINDOW_CAPACITY as nat,
                offset as int,
                4,
            ),
            Action::MapWindow { capacity } => capacity == WINDOW_CAPACITY && capacity
                <= session.next(event).0.length,
            _ => true,
        },
{
}

/// The one store that the machine ever asks for sets the bit of pin 26
/// through the set alias of the output register.
pub proof fn lemma_only_store_drives_output_pin(session: Lifecycle, event: Event)
    ensures
        session.next(event).1 is WriteRegister ==> session.next(event).1 == output_store(),
{
    lemma_pin_mask_26();
}

/// Resources are given back in the reverse order of their taking, and only
/// if held: the machine asks for the window's release only while window and
/// claim are held, and for the claim's release only while the claim is held
/// and the window is not.
pub proof fn lemma_release_order(session: Lifecycle, event: Event)
    requires
        session.wf(),
    ensures
        session.next(event).1 == Action::ReleaseWindow ==> session.next(event).0.mapped
            && session.next(event).0.claimed,
        session.next(event).1 == Action::ReleaseClaim ==> !session.next(event).0.mapped
            && session.next(event).0.claimed,
{
}

/// `Failed` and `Detached` are final and hold nothing: a session in either
/// waits for no reply, holds neither window nor claim, and is left as it is
/// by every event, with nothing to do.
pub proof fn lemma_final_states_absorb(session: Lifecycle, event: Event)
    requires
        session.wf(),
        session.state == LifecycleState::Failed || session.state == LifecycleState::Detached,
    ensures
        session.pending == Pending::Nothing,
        !session.claimed,
        !session.mapped,
        session.next(event) == (session, Action::Idle),
{
}

/// Nothing but a detach moves an active session: it holds window and claim,
/// has met the expected chip, and is left as it is by every other event.
pub proof fn lemma_active_leaves_by_detach_only(session: Lifecycle, event: Event)
    requires
        session.wf(),
        session.state == LifecycleState::Active,
        session.pending == Pending::Nothing,
    ensures
        session.claimed,
        session.mapped,
        session.identity is Some,
        session.identity->Some_0.chip_id == RP1_C0_CHIP_ID,
        event != Event::Detach ==> session.next(event) == (session, Action::Idle),
        event == Event::Detach ==> session.next(event).1 == Action::ReleaseWindow,
{
}

/// A session gets past the identity check only with the expected chip id:
/// when the platform word arrives, the session moves on to `Verified` if the
/// chip id read before is the known one, and otherwise notes the mismatch
/// and asks for the window's release.
pub proof fn lemma_mismatch_stops_attach(session: Lifecycle, platform: u32)
    requires
        session.wf(),
        session.pending == Pending::Platform,
    ensures
        session.chip_id == RP1_C0_CHIP_ID ==> session.next(
            Event::RegisterValue { value: platform },
        ).0.state == LifecycleState::Verified,
        session.chip_id != RP1_C0_CHIP_ID ==> {
            &&& session.next(Event::RegisterValue { value: platform }).0.error == Some(
                DriverError::IdentityMismatch,
            )
            &&& session.next(Event::RegisterValue { value: platform }).0.state
                == LifecycleState::Mapped
            &&& session.next(Event::RegisterValue { value: platform }).1 == Action::ReleaseWindow
        },
{
}

/// How often `action` occurs in `journal`.
pub open spec fn occurrences(journal: Seq<Action>, action: Action) -> nat
    decreases journal.len(),
{
    if journal.len() == 0 {
        0
    } else {
        occurrences(journal.drop_last(), action) + if journal.last() == action {
            1nat
        } else {
            0nat
        }
    }
}

/// One more entry in the journal is one more occurrence of that entry, and
/// of no other.
pub proof fn lemma_occurrences_push(journal: Seq<Action>, entry: Action, action: Action)
    ensures
        occurrences(journal.push(entry), action) == occurrences(journal, action) + if entry
            == action {
            1nat
        } else {
            0nat
        },
{
    assert(journal.push(entry).drop_last() =~= journal);
}

/// The session that a fresh one becomes when the platform reports `events`
/// one after the other, and the actions that it asks for on the way, oldest
/// first. `Idle` asks for nothing and is left out.
pub open spec fn replay(events: Seq<Event>) -> (Lifecycle, Seq<Action>)
    decreases events.len(),
{
    if events.len() == 0 {
        (Lifecycle::unbound(), Seq::empty())
    } else {
        let before = replay(events.drop_last());
        let moved = before.0.next(events.last());
        (
            moved.0,
            if moved.1 == Action::Idle {
                before.1
            } else {
                before.1.push(moved.1)
            },
        )
    }
}

/// The store that drives the output pin high.
pub open spec fn output_store() -> Action {
    Action::WriteRegister { offset: 0xe_2000, value: 0x0400_0000 }
}

/// Whether the session has asked for the release of its window.
spec fn window_release_asked(session: Lifecycle) -> bool {
    match session.pending {
        Pending::WindowRelease => true,
        Pending::ClaimRelease => session.state != LifecycleState::Claiming,
        Pending::Nothing => session.state == LifecycleState::Detached || (session.state
            == LifecycleState::Failed && session.error != Some(DriverError::NoSuchResource)
            && session.error != Some(DriverError::MapError)),
        _ => false,
    }
}

/// Whether the session has asked for the release of its claim.
spec fn claim_release_asked(session: Lifecycle) -> bool {
    match session.pending {
        Pending::ClaimRelease => true,
        Pending::Nothing => session.state == LifecycleState::Detached || (session.state
            == LifecycleState::Failed && session.error != Some(DriverError::NoSuchResource)),
        _ => false,
    }
}

/// What ties a session to the actions it has asked for since it was fresh.
spec fn accounted(session: Lifecycle, asked: Seq<Action>) -> bool {
    &&& session.wf()
    &&& session.state == LifecycleState::Claiming ==> session.error is None || session.error
        == Some(DriverError::MapError)
    &&& session.state == LifecycleState::Mapped || session.state == LifecycleState::Verified
        ==> session.error is None || session.error == Some(DriverError::IdentityMismatch)
        || session.error == Some(DriverError::OutOfBounds)
    &&& session.pending == Pending::ClaimRelease && session.state == LifecycleState::Claiming
        ==> session.error == Some(DriverError::MapError)
    &&& session.state == LifecycleState::Failed ==> session.error != Some(
        DriverError::InvalidPin,
    )
    &&& occurrences(asked, Action::ReleaseWindow) == if window_release_asked(session) {
        1nat
    } else {
        0nat
    }
    &&& occurrences(asked, Action::ReleaseClaim) == if claim_release_asked(session) {
        1nat
    } else {
        0nat
    }
    &&& claim_release_asked(session) ==> asked.len() > 0 && asked.last() == Action::ReleaseClaim
    &&& forall|store: Action|
        store is WriteRegister && store != output_store() ==> #[trigger] occurrences(asked, store)
            == 0
    &&& occurrences(asked, output_store()) <= 1
    &&& session.state == LifecycleState::Unbound || session.state == LifecycleState::Claiming
        || session.state == LifecycleState::Mapped || session.pending == Pending::Status
        || session.pending == Pending::Ctrl ==> occurrences(asked, output_store()) == 0
    &&& session.state == LifecycleState::Active || session.state == LifecycleState::Detached
        || session.pending == Pending::PinWrite ==> occurrences(asked, output_store()) == 1
}

/// Every session that started fresh is accounted for.
proof fn lemma_replay_accounted(events: Seq<Event>)
    ensures
        accounted(replay(events).0, replay(events).1),
    decreases events.len(),
{
    if events.len() > 0 {
        let before = replay(events.drop_last());
        let moved = before.0.next(events.last());
        lemma_replay_accounted(events.drop_last());
        lemma_next_preserves_wf(before.0, events.last());
        lemma_pin_mask_26();
        lemma_only_store_drives_output_pin(before.0, events.last());
        if moved.1 != Action::Idle {
            lemma_occurrences_push(before.1, moved.1, Action::ReleaseWindow);
            lemma_occurrences_push(before.1, moved.1, Action::ReleaseClaim);
            lemma_occurrences_push(before.1, moved.1, output_store());
            assert forall|store: Action|
                store is WriteRegister && store != output_store() implies #[trigger] occurrences(
                replay(events).1,
                store,
            ) == 0 by {
                lemma_occurrences_push(before.1, moved.1, store);
            }
        }
    }
}

/// Whatever the platform reports, and in whatever order, a session asks for
/// at most one store, and for none but the one that sets the bit of pin 26
/// through the set alias of the output register. It has asked for none before
/// the chip was verified, and for that one by the time it is active.
pub proof fn lemma_one_store_at_most(events: Seq<Event>)
    ensures
        forall|store: Action|
            store is WriteRegister && store != output_store() ==> #[trigger] occurrences(
                replay(events).1,
                store,
            ) == 0,
        occurrences(replay(events).1, output_store()) <= 1,
        replay(events).0.state == LifecycleState::Unbound || replay(events).0.state
            == LifecycleState::Claiming || replay(events).0.state == LifecycleState::Mapped
            ==> occurrences(replay(events).1, output_store()) == 0,
        replay(events).0.state == LifecycleState::Active || replay(events).0.state
            == LifecycleState::Detached ==> occurrences(replay(events).1, output_store()) == 1,
{
    lemma_replay_accounted(events);
}

/// Whatever the platform reports, and in whatever order, a session asks for
/// the release of its window at most once and for the release of its claim at
/// most once, and the release of the claim is the last thing it ever asks
/// for. Once it has come to rest, it has asked for both if it was active and
/// is now detached; if it failed, it has asked for the release of the claim
/// unless the claim was denied, and for the release of the window if it failed
/// after the window was mapped, which is when the chip was not the expected
/// one or a register access was refused.
pub proof fn lemma_releases_happen_once(events: Seq<Event>)
    ensures
        replay(events).0.wf(),
        occurrences(replay(events).1, Action::ReleaseWindow) <= 1,
        occurrences(replay(events).1, Action::ReleaseClaim) <= 1,
        occurrences(replay(events).1, Action::ReleaseClaim) == 1 ==> replay(events).1.last()
            == Action::ReleaseClaim,
        replay(events).0.state == LifecycleState::Detached ==> {
            &&& occurrences(replay(events).1, Action::ReleaseWindow) == 1
            &&& occurrences(replay(events).1, Action::ReleaseClaim) == 1
        },
        replay(events).0.state == LifecycleState::Failed ==> {
            &&& occurrences(replay(events).1, Action::ReleaseClaim) == 1 <==> replay(
                events,
            ).0.error != Some(DriverError::NoSuchResource)
            &&& occurrences(replay(events).1, Action::ReleaseWindow) == 1 <==> (replay(
                events,
            ).0.error == Some(DriverError::IdentityMismatch) || replay(events).0.error == Some(
                DriverError::OutOfBounds,
            ))
        },
        replay(events).0.state != LifecycleState::Detached && replay(events).0.state
            != LifecycleState::Failed && replay(events).0.error is None ==> {
            &&& occurrences(replay(events).1, Action::ReleaseWindow) == 0 || replay(
                events,
            ).0.state == LifecycleState::Active
            &&& occurrences(replay(events).1, Action::ReleaseClaim) == 0 || replay(
                events,
            ).0.state == LifecycleState::Active
        },
{
    lemma_replay_accounted(events);
    let failed = replay(events).0;
    if failed.state == LifecycleState::Failed {
        assert(failed.error is Some);
        assert(window_release_asked(failed) ==> failed.error == Some(
            DriverError::IdentityMismatch,
        ) || failed.error == Some(DriverError::OutOfBounds));
    }
}

} // verus!
