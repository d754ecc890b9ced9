//! A bounds-checked window onto the registers of a claimed region.
//!
//! The window owns the region it was opened over, so the region cannot be
//! released while the window is open: closing the window is what hands the
//! claim back. Only the first bytes of the region, as many as the window's
//! capacity, can be reached through it. Registers are 32 bits wide and are
//! stored little-endian, at any byte offset at which all four bytes lie inside
//! the window. The bytes behind the window act as a loopback register bank:
//! what was stored is what is loaded. Every store is also kept in a log, in
//! the order issued.

use vstd::prelude::*;
use crate::claim::{ClaimView, ResourceClaim};
use crate::error::DriverError;

verus! {

/// One 32-bit store: the byte offset it goes to, and the value.
#[derive(Clone, Copy, Debug, PartialEq, Eq, Structural)]
pub struct RegisterWrite {
    pub offset: usize,
    pub value: u32,
}

/// Whether an access of `width` bytes at `offset` lies inside a window of
/// `capacity` bytes.
pub open spec fn in_bounds(capacity: nat, offset: int, width: nat) -> bool {
    0 <= offset && offset + width <= capacity
}

/// The 32-bit value whose little-endian bytes are `b0` to `b3`.
pub open spec fn le_word(b0: u8, b1: u8, b2: u8, b3: u8) -> u32 {
    (b0 as u32) | ((b1 as u32) << 8) | ((b2 as u32) << 16) | ((b3 as u32) << 24)
}

/// The four little-endian bytes of `value`.
pub open spec fn le_bytes(value: u32) -> Seq<u8> {
    seq![
        (value & 0xff) as u8,
        ((value >> 8) & 0xff) as u8,
        ((value >> 16) & 0xff) as u8,
        ((value >> 24) & 0xff) as u8,
    ]
}

/// The register that starts at byte `offset` of `cells`.
pub open spec fn word_at(cells: Seq<u8>, offset: int) -> u32 {
    le_word(cells[offset], cells[offset + 1], cells[offset + 2], cells[offset + 3])
}

/// `cells` after `value` was stored at byte `offset`: the four bytes from
/// `offset` on are those of `value`, all others are as before.
pub open spec fn store_word(cells: Seq<u8>, offset: int, value: u32) -> Seq<u8> {
    Seq::new(
        cells.len(),
        |i: int|
            if offset <= i < offset + 4 {
                le_bytes(value)[i - offset]
            } else {
                cells[i]
            },
    )
}

/// Whether a window of `capacity` bytes can be laid over `claim`: the region
/// must be held, and at least as long as the window.
pub open spec fn can_map(claim: ClaimView, capacity: nat) -> bool {
    claim.claimed && capacity <= claim.length()
}

/// Putting the little-endian bytes of a value together gives the value back.
pub proof fn lemma_le_round_trip(value: u32)
    ensures
        le_bytes(value).len() == 4,
        le_word(le_bytes(value)[0], le_bytes(value)[1], le_bytes(value)[2], le_bytes(value)[3])
            == value,
{
    assert(le_word(
        (value & 0xff) as u8,
        ((value >> 8) & 0xff) as u8,
        ((value >> 16) & 0xff) as u8,
        ((value >> 24) & 0xff) as u8,
    ) == value) by (bit_vector);
}

/// What a [`RegisterWindow`] is, as plain values.
pub struct WindowView {
    /// Bus address of the region that the window is laid over.
    pub base: usize,
    /// The bytes that can be reached through the window.
    pub cells: Seq<u8>,
    /// The bytes of the region that lie past the window.
    pub beyond: Seq<u8>,
    /// The stores issued through the window, oldest first.
    pub writes: Seq<RegisterWrite>,
}

impl WindowView {
    /// Number of bytes that can be reached through the window.
    pub open spec fn capacity(self) -> nat {
        self.cells.len()
    }
}

/// An open window onto the first bytes of a claimed region.
#[derive(Debug)]
pub struct RegisterWindow {
    base: usize,
    cells: Vec<u8>,
    beyond: Vec<u8>,
    writes: Vec<RegisterWrite>,
}

impl View for RegisterWindow {
    type V = WindowView;

    closed spec fn view(&self) -> WindowView {
        WindowView {
            base: self.base,
            cells: self.cells@,
            beyond: self.beyond@,
            writes: self.writes@,
        }
    }
}

impl RegisterWindow {
    /// Lays a window of `capacity` bytes over the region that `claim` holds.
    ///
    /// Fails with [`DriverError::MapError`] where the claim holds nothing or
    /// its region is shorter than `capacity`; the claim is then dropped.
    /// Otherwise the window holds the region until [`RegisterWindow::close`]
    /// hands the claim back.
    pub fn open(claim: ResourceClaim, capacity: usize) -> (r: Result<RegisterWindow, DriverError>)
        ensures
            can_map(claim@, capacity as nat) ==> {
                &&& r is Ok
                &&& r->Ok_0@ == (WindowView {
                    base: claim@.base,
                    cells: claim@.cells.subrange(0, capacity as int),
                    beyond: claim@.cells.subrange(capacity as int, claim@.cells.len() as int),
                    writes: Seq::empty(),
                })
            },
            !can_map(claim@, capacity as nat) ==> r is Err && r->Err_0 == DriverError::MapError,
    {
        if !claim.is_claimed() || claim.length() < capacity {
            return Err(DriverError::MapError);
        }
        let base = claim.base();
        let mut cells = claim.into_cells();
        let beyond = cells.split_off(capacity);
        Ok(RegisterWindow { base, cells, beyond, writes: Vec::new() })
    }

    /// Closes the window and hands back the claim on its region, with the
    /// bytes as the stores left them.
    pub fn close(self) -> (claim: ResourceClaim)
        ensures
            claim@ == (ClaimView {
                base: self@.base,
                cells: self@.cells + self@.beyond,
                claimed: true,
            }),
    {
        let base = self.base;
        let mut cells = self.cells;
        let mut beyond = self.beyond;
        cells.append(&mut beyond);
        ResourceClaim::holding(base, cells)
    }

    /// Bus address of the region under the window.
    pub fn base(&self) -> (base: usize)
        ensures
            base == self@.base,
    {
        self.base
    }

    /// The capacity of a window is a machine-sized number.
    pub proof fn lemma_capacity_fits(&self)
        ensures
            self@.capacity() <= usize::MAX,
    {
        assert(self.cells.len() == self.cells@.len());
    }

    /// Number of bytes that can be reached through the window.
    pub fn capacity(&self) -> (capacity: usize)
        ensures
            capacity == self@.capacity(),
    {
        self.cells.len()
    }

    /// The stores issued through the window so far, oldest first.
    pub fn writes(&self) -> (writes: &Vec<RegisterWrite>)
        ensures
            writes@ == self@.writes,
    {
        &self.writes
    }

    /// Loads the register at byte `offset`.
    ///
    /// Fails with [`DriverError::OutOfBounds`] unless all four bytes lie
    /// inside the window.
    pub fn read_u32(&self, offset: usize) -> (r: Result<u32, DriverError>)
        ensures
            in_bounds(self@.capacity(), offset as int, 4) ==> r == Ok::<u32, DriverError>(
                word_at(self@.cells, offset as int),
            ),
            !in_bounds(self@.capacity(), offset as int, 4) ==> r == Err::<u32, DriverError>(
                DriverError::OutOfBounds,
            ),
    {
        let capacity = self.cells.len();
        if offset > capacity || capacity - offset < 4 {
            return Err(DriverError::OutOfBounds);
        }
        let b0: u8 = self.cells[offset];
        let b1: u8 = self.cells[offset + 1];
        let b2: u8 = self.cells[offset + 2];
        let b3: u8 = self.cells[offset + 3];
        Ok((b0 as u32) | ((b1 as u32) << 8) | ((b2 as u32) << 16) | ((b3 as u32) << 24))
    }

    /// Stores `value` into the register at byte `offset`, and notes the store
    /// in the log.
    ///
    /// Fails with [`DriverError::OutOfBounds`] unless all four bytes lie
    /// inside the window; then nothing is stored and nothing noted.
    pub fn write_u32(&mut self, value: u32, offset: usize) -> (r: Result<(), DriverError>)
        ensures
            in_bounds(old(self)@.capacity(), offset as int, 4) ==> {
                &&& r is Ok
                &&& final(self)@ == (WindowView {
                    cells: store_word(old(self)@.cells, offset as int, value),
                    writes: old(self)@.writes.push(RegisterWrite { offset, value }),
                    ..old(self)@
                })
            },
            !in_bounds(old(self)@.capacity(), offset as int, 4) ==> {
                &&& r is Err
                &&& r->Err_0 == DriverError::OutOfBounds
                &&& final(self)@ == old(self)@
            },
    {
        let capacity = self.cells.len();
        if offset > capacity || capacity - offset < 4 {
            return Err(DriverError::OutOfBounds);
        }
        assert(value & 0xff < 0x100) by (bit_vector);
        assert((value >> 8) & 0xff < 0x100) by (bit_vector);
        assert((value >> 16) & 0xff < 0x100) by (bit_vector);
        assert((value >> 24) & 0xff < 0x100) by (bit_vector);
        self.cells[offset] = (value & 0xff) as u8;
        self.cells[offset + 1] = ((value >> 8) & 0xff) as u8;
        self.cells[offset + 2] = ((value >> 16) & 0xff) as u8;
        self.cells[offset + 3] = ((value >> 24) & 0xff) as u8;
        self.writes.push(RegisterWrite { offset, value });
        assert(self.cells@ =~= store_word(old(self).cells@, offset as int, value));
        Ok(())
    }
}

/// What was stored in a register is what is loaded from it: after a store
/// of `value` at an offset inside the window, the register at that offset
/// holds `value`, and the window is as large as before.
pub proof fn lemma_load_after_store(window: WindowView, value: u32, offset: usize)
    requires
        in_bounds(window.capacity(), offset as int, 4),
    ensures
        store_word(window.cells, offset as int, value).len() == window.capacity(),
        word_at(store_word(window.cells, offset as int, value), offset as int) == value,
{
    lemma_le_round_trip(value);
}

/// A store changes the four bytes of its register and no other: every byte
/// of the window outside the register is as it was.
pub proof fn lemma_store_touches_only_its_register(
    window: WindowView,
    value: u32,
    offset: usize,
    other: int,
)
    requires
        in_bounds(window.capacity(), offset as int, 4),
        0 <= other < window.capacity(),
        other < offset || offset + 4 <= other,
    ensures
        store_word(window.cells, offset as int, value)[other] == window.cells[other],
{
}

/// A store leaves every register that does not overlap its own as it was.
pub proof fn lemma_store_keeps_other_registers(
    window: WindowView,
    value: u32,
    offset: usize,
    other: usize,
)
    requires
        in_bounds(window.capacity(), offset as int, 4),
        in_bounds(window.capacity(), other as int, 4),
        other + 4 <= offset || offset + 4 <= other,
    ensures
        word_at(store_word(window.cells, offset as int, value), other as int) == word_at(
            window.cells,
            other as int,
        ),
{
}

} // verus!
