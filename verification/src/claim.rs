//! Exclusive ownership of one addressable region of a bus device.
//!
//! A [`Device`] is the bus's handle on a peripheral: a name and the regions
//! (bars) it exposes, each with the bytes that stand behind it. Taking a
//! region moves it out of the device, so that nobody else can take it again.
//! A [`ResourceClaim`] is what the taker then holds.

use vstd::prelude::*;
use crate::error::DriverError;

verus! {

/// One addressable region of a device: where it starts on the bus, and the
/// bytes behind it.
#[derive(Debug)]
pub struct Region {
    pub base: usize,
    pub cells: Vec<u8>,
}

/// A bus device as the driver framework hands it over.
#[derive(Debug)]
pub struct Device {
    /// Human-readable name, for diagnostics.
    pub name: String,
    /// The regions by index; `None` where the device has none, or where the
    /// region has been taken.
    pub bars: Vec<Option<Region>>,
}

/// Whether `bars` still offers a region at `index`.
pub open spec fn exposes(bars: Seq<Option<Region>>, index: int) -> bool {
    0 <= index < bars.len() && bars[index] is Some
}

impl Device {
    /// Takes the region at `index` out of the device. Gives `None`, and
    /// leaves the device as it was, where there is none to take.
    pub fn take_resource(&mut self, index: usize) -> (taken: Option<Region>)
        ensures
            final(self).name == old(self).name,
            exposes(old(self).bars@, index as int) ==> {
                &&& taken == old(self).bars@[index as int]
                &&& final(self).bars@ == old(self).bars@.update(index as int, None)
            },
            !exposes(old(self).bars@, index as int) ==> {
                &&& taken is None
                &&& final(self).bars@ == old(self).bars@
            },
    {
        if index < self.bars.len() {
            let slot: &mut Option<Region> = &mut self.bars[index];
            let taken = slot.take();
            assert(self.bars@ =~= old(self).bars@.update(index as int, None));
            taken
        } else {
            None
        }
    }
}

/// What a [`ResourceClaim`] is, as plain values.
pub struct ClaimView {
    /// Bus address at which the region starts.
    pub base: usize,
    /// The bytes behind the region; none once the claim is released.
    pub cells: Seq<u8>,
    /// Whether the region is still held.
    pub claimed: bool,
}

impl ClaimView {
    /// Length of the region in bytes.
    pub open spec fn length(self) -> nat {
        self.cells.len()
    }
}

/// Ownership of one region of a device, from the moment the bus grants it
/// until it is released.
#[derive(Debug)]
pub struct ResourceClaim {
    base: usize,
    cells: Vec<u8>,
    claimed: bool,
}

impl View for ResourceClaim {
    type V = ClaimView;

    closed spec fn view(&self) -> ClaimView {
        ClaimView { base: self.base, cells: self.cells@, claimed: self.claimed }
    }
}

impl ResourceClaim {
    /// A claim that holds the region starting at `base` with the bytes `cells`.
    pub(crate) fn holding(base: usize, cells: Vec<u8>) -> (claim: ResourceClaim)
        ensures
            claim@ == (ClaimView { base, cells: cells@, claimed: true }),
    {
        ResourceClaim { base, cells, claimed: true }
    }

    /// Takes the claim apart into the bytes it holds.
    pub(crate) fn into_cells(self) -> (cells: Vec<u8>)
        ensures
            cells@ == self@.cells,
    {
        self.cells
    }

    /// Bus address at which the region starts.
    pub fn base(&self) -> (base: usize)
        ensures
            base == self@.base,
    {
        self.base
    }

    /// Length of the region in bytes; zero once released.
    pub fn length(&self) -> (length: usize)
        ensures
            length == self@.length(),
    {
        self.cells.len()
    }

    /// Whether the region is still held.
    pub fn is_claimed(&self) -> (claimed: bool)
        ensures
            claimed == self@.claimed,
    {
        self.claimed
    }

    /// Gives the region up: the claim holds nothing afterwards. The region
    /// does not go back into the device it was taken from. Releasing a claim
    /// that holds nothing changes nothing, so a second release is as good as
    /// none.
    pub fn release(&mut self)
        ensures
            final(self)@ == (ClaimView { base: old(self)@.base, cells: Seq::empty(), claimed: false }),
    {
        self.cells = Vec::new();
        self.claimed = false;
    }
}

/// Requests the region that `device` exposes at `index`, for the caller alone.
///
/// Fails with [`DriverError::NoSuchResource`] where the device has no region
/// at that index or the region is already taken; the device is then left as it
/// was. Otherwise the region leaves the device and the claim holds it.
pub fn claim(device: &mut Device, index: usize) -> (r: Result<ResourceClaim, DriverError>)
    ensures
        final(device).name == old(device).name,
        exposes(old(device).bars@, index as int) ==> {
            &&& r is Ok
            &&& r->Ok_0@ == (ClaimView {
                base: old(device).bars@[index as int]->Some_0.base,
                cells: old(device).bars@[index as int]->Some_0.cells@,
                claimed: true,
            })
            &&& final(device).bars@ == old(device).bars@.update(index as int, None)
        },
        !exposes(old(device).bars@, index as int) ==> {
            &&& r is Err
            &&& r->Err_0 == DriverError::NoSuchResource
            &&& final(device).bars@ == old(device).bars@
        },
{
    match device.take_resource(index) {
        Some(region) => Ok(ResourceClaim::holding(region.base, region.cells)),
        None => Err(DriverError::NoSuchResource),
    }
}

} // verus!
