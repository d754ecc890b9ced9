//! The ways in which attaching to the device, or touching its registers, fails.

use vstd::prelude::*;

verus! {

/// Why an operation of the driver did not succeed.
#[derive(Clone, Copy, Debug, PartialEq, Eq, Structural)]
pub enum DriverError {
    /// The device exposes no region at the index asked for, or the region is
    /// already in somebody's hands.
    NoSuchResource,
    /// A register window could not be laid over the claimed region.
    MapError,
    /// The chip id read from the device is not the one this driver knows.
    IdentityMismatch,
    /// The pin number does not name a bit of a 32-bit register.
    InvalidPin,
    /// A register access would reach past the mapped window.
    OutOfBounds,
}

} // verus!
