//! Recognising the chip behind a register window.
//!
//! The system information block starts with two registers, the chip id and
//! the platform word. The driver goes on only where the chip id is the one it
//! was written for; the platform word is read for diagnostics.

use vstd::prelude::*;
use crate::error::DriverError;
use crate::regmap::{
    RP1_C0_CHIP_ID, RP1_SYSINFO_BASE, SYSINFO_CHIP_ID_OFFSET, SYSINFO_PLATFORM_OFFSET,
};
use crate::window::{in_bounds, word_at, RegisterWindow};

verus! {

/// What the system information block says of the device.
#[derive(Clone, Copy, Debug, PartialEq, Eq, Structural)]
pub struct DeviceIdentity {
    pub chip_id: u32,
    pub platform: u32,
}

/// The verdict on a device that reports `chip_id` and `platform`: its
/// identity where the chip id is the known one, a mismatch otherwise.
pub open spec fn identity_of(chip_id: u32, platform: u32) -> Result<DeviceIdentity, DriverError> {
    if chip_id == RP1_C0_CHIP_ID {
        Ok(DeviceIdentity { chip_id, platform })
    } else {
        Err(DriverError::IdentityMismatch)
    }
}

/// The verdict on a device whose window holds `cells`: out of bounds where
/// the window is too short to hold both registers, else the verdict on what
/// the two registers hold.
pub open spec fn identity_in(cells: Seq<u8>) -> Result<DeviceIdentity, DriverError> {
    if in_bounds(cells.len(), RP1_SYSINFO_BASE + SYSINFO_CHIP_ID_OFFSET, 4) && in_bounds(
        cells.len(),
        RP1_SYSINFO_BASE + SYSINFO_PLATFORM_OFFSET,
        4,
    ) {
        identity_of(
            word_at(cells, RP1_SYSINFO_BASE + SYSINFO_CHIP_ID_OFFSET),
            word_at(cells, RP1_SYSINFO_BASE + SYSINFO_PLATFORM_OFFSET),
        )
    } else {
        Err(DriverError::OutOfBounds)
    }
}

/// Judges the two values read from the system information block.
pub fn check_identity(chip_id: u32, platform: u32) -> (r: Result<DeviceIdentity, DriverError>)
    ensures
        r == identity_of(chip_id, platform),
{
    if chip_id != RP1_C0_CHIP_ID {
        return Err(DriverError::IdentityMismatch);
    }
    Ok(DeviceIdentity { chip_id, platform })
}

/// Reads chip id and platform through `window` and judges them.
///
/// Fails with [`DriverError::IdentityMismatch`] where the chip id is not the
/// known one, and with [`DriverError::OutOfBounds`] where the window does not
/// reach both registers.
pub fn verify_identity(window: &RegisterWindow) -> (r: Result<DeviceIdentity, DriverError>)
    ensures
        r == identity_in(window@.cells),
{
    let chip_id = match window.read_u32(RP1_SYSINFO_BASE + SYSINFO_CHIP_ID_OFFSET) {
        Ok(value) => value,
        Err(e) => {
            return Err(e);
        },
    };
    let platform = match window.read_u32(RP1_SYSINFO_BASE + SYSINFO_PLATFORM_OFFSET) {
        Ok(value) => value,
        Err(e) => {
            return Err(e);
        },
    };
    check_identity(chip_id, platform)
}

/// The chip id is a hard gate: through a window that reaches both identity
/// registers, the device is accepted exactly if its chip id register holds
/// the known id, and is turned down as a mismatch otherwise.
pub proof fn lemma_identity_gate(cells: Seq<u8>)
    requires
        in_bounds(cells.len(), RP1_SYSINFO_BASE + SYSINFO_PLATFORM_OFFSET, 4),
    ensures
        word_at(cells, RP1_SYSINFO_BASE + SYSINFO_CHIP_ID_OFFSET) == 0x2000_1927u32
            ==> identity_in(cells) == Ok::<DeviceIdentity, DriverError>(
            DeviceIdentity {
                chip_id: 0x2000_1927u32,
                platform: word_at(cells, RP1_SYSINFO_BASE + SYSINFO_PLATFORM_OFFSET),
            },
        ),
        word_at(cells, RP1_SYSINFO_BASE + SYSINFO_CHIP_ID_OFFSET) != 0x2000_1927u32
            ==> identity_in(cells) == Err::<DeviceIdentity, DriverError>(
            DriverError::IdentityMismatch,
        ),
{
}

} // verus!
