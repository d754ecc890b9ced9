//! The register map of the RP1 as far as this driver uses it, and the PCI ids
//! under which the chip shows up. All offsets are in bytes from the start of
//! the mapped window.

use vstd::prelude::*;

verus! {

/// PCI vendor id of Raspberry Pi Ltd.
pub const PCI_VENDOR_ID_RPI: u16 = 0x1de4;

/// PCI device id of the RP1, stepping C0.
pub const PCI_DEVICE_ID_RP1_C0: u16 = 0x0001;

/// Name under which the driver registers with the bus.
pub const DRIVER_NAME: &'static str = "alex-rp1";

/// Index of the bus resource behind which the peripherals sit (BAR1).
pub const PERIPHERAL_RESOURCE: usize = 1;

/// Size in bytes of the register window laid over that resource.
pub const WINDOW_CAPACITY: usize = 0x40_0000;

/// Number of pins that one 32-bit register carries.
pub const REGISTER_BITS: u32 = 32;

/// Start of the system information block.
pub const RP1_SYSINFO_BASE: usize = 0x00_0000;

/// Start of the first I/O bank.
pub const RP1_IO_BANK0_BASE: usize = 0x0d_0000;

/// Start of the registered I/O block of the first bank.
pub const RP1_SYSRIO0_BASE: usize = 0x0e_0000;

/// Start of the pad control block of the first bank.
pub const RP1_PADS_BANK0_BASE: usize = 0x0f_0000;

/// Chip id register, relative to the system information block.
pub const SYSINFO_CHIP_ID_OFFSET: usize = 0x0000_0000;

/// Platform register, relative to the system information block.
pub const SYSINFO_PLATFORM_OFFSET: usize = 0x0000_0004;

/// Status register of GPIO26, relative to the I/O bank.
pub const GPIO26_STATUS_OFFSET: usize = 0x0d0;

/// Control register of GPIO26, relative to the I/O bank.
pub const GPIO26_CTRL_OFFSET: usize = 0x0d4;

/// Alias of a register through which written bits are set.
pub const RP1_SET_OFFSET: usize = 0x2000;

/// Alias of a register through which written bits are cleared.
pub const RP1_CLR_OFFSET: usize = 0x3000;

/// Chip id that an RP1 of stepping C0 reports.
pub const RP1_C0_CHIP_ID: u32 = 0x2000_1927;

/// The pin that the driver switches on once the chip is recognised.
pub const OUTPUT_PIN: u32 = 26;

/// The level it is driven to.
pub const OUTPUT_LEVEL: bool = true;

} // verus!
