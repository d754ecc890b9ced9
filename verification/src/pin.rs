//! Driving one output pin through the set and clear aliases of its register.
//!
//! Each register of the chip has two aliases next to it. Bits written to the
//! set alias are set in the register, bits written to the clear alias are
//! cleared, and all other bits stay: the chip does the update in one go, so
//! changing a pin takes a single store and no load.

use vstd::prelude::*;
use crate::error::DriverError;
use crate::regmap::{REGISTER_BITS, RP1_CLR_OFFSET, RP1_SET_OFFSET};
use crate::window::{in_bounds, store_word, RegisterWindow, RegisterWrite, WindowView};

verus! {

/// Whether `pin_number` names a bit of a 32-bit register.
pub open spec fn valid_pin(pin_number: u32) -> bool {
    pin_number < REGISTER_BITS
}

/// The register value with only the bit of `pin_number` set.
pub open spec fn pin_mask(pin_number: u32) -> u32 {
    1u32 << pin_number
}

/// Offset of the alias that drives a pin to `level`, from the register's bank.
pub open spec fn alias_offset(level: bool) -> usize {
    if level {
        RP1_SET_OFFSET
    } else {
        RP1_CLR_OFFSET
    }
}

/// The store that drives `pin_number` of the bank at `bank_base` to `level`:
/// the pin's bit, to the set alias for high and to the clear alias for low.
/// There is none for a pin that the register does not have, nor where the
/// alias lies past the end of the address space.
pub open spec fn pin_write_of(bank_base: usize, pin_number: u32, level: bool) -> Result<
    RegisterWrite,
    DriverError,
> {
    if !valid_pin(pin_number) {
        Err(DriverError::InvalidPin)
    } else if bank_base + alias_offset(level) > usize::MAX {
        Err(DriverError::OutOfBounds)
    } else {
        Ok(
            RegisterWrite {
                offset: (bank_base + alias_offset(level)) as usize,
                value: pin_mask(pin_number),
            },
        )
    }
}

/// Works out the store that drives `pin_number` of the bank at `bank_base`
/// to `level`, without issuing it.
pub fn pin_write(bank_base: usize, pin_number: u32, level: bool) -> (r: Result<
    RegisterWrite,
    DriverError,
>)
    ensures
        r == pin_write_of(bank_base, pin_number, level),
{
    if pin_number >= REGISTER_BITS {
        return Err(DriverError::InvalidPin);
    }
    let alias: usize = if level {
        RP1_SET_OFFSET
    } else {
        RP1_CLR_OFFSET
    };
    if bank_base > usize::MAX - alias {
        return Err(DriverError::OutOfBounds);
    }
    Ok(RegisterWrite { offset: bank_base + alias, value: 1u32 << pin_number })
}

/// Drives `pin_number` of the bank at `bank_base` to `level` with one store
/// through `window`.
///
/// Fails with [`DriverError::InvalidPin`] for a pin number of 32 or more, and
/// with [`DriverError::OutOfBounds`] where the alias register does not lie
/// inside the window. Nothing is stored then.
pub fn set_pin_level(window: &mut RegisterWindow, bank_base: usize, pin_number: u32, level: bool) -> (r:
    Result<(), DriverError>)
    ensures
        !valid_pin(pin_number) ==> {
            &&& r is Err
            &&& r->Err_0 == DriverError::InvalidPin
            &&& final(window)@ == old(window)@
        },
        valid_pin(pin_number) && !in_bounds(
            old(window)@.capacity(),
            bank_base + alias_offset(level),
            4,
        ) ==> {
            &&& r is Err
            &&& r->Err_0 == DriverError::OutOfBounds
            &&& final(window)@ == old(window)@
        },
        valid_pin(pin_number) && in_bounds(
            old(window)@.capacity(),
            bank_base + alias_offset(level),
            4,
        ) ==> {
            &&& r is Ok
            &&& final(window)@ == (WindowView {
                cells: store_word(
                    old(window)@.cells,
                    bank_base + alias_offset(level),
                    pin_mask(pin_number),
                ),
                writes: old(window)@.writes.push(
                    RegisterWrite {
                        offset: (bank_base + alias_offset(level)) as usize,
                        value: pin_mask(pin_number),
                    },
                ),
                ..old(window)@
            })
        },
{
    proof {
        window.lemma_capacity_fits();
    }
    match pin_write(bank_base, pin_number, level) {
        Ok(write) => window.write_u32(write.value, write.offset),
        Err(e) => Err(e),
    }
}

/// The bit of pin 26 is `0x0400_0000`.
pub proof fn lemma_pin_mask_26()
    ensures
        pin_mask(26) == 0x0400_0000u32,
{
    assert(1u32 << 26u32 == 0x0400_0000u32) by (bit_vector);
}

} // verus!
