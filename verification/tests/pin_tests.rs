use rp1_driver::claim::{claim, Device, Region};
use rp1_driver::error::DriverError;
use rp1_driver::pin::{pin_write, set_pin_level};
use rp1_driver::window::{RegisterWindow, RegisterWrite};

fn blank_window(capacity: usize) -> RegisterWindow {
    let mut device = Device {
        name: String::from("rp1"),
        bars: vec![Some(Region { base: 0, cells: vec![0u8; capacity] })],
    };
    let held = claim(&mut device, 0).unwrap();
    RegisterWindow::open(held, capacity).unwrap()
}

#[test]
fn high_level_goes_to_the_set_alias() {
    let mut window = blank_window(0x1_0000);
    assert_eq!(set_pin_level(&mut window, 0x8000, 26, true), Ok(()));
    assert_eq!(window.writes(), &vec![RegisterWrite { offset: 0x8000 + 0x2000, value: 1 << 26 }]);
    assert_eq!(window.read_u32(0xa000), Ok(0x0400_0000));
    assert_eq!(window.read_u32(0xb000), Ok(0));
}

#[test]
fn low_level_goes_to_the_clear_alias() {
    let mut window = blank_window(0x1_0000);
    assert_eq!(set_pin_level(&mut window, 0x8000, 26, false), Ok(()));
    assert_eq!(window.writes(), &vec![RegisterWrite { offset: 0x8000 + 0x3000, value: 1 << 26 }]);
    assert_eq!(window.read_u32(0xb000), Ok(0x0400_0000));
    assert_eq!(window.read_u32(0xa000), Ok(0));
}

#[test]
fn every_pin_has_its_own_bit() {
    for pin in 0u32..32 {
        assert_eq!(
            pin_write(0, pin, true),
            Ok(RegisterWrite { offset: 0x2000, value: 1u32 << pin })
        );
        assert_eq!(
            pin_write(0x100, pin, false),
            Ok(RegisterWrite { offset: 0x3100, value: 1u32 << pin })
        );
    }
    assert_eq!(pin_write(0, 0, true), Ok(RegisterWrite { offset: 0x2000, value: 1 }));
    assert_eq!(pin_write(0, 31, true), Ok(RegisterWrite { offset: 0x2000, value: 0x8000_0000 }));
}

#[test]
fn pin_past_the_register_is_invalid() {
    let mut window = blank_window(0x4000);
    for pin in [32u32, 33, 64, 255, u32::MAX] {
        assert_eq!(set_pin_level(&mut window, 0, pin, true), Err(DriverError::InvalidPin));
        assert_eq!(set_pin_level(&mut window, 0, pin, false), Err(DriverError::InvalidPin));
        assert_eq!(pin_write(0, pin, true), Err(DriverError::InvalidPin));
    }
    assert!(window.writes().is_empty());
    assert_eq!(window.read_u32(0x2000), Ok(0));
    assert_eq!(window.read_u32(0x3000), Ok(0));
}

#[test]
fn invalid_pin_is_reported_before_bounds() {
    let mut window = blank_window(16);
    assert_eq!(set_pin_level(&mut window, usize::MAX, 32, true), Err(DriverError::InvalidPin));
    assert_eq!(pin_write(usize::MAX, 32, false), Err(DriverError::InvalidPin));
}

#[test]
fn alias_outside_the_window_is_out_of_bounds() {
    let mut window = blank_window(0x3000);
    assert_eq!(set_pin_level(&mut window, 0, 5, true), Ok(()));
    assert_eq!(set_pin_level(&mut window, 0, 5, false), Err(DriverError::OutOfBounds));
    assert_eq!(set_pin_level(&mut window, 0x0ffd, 5, true), Err(DriverError::OutOfBounds));
    assert_eq!(set_pin_level(&mut window, 0x0ffc, 5, true), Ok(()));
    assert_eq!(
        window.writes(),
        &vec![
            RegisterWrite { offset: 0x2000, value: 0x20 },
            RegisterWrite { offset: 0x2ffc, value: 0x20 },
        ]
    );
}

#[test]
fn alias_past_the_address_space_is_out_of_bounds() {
    let mut window = blank_window(0x4000);
    assert_eq!(pin_write(usize::MAX, 3, true), Err(DriverError::OutOfBounds));
    assert_eq!(pin_write(usize::MAX - 0x1fff, 3, true), Err(DriverError::OutOfBounds));
    assert_eq!(
        pin_write(usize::MAX - 0x2000, 3, true),
        Ok(RegisterWrite { offset: usize::MAX, value: 8 })
    );
    assert_eq!(pin_write(usize::MAX - 0x2000, 3, false), Err(DriverError::OutOfBounds));
    assert_eq!(set_pin_level(&mut window, usize::MAX, 3, true), Err(DriverError::OutOfBounds));
    assert_eq!(
        set_pin_level(&mut window, usize::MAX - 0x2000, 3, true),
        Err(DriverError::OutOfBounds)
    );
    assert!(window.writes().is_empty());
}
