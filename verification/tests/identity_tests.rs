use rp1_driver::claim::{claim, Device, Region};
use rp1_driver::error::DriverError;
use rp1_driver::identity::{check_identity, verify_identity, DeviceIdentity};
use rp1_driver::window::RegisterWindow;

fn window_holding(chip_id: u32, platform: u32, capacity: usize) -> RegisterWindow {
    let mut cells = vec![0u8; 16];
    cells[0..4].copy_from_slice(&chip_id.to_le_bytes());
    cells[4..8].copy_from_slice(&platform.to_le_bytes());
    let mut device = Device { name: String::from("rp1"), bars: vec![Some(Region { base: 0, cells })] };
    let held = claim(&mut device, 0).unwrap();
    RegisterWindow::open(held, capacity).unwrap()
}

#[test]
fn known_chip_id_is_accepted() {
    assert_eq!(
        check_identity(0x2000_1927, 0x0000_0002),
        Ok(DeviceIdentity { chip_id: 0x2000_1927, platform: 2 })
    );
    assert_eq!(
        check_identity(0x2000_1927, 0xffff_ffff),
        Ok(DeviceIdentity { chip_id: 0x2000_1927, platform: 0xffff_ffff })
    );
}

#[test]
fn other_chip_ids_are_mismatches() {
    for chip_id in [0u32, 1, 0x2000_1926, 0x2000_1928, 0x2719_0020, 0xffff_ffff] {
        assert_eq!(check_identity(chip_id, 2), Err(DriverError::IdentityMismatch));
    }
}

#[test]
fn verify_identity_reads_both_registers() {
    let window = window_holding(0x2000_1927, 0x1234_5678, 16);
    assert_eq!(
        verify_identity(&window),
        Ok(DeviceIdentity { chip_id: 0x2000_1927, platform: 0x1234_5678 })
    );
    assert!(window.writes().is_empty());
}

#[test]
fn verify_identity_rejects_other_chip() {
    let window = window_holding(0x2000_1928, 0x1234_5678, 16);
    assert_eq!(verify_identity(&window), Err(DriverError::IdentityMismatch));
    let swapped = window_holding(0x1234_5678, 0x2000_1927, 16);
    assert_eq!(verify_identity(&swapped), Err(DriverError::IdentityMismatch));
}

#[test]
fn verify_identity_needs_both_registers_in_reach() {
    for capacity in [0usize, 3, 4, 7] {
        let window = window_holding(0x2000_1927, 0, capacity);
        assert_eq!(verify_identity(&window), Err(DriverError::OutOfBounds));
    }
    let window = window_holding(0x2000_1927, 5, 8);
    assert_eq!(verify_identity(&window), Ok(DeviceIdentity { chip_id: 0x2000_1927, platform: 5 }));
}
