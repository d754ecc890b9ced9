use rp1_driver::claim::{Device, Region};
use rp1_driver::error::DriverError;
use rp1_driver::identity::DeviceIdentity;
use rp1_driver::lifecycle::{Action, LifecycleState, Pending};
use rp1_driver::regmap::{
    DRIVER_NAME, PCI_DEVICE_ID_RP1_C0, PCI_VENDOR_ID_RPI, RP1_PADS_BANK0_BASE, RP1_SYSRIO0_BASE,
    WINDOW_CAPACITY,
};
use rp1_driver::session::DriverSession;
use rp1_driver::window::RegisterWrite;

const FOUR_MIB: usize = 4 * 1024 * 1024;

fn image(length: usize, chip_id: u32) -> Vec<u8> {
    let mut cells = vec![0u8; length];
    if length >= 8 {
        cells[0..4].copy_from_slice(&chip_id.to_le_bytes());
        cells[4..8].copy_from_slice(&0x0000_0002u32.to_le_bytes());
    }
    if length >= 0xd_00d8 {
        cells[0xd_00d0..0xd_00d4].copy_from_slice(&0x0a0b_0c0du32.to_le_bytes());
        cells[0xd_00d4..0xd_00d8].copy_from_slice(&0x0000_0085u32.to_le_bytes());
    }
    cells
}

fn rp1(length: usize, chip_id: u32) -> Device {
    Device {
        name: String::from("0000:01:00.0"),
        bars: vec![
            Some(Region { base: 0x1f_0041_0000, cells: vec![0u8; 16] }),
            Some(Region { base: 0x1f_0000_0000, cells: image(length, chip_id) }),
        ],
    }
}

fn journal_to_verdict() -> Vec<Action> {
    vec![
        Action::ClaimResource { index: 1 },
        Action::MapWindow { capacity: FOUR_MIB },
        Action::ReadRegister { offset: 0x0 },
        Action::ReadRegister { offset: 0x4 },
    ]
}

#[test]
fn register_map_constants() {
    assert_eq!(WINDOW_CAPACITY, 4_194_304);
    assert_eq!(PCI_VENDOR_ID_RPI, 0x1de4);
    assert_eq!(PCI_DEVICE_ID_RP1_C0, 0x0001);
    assert_eq!(DRIVER_NAME, "alex-rp1");
    assert_eq!(RP1_SYSRIO0_BASE, 0xe_0000);
    assert_eq!(RP1_PADS_BANK0_BASE, 0xf_0000);
}

#[test]
fn attach_end_to_end() {
    let mut device = rp1(FOUR_MIB, 0x2000_1927);
    let session = DriverSession::attach(&mut device);
    assert_eq!(session.state(), LifecycleState::Active);
    assert_eq!(session.error(), None);
    assert_eq!(session.identity(), Some(DeviceIdentity { chip_id: 0x2000_1927, platform: 2 }));
    let record = session.lifecycle();
    assert_eq!(record.pending, Pending::Nothing);
    assert!(record.claimed);
    assert!(record.mapped);
    assert_eq!(record.base, 0x1f_0000_0000);
    assert_eq!(record.length, FOUR_MIB);
    assert_eq!(record.status, Some(0x0a0b_0c0d));
    assert_eq!(record.ctrl, Some(0x85));
    let window = session.window().unwrap();
    assert_eq!(window.base(), 0x1f_0000_0000);
    assert_eq!(window.capacity(), FOUR_MIB);
    assert_eq!(
        window.writes(),
        &vec![RegisterWrite { offset: RP1_SYSRIO0_BASE + 0x2000, value: 0x0400_0000 }]
    );
    assert_eq!(window.read_u32(0xe_2000), Ok(1 << 26));
    assert_eq!(window.read_u32(0xe_3000), Ok(0));
    assert_eq!(window.read_u32(0), Ok(0x2000_1927));
    let mut expected = journal_to_verdict();
    expected.push(Action::ReadRegister { offset: 0xd_00d0 });
    expected.push(Action::ReadRegister { offset: 0xd_00d4 });
    expected.push(Action::WriteRegister { offset: 0xe_2000, value: 0x0400_0000 });
    assert_eq!(session.journal(), &expected);
    assert!(device.bars[1].is_none());
    assert!(device.bars[0].is_some());
    assert_eq!(device.name, "0000:01:00.0");
}

#[test]
fn attach_maps_only_the_window_of_a_longer_region() {
    let mut device = rp1(FOUR_MIB + 4096, 0x2000_1927);
    let session = DriverSession::attach(&mut device);
    assert_eq!(session.state(), LifecycleState::Active);
    assert_eq!(session.lifecycle().length, FOUR_MIB + 4096);
    let window = session.window().unwrap();
    assert_eq!(window.capacity(), FOUR_MIB);
    assert_eq!(window.read_u32(FOUR_MIB - 4), Ok(0));
    assert_eq!(window.read_u32(FOUR_MIB - 3), Err(DriverError::OutOfBounds));
    assert_eq!(window.read_u32(FOUR_MIB), Err(DriverError::OutOfBounds));
}

#[test]
fn attach_fails_on_wrong_chip_and_leaks_nothing() {
    for chip_id in [0u32, 0x2000_1926, 0x2000_1928, 0x2719_0020, 0xffff_ffff] {
        let mut device = rp1(FOUR_MIB, chip_id);
        let session = DriverSession::attach(&mut device);
        assert_eq!(session.state(), LifecycleState::Failed);
        assert_eq!(session.error(), Some(DriverError::IdentityMismatch));
        assert_eq!(session.identity(), None);
        assert!(session.window().is_none());
        assert!(!session.lifecycle().claimed);
        assert!(!session.lifecycle().mapped);
        assert_eq!(session.lifecycle().chip_id, chip_id);
        let mut expected = journal_to_verdict();
        expected.push(Action::ReleaseWindow);
        expected.push(Action::ReleaseClaim);
        assert_eq!(session.journal(), &expected);
        let releases =
            session.journal().iter().filter(|action| **action == Action::ReleaseClaim).count();
        assert_eq!(releases, 1);
    }
}

#[test]
fn attach_fails_without_the_resource() {
    let mut device = Device {
        name: String::from("0000:01:00.0"),
        bars: vec![Some(Region { base: 0, cells: image(FOUR_MIB, 0x2000_1927) })],
    };
    let session = DriverSession::attach(&mut device);
    assert_eq!(session.state(), LifecycleState::Failed);
    assert_eq!(session.error(), Some(DriverError::NoSuchResource));
    assert!(session.window().is_none());
    assert_eq!(session.journal(), &vec![Action::ClaimResource { index: 1 }]);
    assert!(device.bars[0].is_some());
    assert_eq!(device.bars.len(), 1);
}

#[test]
fn attach_fails_when_the_resource_is_taken() {
    let mut device = rp1(FOUR_MIB, 0x2000_1927);
    let first = DriverSession::attach(&mut device);
    assert_eq!(first.state(), LifecycleState::Active);
    let second = DriverSession::attach(&mut device);
    assert_eq!(second.state(), LifecycleState::Failed);
    assert_eq!(second.error(), Some(DriverError::NoSuchResource));
    assert_eq!(second.journal(), &vec![Action::ClaimResource { index: 1 }]);
    assert_eq!(first.state(), LifecycleState::Active);
}

#[test]
fn attach_fails_on_short_region() {
    for length in [0usize, 8, FOUR_MIB - 1] {
        let mut device = rp1(length, 0x2000_1927);
        let session = DriverSession::attach(&mut device);
        assert_eq!(session.state(), LifecycleState::Failed);
        assert_eq!(session.error(), Some(DriverError::MapError));
        assert!(session.window().is_none());
        assert!(!session.lifecycle().claimed);
        assert_eq!(session.lifecycle().length, length);
        assert_eq!(
            session.journal(),
            &vec![Action::ClaimResource { index: 1 }, Action::ReleaseClaim]
        );
        assert!(device.bars[1].is_none());
    }
}

#[test]
fn detach_releases_window_then_claim_once() {
    let mut device = rp1(FOUR_MIB, 0x2000_1927);
    let mut session = DriverSession::attach(&mut device);
    let attached = session.journal().clone();
    session.detach();
    assert_eq!(session.state(), LifecycleState::Detached);
    assert_eq!(session.error(), None);
    assert!(session.window().is_none());
    assert!(!session.lifecycle().claimed);
    assert!(!session.lifecycle().mapped);
    let mut expected = attached;
    expected.push(Action::ReleaseWindow);
    expected.push(Action::ReleaseClaim);
    assert_eq!(session.journal(), &expected);
    let window_releases =
        session.journal().iter().filter(|action| **action == Action::ReleaseWindow).count();
    let claim_releases =
        session.journal().iter().filter(|action| **action == Action::ReleaseClaim).count();
    assert_eq!(window_releases, 1);
    assert_eq!(claim_releases, 1);
}

#[test]
fn detach_twice_is_detach_once() {
    let mut device = rp1(FOUR_MIB, 0x2000_1927);
    let mut session = DriverSession::attach(&mut device);
    session.detach();
    let journal = session.journal().clone();
    let record = session.lifecycle();
    session.detach();
    assert_eq!(session.state(), LifecycleState::Detached);
    assert_eq!(session.journal(), &journal);
    assert_eq!(session.lifecycle(), record);
    assert!(session.window().is_none());
}

#[test]
fn detach_of_failed_session_does_nothing() {
    let mut device = rp1(FOUR_MIB, 0x2000_1928);
    let mut session = DriverSession::attach(&mut device);
    let journal = session.journal().clone();
    let record = session.lifecycle();
    session.detach();
    assert_eq!(session.state(), LifecycleState::Failed);
    assert_eq!(session.error(), Some(DriverError::IdentityMismatch));
    assert_eq!(session.journal(), &journal);
    assert_eq!(session.lifecycle(), record);
    session.detach();
    assert_eq!(session.journal(), &journal);

    let mut bare = Device { name: String::from("bare"), bars: vec![] };
    let mut session = DriverSession::attach(&mut bare);
    session.detach();
    assert_eq!(session.state(), LifecycleState::Failed);
    assert_eq!(session.error(), Some(DriverError::NoSuchResource));
    assert_eq!(session.journal(), &vec![Action::ClaimResource { index: 1 }]);
}
