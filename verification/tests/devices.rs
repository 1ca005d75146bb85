use emu6502::hardware::discard::DiscardHardware;
use emu6502::hardware::empty::EmptyHardware;
use emu6502::hardware::paged::Paged;
use emu6502::hardware::{
    AddressableHardware, Hardware, HardwareError, SizedAddressableHardware,
};

/// The discard device.
#[test]
fn discard_test() {
    let mut discard: DiscardHardware = DiscardHardware::new();

    assert!(
        discard.as_addressable().is_some(),
        "DiscardHardware should be addressable"
    );
    assert!(
        discard.as_addressable_mut().is_some(),
        "DiscardHardware should be addressable"
    );
    assert!(
        discard.as_sized_addressable().is_none(),
        "DiscardHardware should not be sized"
    );
    assert!(
        discard.as_sized_addressable_mut().is_none(),
        "DiscardHardware should not be sized"
    );

    assert_eq!(
        discard.read(0x0000).expect("DiscardHardware should always be readable"),
        0,
        "DiscardHardware should always read 0"
    );
    assert_eq!(
        discard.read(0xF035).expect("DiscardHardware should always be readable"),
        0,
        "DiscardHardware should always read 0"
    );

    discard.write(0x0F6A, 0x58).expect("DiscardHardware should always be writable");
    assert_eq!(
        discard.read(0x0F6A).expect("DiscardHardware should always be readable"),
        0,
        "DiscardHardware should always read 0 even after write"
    );
}

/// The empty device.
#[test]
fn empty_test() {
    let mut empty: EmptyHardware = EmptyHardware::new();

    assert!(
        empty.as_addressable().is_none(),
        "EmptyHardware should not be addressable"
    );
    assert!(
        empty.as_addressable_mut().is_none(),
        "EmptyHardware should not be addressable"
    );
    assert!(
        empty.as_sized_addressable().is_none(),
        "EmptyHardware should not be sized"
    );
    assert!(
        empty.as_sized_addressable_mut().is_none(),
        "EmptyHardware should not be sized"
    );
}

#[test]
fn devices_have_their_names() {
    assert_eq!(EmptyHardware::new().name(), "<Empty>");
    assert_eq!(DiscardHardware::new().name(), "Discard Device");
    assert_eq!(Paged::new(DiscardHardware::new(), 3).name(), "Discard Device");
}

#[test]
fn a_device_is_known_by_name_alone_to_a_holder() {
    let empty = EmptyHardware::new();
    let discard = DiscardHardware::new();
    let holders: [&dyn Hardware; 2] = [&empty, &discard];
    assert_eq!(holders[0].name(), "<Empty>");
    assert_eq!(holders[1].name(), "Discard Device");
}

#[test]
fn hardware_error_keeps_what_it_was_given() {
    let fatal = HardwareError::new(true, String::from("bus fault"));
    assert!(fatal.fatal());
    assert_eq!(fatal.message(), "bus fault");

    let mild = HardwareError::new(false, String::from("write protected"));
    assert!(!mild.fatal());
    assert_eq!(mild.message(), "write protected");

    let silent = HardwareError::new(false, String::new());
    assert_eq!(silent.message(), "");
}

#[test]
fn discard_reads_zero_everywhere_whatever_was_written() {
    let mut discard = DiscardHardware::new();
    for address in [0x0000u16, 0x0001, 0x00FF, 0x0100, 0x7FFF, 0xFFFF] {
        for value in [0x00u8, 0x01, 0x58, 0xFF] {
            assert!(discard.write(address, value).is_ok());
            assert_eq!(discard.read(address).unwrap(), 0);
        }
    }
}

#[test]
fn the_view_of_a_discard_device_is_the_device() {
    let mut discard = DiscardHardware::new();
    let view = discard.as_addressable().unwrap();
    assert_eq!(view.read(0x0042).unwrap(), 0);
    assert_eq!(view.name(), "Discard Device");
    let view = discard.as_addressable_mut().unwrap();
    assert!(view.write(0x0042, 0x99).is_ok());
    assert_eq!(discard.read(0x0042).unwrap(), 0);
}

#[test]
fn paged_has_every_capability_and_the_size_given() {
    let mut paged = Paged::new(DiscardHardware::new(), 4);
    assert!(paged.as_addressable().is_some());
    assert!(paged.as_addressable_mut().is_some());
    assert!(paged.as_sized_addressable().is_some());
    assert!(paged.as_sized_addressable_mut().is_some());
    assert_eq!(paged.size(), 4);
    assert_eq!(paged.as_sized_addressable().unwrap().size(), 4);
    assert_eq!(Paged::new(DiscardHardware::new(), 0).size(), 0);
    assert_eq!(Paged::new(DiscardHardware::new(), 255).size(), 255);
}

#[test]
fn paged_hands_reads_and_writes_to_its_device() {
    let mut paged = Paged::new(DiscardHardware::new(), 1);
    assert!(paged.write(0x0010, 0xAB).is_ok());
    assert_eq!(paged.read(0x0010).unwrap(), 0);
    assert_eq!(paged.size(), 1);
    assert_eq!(paged.device().name(), "Discard Device");
    let mut inner = paged.into_device();
    assert!(inner.write(0, 1).is_ok());
}
