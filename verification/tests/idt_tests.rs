use interrupt_core::idt::{
    confirm_loaded, init, DescriptorTablePointer, Idt, IdtEntry, IdtError, TableRegister,
};
use interrupt_core::serial::SerialPort;

fn stubs(count: usize) -> Vec<u64> {
    (0..count).map(|v| 0xFFFF_FFFF_8010_0000u64 + 16 * v as u64).collect()
}

#[test]
fn set_handler_splits_the_address_over_three_fields() {
    let mut entry = IdtEntry::empty();
    entry.set_handler(0x1122_3344_5566_7788, 0x28, 0x8E);
    assert_eq!(entry.offset_low, 0x7788);
    assert_eq!(entry.offset_mid, 0x5566);
    assert_eq!(entry.offset_high, 0x1122_3344);
    assert_eq!(entry.selector, 0x28);
    assert_eq!(entry.flags, 0x8E);
    assert_eq!(entry.ist, 0);
    assert_eq!(entry.reserved, 0);
    assert_eq!(entry.handler(), 0x1122_3344_5566_7788);
}

#[test]
fn set_handler_overwrites_a_used_entry_completely() {
    let mut entry = IdtEntry {
        offset_low: 1,
        selector: 2,
        ist: 3,
        flags: 4,
        offset_mid: 5,
        offset_high: 6,
        reserved: 7,
    };
    entry.set_handler(0, 0x08, 0x8F);
    assert_eq!(
        entry,
        IdtEntry {
            offset_low: 0,
            selector: 0x08,
            ist: 0,
            flags: 0x8F,
            offset_mid: 0,
            offset_high: 0,
            reserved: 0
        }
    );
}

#[test]
fn handler_address_round_trips_for_edge_values() {
    for address in [0u64, 1, 0xFFFF, 0x1_0000, 0xFFFF_FFFF, 0x1_0000_0000, u64::MAX] {
        let entry = IdtEntry::new(address, 0x08);
        assert_eq!(entry.handler(), address);
        assert_eq!(entry.flags, 0x8E);
        assert!(entry.is_present());
    }
}

#[test]
fn set_empty_zeroes_every_field() {
    let mut entry = IdtEntry::new(u64::MAX, 0xFFFF);
    entry.set_empty();
    assert_eq!(entry, IdtEntry::empty());
    assert_eq!(entry.handler(), 0);
    assert!(!entry.is_present());
    assert_eq!(entry.to_bytes(), vec![0u8; 16]);
}

#[test]
fn entry_bytes_follow_the_processor_layout() {
    let mut entry = IdtEntry::empty();
    entry.set_handler(0x1122_3344_5566_7788, 0x0028, 0x8E);
    assert_eq!(
        entry.to_bytes(),
        vec![
            0x88, 0x77, // offset bits 0-15
            0x28, 0x00, // selector
            0x00, // interrupt stack table
            0x8E, // type and attributes
            0x66, 0x55, // offset bits 16-31
            0x44, 0x33, 0x22, 0x11, // offset bits 32-63
            0x00, 0x00, 0x00, 0x00, // reserved
        ]
    );
}

#[test]
fn build_points_every_vector_at_its_stub_or_the_default() {
    let stubs = stubs(48);
    let default_stub = 0xFFFF_FFFF_8020_0000u64;
    let table = Idt::build(&stubs, default_stub, 0x28, 0x8E).unwrap();
    for v in 0..=255u8 {
        let entry = table.entry(v);
        let expected = if (v as usize) < 48 { stubs[v as usize] } else { default_stub };
        assert_eq!(entry.handler(), expected, "vector {}", v);
        assert_eq!(entry.selector, 0x28);
        assert_eq!(entry.flags, 0x8E);
        assert_eq!(entry.ist, 0);
        assert_eq!(entry.reserved, 0);
        assert_ne!(entry, IdtEntry::empty());
        assert_ne!(entry.handler(), 0);
    }
}

#[test]
fn build_with_no_stubs_uses_the_default_everywhere() {
    let table = Idt::build(&Vec::new(), 0x10_0000, 0x08, 0x8E).unwrap();
    for v in 0..=255u8 {
        assert_eq!(table.entry(v).handler(), 0x10_0000);
    }
}

#[test]
fn build_with_all_stubs_never_uses_the_default() {
    let stubs = stubs(256);
    let table = Idt::build(&stubs, 0, 0x08, 0x8E).unwrap();
    for v in 0..=255u8 {
        assert_eq!(table.entry(v).handler(), stubs[v as usize]);
    }
}

#[test]
fn build_refuses_more_stubs_than_vectors() {
    let r = Idt::build(&stubs(257), 0x10_0000, 0x08, 0x8E);
    assert_eq!(r.err(), Some(IdtError::TooManyHandlers));
}

#[test]
fn build_refuses_attributes_without_present_bit() {
    let r = Idt::build(&stubs(48), 0x10_0000, 0x08, 0x0E);
    assert_eq!(r.err(), Some(IdtError::GateNotPresent));
}

#[test]
fn build_refuses_null_handlers_and_names_the_first() {
    let mut with_hole = stubs(48);
    with_hole[14] = 0;
    with_hole[40] = 0;
    let r = Idt::build(&with_hole, 0x10_0000, 0x08, 0x8E);
    assert_eq!(r.err(), Some(IdtError::NullHandler { vector: 14 }));

    let r = Idt::build(&stubs(48), 0, 0x08, 0x8E);
    assert_eq!(r.err(), Some(IdtError::NullHandler { vector: 48 }));

    let r = Idt::build(&Vec::new(), 0, 0x08, 0x8E);
    assert_eq!(r.err(), Some(IdtError::NullHandler { vector: 0 }));
}

#[test]
fn new_table_is_all_zero_and_set_handler_changes_one_vector() {
    let mut table = Idt::new();
    for v in 0..=255u8 {
        assert_eq!(table.entry(v), IdtEntry::empty());
    }
    table.set_handler(0x80, 0xFFFF_8000_0000_1000, 0x08, 0xEE);
    for v in 0..=255u8 {
        if v == 0x80 {
            assert_eq!(table.entry(v).handler(), 0xFFFF_8000_0000_1000);
            assert_eq!(table.entry(v).flags, 0xEE);
        } else {
            assert_eq!(table.entry(v), IdtEntry::empty());
        }
    }
}

#[test]
fn table_image_is_the_descriptors_back_to_back() {
    let stubs = stubs(48);
    let table = Idt::build(&stubs, 0xFFFF_FFFF_8020_0000, 0x28, 0x8E).unwrap();
    let image = table.to_bytes();
    assert_eq!(image.len(), 4096);
    for v in 0..256usize {
        assert_eq!(&image[16 * v..16 * v + 16], &table.entry(v as u8).to_bytes()[..]);
    }
}

#[test]
fn pointer_for_table_has_limit_of_256_descriptors() {
    let p = DescriptorTablePointer::for_table(0xFFFF_FFFF_8030_0000);
    assert_eq!(p.limit, 256 * 16 - 1);
    assert_eq!(p.limit, 0x0FFF);
    assert_eq!(p.base, 0xFFFF_FFFF_8030_0000);
    assert!(p.looks_loaded());
}

#[test]
fn pointer_bytes_are_limit_then_base_little_endian() {
    let p = DescriptorTablePointer { limit: 0x0FFF, base: 0x1122_3344_5566_7788 };
    assert_eq!(
        p.to_bytes(),
        vec![0xFF, 0x0F, 0x88, 0x77, 0x66, 0x55, 0x44, 0x33, 0x22, 0x11]
    );
}

#[test]
fn pointer_loaded_and_read_back_is_identical() {
    for (limit, base) in [
        (0x0FFFu16, 0xFFFF_FFFF_8030_0000u64),
        (0, 0),
        (u16::MAX, u64::MAX),
        (0x1234, 0x0000_0001_0000_0000),
        (0x00FF, 0x8000_0000_0000_0001),
    ] {
        let p = DescriptorTablePointer { limit, base };
        let stored = p.to_bytes();
        assert_eq!(DescriptorTablePointer::from_bytes(&stored), Some(p));
    }
}

#[test]
fn pointer_from_bytes_wants_exactly_ten_bytes() {
    assert_eq!(DescriptorTablePointer::from_bytes(&[0u8; 9]), None);
    assert_eq!(DescriptorTablePointer::from_bytes(&[0u8; 11]), None);
    assert_eq!(DescriptorTablePointer::from_bytes(&[]), None);
    assert_eq!(
        DescriptorTablePointer::from_bytes(&[0u8; 10]),
        Some(DescriptorTablePointer { limit: 0, base: 0 })
    );
}

#[test]
fn looks_loaded_needs_base_and_full_limit() {
    assert!(DescriptorTablePointer { limit: 0x0FFF, base: 1 }.looks_loaded());
    assert!(!DescriptorTablePointer { limit: 0x0FFF, base: 0 }.looks_loaded());
    assert!(!DescriptorTablePointer { limit: 0x0FFE, base: 0x1000 }.looks_loaded());
    assert!(!DescriptorTablePointer { limit: 0xFFFF, base: 0x1000 }.looks_loaded());
}

#[test]
fn init_builds_table_and_pointer_and_reports_both() {
    let mut serial = SerialPort::new(0x3F8);
    let stubs = stubs(48);
    let (table, pointer) =
        init(&stubs, 0xFFFF_FFFF_8020_0000, 0x28, 0xFFFF_FFFF_8030_0000, &mut serial).unwrap();
    assert_eq!(pointer, DescriptorTablePointer { limit: 4095, base: 0xFFFF_FFFF_8030_0000 });
    assert_eq!(table.entry(32).handler(), stubs[32]);
    assert_eq!(table.entry(32).flags, 0x8E);
    assert_eq!(table.entry(200).handler(), 0xFFFF_FFFF_8020_0000);
    assert_eq!(
        String::from_utf8(serial.take()).unwrap(),
        "64-bit IDT: Using kernel selector: 0x0x28\n\
         64-bit IDT base: 0x0xFFFFFFFF0x80300000, limit: 0x0xFFF\n"
    );
}

#[test]
fn init_reports_selector_only_when_it_refuses() {
    let mut serial = SerialPort::new(0x3F8);
    let r = init(&stubs(48), 0, 0x08, 0x1000, &mut serial);
    assert_eq!(r.err(), Some(IdtError::NullHandler { vector: 48 }));
    assert_eq!(
        String::from_utf8(serial.take()).unwrap(),
        "64-bit IDT: Using kernel selector: 0x0x8\n"
    );
}

#[test]
fn confirm_loaded_accepts_the_requested_pointer() {
    let mut serial = SerialPort::new(0x3F8);
    let requested = DescriptorTablePointer::for_table(0x0000_0000_0020_0000);
    let readback = requested.to_bytes();
    assert!(confirm_loaded(&requested, &readback, &mut serial));
    assert_eq!(
        String::from_utf8(serial.take()).unwrap(),
        "IDT readback - base: 0x0x00x200000, limit: 0x0xFFF\n\
         64-bit IDT loaded successfully\n"
    );
}

#[test]
fn confirm_loaded_rejects_another_pointer_or_a_short_readback() {
    let mut serial = SerialPort::new(0x3F8);
    let requested = DescriptorTablePointer::for_table(0x20_0000);
    let other = DescriptorTablePointer::for_table(0x20_0010).to_bytes();
    assert!(!confirm_loaded(&requested, &other, &mut serial));
    assert_eq!(
        String::from_utf8(serial.take()).unwrap(),
        "IDT readback - base: 0x0x00x200010, limit: 0x0xFFF\n\
         WARNING: IDT readback differs from the table requested\n"
    );
    assert!(!confirm_loaded(&requested, &[0xFF, 0x0F], &mut serial));
    assert_eq!(
        String::from_utf8(serial.take()).unwrap(),
        "WARNING: IDT readback is not a table pointer\n"
    );
}

#[test]
fn register_read_back_after_load_holds_the_loaded_pointer() {
    let mut serial = SerialPort::new(0x3F8);
    let mut register = TableRegister::new();
    assert_eq!(register.pointer, DescriptorTablePointer { limit: 0xFFFF, base: 0 });
    for (limit, base) in [(4095u16, 0xFFFF_FFFF_8030_0000u64), (0, 0), (u16::MAX, u64::MAX)] {
        let requested = DescriptorTablePointer { limit, base };
        assert!(register.load(&requested.to_bytes()));
        let readback = register.store();
        assert_eq!(DescriptorTablePointer::from_bytes(&readback), Some(requested));
        assert!(confirm_loaded(&requested, &readback, &mut serial));
    }
    let before = register;
    assert!(!register.load(&[1, 2, 3]));
    assert_eq!(register, before);
}
