use uxn_core_emulator::address::Address;
use uxn_core_emulator::common::{compose_short, split_short};
use uxn_core_emulator::{Core, EmptyDevice, Item, ItemSize, Memory};

#[test]
fn new_core_is_in_its_reset_state() {
    let core = Core::new();
    assert_eq!(core.program_counter, 0x0100);
    assert!(core.memory.iter().all(|byte| *byte == 0));
    assert_eq!(core.memory.len(), 0x1_0000);
    assert_eq!(core.working_stack.pointer, 0);
    assert_eq!(core.return_stack.pointer, 0);
    assert!(core.working_stack.data.iter().all(|byte| *byte == 0));
    assert!(core.return_stack.data.iter().all(|byte| *byte == 0));
}

#[test]
fn load_rom_copies_the_rom_to_the_rom_base() {
    let rom = [0x80, 0x01, 0x01, 0x00, 0xff];
    let mut core = Core::new();
    core.load_rom(&rom);
    for (i, byte) in core.memory.iter().enumerate() {
        if (0x0100..0x0105).contains(&i) {
            assert_eq!(*byte, rom[i - 0x0100]);
        } else {
            assert_eq!(*byte, 0, "byte {i:#06x}");
        }
    }
}

#[test]
fn load_rom_clears_what_was_there() {
    let mut core = Core::new();
    core.write_memory(0x0010, Item::Short(0xbeef));
    core.write_memory(0x0104, Item::Byte(0x77));
    core.write_memory(0xfffe, Item::Short(0x1234));
    core.load_rom(&[1, 2, 3]);
    assert_eq!(&core.memory[0x0100..0x0106], &[1, 2, 3, 0, 0, 0]);
    assert_eq!(core.memory[0x0010], 0);
    assert_eq!(core.memory[0x0011], 0);
    assert_eq!(core.memory[0xfffe], 0);
    assert_eq!(core.memory[0xffff], 0);
}

#[test]
fn load_rom_leaves_registers_alone() {
    let mut core = Core::new();
    core.program_counter = 0x1234;
    core.working_stack.push_byte(7);
    core.load_rom(&[1]);
    assert_eq!(core.program_counter, 0x1234);
    assert_eq!(core.working_stack.bytes(), vec![7]);
}

#[test]
fn largest_rom_fills_memory_to_its_end() {
    let rom: Vec<u8> = (0..0xff00u32).map(|i| (i % 251) as u8 + 1).collect();
    let core = Core::new_with_rom(&rom);
    assert_eq!(&core.memory[0x0100..], &rom[..]);
    assert!(core.memory[..0x0100].iter().all(|byte| *byte == 0));
}

#[test]
fn longer_rom_is_cut_off_at_the_end_of_memory() {
    let rom: Vec<u8> = (0..0xff10u32).map(|i| (i % 251) as u8 + 1).collect();
    let core = Core::new_with_rom(&rom);
    assert_eq!(&core.memory[0x0100..], &rom[..0xff00]);
    assert!(core.memory[..0x0100].iter().all(|byte| *byte == 0));
}

#[test]
fn clear_memory_zeroes_every_byte() {
    let mut core = Core::new_with_rom(&[1, 2, 3]);
    core.write_byte(0x0000, 9);
    core.write_byte(0xffff, 9);
    core.clear_memory();
    assert!(core.memory.iter().all(|byte| *byte == 0));
    assert_eq!(core.program_counter, 0x0100);
}

#[test]
fn shorts_are_stored_big_endian() {
    let mut core = Core::new();
    core.write_memory(0x0200, Item::Short(0xabcd));
    assert_eq!(core.memory[0x0200], 0xab);
    assert_eq!(core.memory[0x0201], 0xcd);
    assert_eq!(core.read_byte(0x0200), 0xab);
    assert_eq!(core.read_byte(0x0201), 0xcd);
    assert_eq!(core.read_short(0x0200), 0xabcd);
    assert_eq!(core.read_memory(0x0200, ItemSize::Byte), Item::Byte(0xab));
    assert_eq!(core.read_memory(0x0200, ItemSize::Short), Item::Short(0xabcd));
}

#[test]
fn write_short_stores_high_byte_first() {
    let mut core = Core::new();
    core.write_short(0x0300, 0x1234);
    assert_eq!(&core.memory[0x0300..0x0302], &[0x12, 0x34]);
}

#[test]
fn short_round_trip_at_every_kind_of_address() {
    for addr in [0x0000u16, 0x0001, 0x00ff, 0x0100, 0x7fff, 0x8000, 0xfffe, 0xffff] {
        for short in [0x0000u16, 0x0001, 0x00ff, 0x0100, 0xabcd, 0xffff] {
            let mut core = Core::new();
            core.write_memory(addr, Item::Short(short));
            assert_eq!(core.read_memory(addr, ItemSize::Short), Item::Short(short));
        }
    }
}

#[test]
fn short_at_the_last_address_wraps_to_the_first() {
    let mut core = Core::new();
    core.write_memory(0xffff, Item::Short(0xabcd));
    assert_eq!(core.memory[0xffff], 0xab);
    assert_eq!(core.memory[0x0000], 0xcd);
    assert_eq!(core.read_memory(0xffff, ItemSize::Short), Item::Short(0xabcd));
    assert_eq!(core.read_short(0xffff), 0xabcd);

    let mut core = Core::new();
    core.write_short(0xffff, 0x1234);
    assert_eq!(core.memory[0xffff], 0x12);
    assert_eq!(core.memory[0x0000], 0x34);
}

#[test]
fn byte_round_trip() {
    let mut core = Core::new();
    core.write_memory(0x4242, Item::Byte(0x99));
    assert_eq!(core.read_memory(0x4242, ItemSize::Byte), Item::Byte(0x99));
    assert_eq!(core.memory[0x4243], 0);
}

#[test]
fn successor_steps_by_one() {
    assert_eq!(0x00u8.successor(), 0x01);
    assert_eq!(0x7fu8.successor(), 0x80);
    assert_eq!(0x0000u16.successor(), 0x0001);
    assert_eq!(0x00ffu16.successor(), 0x0100);
}

#[test]
fn successor_of_the_last_address_is_the_first() {
    assert_eq!(0xffu8.successor(), 0x00);
    assert_eq!(0xffffu16.successor(), 0x0000);
}

#[test]
fn empty_device_is_a_page_of_zeroes() {
    let device = EmptyDevice::new();
    for port in 0..=255u8 {
        assert_eq!(device.read_byte(port), 0);
    }
}

#[test]
fn empty_device_holds_what_was_written() {
    let mut device = EmptyDevice::new();
    device.write_byte(0x18, 0x41);
    assert_eq!(device.read_byte(0x18), 0x41);
    assert_eq!(device.read_byte(0x17), 0);
    assert_eq!(device.read_byte(0x19), 0);
    device.write_memory(0x20, Item::Short(0xabcd));
    assert_eq!(device.read_byte(0x20), 0xab);
    assert_eq!(device.read_byte(0x21), 0xcd);
    assert_eq!(device.read_short(0x20), 0xabcd);
    assert_eq!(device.read_memory(0x20, ItemSize::Short), Item::Short(0xabcd));
    assert_eq!(device.read_memory(0x21, ItemSize::Byte), Item::Byte(0xcd));
}

#[test]
fn short_at_the_last_port_wraps_to_the_first() {
    let mut device = EmptyDevice::new();
    device.write_short(0xff, 0x1234);
    assert_eq!(device.read_byte(0xff), 0x12);
    assert_eq!(device.read_byte(0x00), 0x34);
    assert_eq!(device.read_short(0xff), 0x1234);
}

#[test]
fn shorts_are_composed_and_split_high_byte_first() {
    assert_eq!(compose_short(0xab, 0xcd), 0xabcd);
    assert_eq!(compose_short(0x00, 0xff), 0x00ff);
    assert_eq!(split_short(0xabcd), (0xab, 0xcd));
    assert_eq!(split_short(0xff00), (0xff, 0x00));
}
