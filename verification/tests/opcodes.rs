// Every opcode, run from hand-assembled ROMs.

use uxn_core_emulator::{
    AccessMode, Core, EmptyDevice, ExecutionResult, Instruction, ItemSize, Memory, StackMode,
};

fn run(rom: &[u8]) -> Core<EmptyDevice> {
    let mut core = Core::new_with_rom(rom);
    assert_eq!(core.execute_until_break(1_000), ExecutionResult::Break);
    core
}

/// Working stack after the ROM has run to its first BRK.
fn wst(rom: &[u8]) -> Vec<u8> {
    run(rom).working_stack.bytes()
}

/// Return stack after the ROM has run to its first BRK.
fn rst(rom: &[u8]) -> Vec<u8> {
    run(rom).return_stack.bytes()
}

#[test]
fn decode_takes_the_byte_apart() {
    let brk = Instruction::decode(0x00);
    assert_eq!(brk.opcode, 0x00);
    assert_eq!(brk.mode, AccessMode::Pop);
    assert_eq!(brk.stack, StackMode::Working);
    assert_eq!(brk.size, ItemSize::Byte);

    let all = Instruction::decode(0xff);
    assert_eq!(all.opcode, 0x1f);
    assert_eq!(all.mode, AccessMode::Keep);
    assert_eq!(all.stack, StackMode::Return);
    assert_eq!(all.size, ItemSize::Short);

    assert_eq!(Instruction::decode(0x80).mode, AccessMode::Keep);
    assert_eq!(Instruction::decode(0x80).stack, StackMode::Working);
    assert_eq!(Instruction::decode(0x40).stack, StackMode::Return);
    assert_eq!(Instruction::decode(0x40).size, ItemSize::Byte);
    assert_eq!(Instruction::decode(0x20).size, ItemSize::Short);
    assert_eq!(Instruction::decode(0x20).mode, AccessMode::Pop);
    assert_eq!(Instruction::decode(0x38).opcode, 0x18);
}

#[test]
fn brk_breaks_and_nothing_else_does() {
    let mut core = Core::new();
    assert_eq!(core.execute_one_instruction(0x00), ExecutionResult::Break);
    assert_eq!(core.program_counter, 0x0100);
    for ins in 1..=255u8 {
        let mut core = Core::new();
        assert_eq!(core.execute_one_instruction(ins), ExecutionResult::Continue);
    }
}

#[test]
fn brk_leaves_the_counter_behind_itself() {
    let core = run(&[0x80, 0x01, 0x00]);
    assert_eq!(core.program_counter, 0x0103);
}

#[test]
fn lit_pushes_what_follows() {
    assert_eq!(wst(&[0x80, 0x12, 0x00]), [0x12]);
    assert_eq!(wst(&[0xa0, 0xab, 0xcd, 0x00]), [0xab, 0xcd]);
    assert_eq!(rst(&[0xc0, 0x12, 0x00]), [0x12]);
    assert_eq!(wst(&[0xc0, 0x12, 0x00]), []);
    assert_eq!(rst(&[0xe0, 0xab, 0xcd, 0x00]), [0xab, 0xcd]);
}

#[test]
fn jci_jumps_when_the_condition_holds() {
    let rom = |cond| [0x80, cond, 0x20, 0x00, 0x03, 0x80, 0xaa, 0x00, 0x80, 0xbb, 0x00];
    assert_eq!(wst(&rom(0x01)), [0xbb]);
    assert_eq!(wst(&rom(0xff)), [0xbb]);
    assert_eq!(wst(&rom(0x00)), [0xaa]);
}

#[test]
fn jmi_jumps_always() {
    assert_eq!(wst(&[0x40, 0x00, 0x03, 0x80, 0xaa, 0x00, 0x80, 0xbb, 0x00]), [0xbb]);
    // An offset of 0xfff8 leads back by eight: from 0x010b to the BRK at 0x0103.
    let backwards = [0x40, 0x00, 0x05, 0x00, 0x00, 0x80, 0xaa, 0x00, 0x40, 0xff, 0xf8];
    assert_eq!(wst(&backwards), []);
    let core = run(&backwards);
    assert_eq!(core.program_counter, 0x0104);
}

#[test]
fn jsi_pushes_the_return_address() {
    let core = run(&[0x60, 0x00, 0x03, 0x80, 0xaa, 0x00, 0x80, 0xbb, 0x00]);
    assert_eq!(core.working_stack.bytes(), [0xbb]);
    assert_eq!(core.return_stack.bytes(), [0x01, 0x03]);
}

#[test]
fn inc() {
    assert_eq!(wst(&[0x80, 0xff, 0x01, 0x00]), [0x00]);
    assert_eq!(wst(&[0xa0, 0xff, 0xff, 0x21, 0x00]), [0x00, 0x00]);
    assert_eq!(wst(&[0x80, 0x01, 0x81, 0x00]), [0x01, 0x02]);
    assert_eq!(rst(&[0xc0, 0x01, 0x41, 0x00]), [0x02]);
}

#[test]
fn pop() {
    assert_eq!(wst(&[0x80, 0x01, 0x80, 0x02, 0x02, 0x00]), [0x01]);
    assert_eq!(wst(&[0x80, 0x01, 0xa0, 0x02, 0x03, 0x22, 0x00]), [0x01]);
    assert_eq!(wst(&[0x80, 0x01, 0x82, 0x00]), [0x01]);
}

#[test]
fn pop_on_an_empty_stack_wraps() {
    let core = run(&[0x02, 0x00]);
    assert_eq!(core.working_stack.pointer, 0xff);
    let core = run(&[0x22, 0x00]);
    assert_eq!(core.working_stack.pointer, 0xfe);
}

#[test]
fn nip_keeps_the_upper_item() {
    assert_eq!(wst(&[0x80, 0x01, 0x80, 0x02, 0x03, 0x00]), [0x02]);
    assert_eq!(wst(&[0xa0, 0x01, 0x02, 0xa0, 0x03, 0x04, 0x23, 0x00]), [0x03, 0x04]);
    assert_eq!(wst(&[0x80, 0x01, 0x80, 0x02, 0x83, 0x00]), [0x01, 0x02, 0x02]);
}

#[test]
fn swp() {
    assert_eq!(wst(&[0x80, 0x01, 0x80, 0x02, 0x04, 0x00]), [0x02, 0x01]);
    assert_eq!(
        wst(&[0xa0, 0x01, 0x02, 0xa0, 0x03, 0x04, 0x24, 0x00]),
        [0x03, 0x04, 0x01, 0x02]
    );
    assert_eq!(wst(&[0x80, 0x01, 0x80, 0x02, 0x84, 0x00]), [0x01, 0x02, 0x02, 0x01]);
}

#[test]
fn rot_brings_the_lowest_to_the_top() {
    assert_eq!(wst(&[0x80, 0x01, 0x80, 0x02, 0x80, 0x03, 0x05, 0x00]), [0x02, 0x03, 0x01]);
    assert_eq!(
        wst(&[0xa0, 0x00, 0x01, 0xa0, 0x00, 0x02, 0xa0, 0x00, 0x03, 0x25, 0x00]),
        [0x00, 0x02, 0x00, 0x03, 0x00, 0x01]
    );
    assert_eq!(
        wst(&[0x80, 0x01, 0x80, 0x02, 0x80, 0x03, 0x85, 0x00]),
        [0x01, 0x02, 0x03, 0x02, 0x03, 0x01]
    );
}

#[test]
fn dup() {
    assert_eq!(wst(&[0x80, 0x01, 0x06, 0x00]), [0x01, 0x01]);
    assert_eq!(wst(&[0xa0, 0x01, 0x02, 0x26, 0x00]), [0x01, 0x02, 0x01, 0x02]);
    assert_eq!(wst(&[0x80, 0x01, 0x86, 0x00]), [0x01, 0x01, 0x01]);
}

#[test]
fn ovr() {
    assert_eq!(wst(&[0x80, 0x01, 0x80, 0x02, 0x07, 0x00]), [0x01, 0x02, 0x01]);
    assert_eq!(
        wst(&[0xa0, 0x01, 0x02, 0xa0, 0x03, 0x04, 0x27, 0x00]),
        [0x01, 0x02, 0x03, 0x04, 0x01, 0x02]
    );
    assert_eq!(wst(&[0x80, 0x01, 0x80, 0x02, 0x87, 0x00]), [0x01, 0x02, 0x01, 0x02, 0x01]);
}

#[test]
fn equ_and_neq() {
    assert_eq!(wst(&[0x80, 0x01, 0x80, 0x01, 0x08, 0x00]), [0x01]);
    assert_eq!(wst(&[0x80, 0x01, 0x80, 0x02, 0x08, 0x00]), [0x00]);
    assert_eq!(wst(&[0x80, 0x01, 0x80, 0x01, 0x09, 0x00]), [0x00]);
    assert_eq!(wst(&[0x80, 0x01, 0x80, 0x02, 0x09, 0x00]), [0x01]);
    // Shorts give way to one byte.
    assert_eq!(wst(&[0xa0, 0xab, 0xcd, 0xa0, 0xab, 0xcd, 0x28, 0x00]), [0x01]);
    assert_eq!(wst(&[0xa0, 0xab, 0xcd, 0xa0, 0xab, 0xce, 0x28, 0x00]), [0x00]);
    assert_eq!(wst(&[0xa0, 0xab, 0xcd, 0xa0, 0xab, 0xce, 0x29, 0x00]), [0x01]);
    assert_eq!(wst(&[0x80, 0x01, 0x80, 0x01, 0x88, 0x00]), [0x01, 0x01, 0x01]);
}

#[test]
fn gth_and_lth_compare_the_lower_item_with_the_upper() {
    assert_eq!(wst(&[0x80, 0x02, 0x80, 0x01, 0x0a, 0x00]), [0x01]);
    assert_eq!(wst(&[0x80, 0x01, 0x80, 0x02, 0x0a, 0x00]), [0x00]);
    assert_eq!(wst(&[0x80, 0x02, 0x80, 0x02, 0x0a, 0x00]), [0x00]);
    assert_eq!(wst(&[0x80, 0x01, 0x80, 0x02, 0x0b, 0x00]), [0x01]);
    assert_eq!(wst(&[0x80, 0x02, 0x80, 0x01, 0x0b, 0x00]), [0x00]);
    assert_eq!(wst(&[0x80, 0x02, 0x80, 0x02, 0x0b, 0x00]), [0x00]);
}

#[test]
fn gth_and_lth_are_unsigned() {
    assert_eq!(wst(&[0x80, 0xff, 0x80, 0x01, 0x0a, 0x00]), [0x01]);
    assert_eq!(wst(&[0x80, 0xff, 0x80, 0x01, 0x0b, 0x00]), [0x00]);
    assert_eq!(wst(&[0xa0, 0xff, 0x00, 0xa0, 0x00, 0x01, 0x2a, 0x00]), [0x01]);
    assert_eq!(wst(&[0xa0, 0x00, 0x01, 0xa0, 0xff, 0x00, 0x2b, 0x00]), [0x01]);
    assert_eq!(wst(&[0xa0, 0x80, 0x00, 0xa0, 0x7f, 0xff, 0x2b, 0x00]), [0x00]);
}

#[test]
fn jmp_by_a_signed_offset() {
    assert_eq!(wst(&[0x80, 0x03, 0x0c, 0x80, 0xaa, 0x00, 0x80, 0xbb, 0x00]), [0xbb]);
    // 0xfa stands for -6: from 0x0109 back to 0x0103.
    let backwards = [0x40, 0x00, 0x03, 0x80, 0xaa, 0x00, 0x80, 0xfa, 0x0c];
    assert_eq!(wst(&backwards), [0xaa]);
}

#[test]
fn jmp2_to_an_address() {
    assert_eq!(wst(&[0xa0, 0x01, 0x07, 0x2c, 0x80, 0xaa, 0x00, 0x80, 0xbb, 0x00]), [0xbb]);
}

#[test]
fn jmp_keep_leaves_the_offset() {
    assert_eq!(wst(&[0x80, 0x03, 0x8c, 0x80, 0xaa, 0x00, 0x80, 0xbb, 0x00]), [0x03, 0xbb]);
}

#[test]
fn jcn_reads_the_address_above_the_condition() {
    let rom = |cond| [0x80, cond, 0x80, 0x03, 0x0d, 0x80, 0xaa, 0x00, 0x80, 0xbb, 0x00];
    assert_eq!(wst(&rom(0x01)), [0xbb]);
    assert_eq!(wst(&rom(0x00)), [0xaa]);
    // With a short address the condition is still one byte.
    let rom2 = |cond| [0x80, cond, 0xa0, 0x01, 0x09, 0x2d, 0x80, 0xaa, 0x00, 0x80, 0xbb, 0x00];
    assert_eq!(wst(&rom2(0x01)), [0xbb]);
    assert_eq!(wst(&rom2(0x00)), [0xaa]);
}

#[test]
fn jsr_pushes_the_return_address() {
    let core = run(&[0x80, 0x02, 0x0e, 0x00, 0x00, 0x80, 0xcc, 0x00]);
    assert_eq!(core.working_stack.bytes(), [0xcc]);
    assert_eq!(core.return_stack.bytes(), [0x01, 0x03]);

    let core = run(&[0xa0, 0x01, 0x06, 0x2e, 0x00, 0x00, 0x80, 0xdd, 0x00]);
    assert_eq!(core.working_stack.bytes(), [0xdd]);
    assert_eq!(core.return_stack.bytes(), [0x01, 0x04]);
}

#[test]
fn jsr_on_the_return_stack() {
    // JSR2r takes its address from the return stack and pushes the return
    // address where the address was.
    let core = run(&[0xe0, 0x01, 0x06, 0x6e, 0x00, 0x00, 0x80, 0xdd, 0x00]);
    assert_eq!(core.working_stack.bytes(), [0xdd]);
    assert_eq!(core.return_stack.bytes(), [0x01, 0x04]);
}

#[test]
fn sth_moves_to_the_other_stack() {
    let core = run(&[0x80, 0x05, 0x0f, 0x00]);
    assert_eq!(core.working_stack.bytes(), []);
    assert_eq!(core.return_stack.bytes(), [0x05]);

    let core = run(&[0xc0, 0x05, 0x4f, 0x00]);
    assert_eq!(core.working_stack.bytes(), [0x05]);
    assert_eq!(core.return_stack.bytes(), []);

    let core = run(&[0xa0, 0x12, 0x34, 0xaf, 0x00]);
    assert_eq!(core.working_stack.bytes(), [0x12, 0x34]);
    assert_eq!(core.return_stack.bytes(), [0x12, 0x34]);
}

#[test]
fn stz_and_ldz() {
    assert_eq!(wst(&[0x80, 0xab, 0x80, 0x10, 0x11, 0x80, 0x10, 0x10, 0x00]), [0xab]);
    assert_eq!(
        wst(&[0xa0, 0x12, 0x34, 0x80, 0x20, 0x31, 0x80, 0x20, 0x30, 0x00]),
        [0x12, 0x34]
    );
    let core = run(&[0xa0, 0x12, 0x34, 0x80, 0xff, 0x31, 0x00]);
    assert_eq!(core.read_byte(0x00ff), 0x12);
    assert_eq!(core.read_byte(0x0100), 0x34);
}

#[test]
fn str_and_ldr() {
    // STR overwrites the literal of the LIT that follows it.
    assert_eq!(wst(&[0x80, 0xab, 0x80, 0x01, 0x13, 0x80, 0x00, 0x00]), [0xab]);
    // LDR with a negative offset reads the program itself.
    assert_eq!(wst(&[0x80, 0xfd, 0x12, 0x00]), [0x80]);
    assert_eq!(wst(&[0x80, 0xfd, 0x32, 0x00]), [0x80, 0xfd]);
}

#[test]
fn ldr_wraps_below_the_first_address() {
    let mut core = Core::new();
    core.write_byte(0x0000, 0x80);
    core.write_byte(0x0001, 0xfe);
    core.write_byte(0x0002, 0x12);
    core.write_byte(0xffff, 0x5a);
    core.program_counter = 0x0000;
    assert_eq!(core.execute_until_break(10), ExecutionResult::Break);
    // After LDR was fetched the counter is 3; two lower is 1, where 0xfe lies.
    assert_eq!(core.working_stack.bytes(), [0xfe]);

    let mut core = Core::new();
    core.write_byte(0x0000, 0x80);
    core.write_byte(0x0001, 0xfc);
    core.write_byte(0x0002, 0x12);
    core.write_byte(0xffff, 0x5a);
    core.program_counter = 0x0000;
    assert_eq!(core.execute_until_break(10), ExecutionResult::Break);
    assert_eq!(core.working_stack.bytes(), [0x5a]);
}

#[test]
fn sta_and_lda() {
    assert_eq!(wst(&[0xa0, 0x01, 0x05, 0x14, 0x00, 0x77]), [0x77]);
    assert_eq!(wst(&[0xa0, 0x01, 0x05, 0x34, 0x00, 0x77, 0x88]), [0x77, 0x88]);
    assert_eq!(
        wst(&[0x80, 0x99, 0xa0, 0x02, 0x00, 0x15, 0xa0, 0x02, 0x00, 0x14, 0x00]),
        [0x99]
    );
    assert_eq!(wst(&[0xa0, 0x01, 0x05, 0x94, 0x00, 0x77]), [0x01, 0x05, 0x77]);
}

#[test]
fn sta2_at_the_last_address_wraps() {
    let core = run(&[0xa0, 0xab, 0xcd, 0xa0, 0xff, 0xff, 0x35, 0x00]);
    assert_eq!(core.memory[0xffff], 0xab);
    assert_eq!(core.memory[0x0000], 0xcd);
    assert_eq!(core.working_stack.bytes(), []);
}

#[test]
fn deo_and_dei_reach_the_device() {
    let core = run(&[0x80, 0x42, 0x80, 0x18, 0x17, 0x80, 0x18, 0x16, 0x00]);
    assert_eq!(core.working_stack.bytes(), [0x42]);
    assert_eq!(core.device.read_byte(0x18), 0x42);

    let core = run(&[0xa0, 0x12, 0x34, 0x80, 0xff, 0x37, 0x80, 0xff, 0x36, 0x00]);
    assert_eq!(core.device.read_byte(0xff), 0x12);
    assert_eq!(core.device.read_byte(0x00), 0x34);
    assert_eq!(core.working_stack.bytes(), [0x12, 0x34]);

    let core = run(&[0x80, 0x42, 0x80, 0x18, 0x97, 0x00]);
    assert_eq!(core.working_stack.bytes(), [0x42, 0x18]);
    assert_eq!(core.device.read_byte(0x18), 0x42);
}

#[test]
fn add_sub_mul_div() {
    assert_eq!(wst(&[0x80, 0xff, 0x80, 0x02, 0x18, 0x00]), [0x01]);
    assert_eq!(wst(&[0xa0, 0xff, 0xff, 0xa0, 0x00, 0x02, 0x38, 0x00]), [0x00, 0x01]);
    assert_eq!(wst(&[0x80, 0x05, 0x80, 0x02, 0x19, 0x00]), [0x03]);
    assert_eq!(wst(&[0x80, 0x01, 0x80, 0x02, 0x19, 0x00]), [0xff]);
    assert_eq!(wst(&[0x80, 0x03, 0x80, 0x04, 0x1a, 0x00]), [0x0c]);
    assert_eq!(wst(&[0x80, 0x10, 0x80, 0x10, 0x1a, 0x00]), [0x00]);
    assert_eq!(wst(&[0x80, 0x07, 0x80, 0x02, 0x1b, 0x00]), [0x03]);
    assert_eq!(wst(&[0x80, 0x07, 0x80, 0x00, 0x1b, 0x00]), [0x00]);
    assert_eq!(wst(&[0xa0, 0x12, 0x34, 0xa0, 0x00, 0x00, 0x3b, 0x00]), [0x00, 0x00]);
    assert_eq!(wst(&[0xa0, 0x12, 0x34, 0xa0, 0x00, 0x10, 0x3b, 0x00]), [0x01, 0x23]);
}

#[test]
fn and_ora_eor() {
    assert_eq!(wst(&[0x80, 0xfc, 0x80, 0x3f, 0x1c, 0x00]), [0x3c]);
    assert_eq!(wst(&[0x80, 0xf0, 0x80, 0x0f, 0x1d, 0x00]), [0xff]);
    assert_eq!(wst(&[0x80, 0xff, 0x80, 0x0f, 0x1e, 0x00]), [0xf0]);
    assert_eq!(wst(&[0xa0, 0xff, 0x00, 0xa0, 0x0f, 0xf0, 0x3e, 0x00]), [0xf0, 0xf0]);
}

#[test]
fn sft_takes_the_left_shift_from_the_high_nibble() {
    assert_eq!(wst(&[0x80, 0x34, 0x80, 0x10, 0x1f, 0x00]), [0x68]);
    assert_eq!(wst(&[0x80, 0x34, 0x80, 0x01, 0x1f, 0x00]), [0x1a]);
    assert_eq!(wst(&[0x80, 0xff, 0x80, 0x0f, 0x1f, 0x00]), [0x00]);
    assert_eq!(wst(&[0x80, 0xff, 0x80, 0x80, 0x1f, 0x00]), [0x00]);
    assert_eq!(wst(&[0x80, 0xff, 0x80, 0x44, 0x1f, 0x00]), [0xf0]);
    assert_eq!(wst(&[0xa0, 0xff, 0xff, 0x80, 0xf0, 0x3f, 0x00]), [0x80, 0x00]);
    assert_eq!(wst(&[0xa0, 0xff, 0xff, 0x80, 0x0f, 0x3f, 0x00]), [0x00, 0x01]);
}

#[test]
fn keep_mode_leaves_the_operands_below_the_result() {
    assert_eq!(wst(&[0x80, 0x05, 0x80, 0x02, 0x98, 0x00]), [0x05, 0x02, 0x07]);
    assert_eq!(wst(&[0x80, 0x05, 0x80, 0x02, 0x99, 0x00]), [0x05, 0x02, 0x03]);
    assert_eq!(wst(&[0x80, 0x05, 0x80, 0x02, 0x8a, 0x00]), [0x05, 0x02, 0x01]);
    assert_eq!(wst(&[0x80, 0x10, 0x90, 0x00]), [0x10, 0x00]);
}

#[test]
fn keep_mode_moves_the_pointer_by_what_is_pushed_alone() {
    for opcode in 0x01..=0x1fu8 {
        if (0x0c..=0x0e).contains(&opcode) {
            // The jumps lead away from the BRK that this test relies on.
            continue;
        }
        let mut core = Core::new_with_rom(&[]);
        for byte in [0x00, 0x01, 0x00, 0x02, 0x00, 0x03] {
            core.working_stack.push_byte(byte);
        }
        let before = core.working_stack.clone();
        core.execute_one_instruction(0x80 | opcode);
        // What was on the stack is still there.
        assert_eq!(core.working_stack.first_bytes::<6>(), before.first_bytes::<6>());
        assert!(core.working_stack.pointer >= before.pointer, "opcode {opcode:#04x}");
    }
}

#[test]
fn pop_mode_moves_the_pointer_down_by_the_operands() {
    // opcode, bytes read with byte operands, bytes pushed with byte operands
    let table: [(u8, u8, u8); 14] = [
        (0x01, 1, 1),
        (0x02, 1, 0),
        (0x03, 2, 1),
        (0x04, 2, 2),
        (0x05, 3, 3),
        (0x06, 1, 2),
        (0x07, 2, 3),
        (0x08, 2, 1),
        (0x0f, 1, 0),
        (0x10, 1, 1),
        (0x11, 2, 0),
        (0x17, 2, 0),
        (0x18, 2, 1),
        (0x1f, 2, 1),
    ];
    for (opcode, read, pushed) in table {
        let mut core = Core::new();
        core.working_stack.pointer = 1;
        core.execute_one_instruction(opcode);
        let expected = 1u8.wrapping_sub(read).wrapping_add(pushed);
        assert_eq!(core.working_stack.pointer, expected, "opcode {opcode:#04x}");

        let mut core = Core::new();
        core.working_stack.pointer = 1;
        core.execute_one_instruction(opcode | 0x20);
        let wide = |count: u8| if opcode == 0x08 || opcode == 0x0f { count } else { 2 * count };
        let expected = match opcode {
            0x08 => 1u8.wrapping_sub(4).wrapping_add(1),
            0x0f => 1u8.wrapping_sub(2),
            0x10 => 1u8.wrapping_sub(1).wrapping_add(2),
            0x11 | 0x17 => 1u8.wrapping_sub(3),
            0x1f => 1u8.wrapping_sub(3).wrapping_add(2),
            _ => 1u8.wrapping_sub(wide(read)).wrapping_add(wide(pushed)),
        };
        assert_eq!(core.working_stack.pointer, expected, "opcode {:#04x}", opcode | 0x20);
    }
}

#[test]
fn the_return_flag_swaps_the_stacks() {
    let core = run(&[0xc0, 0x05, 0xc0, 0x02, 0x58, 0x00]);
    assert_eq!(core.return_stack.bytes(), [0x07]);
    assert_eq!(core.working_stack.bytes(), []);
}

#[test]
fn counter_wraps_at_the_end_of_memory() {
    let mut core = Core::new();
    core.write_byte(0xffff, 0x80);
    core.write_byte(0x0000, 0x42);
    core.program_counter = 0xffff;
    assert_eq!(core.execute_until_break(10), ExecutionResult::Break);
    assert_eq!(core.working_stack.bytes(), [0x42]);
    assert_eq!(core.program_counter, 0x0002);
}

#[test]
fn execute_until_break_stops_at_the_limit() {
    // JMI back to itself, for ever.
    let mut core = Core::new_with_rom(&[0x40, 0xff, 0xfd]);
    assert_eq!(core.execute_until_break(100), ExecutionResult::Continue);
    assert_eq!(core.program_counter, 0x0100);
    assert_eq!(core.execute_until_break(0), ExecutionResult::Continue);
}

#[test]
fn execute_until_break_counts_brk() {
    // Two instructions and BRK need a limit of three.
    let rom = [0x80, 0x01, 0x01, 0x00];
    let mut core = Core::new_with_rom(&rom);
    assert_eq!(core.execute_until_break(2), ExecutionResult::Continue);
    assert_eq!(core.working_stack.bytes(), [0x02]);
    assert_eq!(core.program_counter, 0x0103);
    assert_eq!(core.execute_until_break(1), ExecutionResult::Break);
    assert_eq!(core.program_counter, 0x0104);

    let mut core = Core::new_with_rom(&rom);
    assert_eq!(core.execute_until_break(3), ExecutionResult::Break);
}

#[test]
fn execute_until_exit_ends_with_the_empty_device() {
    let mut core = Core::new_with_rom(&[0x80, 0x01, 0x00]);
    assert!(core.execute_until_exit(100));
    assert_eq!(core.working_stack.bytes(), [0x01]);
    assert_eq!(core.program_counter, 0x0103);
}

#[test]
fn execute_until_exit_stops_at_the_limit() {
    let mut core = Core::new_with_rom(&[0x40, 0xff, 0xfd]);
    assert!(!core.execute_until_exit(100));
    assert!(!core.execute_until_exit(0));
}

#[test]
fn set_device_keeps_the_machine() {
    let mut core = Core::new_with_rom(&[0x80, 0x01, 0x00]);
    core.working_stack.push_byte(9);
    let mut device = EmptyDevice::new();
    device.write_byte(0x10, 0x55);
    let mut core = core.set_device(device);
    assert_eq!(core.device.read_byte(0x10), 0x55);
    assert_eq!(core.program_counter, 0x0100);
    assert_eq!(core.execute_until_break(10), ExecutionResult::Break);
    assert_eq!(core.working_stack.bytes(), [0x09, 0x01]);
}
