//! Instruction decoding and execution.

use crate::common::{item_at, item_written, Item, ItemSize, Memory, StackMode};
use crate::cpu::{lemma_addresses_wrap, signed, Core, CoreView, Machine};
use crate::device::{Device, DeviceEvent};
use crate::stack::{AccessMode, Stack, StackOperandAccessor};
use vstd::prelude::*;
use vstd::std_specs::ops::{
    AddSpec, BitAndSpec, BitOrSpec, BitXorSpec, DivSpec, MulSpec, SubSpec,
};

verus! {

/// Whether the program goes on after an instruction.
#[derive(Clone, Copy, Debug, PartialEq, Eq, Structural)]
pub enum ExecutionResult {
    Continue,
    Break,
}

/// An instruction byte taken apart.
#[derive(Clone, Copy, Debug, PartialEq, Eq, Structural)]
pub struct Instruction {
    /// Keep or pop the operands: bit 7.
    pub mode: AccessMode,
    /// The stack worked on: bit 6.
    pub stack: StackMode,
    /// Width of the operands: bit 5.
    pub size: ItemSize,
    /// The operation: bits 4 to 0.
    pub opcode: u8,
}

impl Instruction {
    /// The parts of the instruction byte `ins`.
    pub open spec fn of(ins: u8) -> Instruction {
        Instruction {
            mode: if ins / 0x80 == 1 {
                AccessMode::Keep
            } else {
                AccessMode::Pop
            },
            stack: if (ins / 0x40) % 2 == 1 {
                StackMode::Return
            } else {
                StackMode::Working
            },
            size: if (ins / 0x20) % 2 == 1 {
                ItemSize::Short
            } else {
                ItemSize::Byte
            },
            opcode: (ins % 0x20) as u8,
        }
    }

    /// Takes an instruction byte apart.
    pub fn decode(ins: u8) -> (instruction: Instruction)
        ensures
            instruction == Instruction::of(ins),
            instruction.opcode < 0x20,
    {
        let keep = ins & 0x80;
        let use_return_stack = ins & 0x40;
        let use_short = ins & 0x20;
        let opcode = ins & 0x1f;
        proof {
            assert((ins & 0x80 > 0) == (ins / 0x80 == 1)) by (bit_vector);
            assert((ins & 0x40 > 0) == ((ins / 0x40) % 2 == 1)) by (bit_vector);
            assert((ins & 0x20 > 0) == ((ins / 0x20) % 2 == 1)) by (bit_vector);
            assert(ins & 0x1f == ins % 0x20) by (bit_vector);
        }
        Instruction {
            mode: if keep > 0 { AccessMode::Keep } else { AccessMode::Pop },
            stack: if use_return_stack > 0 { StackMode::Return } else { StackMode::Working },
            size: if use_short > 0 { ItemSize::Short } else { ItemSize::Byte },
            opcode,
        }
    }
}

/// A truth value as the machine stores it: one for true, zero for false.
pub open spec fn flag(truth: bool) -> u8 {
    if truth {
        1
    } else {
        0
    }
}

impl CoreView {
    /// The topmost item of the stack `i` works on, of the width `i` works with.
    pub open spec fn first(self, i: Instruction) -> Item {
        self.stack(i.stack).item_under(0, i.size)
    }

    /// The item below the topmost item.
    pub open spec fn second(self, i: Instruction) -> Item {
        self.stack(i.stack).item_under(i.size.bytes(), i.size)
    }

    /// The item below the two topmost items.
    pub open spec fn third(self, i: Instruction) -> Item {
        self.stack(i.stack).item_under(2 * i.size.bytes(), i.size)
    }

    /// The machine after `i` has read `count` bytes of operands from its stack:
    /// in pop mode they are gone, in keep mode they stay.
    pub open spec fn read(self, i: Instruction, count: int) -> CoreView {
        self.with_stack(i.stack, self.stack(i.stack).after_reads(i.mode, count))
    }

    /// The machine after `item` was pushed on the stack that `which` selects.
    pub open spec fn push(self, which: StackMode, item: Item) -> CoreView {
        self.with_stack(which, self.stack(which).push_item(item))
    }

    /// The machine after an instruction of opcode zero, whose meaning depends
    /// on all three flags. `rel` is the short that follows the instruction.
    pub open spec fn immediate(self, i: Instruction) -> CoreView {
        let pc = self.program_counter as int;
        let rel = self.short_at(pc) as int;
        match (i.stack, i.size, i.mode) {
            // BRK
            (StackMode::Working, ItemSize::Byte, AccessMode::Pop) => self,
            // JCI
            (StackMode::Working, ItemSize::Short, AccessMode::Pop) => {
                if self.working_stack.byte_under(0) != 0 {
                    self.read(i, 1).advance(2).advance(rel)
                } else {
                    self.read(i, 1).advance(2)
                }
            },
            // JMI
            (StackMode::Return, ItemSize::Byte, AccessMode::Pop) => self.advance(2).advance(rel),
            // JSI
            (StackMode::Return, ItemSize::Short, AccessMode::Pop) => self.push(
                StackMode::Return,
                Item::Short(self.advance(2).program_counter),
            ).advance(2).advance(rel),
            // LIT
            (_, ItemSize::Byte, AccessMode::Keep) => self.push(
                i.stack,
                Item::Byte(self.byte_at(pc)),
            ).advance(1),
            // LIT2
            (_, ItemSize::Short, AccessMode::Keep) => self.push(
                i.stack,
                Item::Short(self.short_at(pc)),
            ).advance(2),
        }
    }

    /// The machine after INC, POP, NIP, SWP, ROT, DUP or OVR (opcodes 0x01 to 0x07).
    pub open spec fn stack_op(self, i: Instruction) -> CoreView {
        let w = i.size.bytes();
        let a = self.first(i);
        let b = self.second(i);
        let c = self.third(i);
        match i.opcode {
            // INC
            0x01 => self.read(i, w).push(i.stack, a.incremented()),
            // POP
            0x02 => self.read(i, w),
            // NIP
            0x03 => self.read(i, 2 * w).push(i.stack, a),
            // SWP
            0x04 => self.read(i, 2 * w).push(i.stack, a).push(i.stack, b),
            // ROT
            0x05 => self.read(i, 3 * w).push(i.stack, b).push(i.stack, a).push(i.stack, c),
            // DUP
            0x06 => self.read(i, w).push(i.stack, a).push(i.stack, a),
            // OVR
            _ => self.read(i, 2 * w).push(i.stack, b).push(i.stack, a).push(i.stack, b),
        }
    }

    /// The machine after EQU, NEQ, GTH or LTH (opcodes 0x08 to 0x0b): the two
    /// topmost items give way to one byte that says how the lower one stands
    /// to the upper one as unsigned numbers.
    pub open spec fn comparison(self, i: Instruction) -> CoreView {
        let upper = self.first(i);
        let lower = self.second(i);
        let truth = match i.opcode {
            // EQU
            0x08 => lower == upper,
            // NEQ
            0x09 => lower != upper,
            // GTH
            0x0a => lower.value() > upper.value(),
            // LTH
            _ => lower.value() < upper.value(),
        };
        self.read(i, 2 * i.size.bytes()).push(i.stack, Item::Byte(flag(truth)))
    }

    /// The machine after JMP, JCN, JSR or STH (opcodes 0x0c to 0x0f).
    pub open spec fn flow(self, i: Instruction) -> CoreView {
        let w = i.size.bytes();
        let a = self.first(i);
        match i.opcode {
            // JMP
            0x0c => self.read(i, w).jump(a),
            // JCN
            0x0d => if self.stack(i.stack).byte_under(w) != 0 {
                self.read(i, w + 1).jump(a)
            } else {
                self.read(i, w + 1)
            },
            // JSR
            0x0e => self.read(i, w).push(StackMode::Return, Item::Short(self.program_counter)).jump(
                a,
            ),
            // STH
            _ => self.read(i, w).push(i.stack.other(), a),
        }
    }

    /// The machine after LDZ, STZ, LDR, STR, LDA or STA (opcodes 0x10 to 0x15).
    /// The address lies on top of the stack, a value to store below it.
    pub open spec fn memory_access(self, i: Instruction) -> CoreView {
        let w = i.size.bytes();
        let pc = self.program_counter as int;
        let target = self.stack(i.stack);
        let page = target.byte_under(0) as int;
        let near = pc + signed(target.byte_under(0));
        let far = target.short_under(0) as int;
        match i.opcode {
            // LDZ
            0x10 => self.read(i, 1).push(i.stack, self.item_at(page, i.size)),
            // STZ
            0x11 => self.read(i, 1 + w).store_item(page, target.item_under(1, i.size)),
            // LDR
            0x12 => self.read(i, 1).push(i.stack, self.item_at(near, i.size)),
            // STR
            0x13 => self.read(i, 1 + w).store_item(near, target.item_under(1, i.size)),
            // LDA
            0x14 => self.read(i, 2).push(i.stack, self.item_at(far, i.size)),
            // STA
            _ => self.read(i, 2 + w).store_item(far, target.item_under(2, i.size)),
        }
    }

    /// The machine after DEI or DEO (opcodes 0x16 and 0x17). The port lies on
    /// top of the stack. DEI pushes `input`, what the device yields at that
    /// port; DEO takes the item below the port off the stack for the device.
    pub open spec fn device_access(self, i: Instruction, input: Item) -> CoreView {
        match i.opcode {
            // DEI
            0x16 => self.read(i, 1).push(i.stack, input),
            // DEO
            _ => self.read(i, 1 + i.size.bytes()),
        }
    }

    /// The machine after ADD, SUB, MUL, DIV, AND, ORA or EOR (opcodes 0x18 to
    /// 0x1e): the two topmost items give way to the lower one combined with
    /// the upper one.
    pub open spec fn arithmetic(self, i: Instruction) -> CoreView {
        let upper = self.first(i);
        let lower = self.second(i);
        let result = match i.opcode {
            // ADD
            0x18 => lower.add_spec(upper),
            // SUB
            0x19 => lower.sub_spec(upper),
            // MUL
            0x1a => lower.mul_spec(upper),
            // DIV
            0x1b => lower.div_spec(upper),
            // AND
            0x1c => lower.bitand_spec(upper),
            // ORA
            0x1d => lower.bitor_spec(upper),
            // EOR
            _ => lower.bitxor_spec(upper),
        };
        self.read(i, 2 * i.size.bytes()).push(i.stack, result)
    }

    /// The machine after SFT (opcode 0x1f): the byte on top holds the left
    /// shift in its high four bits and the right shift in its low four bits;
    /// the item below it is shifted right, then left.
    pub open spec fn shift(self, i: Instruction) -> CoreView {
        let target = self.stack(i.stack);
        let amounts = target.byte_under(0);
        self.read(i, 1 + i.size.bytes()).push(
            i.stack,
            target.item_under(1, i.size).shifted(amounts / 0x10, amounts % 0x10),
        )
    }

    /// The machine after the instruction `i`, the program counter standing
    /// behind the instruction byte. `input` is what the device yields for the
    /// port and width that `i` reads; it matters to DEI alone. What DEO does
    /// to the device is not part of this value.
    pub open spec fn execute(self, i: Instruction, input: Item) -> CoreView {
        if i.opcode == 0x00 {
            self.immediate(i)
        } else if i.opcode <= 0x07 {
            self.stack_op(i)
        } else if i.opcode <= 0x0b {
            self.comparison(i)
        } else if i.opcode <= 0x0f {
            self.flow(i)
        } else if i.opcode <= 0x15 {
            self.memory_access(i)
        } else if i.opcode <= 0x17 {
            self.device_access(i, input)
        } else if i.opcode <= 0x1e {
            self.arithmetic(i)
        } else {
            self.shift(i)
        }
    }
}

/// The port that a device instruction names: the topmost byte of its stack.
pub open spec fn device_port(core: CoreView, i: Instruction) -> u8 {
    core.stack(i.stack).byte_under(0)
}

/// Whether executing the instruction byte `ins`, the program counter standing
/// behind it, may take the machine and its device from `before` to `after`.
///
/// The machine itself moves as `CoreView::execute` says, DEI being handed what
/// the device yields at the named port. The device stays as it is but for
/// DEO, which writes the item below the port to it.
pub open spec fn instruction_effect<D: Device>(before: Machine<D>, ins: u8, after: Machine<D>) -> bool {
    let i = Instruction::of(ins);
    let port = device_port(before.core, i);
    &&& after.core == before.core.execute(i, item_at(&before.device, port, i.size))
    &&& if i.opcode == 0x17 {
        item_written(
            &before.device,
            port,
            before.core.stack(i.stack).item_under(1, i.size),
            &after.device,
        )
    } else {
        after.device == before.device
    }
}

impl<D: Device> Machine<D> {
    /// The instruction byte that the program counter points at.
    pub open spec fn fetched(self) -> u8 {
        self.core.byte_at(self.core.program_counter as int)
    }

    /// Whether the next instruction is BRK.
    pub open spec fn halts(self) -> bool {
        self.fetched() == 0x00
    }

    /// The state with the program counter moved behind the instruction it points at.
    pub open spec fn past_fetch(self) -> Machine<D> {
        Machine { core: self.core.at(self.core.program_counter + 1), device: self.device }
    }
}

/// Whether fetching and executing one instruction may lead from `before` to `after`.
#[verifier::opaque]
pub open spec fn step<D: Device>(before: Machine<D>, after: Machine<D>) -> bool {
    instruction_effect(before.past_fetch(), before.fetched(), after)
}

/// Whether `trace` lists the states of a program running up to BRK: each
/// state but the last is followed by the state one instruction later, and
/// that instruction is not BRK.
pub open spec fn is_run<D: Device>(trace: Seq<Machine<D>>) -> bool {
    &&& trace.len() > 0
    &&& forall|k: int|
        0 <= k < trace.len() - 1 ==> !(#[trigger] trace[k]).halts() && step(trace[k], trace[k + 1])
}

/// Whether one instruction may lead from `before` to `after` while the machine
/// runs with its device: any instruction but BRK as `step` says; BRK where the
/// device then names a vector, at which the machine goes on.
pub open spec fn progress<D: Device>(before: Machine<D>, after: Machine<D>) -> bool {
    if before.halts() {
        exists|vector: u16| #[trigger]
            before.device.event_awaited(DeviceEvent::Vector(vector), &after.device) && after.core
                == before.core.at(vector as int)
    } else {
        step(before, after)
    }
}

/// Whether `trace` lists the states of a machine running with its device:
/// each state but the last is followed by the state one instruction later,
/// the device's vector taken where that instruction is BRK.
pub open spec fn is_session<D: Device>(trace: Seq<Machine<D>>) -> bool {
    &&& trace.len() > 0
    &&& forall|k: int| 0 <= k < trace.len() - 1 ==> progress(#[trigger] trace[k], trace[k + 1])
}

/// A session that ends where a run starts goes on as that run.
pub proof fn lemma_session_goes_on<D: Device>(session: Seq<Machine<D>>, run: Seq<Machine<D>>)
    requires
        is_session(session),
        is_run(run),
        session.last() == run.first(),
    ensures
        is_session(session.drop_last() + run),
        (session.drop_last() + run).first() == session.first(),
        (session.drop_last() + run).last() == run.last(),
        (session.drop_last() + run).len() == session.len() + run.len() - 1,
{
    let joined = session.drop_last() + run;
    let offset = session.len() - 1;
    assert forall|k: int| 0 <= k < joined.len() - 1 implies progress(
        #[trigger] joined[k],
        joined[k + 1],
    ) by {
        if k < offset {
            assert(joined[k] == session[k]);
            assert(joined[k + 1] == session[k + 1]);
        } else {
            assert(joined[k] == run[k - offset]);
            assert(joined[k + 1] == run[k - offset + 1]);
        }
    }
}

impl<D: Device> Core<D> {
    /// Executes one instruction byte that was fetched already, the program
    /// counter standing behind it. Says `Break` for BRK and for nothing else.
    pub fn execute_one_instruction(&mut self, ins: u8) -> (result: ExecutionResult)
        ensures
            instruction_effect(old(self).state(), ins, final(self).state()),
            result == if ins == 0x00 {
                ExecutionResult::Break
            } else {
                ExecutionResult::Continue
            },
    {
        //
        //   .- Don't pop any operands
        //   |.- Operate on the return stack
        //   ||.- Operate on shorts instead of bytes
        //   |||.---. Opcode
        // 0b11111111
        //
        let i = Instruction::decode(ins);

        match i.opcode {
            0x00 => {
                return self.execute_immediate(i);
            },
            0x01 => self.inc(i),
            0x02 => self.pop(i),
            0x03 => self.nip(i),
            0x04 => self.swp(i),
            0x05 => self.rot(i),
            0x06 => self.dup(i),
            0x07 => self.ovr(i),
            0x08 | 0x09 | 0x0a | 0x0b => self.execute_comparison(i),
            0x0c | 0x0d | 0x0e | 0x0f => self.execute_flow(i),
            0x10 => self.ldz(i),
            0x11 => self.stz(i),
            0x12 => self.ldr(i),
            0x13 => self.str(i),
            0x14 => self.lda(i),
            0x15 => self.sta(i),
            0x16 | 0x17 => self.execute_device_access(i),
            0x18 | 0x19 | 0x1a | 0x1b | 0x1c | 0x1d | 0x1e => self.execute_arithmetic(i),
            _ => self.execute_shift(i),
        }

        ExecutionResult::Continue
    }

    /// Opcode 0x00: BRK, JCI, JMI, JSI, LIT and LIT2, told apart by the flags.
    fn execute_immediate(&mut self, i: Instruction) -> (result: ExecutionResult)
        requires
            i.opcode == 0x00,
        ensures
            final(self)@ == old(self)@.immediate(i),
            final(self).device == old(self).device,
            result == if i.stack == StackMode::Working && i.size == ItemSize::Byte && i.mode
                == AccessMode::Pop {
                ExecutionResult::Break
            } else {
                ExecutionResult::Continue
            },
    {
        // This instruction is drastically different depending on the modes.
        match (i.stack, i.size, i.mode) {
            // BRK
            (StackMode::Working, ItemSize::Byte, AccessMode::Pop) => {
                return ExecutionResult::Break;
            },
            // JCI
            (StackMode::Working, ItemSize::Short, AccessMode::Pop) => {
                let (cond,) = self.operands(i).byte().done();

                let rel = self.read_short(self.program_counter);
                self.advance(2);

                if cond != 0 {
                    self.advance(rel);
                }
            },
            // JMI
            (StackMode::Return, ItemSize::Byte, AccessMode::Pop) => {
                let rel = self.read_short(self.program_counter);
                self.advance(2);
                self.advance(rel);
            },
            // JSI
            (StackMode::Return, ItemSize::Short, AccessMode::Pop) => {
                self.push(StackMode::Return, Item::Short(self.program_counter.wrapping_add(2)));

                let rel = self.read_short(self.program_counter);
                self.advance(2);
                self.advance(rel);
            },
            // LIT
            (_, ItemSize::Byte, AccessMode::Keep) => {
                let byte = self.memory[self.program_counter as usize];
                self.advance(1);

                self.push(i.stack, Item::Byte(byte));
            },
            // LIT2
            (_, ItemSize::Short, AccessMode::Keep) => {
                let short = self.read_short(self.program_counter);
                self.advance(2);

                self.push(i.stack, Item::Short(short));
            },
        }
        ExecutionResult::Continue
    }

    /// INC: the topmost item gives way to the item one larger.
    fn inc(&mut self, i: Instruction)
        requires
            i.opcode == 0x01,
        ensures
            final(self)@ == old(self)@.stack_op(i),
            final(self).device == old(self).device,
    {
        let op = self.operands(i);
        let (item,) = op.item().done();
        self.push(i.stack, item.increment());
    }

    /// POP: the topmost item is read and nothing pushed.
    fn pop(&mut self, i: Instruction)
        requires
            i.opcode == 0x02,
        ensures
            final(self)@ == old(self)@.stack_op(i),
            final(self).device == old(self).device,
    {
        let op = self.operands(i);
        op.item().done();
    }

    /// NIP: of the two topmost items the upper one stays.
    fn nip(&mut self, i: Instruction)
        requires
            i.opcode == 0x03,
        ensures
            final(self)@ == old(self)@.stack_op(i),
            final(self).device == old(self).device,
    {
        let op = self.operands(i);
        let (item, _) = op.item().then_item().done();
        self.push(i.stack, item);
    }

    /// SWP: the two topmost items change places.
    fn swp(&mut self, i: Instruction)
        requires
            i.opcode == 0x04,
        ensures
            final(self)@ == old(self)@.stack_op(i),
            final(self).device == old(self).device,
    {
        let op = self.operands(i);
        let (first, second) = op.item().then_item().done();

        self.push(i.stack, first);
        self.push(i.stack, second);
    }

    /// ROT: of the three topmost items the lowest comes to the top.
    fn rot(&mut self, i: Instruction)
        requires
            i.opcode == 0x05,
        ensures
            final(self)@ == old(self)@.stack_op(i),
            final(self).device == old(self).device,
    {
        let op = self.operands(i);
        let (c, b, a) = op.item().then_item().then_item().done();

        self.push(i.stack, b);
        self.push(i.stack, c);
        self.push(i.stack, a);
    }

    /// DUP: the topmost item is pushed a second time.
    fn dup(&mut self, i: Instruction)
        requires
            i.opcode == 0x06,
        ensures
            final(self)@ == old(self)@.stack_op(i),
            final(self).device == old(self).device,
    {
        let op = self.operands(i);
        let (item,) = op.item().done();

        self.push(i.stack, item);
        self.push(i.stack, item);
    }

    /// OVR: a copy of the item below the topmost one is pushed on top of both.
    fn ovr(&mut self, i: Instruction)
        requires
            i.opcode == 0x07,
        ensures
            final(self)@ == old(self)@.stack_op(i),
            final(self).device == old(self).device,
    {
        let op = self.operands(i);
        let (b, a) = op.item().then_item().done();

        self.push(i.stack, a);
        self.push(i.stack, b);
        self.push(i.stack, a);
    }

    /// Opcodes 0x08 to 0x0b: EQU, NEQ, GTH and LTH.
    fn execute_comparison(&mut self, i: Instruction)
        requires
            0x08 <= i.opcode <= 0x0b,
        ensures
            final(self)@ == old(self)@.comparison(i),
            final(self).device == old(self).device,
    {
        let (b, a) = self.operands(i).item().then_item().done();
        let truth = match i.opcode {
            // EQU
            0x08 => a == b,
            // NEQ
            0x09 => a != b,
            // GTH
            0x0a => a > b,
            // LTH
            _ => a < b,
        };
        self.push(i.stack, Item::Byte(if truth { 1 } else { 0 }));
    }

    /// Opcodes 0x0c to 0x0f: JMP, JCN, JSR and STH.
    fn execute_flow(&mut self, i: Instruction)
        requires
            0x0c <= i.opcode <= 0x0f,
        ensures
            final(self)@ == old(self)@.flow(i),
            final(self).device == old(self).device,
    {
        let op = self.operands(i);
        match i.opcode {
            // JMP
            0x0c => {
                let (dest,) = op.item().done();
                self.jump_to_dynamic_address(dest);
            },
            // JCN
            0x0d => {
                let (dest, cond) = op.item().then_byte().done();
                if cond != 0 {
                    self.jump_to_dynamic_address(dest);
                }
            },
            // JSR
            0x0e => {
                let (dest,) = op.item().done();
                self.push(StackMode::Return, Item::Short(self.program_counter));
                self.jump_to_dynamic_address(dest);
            },
            // STH
            _ => {
                let (item,) = op.item().done();
                self.push(other(i.stack), item);
            },
        }
    }

    /// LDZ: pushes the item at the zero-page address on top of the stack.
    fn ldz(&mut self, i: Instruction)
        requires
            i.opcode == 0x10,
        ensures
            final(self)@ == old(self)@.memory_access(i),
            final(self).device == old(self).device,
    {
        let op = self.operands(i);
        let (addr,) = op.byte().done();
        let item = self.read_memory(addr as u16, i.size);
        self.push(i.stack, item);
    }

    /// STZ: stores at the zero-page address on top of the stack the item below it.
    fn stz(&mut self, i: Instruction)
        requires
            i.opcode == 0x11,
        ensures
            final(self)@ == old(self)@.memory_access(i),
            final(self).device == old(self).device,
    {
        let op = self.operands(i);
        let (addr, item) = op.byte().then_item().done();
        self.write_memory(addr as u16, item);
    }

    /// LDR: pushes the item that lies the signed offset on top of the stack away
    /// from the program counter.
    fn ldr(&mut self, i: Instruction)
        requires
            i.opcode == 0x12,
        ensures
            final(self)@ == old(self)@.memory_access(i),
            final(self).device == old(self).device,
    {
        let op = self.operands(i);
        let (addr,) = op.byte().done();
        let abs_addr = self.relative_address(addr);
        let item = self.read_memory(abs_addr, i.size);
        proof {
            lemma_addresses_wrap(self@, self.program_counter + signed(addr), i.size, item);
        }
        self.push(i.stack, item);
    }

    /// STR: stores the item below the signed offset on top of the stack that far
    /// away from the program counter.
    fn str(&mut self, i: Instruction)
        requires
            i.opcode == 0x13,
        ensures
            final(self)@ == old(self)@.memory_access(i),
            final(self).device == old(self).device,
    {
        let op = self.operands(i);
        let (addr, item) = op.byte().then_item().done();
        let abs_addr = self.relative_address(addr);
        proof {
            lemma_addresses_wrap(self@, self.program_counter + signed(addr), i.size, item);
        }
        self.write_memory(abs_addr, item);
    }

    /// LDA: pushes the item at the address on top of the stack.
    fn lda(&mut self, i: Instruction)
        requires
            i.opcode == 0x14,
        ensures
            final(self)@ == old(self)@.memory_access(i),
            final(self).device == old(self).device,
    {
        let op = self.operands(i);
        let (addr,) = op.short().done();
        let item = self.read_memory(addr, i.size);
        self.push(i.stack, item);
    }

    /// STA: stores at the address on top of the stack the item below it.
    fn sta(&mut self, i: Instruction)
        requires
            i.opcode == 0x15,
        ensures
            final(self)@ == old(self)@.memory_access(i),
            final(self).device == old(self).device,
    {
        let op = self.operands(i);
        let (addr, item) = op.short().then_item().done();
        self.write_memory(addr, item);
    }

    /// Opcodes 0x16 and 0x17: DEI and DEO.
    fn execute_device_access(&mut self, i: Instruction)
        requires
            0x16 <= i.opcode <= 0x17,
        ensures
            final(self)@ == old(self)@.device_access(
                i,
                item_at(&old(self).device, device_port(old(self)@, i), i.size),
            ),
            if i.opcode == 0x17 {
                item_written(
                    &old(self).device,
                    device_port(old(self)@, i),
                    old(self)@.stack(i.stack).item_under(1, i.size),
                    &final(self).device,
                )
            } else {
                final(self).device == old(self).device
            },
    {
        let op = self.operands(i);
        match i.opcode {
            // DEI
            0x16 => {
                let (addr,) = op.byte().done();
                let item = self.device.read_memory(addr, i.size);
                self.push(i.stack, item);
            },
            // DEO
            _ => {
                let (addr, value) = op.byte().then_item().done();
                self.device.write_memory(addr, value);
            },
        }
    }

    /// Opcodes 0x18 to 0x1e: ADD, SUB, MUL, DIV, AND, ORA and EOR.
    fn execute_arithmetic(&mut self, i: Instruction)
        requires
            0x18 <= i.opcode <= 0x1e,
        ensures
            final(self)@ == old(self)@.arithmetic(i),
            final(self).device == old(self).device,
    {
        let (b, a) = self.operands(i).item().then_item().done();
        let result = match i.opcode {
            // ADD
            0x18 => a + b,
            // SUB
            0x19 => a - b,
            // MUL
            0x1a => a * b,
            // DIV
            0x1b => a / b,
            // AND
            0x1c => a & b,
            // ORA
            0x1d => a | b,
            // EOR
            _ => a ^ b,
        };
        self.push(i.stack, result);
    }

    /// Opcode 0x1f: SFT.
    fn execute_shift(&mut self, i: Instruction)
        requires
            i.opcode == 0x1f,
        ensures
            final(self)@ == old(self)@.shift(i),
            final(self).device == old(self).device,
    {
        let (shift, a) = self.operands(i).byte().then_item().done();

        let shift_left = (0xf0 & shift) >> 4;
        let shift_right = 0x0f & shift;
        proof {
            assert((0xf0 & shift) >> 4 == shift / 0x10) by (bit_vector);
            assert(0x0f & shift == shift % 0x10) by (bit_vector);
        }

        let item = a.shift(shift_left, shift_right);
        self.push(i.stack, item);
    }

    /// Runs the program until BRK, for at most `limit` instructions.
    ///
    /// Says `Break` when BRK was executed, the program counter then standing
    /// behind it, and `Continue` when `limit` instructions were executed and
    /// none of them was BRK. `trace` lists the states before each instruction.
    pub fn execute_until_break(&mut self, limit: u64) -> (result: ExecutionResult)
        ensures
            exists|trace: Seq<Machine<D>>|
                {
                    &&& #[trigger] is_run(trace)
                    &&& trace.first() == old(self).state()
                    &&& match result {
                        ExecutionResult::Break => {
                            &&& trace.len() <= limit
                            &&& trace.last().halts()
                            &&& final(self).state() == trace.last().past_fetch()
                        },
                        ExecutionResult::Continue => {
                            &&& trace.len() == limit + 1
                            &&& final(self).state() == trace.last()
                        },
                    }
                },
    {
        let (result, _) = self.run(limit);
        result
    }

    /// Fetches the instruction at the program counter, moves the program
    /// counter behind it and executes it.
    fn fetch_and_execute(&mut self) -> (result: ExecutionResult)
        ensures
            old(self).state().halts() ==> result == ExecutionResult::Break && final(self).state()
                == old(self).state().past_fetch(),
            !old(self).state().halts() ==> result == ExecutionResult::Continue && step(
                old(self).state(),
                final(self).state(),
            ),
    {
        reveal(step);
        let ins = self.memory[self.program_counter as usize];
        self.program_counter = self.program_counter.wrapping_add(1);
        assert(self.state() == old(self).state().past_fetch());
        self.execute_one_instruction(ins)
    }

    /// Runs the program until BRK, for at most `limit` instructions, and says
    /// how many were executed, BRK counted.
    fn run(&mut self, limit: u64) -> (r: (ExecutionResult, u64))
        ensures
            r.1 <= limit,
            exists|trace: Seq<Machine<D>>|
                {
                    &&& #[trigger] is_run(trace)
                    &&& trace.first() == old(self).state()
                    &&& match r.0 {
                        ExecutionResult::Break => {
                            &&& r.1 == trace.len()
                            &&& trace.last().halts()
                            &&& final(self).state() == trace.last().past_fetch()
                        },
                        ExecutionResult::Continue => {
                            &&& r.1 == limit
                            &&& trace.len() == limit + 1
                            &&& final(self).state() == trace.last()
                        },
                    }
                },
    {
        let ghost mut trace = seq![self.state()];
        let mut executed: u64 = 0;
        while executed < limit
            invariant
                executed <= limit,
                is_run(trace),
                trace.len() == executed + 1,
                trace.first() == old(self).state(),
                trace.last() == self.state(),
            decreases limit - executed,
        {
            match self.fetch_and_execute() {
                ExecutionResult::Continue => {},
                ExecutionResult::Break => {
                    return (ExecutionResult::Break, executed + 1);
                },
            }
            executed += 1;
            proof {
                trace = trace.push(self.state());
            }
        }
        (ExecutionResult::Continue, executed)
    }

    /// Runs the program with its device until the device asks to exit, for at
    /// most `limit` instructions: whenever the program reaches BRK the device
    /// is asked for its next event, and on a vector the program goes on there.
    ///
    /// Says `true` when the device asked to exit, the program counter then
    /// standing behind the last BRK, and `false` when `limit` instructions
    /// were executed before it did. A later call goes on where this one
    /// stopped. `trace` lists the states before each instruction.
    pub fn execute_until_exit(&mut self, limit: u64) -> (exited: bool)
        ensures
            exists|trace: Seq<Machine<D>>|
                {
                    &&& #[trigger] is_session(trace)
                    &&& trace.first() == old(self).state()
                    &&& if exited {
                        &&& trace.len() <= limit
                        &&& trace.last().halts()
                        &&& trace.last().device.event_awaited(
                            DeviceEvent::Exit,
                            &final(self).device,
                        )
                        &&& final(self)@ == trace.last().past_fetch().core
                    } else {
                        &&& trace.len() == limit + 1
                        &&& final(self).state() == trace.last()
                    }
                },
    {
        let ghost mut trace = seq![self.state()];
        let mut executed: u64 = 0;
        while executed < limit
            invariant
                executed <= limit,
                is_session(trace),
                trace.len() == executed + 1,
                trace.first() == old(self).state(),
                trace.last() == self.state(),
            decreases limit - executed,
        {
            let (result, used) = self.run(limit - executed);
            proof {
                let run = choose|run: Seq<Machine<D>>|
                    {
                        &&& #[trigger] is_run(run)
                        &&& run.first() == trace.last()
                        &&& match result {
                            ExecutionResult::Break => {
                                &&& used == run.len()
                                &&& run.last().halts()
                                &&& self.state() == run.last().past_fetch()
                            },
                            ExecutionResult::Continue => {
                                &&& used == limit - executed
                                &&& run.len() == limit - executed + 1
                                &&& self.state() == run.last()
                            },
                        }
                    };
                lemma_session_goes_on(trace, run);
                trace = trace.drop_last() + run;
            }
            match result {
                ExecutionResult::Continue => {
                    return false;
                },
                ExecutionResult::Break => {},
            }
            executed += used;
            let ghost halted = self.state();
            match self.device.wait_for_event() {
                DeviceEvent::Vector(vector) => {
                    self.program_counter = vector;
                    proof {
                        let last = trace.last();
                        assert(last.device.event_awaited(
                            DeviceEvent::Vector(vector),
                            &self.state().device,
                        ));
                        assert(progress(last, self.state()));
                        let longer = trace.push(self.state());
                        assert forall|k: int| 0 <= k < longer.len() - 1 implies progress(
                            #[trigger] longer[k],
                            longer[k + 1],
                        ) by {
                            if k < trace.len() - 1 {
                                assert(longer[k] == trace[k]);
                                assert(longer[k + 1] == trace[k + 1]);
                            }
                        }
                        trace = longer;
                    }
                },
                DeviceEvent::Exit => {
                    return true;
                },
            }
        }
        false
    }

    /// Moves the program counter on by `count`, wrapping at the end of memory.
    fn advance(&mut self, count: u16)
        ensures
            final(self)@ == old(self)@.advance(count as int),
            final(self).device == old(self).device,
    {
        self.program_counter = self.program_counter.wrapping_add(count);
    }

    /// The address that lies the signed `offset` away from the program counter.
    fn relative_address(&self, offset: u8) -> (address: u16)
        ensures
            address == (self.program_counter + signed(offset)) % 0x1_0000,
    {
        let extended: u16 = if offset < 0x80 {
            offset as u16
        } else {
            0xff00 + offset as u16
        };
        self.program_counter.wrapping_add(extended)
    }

    fn jump_to_dynamic_address(&mut self, dest: Item)
        ensures
            final(self)@ == old(self)@.jump(dest),
            final(self).device == old(self).device,
    {
        match dest {
            Item::Byte(rel) => {
                // Relative
                self.program_counter = self.relative_address(rel);
            },
            Item::Short(abs) => {
                // Absolute
                self.program_counter = abs;
            },
        }
    }

    fn target_stack(&mut self, stack: StackMode) -> (target: &mut Stack)
        ensures
            *target == match stack {
                StackMode::Working => old(self).working_stack,
                StackMode::Return => old(self).return_stack,
            },
            *final(self) == match stack {
                StackMode::Working => (Core { working_stack: *final(target), ..*old(self) }),
                StackMode::Return => (Core { return_stack: *final(target), ..*old(self) }),
            },
    {
        match stack {
            StackMode::Working => &mut self.working_stack,
            StackMode::Return => &mut self.return_stack,
        }
    }

    /// Starts reading the operands of `i` from the stack it works on.
    fn operands(&mut self, i: Instruction) -> (op: StackOperandAccessor<'_, ()>)
        ensures
            op.current() == old(self)@.stack(i.stack),
            op.consumed() == 0,
            op.mode == i.mode,
            op.item_size == i.size,
            final(self)@ == old(self)@.with_stack(i.stack, final(op.stack)@),
            final(self).device == old(self).device,
    {
        self.target_stack(i.stack).take_operands(i.mode, i.size)
    }

    /// Pushes `item` on the stack that `which` selects.
    fn push(&mut self, which: StackMode, item: Item)
        ensures
            final(self)@ == old(self)@.push(which, item),
            final(self).device == old(self).device,
    {
        self.target_stack(which).push_item(item);
    }
}

/// The stack that an instruction on `stack` does not work on.
fn other(stack: StackMode) -> (other: StackMode)
    ensures
        other == stack.other(),
{
    match stack {
        StackMode::Working => StackMode::Return,
        StackMode::Return => StackMode::Working,
    }
}

} // verus!
