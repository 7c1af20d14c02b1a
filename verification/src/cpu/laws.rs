//! What holds of every instruction, whatever the machine holds: the registers
//! stay in their ranges, the pointer of the stack worked on moves by what was
//! read and pushed, and in keep mode the operands stay where they were.

use crate::common::{Item, ItemSize, StackMode};
use crate::cpu::exec::{flag, Instruction};
use crate::cpu::{signed, CoreView};
use crate::stack::{AccessMode, StackView};
use vstd::arithmetic::div_mod::{lemma_add_mod_noop, lemma_mod_twice};
use vstd::prelude::*;
use vstd::std_specs::ops::{
    AddSpec, BitAndSpec, BitOrSpec, BitXorSpec, DivSpec, MulSpec, SubSpec,
};

verus! {

impl Instruction {
    /// Number of bytes of operands that the instruction reads from its stack.
    pub open spec fn operand_bytes(self) -> int {
        let w = self.size.bytes();
        match self.opcode {
            // BRK, JMI, JSI, LIT read nothing; JCI reads its condition
            0x00 => if self.stack == StackMode::Working && self.size == ItemSize::Short && self.mode
                == AccessMode::Pop {
                1
            } else {
                0
            },
            // INC, POP, DUP, JMP, JSR, STH
            0x01 | 0x02 | 0x06 | 0x0c | 0x0e | 0x0f => w,
            // ROT
            0x05 => 3 * w,
            // JCN, STZ, STR, DEO, SFT: a byte and an item
            0x0d | 0x11 | 0x13 | 0x17 | 0x1f => 1 + w,
            // LDZ, LDR, DEI: a byte
            0x10 | 0x12 | 0x16 => 1,
            // LDA: a short
            0x14 => 2,
            // STA: a short and an item
            0x15 => 2 + w,
            // NIP, SWP, OVR, the comparisons and the arithmetic: two items
            _ => 2 * w,
        }
    }

    /// Number of bytes that the instruction pushes on the stack it reads from.
    pub open spec fn result_bytes(self) -> int {
        let w = self.size.bytes();
        match self.opcode {
            // LIT and LIT2 push what follows them, JSI the return address
            0x00 => if self.mode == AccessMode::Keep {
                w
            } else if self.stack == StackMode::Return && self.size == ItemSize::Short {
                2
            } else {
                0
            },
            // POP, JMP, JCN, STH, STZ, STR, STA, DEO
            0x02 | 0x0c | 0x0d | 0x0f | 0x11 | 0x13 | 0x15 | 0x17 => 0,
            // SWP
            0x04 => 2 * w,
            // ROT, OVR
            0x05 | 0x07 => 3 * w,
            // DUP
            0x06 => 2 * w,
            // the comparisons push a flag
            0x08 | 0x09 | 0x0a | 0x0b => 1,
            // JSR pushes the return address on the return stack
            0x0e => if self.stack == StackMode::Return {
                2
            } else {
                0
            },
            // INC, NIP, the loads, DEI, the arithmetic, SFT: one item
            _ => w,
        }
    }
}

/// The stack pointer that lies `by` above `pointer`, modulo 256.
pub open spec fn moved(pointer: u8, by: int) -> u8 {
    ((pointer + by) % 256) as u8
}

/// Moving a stack pointer twice is moving it once by the sum.
proof fn lemma_moved_twice(pointer: u8, a: int, b: int)
    ensures
        moved(moved(pointer, a), b) == moved(pointer, a + b),
{
    let sum = pointer + a;
    lemma_add_mod_noop(sum, b, 256);
    lemma_add_mod_noop(sum % 256, b, 256);
    lemma_mod_twice(sum, 256);
}

/// Pushing an item moves the pointer up by the item's width and leaves every
/// byte that is not overwritten as far below the new top as it was below the
/// old one, plus the item's width.
proof fn lemma_push(stack: StackView, item: Item)
    ensures
        stack.push_item(item).pointer == moved(stack.pointer, item.size().bytes()),
        stack.well_formed() ==> stack.push_item(item).well_formed(),
        stack.well_formed() ==> forall|depth: int|
            0 <= depth && depth + item.size().bytes() < 256 ==> stack.push_item(item).byte_under(
                depth + item.size().bytes(),
            ) == #[trigger] stack.byte_under(depth),
{
    reveal(StackView::push_byte);
    reveal(StackView::byte_under);
    match item {
        Item::Byte(_) => {},
        Item::Short(short) => {
            lemma_moved_twice(stack.pointer, 1, 1);
        },
    }
}

/// Reading operands moves the pointer down by their size in pop mode and
/// leaves the stack as it is in keep mode.
proof fn lemma_reads(stack: StackView, mode: AccessMode, count: int)
    ensures
        stack.after_reads(mode, count).pointer == match mode {
            AccessMode::Pop => moved(stack.pointer, -count),
            AccessMode::Keep => stack.pointer,
        },
        mode == AccessMode::Keep ==> stack.after_reads(mode, count) == stack,
        stack.well_formed() ==> stack.after_reads(mode, count).well_formed(),
{
    reveal(StackView::dropped);
}

impl CoreView {
    /// Whether `after` stands to this machine as a machine does after an
    /// instruction `i` that has read `count` bytes from its stack and pushed
    /// `pushed` bytes on it:
    /// - the pointer of that stack lies `pushed` above where the reads left
    ///   it, which in keep mode is where it was and in pop mode `count` below;
    /// - memory and stacks have kept their sizes;
    /// - in keep mode, what lay on the stack lies there still, below what
    ///   was pushed.
    pub open spec fn follows(self, i: Instruction, count: int, pushed: int, after: CoreView) -> bool {
        &&& after.stack(i.stack).pointer == moved(
            self.stack(i.stack).pointer,
            match i.mode {
                AccessMode::Keep => pushed,
                AccessMode::Pop => pushed - count,
            },
        )
        &&& self.well_formed() ==> after.well_formed()
        &&& self.well_formed() && i.mode == AccessMode::Keep ==> forall|depth: int|
            0 <= depth && depth + pushed < 256 ==> after.stack(i.stack).byte_under(depth + pushed)
                == #[trigger] self.stack(i.stack).byte_under(depth)
    }

    /// A machine follows itself where nothing was read or pushed.
    proof fn lemma_follows_start(self, i: Instruction)
        ensures
            self.follows(i, 0, 0, self),
    {
    }

    /// Reading operands gives a machine that follows.
    proof fn lemma_follows_read(self, i: Instruction, count: int)
        ensures
            self.follows(i, count, 0, self.read(i, count)),
    {
        lemma_reads(self.stack(i.stack), i.mode, count);
    }

    /// Pushing an item on the stack worked on gives a machine that follows
    /// with that many more bytes pushed.
    proof fn lemma_follows_push(
        self,
        i: Instruction,
        count: int,
        pushed: int,
        middle: CoreView,
        item: Item,
    )
        requires
            self.follows(i, count, pushed, middle),
            pushed >= 0,
        ensures
            self.follows(i, count, pushed + item.size().bytes(), middle.push(i.stack, item)),
    {
        let width = item.size().bytes();
        let after = middle.push(i.stack, item);
        lemma_push(middle.stack(i.stack), item);
        lemma_moved_twice(
            self.stack(i.stack).pointer,
            match i.mode {
                AccessMode::Keep => pushed,
                AccessMode::Pop => pushed - count,
            },
            width,
        );
        if self.well_formed() && i.mode == AccessMode::Keep {
            assert forall|depth: int| 0 <= depth && depth + pushed + width < 256 implies after.stack(
                i.stack,
            ).byte_under(depth + pushed + width) == #[trigger] self.stack(i.stack).byte_under(
                depth,
            ) by {
                assert(middle.stack(i.stack).byte_under(depth + pushed) == self.stack(
                    i.stack,
                ).byte_under(depth));
            }
        }
    }

    /// What leaves the stack worked on alone, and the sizes of memory and
    /// stacks as they are, gives a machine that follows as before.
    proof fn lemma_follows_on(
        self,
        i: Instruction,
        count: int,
        pushed: int,
        middle: CoreView,
        after: CoreView,
    )
        requires
            self.follows(i, count, pushed, middle),
            after.stack(i.stack) == middle.stack(i.stack),
            middle.well_formed() ==> after.well_formed(),
        ensures
            self.follows(i, count, pushed, after),
    {
    }

    /// Pushing on the other stack leaves the stack worked on alone.
    proof fn lemma_follows_push_aside(
        self,
        i: Instruction,
        count: int,
        pushed: int,
        middle: CoreView,
        item: Item,
    )
        requires
            self.follows(i, count, pushed, middle),
        ensures
            self.follows(i, count, pushed, middle.push(i.stack.other(), item)),
    {
        lemma_push(middle.stack(i.stack.other()), item);
    }

    proof fn lemma_immediate_follows(self, i: Instruction)
        requires
            i.opcode == 0x00,
        ensures
            self.follows(i, i.operand_bytes(), i.result_bytes(), self.immediate(i)),
    {
        let pc = self.program_counter as int;
        let after = self.immediate(i);
        match (i.stack, i.size, i.mode) {
            (StackMode::Working, ItemSize::Byte, AccessMode::Pop) => {
                self.lemma_follows_start(i);
            },
            (StackMode::Working, ItemSize::Short, AccessMode::Pop) => {
                self.lemma_follows_read(i, 1);
                self.lemma_follows_on(i, 1, 0, self.read(i, 1), after);
            },
            (StackMode::Return, ItemSize::Byte, AccessMode::Pop) => {
                self.lemma_follows_start(i);
                self.lemma_follows_on(i, 0, 0, self, after);
            },
            (StackMode::Return, ItemSize::Short, AccessMode::Pop) => {
                let address = Item::Short(self.advance(2).program_counter);
                self.lemma_follows_start(i);
                self.lemma_follows_push(i, 0, 0, self, address);
                self.lemma_follows_on(i, 0, 2, self.push(i.stack, address), after);
            },
            (_, ItemSize::Byte, AccessMode::Keep) => {
                let literal = Item::Byte(self.byte_at(pc));
                self.lemma_follows_start(i);
                self.lemma_follows_push(i, 0, 0, self, literal);
                self.lemma_follows_on(i, 0, 1, self.push(i.stack, literal), after);
            },
            (_, ItemSize::Short, AccessMode::Keep) => {
                let literal = Item::Short(self.short_at(pc));
                self.lemma_follows_start(i);
                self.lemma_follows_push(i, 0, 0, self, literal);
                self.lemma_follows_on(i, 0, 2, self.push(i.stack, literal), after);
            },
        }
    }

    /// Reading `count` bytes and pushing one item of the width of `i`.
    proof fn lemma_one_result(self, i: Instruction, count: int, item: Item)
        requires
            item.size() == i.size,
        ensures
            self.follows(
                i,
                count,
                i.size.bytes(),
                self.read(i, count).push(i.stack, item),
            ),
    {
        self.lemma_follows_read(i, count);
        self.lemma_follows_push(i, count, 0, self.read(i, count), item);
    }

    proof fn lemma_stack_op_follows(self, i: Instruction)
        requires
            0x01 <= i.opcode <= 0x07,
        ensures
            self.follows(i, i.operand_bytes(), i.result_bytes(), self.stack_op(i)),
    {
        let w = i.size.bytes();
        let a = self.first(i);
        let b = self.second(i);
        let c = self.third(i);
        let s = i.stack;
        if i.opcode == 0x01 {
            self.lemma_one_result(i, w, a.incremented());
        } else if i.opcode == 0x02 {
            self.lemma_follows_read(i, w);
        } else if i.opcode == 0x03 {
            self.lemma_one_result(i, 2 * w, a);
        } else if i.opcode == 0x04 {
            let read = self.read(i, 2 * w);
            self.lemma_one_result(i, 2 * w, a);
            self.lemma_follows_push(i, 2 * w, w, read.push(s, a), b);
        } else if i.opcode == 0x05 {
            let read = self.read(i, 3 * w);
            self.lemma_one_result(i, 3 * w, b);
            self.lemma_follows_push(i, 3 * w, w, read.push(s, b), a);
            self.lemma_follows_push(i, 3 * w, 2 * w, read.push(s, b).push(s, a), c);
        } else if i.opcode == 0x06 {
            let read = self.read(i, w);
            self.lemma_one_result(i, w, a);
            self.lemma_follows_push(i, w, w, read.push(s, a), a);
        } else {
            let read = self.read(i, 2 * w);
            self.lemma_one_result(i, 2 * w, b);
            self.lemma_follows_push(i, 2 * w, w, read.push(s, b), a);
            self.lemma_follows_push(i, 2 * w, 2 * w, read.push(s, b).push(s, a), b);
        }
    }

    proof fn lemma_comparison_follows(self, i: Instruction)
        requires
            0x08 <= i.opcode <= 0x0b,
        ensures
            self.follows(i, i.operand_bytes(), i.result_bytes(), self.comparison(i)),
    {
        let upper = self.first(i);
        let lower = self.second(i);
        let truth = match i.opcode {
            0x08 => lower == upper,
            0x09 => lower != upper,
            0x0a => lower.value() > upper.value(),
            _ => lower.value() < upper.value(),
        };
        let count = 2 * i.size.bytes();
        self.lemma_follows_read(i, count);
        self.lemma_follows_push(i, count, 0, self.read(i, count), Item::Byte(flag(truth)));
    }

    proof fn lemma_flow_follows(self, i: Instruction)
        requires
            0x0c <= i.opcode <= 0x0f,
        ensures
            self.follows(i, i.operand_bytes(), i.result_bytes(), self.flow(i)),
    {
        let w = i.size.bytes();
        let a = self.first(i);
        let after = self.flow(i);
        if i.opcode == 0x0c {
            self.lemma_follows_read(i, w);
            self.lemma_follows_on(i, w, 0, self.read(i, w), after);
        } else if i.opcode == 0x0d {
            self.lemma_follows_read(i, w + 1);
            self.lemma_follows_on(i, w + 1, 0, self.read(i, w + 1), after);
        } else if i.opcode == 0x0e {
            let read = self.read(i, w);
            let address = Item::Short(self.program_counter);
            let pushed = read.push(StackMode::Return, address);
            self.lemma_follows_read(i, w);
            if i.stack == StackMode::Return {
                self.lemma_follows_push(i, w, 0, read, address);
                self.lemma_follows_on(i, w, 2, pushed, after);
            } else {
                self.lemma_follows_push_aside(i, w, 0, read, address);
                self.lemma_follows_on(i, w, 0, pushed, after);
            }
        } else {
            self.lemma_follows_read(i, w);
            self.lemma_follows_push_aside(i, w, 0, self.read(i, w), a);
        }
    }

    proof fn lemma_memory_access_follows(self, i: Instruction)
        requires
            0x10 <= i.opcode <= 0x15,
        ensures
            self.follows(i, i.operand_bytes(), i.result_bytes(), self.memory_access(i)),
    {
        let w = i.size.bytes();
        let pc = self.program_counter as int;
        let target = self.stack(i.stack);
        let page = target.byte_under(0) as int;
        let near = pc + signed(target.byte_under(0));
        let far = target.short_under(0) as int;
        let after = self.memory_access(i);
        if i.opcode == 0x10 {
            self.lemma_one_result(i, 1, self.item_at(page, i.size));
        } else if i.opcode == 0x11 {
            self.lemma_follows_read(i, 1 + w);
            self.lemma_follows_on(i, 1 + w, 0, self.read(i, 1 + w), after);
        } else if i.opcode == 0x12 {
            self.lemma_one_result(i, 1, self.item_at(near, i.size));
        } else if i.opcode == 0x13 {
            self.lemma_follows_read(i, 1 + w);
            self.lemma_follows_on(i, 1 + w, 0, self.read(i, 1 + w), after);
        } else if i.opcode == 0x14 {
            self.lemma_one_result(i, 2, self.item_at(far, i.size));
        } else {
            self.lemma_follows_read(i, 2 + w);
            self.lemma_follows_on(i, 2 + w, 0, self.read(i, 2 + w), after);
        }
    }

    proof fn lemma_device_access_follows(self, i: Instruction, input: Item)
        requires
            0x16 <= i.opcode <= 0x17,
            input.size() == i.size,
        ensures
            self.follows(i, i.operand_bytes(), i.result_bytes(), self.device_access(i, input)),
    {
        if i.opcode == 0x16 {
            self.lemma_one_result(i, 1, input);
        } else {
            self.lemma_follows_read(i, 1 + i.size.bytes());
        }
    }

    proof fn lemma_arithmetic_follows(self, i: Instruction)
        requires
            0x18 <= i.opcode <= 0x1e,
        ensures
            self.follows(i, i.operand_bytes(), i.result_bytes(), self.arithmetic(i)),
    {
        let upper = self.first(i);
        let lower = self.second(i);
        let result = match i.opcode {
            0x18 => lower.add_spec(upper),
            0x19 => lower.sub_spec(upper),
            0x1a => lower.mul_spec(upper),
            0x1b => lower.div_spec(upper),
            0x1c => lower.bitand_spec(upper),
            0x1d => lower.bitor_spec(upper),
            _ => lower.bitxor_spec(upper),
        };
        assert(result.size() == i.size);
        self.lemma_one_result(i, 2 * i.size.bytes(), result);
    }

    proof fn lemma_shift_follows(self, i: Instruction)
        requires
            i.opcode == 0x1f,
        ensures
            self.follows(i, i.operand_bytes(), i.result_bytes(), self.shift(i)),
    {
        let target = self.stack(i.stack);
        let amounts = target.byte_under(0);
        let item = target.item_under(1, i.size).shifted(amounts / 0x10, amounts % 0x10);
        self.lemma_one_result(i, 1 + i.size.bytes(), item);
    }

    /// Every instruction leaves a machine that follows, with the sizes of
    /// its operands and of its results for what was read and pushed.
    pub proof fn lemma_execute_follows(self, i: Instruction, input: Item)
        requires
            i.opcode < 0x20,
            input.size() == i.size,
        ensures
            self.follows(i, i.operand_bytes(), i.result_bytes(), self.execute(i, input)),
            i.operand_bytes() >= 0,
            i.result_bytes() >= 0,
    {
        if i.opcode == 0x00 {
            self.lemma_immediate_follows(i);
        } else if i.opcode <= 0x07 {
            self.lemma_stack_op_follows(i);
        } else if i.opcode <= 0x0b {
            self.lemma_comparison_follows(i);
        } else if i.opcode <= 0x0f {
            self.lemma_flow_follows(i);
        } else if i.opcode <= 0x15 {
            self.lemma_memory_access_follows(i);
        } else if i.opcode <= 0x17 {
            self.lemma_device_access_follows(i, input);
        } else if i.opcode <= 0x1e {
            self.lemma_arithmetic_follows(i);
        } else {
            self.lemma_shift_follows(i);
        }
    }

    /// Whatever the instruction and whatever the machine holds, the program
    /// counter stays within the 64 KiB of memory and both stack pointers
    /// within the 256 bytes of their stacks, and memory and stacks keep their
    /// sizes.
    pub proof fn lemma_execute_well_formed(self, i: Instruction, input: Item)
        requires
            self.well_formed(),
            i.opcode < 0x20,
            input.size() == i.size,
        ensures
            self.execute(i, input).well_formed(),
            0 <= self.execute(i, input).program_counter < 0x1_0000,
            0 <= self.execute(i, input).working_stack.pointer < 0x100,
            0 <= self.execute(i, input).return_stack.pointer < 0x100,
    {
        self.lemma_execute_follows(i, input);
    }

    /// Whatever the instruction, the pointer of the stack it works on ends
    /// the size of its results above where the reading of the operands left
    /// it: in keep mode above where it was, in pop mode above the point that
    /// lies the size of the operands below where it was; all modulo 256.
    pub proof fn lemma_target_pointer(self, i: Instruction, input: Item)
        requires
            i.opcode < 0x20,
            input.size() == i.size,
        ensures
            i.mode == AccessMode::Keep ==> self.execute(i, input).stack(i.stack).pointer == (
            self.stack(i.stack).pointer + i.result_bytes()) % 256,
            i.mode == AccessMode::Pop ==> self.execute(i, input).stack(i.stack).pointer == (
            self.stack(i.stack).pointer - i.operand_bytes() + i.result_bytes()) % 256,
    {
        self.lemma_execute_follows(i, input);
    }

    /// In keep mode an instruction that pushes nothing on the stack it works
    /// on leaves the pointer of that stack where it was.
    pub proof fn lemma_keep_leaves_pointer(self, i: Instruction, input: Item)
        requires
            i.opcode < 0x20,
            input.size() == i.size,
            i.mode == AccessMode::Keep,
            i.result_bytes() == 0,
        ensures
            self.execute(i, input).stack(i.stack).pointer == self.stack(i.stack).pointer,
    {
        self.lemma_execute_follows(i, input);
    }

    /// In pop mode an instruction that pushes nothing on the stack it works
    /// on moves the pointer of that stack down by exactly the size of its
    /// operands, modulo 256.
    pub proof fn lemma_pop_moves_pointer(self, i: Instruction, input: Item)
        requires
            i.opcode < 0x20,
            input.size() == i.size,
            i.mode == AccessMode::Pop,
            i.result_bytes() == 0,
        ensures
            self.execute(i, input).stack(i.stack).pointer == (self.stack(i.stack).pointer
                - i.operand_bytes()) % 256,
    {
        self.lemma_execute_follows(i, input);
    }

    /// In keep mode the operands stay: the byte that lay `depth` bytes below
    /// the top of the stack worked on lies there still, below the results.
    pub proof fn lemma_keep_leaves_operands(self, i: Instruction, input: Item, depth: int)
        requires
            self.well_formed(),
            i.opcode < 0x20,
            input.size() == i.size,
            i.mode == AccessMode::Keep,
            0 <= depth,
            depth + i.result_bytes() < 256,
        ensures
            self.execute(i, input).stack(i.stack).byte_under(depth + i.result_bytes())
                == self.stack(i.stack).byte_under(depth),
    {
        self.lemma_execute_follows(i, input);
    }

    /// Reading operands in keep mode leaves the machine as it is; in pop mode
    /// it moves the pointer of the stack read from down by exactly the size
    /// of what was read, modulo 256, and changes nothing else.
    pub proof fn lemma_read_pointer(self, i: Instruction, count: int)
        ensures
            i.mode == AccessMode::Keep ==> self.read(i, count) == self,
            i.mode == AccessMode::Pop ==> self.read(i, count).stack(i.stack).pointer == (
            self.stack(i.stack).pointer - count) % 256,
            self.read(i, count).stack(i.stack).data == self.stack(i.stack).data,
            self.read(i, count).stack(i.stack.other()) == self.stack(i.stack.other()),
            self.read(i, count).memory == self.memory,
            self.read(i, count).program_counter == self.program_counter,
    {
        reveal(StackView::dropped);
    }
}

} // verus!
