//! The machine itself: program counter, main memory, the two stacks and the
//! device it talks to.

pub mod exec;
pub mod laws;
pub mod mem;

pub use exec::{
    instruction_effect, is_run, is_session, progress, step, ExecutionResult, Instruction,
};

use crate::common::{high_byte, low_byte, short_of, Item, ItemSize, StackMode};
use crate::device::{Device, EmptyDevice};
use crate::stack::{Stack, StackView};
use vstd::prelude::*;

verus! {

/// Address at which a ROM is loaded and at which execution starts.
pub const ROM_BASE: u16 = 0x0100;

/// The Uxn machine with its device.
pub struct Core<D: Device> {
    pub program_counter: u16,
    pub memory: [u8; 0x1_0000],
    pub working_stack: Stack,
    pub return_stack: Stack,
    pub device: D,
}

/// The machine without its device, as a mathematical value.
pub struct CoreView {
    pub program_counter: u16,
    pub memory: Seq<u8>,
    pub working_stack: StackView,
    pub return_stack: StackView,
}

/// The number that a byte stands for when it is read as a signed offset.
pub open spec fn signed(byte: u8) -> int {
    if byte < 0x80 {
        byte as int
    } else {
        byte - 0x100
    }
}

impl StackMode {
    /// The stack that an instruction on this stack does not work on.
    pub open spec fn other(self) -> StackMode {
        match self {
            StackMode::Working => StackMode::Return,
            StackMode::Return => StackMode::Working,
        }
    }
}

impl CoreView {
    /// Memory holds 64 KiB and each stack 256 bytes.
    pub open spec fn well_formed(self) -> bool {
        &&& self.memory.len() == 0x1_0000
        &&& self.working_stack.well_formed()
        &&& self.return_stack.well_formed()
    }

    /// The stack that `which` selects.
    pub open spec fn stack(self, which: StackMode) -> StackView {
        match which {
            StackMode::Working => self.working_stack,
            StackMode::Return => self.return_stack,
        }
    }

    /// The machine with the stack that `which` selects replaced by `stack`.
    pub open spec fn with_stack(self, which: StackMode, stack: StackView) -> CoreView {
        match which {
            StackMode::Working => CoreView { working_stack: stack, ..self },
            StackMode::Return => CoreView { return_stack: stack, ..self },
        }
    }

    /// The machine with its program counter at `address`, taken modulo 65536.
    pub open spec fn at(self, address: int) -> CoreView {
        CoreView { program_counter: (address % 0x1_0000) as u16, ..self }
    }

    /// The machine with its program counter moved on by `count`, modulo 65536.
    pub open spec fn advance(self, count: int) -> CoreView {
        self.at(self.program_counter + count)
    }

    /// The machine after a jump to `dest`: a byte is a signed offset from the
    /// program counter, a short is the new program counter.
    pub open spec fn jump(self, dest: Item) -> CoreView {
        match dest {
            Item::Byte(offset) => self.at(self.program_counter + signed(offset)),
            Item::Short(address) => self.at(address as int),
        }
    }

    /// The byte at `address`, taken modulo 65536.
    pub open spec fn byte_at(self, address: int) -> u8 {
        self.memory[address % 0x1_0000]
    }

    /// The big-endian short at `address`; its low byte lies at the address that follows.
    pub open spec fn short_at(self, address: int) -> u16 {
        short_of(self.byte_at(address), self.byte_at(address + 1))
    }

    /// The item of width `size` at `address`.
    pub open spec fn item_at(self, address: int, size: ItemSize) -> Item {
        match size {
            ItemSize::Byte => Item::Byte(self.byte_at(address)),
            ItemSize::Short => Item::Short(self.short_at(address)),
        }
    }

    /// The machine after `byte` was stored at `address`, taken modulo 65536.
    pub open spec fn store_byte(self, address: int, byte: u8) -> CoreView {
        CoreView { memory: self.memory.update(address % 0x1_0000, byte), ..self }
    }

    /// The machine after `short` was stored at `address`, high byte first.
    pub open spec fn store_short(self, address: int, short: u16) -> CoreView {
        self.store_byte(address, high_byte(short)).store_byte(address + 1, low_byte(short))
    }

    /// The machine after `item` was stored at `address`.
    pub open spec fn store_item(self, address: int, item: Item) -> CoreView {
        match item {
            Item::Byte(byte) => self.store_byte(address, byte),
            Item::Short(short) => self.store_short(address, short),
        }
    }
}

/// All addressing is modulo 65536: an address and its remainder name the same
/// bytes, for reading and for storing.
pub proof fn lemma_addresses_wrap(core: CoreView, address: int, size: ItemSize, item: Item)
    ensures
        core.item_at(address % 0x1_0000, size) == core.item_at(address, size),
        core.store_item(address % 0x1_0000, item) == core.store_item(address, item),
{
    let reduced = address % 0x1_0000;
    assert(reduced % 0x1_0000 == address % 0x1_0000);
    assert((reduced + 1) % 0x1_0000 == (address + 1) % 0x1_0000);
}

impl<D: Device> View for Core<D> {
    type V = CoreView;

    open spec fn view(&self) -> CoreView {
        CoreView {
            program_counter: self.program_counter,
            memory: self.memory@,
            working_stack: self.working_stack@,
            return_stack: self.return_stack@,
        }
    }
}

/// A machine together with its device, as a mathematical value.
pub struct Machine<D> {
    pub core: CoreView,
    pub device: D,
}

impl<D: Device> Core<D> {
    /// The machine and its device as they stand.
    pub open spec fn state(&self) -> Machine<D> {
        Machine { core: self@, device: self.device }
    }
}

/// The state of a machine that was just switched on: the program counter at
/// the ROM base, every byte of memory zero, both stacks empty.
pub open spec fn reset_state() -> CoreView {
    CoreView {
        program_counter: ROM_BASE,
        memory: Seq::new(0x1_0000, |i: int| 0u8),
        working_stack: Stack::new_view(),
        return_stack: Stack::new_view(),
    }
}

impl Core<EmptyDevice> {
    /// A machine in its reset state, with an empty device.
    pub fn new() -> (core: Self)
        ensures
            core@ == reset_state(),
            forall|i: int| 0 <= i < 0x1_0000 ==> core@.memory[i] == 0,
            core.device@ == Seq::new(256, |i: int| 0u8),
    {
        let core = Core {
            program_counter: ROM_BASE,
            memory: [0; 0x1_0000],
            working_stack: Stack::new(),
            return_stack: Stack::new(),
            device: EmptyDevice::new(),
        };
        assert(core@.memory =~= Seq::new(0x1_0000, |i: int| 0u8));
        core
    }

    /// A machine in its reset state with `rom` loaded at the ROM base.
    pub fn new_with_rom(rom: &[u8]) -> (core: Self)
        ensures
            core@ == (CoreView { memory: mem::rom_image(rom@), ..reset_state() }),
            core.device@ == Seq::new(256, |i: int| 0u8),
    {
        let mut this = Self::new();
        this.load_rom(rom);
        this
    }
}

impl<D: Device> Core<D> {
    /// The same machine talking to `device` in place of the device it had.
    pub fn set_device<E: Device>(self, device: E) -> (core: Core<E>)
        ensures
            core@ == self@,
            core.device == device,
    {
        Core {
            program_counter: self.program_counter,
            memory: self.memory,
            working_stack: self.working_stack,
            return_stack: self.return_stack,
            device,
        }
    }

    /// The program counter always lies in `[0, 65536)` and each stack pointer in `[0, 256)`.
    pub proof fn lemma_registers_in_range(self)
        ensures
            0 <= self@.program_counter < 0x1_0000,
            0 <= self@.working_stack.pointer < 0x100,
            0 <= self@.return_stack.pointer < 0x100,
            self@.well_formed(),
    {
    }
}

} // verus!
