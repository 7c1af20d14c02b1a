//! Main memory: loading a ROM, clearing, and byte, short and item access.

use crate::common::{compose_short, split_short, Item, ItemSize, Memory};
use crate::cpu::{Core, CoreView, ROM_BASE};
use crate::device::Device;
use vstd::prelude::*;

verus! {

/// Largest number of ROM bytes that fit between the ROM base and the end of memory.
pub const ROM_CAPACITY: usize = 0xff00;

/// Memory right after `rom` was loaded: the ROM from the ROM base on, cut off
/// at the end of memory, and zero everywhere else.
pub open spec fn rom_image(rom: Seq<u8>) -> Seq<u8> {
    Seq::new(
        0x1_0000,
        |i: int|
            if 0x0100 <= i && i - 0x0100 < rom.len() {
                rom[i - 0x0100]
            } else {
                0u8
            },
    )
}

impl<D: Device> Core<D> {
    /// Clears memory and copies `rom` to the ROM base. What does not fit below
    /// the end of memory is left out.
    pub fn load_rom(&mut self, rom: &[u8])
        ensures
            final(self)@ == (CoreView { memory: rom_image(rom@), ..old(self)@ }),
            final(self).device == old(self).device,
            forall|i: int|
                0 <= i < rom@.len() && i < ROM_CAPACITY ==> final(self)@.memory[0x0100 + i]
                    == rom@[i],
            forall|i: int|
                0 <= i < 0x1_0000 && !(0x0100 <= i < 0x0100 + rom@.len()) ==> final(self)@.memory[i]
                    == 0,
    {
        self.clear_memory();
        let count = if rom.len() < ROM_CAPACITY { rom.len() } else { ROM_CAPACITY };
        let mut i: usize = 0;
        while i < count
            invariant
                i <= count <= ROM_CAPACITY,
                count <= rom@.len(),
                self.program_counter == old(self).program_counter,
                self.working_stack@ == old(self).working_stack@,
                self.return_stack@ == old(self).return_stack@,
                self.device == old(self).device,
                forall|j: int|
                    0 <= j < 0x1_0000 ==> self.memory[j] == if 0x0100 <= j < 0x0100 + i {
                        rom@[j - 0x0100]
                    } else {
                        0u8
                    },
            decreases count - i,
        {
            self.memory[ROM_BASE as usize + i] = rom[i];
            i += 1;
        }
        assert(self@.memory =~= rom_image(rom@));
    }

    /// Sets every byte of memory to zero.
    pub fn clear_memory(&mut self)
        ensures
            final(self)@ == (CoreView {
                memory: Seq::new(0x1_0000, |i: int| 0u8),
                ..old(self)@
            }),
            final(self).device == old(self).device,
    {
        let mut i: usize = 0;
        while i < 0x1_0000
            invariant
                i <= 0x1_0000,
                self.program_counter == old(self).program_counter,
                self.working_stack == old(self).working_stack,
                self.return_stack == old(self).return_stack,
                self.device == old(self).device,
                forall|j: int| 0 <= j < i ==> self.memory[j] == 0,
            decreases 0x1_0000 - i,
        {
            self.memory[i] = 0;
            i += 1;
        }
        assert(self@.memory =~= Seq::new(0x1_0000, |i: int| 0u8));
    }
}

impl<D: Device> Memory for Core<D> {
    type AddressSpace = u16;

    open spec fn byte_at(&self, addr: u16) -> u8 {
        self@.byte_at(addr as int)
    }

    /// A write changes the written byte of memory and nothing else of the machine.
    open spec fn byte_written(&self, addr: u16, byte: u8, after: &Self) -> bool {
        after@ == self@.store_byte(addr as int, byte) && after.device == self.device
    }

    fn read_byte(&self, addr: u16) -> (byte: u8) {
        self.memory[addr as usize]
    }

    fn write_byte(&mut self, addr: u16, byte: u8) {
        self.memory[addr as usize] = byte;
    }

    fn read_memory(&self, addr: u16, item_size: ItemSize) -> (item: Item)
        ensures
            item == self@.item_at(addr as int, item_size),
    {
        match item_size {
            ItemSize::Byte => Item::Byte(self.memory[addr as usize]),
            ItemSize::Short => Item::Short(
                compose_short(
                    self.memory[addr as usize],
                    self.memory[addr.wrapping_add(1) as usize],
                ),
            ),
        }
    }

    fn write_memory(&mut self, addr: u16, item: Item)
        ensures
            final(self)@ == old(self)@.store_item(addr as int, item),
            final(self).device == old(self).device,
    {
        match item {
            Item::Byte(byte) => {
                self.memory[addr as usize] = byte;
            },
            Item::Short(short) => {
                let (hi, lo) = split_short(short);
                self.memory[addr as usize] = hi;
                let ghost between = *self;
                self.memory[addr.wrapping_add(1) as usize] = lo;
                assert(old(self).byte_written(addr, hi, &between));
            },
        }
    }
}

/// Reading an item back from where it was stored gives the item, also where a
/// short straddles the end of memory.
pub proof fn lemma_store_then_read(core: CoreView, address: int, item: Item)
    requires
        core.well_formed(),
    ensures
        core.store_item(address, item).item_at(address, item.size()) == item,
{
}

/// Whatever a write of `item` at `addr` leaves of the machine, a read of the
/// same width at `addr` then yields `item`.
pub proof fn lemma_write_then_read<D: Device>(before: Core<D>, addr: u16, item: Item, after: Core<D>)
    requires
        crate::common::item_written(&before, addr, item, &after),
    ensures
        crate::common::item_at(&after, addr, item.size()) == item,
{
}

} // verus!
