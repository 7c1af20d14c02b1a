//! A device without behaviour of its own.

use crate::common::Memory;
use crate::device::{Device, DeviceEvent};
use vstd::prelude::*;

verus! {

/// A stub device which simply acts as a normal memory page.
pub struct EmptyDevice {
    memory: [u8; 256],
}

impl View for EmptyDevice {
    type V = Seq<u8>;

    /// The 256 bytes of the page, by port.
    closed spec fn view(&self) -> Seq<u8> {
        self.memory@
    }
}

impl EmptyDevice {
    /// A page in which every port holds zero.
    pub fn new() -> (device: EmptyDevice)
        ensures
            device@ == Seq::new(256, |i: int| 0u8),
    {
        let device = EmptyDevice { memory: [0; 256] };
        assert(device@ =~= Seq::new(256, |i: int| 0u8));
        device
    }

    /// The page always has 256 ports, and two pages that hold the same bytes are the same.
    pub proof fn lemma_view(self, other: EmptyDevice)
        ensures
            self@.len() == 256,
            self@ == other@ ==> self == other,
    {
        if self@ == other@ {
            assert(self.memory =~= other.memory);
        }
    }
}

impl Memory for EmptyDevice {
    type AddressSpace = u8;

    /// A port holds what was last written to it.
    open spec fn byte_at(&self, addr: u8) -> u8 {
        self@[addr as int]
    }

    /// A write changes the written port and no other.
    open spec fn byte_written(&self, addr: u8, byte: u8, after: &Self) -> bool {
        after@ == self@.update(addr as int, byte)
    }

    fn read_byte(&self, addr: u8) -> (byte: u8) {
        self.memory[addr as usize]
    }

    fn write_byte(&mut self, addr: u8, byte: u8) {
        self.memory[addr as usize] = byte;
    }
}

impl Device for EmptyDevice {
    /// The empty device only ever asks the machine to exit, and stays as it is.
    open spec fn event_awaited(&self, event: DeviceEvent, after: &Self) -> bool {
        event == DeviceEvent::Exit && *after == *self
    }

    fn wait_for_event(&mut self) -> (event: DeviceEvent) {
        DeviceEvent::Exit
    }
}

} // verus!
