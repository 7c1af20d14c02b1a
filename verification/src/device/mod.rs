//! The device page: 256 ports that the machine reads and writes, and the
//! source of the events that wake it after it has halted.

pub mod empty;
pub mod varvara;

pub use empty::EmptyDevice;
pub use varvara::VarvaraDevice;

use crate::common::Memory;
use vstd::prelude::*;

verus! {

/// What a device asks of the machine once the running program has halted.
#[derive(Clone, Copy, Debug, PartialEq, Eq, Structural)]
pub enum DeviceEvent {
    /// Invoke a vector at the given address.
    Vector(u16),
    /// Exit emulation.
    Exit,
}

/// A page of ports addressed by a byte, which also tells the machine what to
/// do next whenever the program has halted.
pub trait Device: Memory<AddressSpace = u8> {
    /// Whether waiting in this state may yield `event` and leave the device as `after`.
    spec fn event_awaited(&self, event: DeviceEvent, after: &Self) -> bool;

    /// Blocks until the device has an event for the machine.
    fn wait_for_event(&mut self) -> (event: DeviceEvent)
        ensures
            old(self).event_awaited(event, final(self)),
    ;
}

} // verus!
