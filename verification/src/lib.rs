//! The core of an emulator for Uxn, a small stack machine: tagged 8- and
//! 16-bit items, two circular stacks, 64 KiB of memory, a page of device
//! ports, and the instruction decoder that ties them together.

pub mod address;
pub mod common;
pub mod cpu;
pub mod device;
pub mod stack;

pub use address::Address;
pub use common::{Item, ItemSize, Memory, StackMode};
pub use cpu::{Core, CoreView, ExecutionResult, Instruction, Machine};
pub use device::varvara::{Colour, FillDirection, Layer, Screen};
pub use device::{Device, DeviceEvent, EmptyDevice, VarvaraDevice};
pub use stack::{AccessMode, Stack, StackOperandAccessor, StackView};
