//! The circular stack and the typed protocol by which instructions read their
//! operands from it, with or without removing them.

use crate::common::{compose_short, high_byte, low_byte, short_of, split_short, Item, ItemSize};
use vstd::prelude::*;

verus! {

/// Whether reading operands removes them from the stack.
#[derive(Clone, Copy, Debug, PartialEq, Eq, Structural)]
pub enum AccessMode {
    /// Remove accessed items from the stack.
    Pop,
    /// Keep accessed items on the stack.
    Keep,
}

/// A stack of 256 bytes whose head pointer wraps around at both ends.
#[derive(Clone)]
pub struct Stack {
    /// Index one past the top of the stack.
    pub pointer: u8,
    pub data: [u8; 256],
}

/// A stack as a mathematical value: its head pointer and its 256 bytes.
///
/// The three functions that count modulo 256, `push_byte`, `byte_under` and
/// `dropped`, are opaque, so that proofs about whole instructions need not
/// look into them. Where their values are needed, say so with `reveal`.
pub struct StackView {
    pub pointer: u8,
    pub data: Seq<u8>,
}

impl StackView {
    /// A stack always holds 256 bytes.
    pub open spec fn well_formed(self) -> bool {
        self.data.len() == 256
    }

    /// The stack after `byte` was stored at the head and the head moved up by one.
    #[verifier::opaque]
    pub open spec fn push_byte(self, byte: u8) -> StackView {
        StackView {
            pointer: ((self.pointer + 1) % 256) as u8,
            data: self.data.update(self.pointer as int, byte),
        }
    }

    /// The stack after the high byte of `short` was pushed and then its low byte.
    pub open spec fn push_short(self, short: u16) -> StackView {
        self.push_byte(high_byte(short)).push_byte(low_byte(short))
    }

    /// The stack after `item` was pushed.
    pub open spec fn push_item(self, item: Item) -> StackView {
        match item {
            Item::Byte(byte) => self.push_byte(byte),
            Item::Short(short) => self.push_short(short),
        }
    }

    /// The stack after each byte of `bytes` was pushed, the first one first.
    pub open spec fn push_all(self, bytes: Seq<u8>) -> StackView
        decreases bytes.len(),
    {
        if bytes.len() == 0 {
            self
        } else {
            self.push_all(bytes.drop_last()).push_byte(bytes.last())
        }
    }

    /// The byte that lies `skipped` bytes below the topmost byte.
    #[verifier::opaque]
    pub open spec fn byte_under(self, skipped: int) -> u8 {
        self.data[(self.pointer - skipped - 1) % 256]
    }

    /// The big-endian short whose low byte lies `skipped` bytes below the topmost byte.
    pub open spec fn short_under(self, skipped: int) -> u16 {
        short_of(self.byte_under(skipped + 1), self.byte_under(skipped))
    }

    /// The item of width `size` that ends `skipped` bytes below the topmost byte.
    pub open spec fn item_under(self, skipped: int, size: ItemSize) -> Item {
        match size {
            ItemSize::Byte => Item::Byte(self.byte_under(skipped)),
            ItemSize::Short => Item::Short(self.short_under(skipped)),
        }
    }

    /// The item of width `size` whose first byte lies at index `at` of the buffer.
    pub open spec fn item_from(self, at: u8, size: ItemSize) -> Item {
        match size {
            ItemSize::Byte => Item::Byte(self.data[at as int]),
            ItemSize::Short => Item::Short(
                short_of(self.data[at as int], self.data[(at + 1) % 256]),
            ),
        }
    }

    /// The stack with its head moved down by `count` bytes; the bytes stay.
    #[verifier::opaque]
    pub open spec fn dropped(self, count: int) -> StackView {
        StackView { pointer: ((self.pointer - count) % 256) as u8, data: self.data }
    }

    /// The stack after `count` bytes of operands were read in the given mode.
    pub open spec fn after_reads(self, mode: AccessMode, count: int) -> StackView {
        match mode {
            AccessMode::Pop => self.dropped(count),
            AccessMode::Keep => self,
        }
    }

    /// The bytes from the bottom of the buffer up to the head.
    pub open spec fn contents(self) -> Seq<u8> {
        self.data.subrange(0, self.pointer as int)
    }
}

impl View for Stack {
    type V = StackView;

    open spec fn view(&self) -> StackView {
        StackView { pointer: self.pointer, data: self.data@ }
    }
}

impl Stack {
    /// An empty stack: the head at the bottom, every byte zero.
    pub fn new() -> (stack: Stack)
        ensures
            stack@ == Stack::new_view(),
            stack@.well_formed(),
    {
        let stack = Stack { pointer: 0, data: [0; 256] };
        assert(stack@.data =~= Seq::new(256, |i: int| 0u8));
        stack
    }

    /// The first `N` bytes of the buffer, whatever the head.
    pub fn first_bytes<const N: usize>(&self) -> (bytes: [u8; N])
        requires
            N <= 256,
        ensures
            bytes@ == self@.data.subrange(0, N as int),
    {
        let mut bytes: [u8; N] = [0; N];
        let mut i: usize = 0;
        while i < N
            invariant
                N <= 256,
                i <= N,
                forall|j: int| 0 <= j < i ==> bytes[j] == self.data[j],
            decreases N - i,
        {
            bytes[i] = self.data[i];
            i += 1;
        }
        assert(bytes@ =~= self@.data.subrange(0, N as int));
        bytes
    }

    /// The bytes from the bottom of the buffer up to the head.
    pub fn bytes(&self) -> (bytes: Vec<u8>)
        ensures
            bytes@ == self@.contents(),
    {
        let mut bytes: Vec<u8> = Vec::new();
        let mut i: usize = 0;
        while i < self.pointer as usize
            invariant
                i <= self.pointer,
                bytes@ == self.data@.subrange(0, i as int),
            decreases self.pointer - i,
        {
            bytes.push(self.data[i]);
            i += 1;
            assert(bytes@ =~= self.data@.subrange(0, i as int));
        }
        bytes
    }

    /// A stack on which the bytes of `data` were pushed in turn, starting empty.
    pub fn new_with_data(data: &[u8]) -> (stack: Stack)
        ensures
            stack@ == Stack::new_view().push_all(data@),
            data@.len() < 256 ==> stack.pointer == data@.len() && stack@.contents() == data@,
    {
        let mut stack = Stack::new();
        let mut i: usize = 0;
        while i < data.len()
            invariant
                i <= data.len(),
                stack@ == Stack::new_view().push_all(data@.subrange(0, i as int)),
                i < 256 ==> stack.pointer == i,
                forall|j: int| 0 <= j < i && i < 256 ==> stack.data[j] == data[j],
            decreases data.len() - i,
        {
            proof {
                reveal(StackView::push_byte);
                assert(data@.subrange(0, i + 1).drop_last() =~= data@.subrange(0, i as int));
            }
            stack.push_byte(data[i]);
            i += 1;
        }
        assert(data@.subrange(0, i as int) =~= data@);
        assert(data@.len() < 256 ==> stack@.contents() =~= data@);
        stack
    }

    /// The view of a new stack.
    pub open spec fn new_view() -> StackView {
        StackView { pointer: 0, data: Seq::new(256, |i: int| 0u8) }
    }

    /// Stores `byte` at the head and moves the head up by one, wrapping at 256.
    pub fn push_byte(&mut self, byte: u8)
        ensures
            final(self)@ == old(self)@.push_byte(byte),
            final(self).pointer == (old(self).pointer + 1) % 256,
            final(self).data@ == old(self).data@.update(old(self).pointer as int, byte),
    {
        reveal(StackView::push_byte);
        self.data[self.pointer as usize] = byte;
        self.pointer = self.pointer.wrapping_add(1);
    }

    /// Pushes the high byte of `short`, then its low byte.
    pub fn push_short(&mut self, short: u16)
        ensures
            final(self)@ == old(self)@.push_short(short),
            final(self).pointer == (old(self).pointer + 2) % 256,
            final(self).data@ == old(self).data@.update(
                old(self).pointer as int,
                high_byte(short),
            ).update((old(self).pointer + 1) % 256, low_byte(short)),
    {
        let (hi, lo) = split_short(short);
        self.push_byte(hi);
        self.push_byte(lo);
    }

    /// Pushes an item of either width.
    pub fn push_item(&mut self, item: Item)
        ensures
            final(self)@ == old(self)@.push_item(item),
            final(self).pointer == (old(self).pointer + item.size().bytes()) % 256,
            final(self).data@ == match item {
                Item::Byte(byte) => old(self).data@.update(old(self).pointer as int, byte),
                Item::Short(short) => old(self).data@.update(
                    old(self).pointer as int,
                    high_byte(short),
                ).update((old(self).pointer + 1) % 256, low_byte(short)),
            },
    {
        match item {
            Item::Byte(byte) => self.push_byte(byte),
            Item::Short(short) => self.push_short(short),
        }
    }

    /// Starts reading operands from the top of the stack. Nothing is read yet.
    pub fn take_operands<'s>(&'s mut self, mode: AccessMode, item_size: ItemSize) -> (op:
        StackOperandAccessor<'s, ()>)
        ensures
            *op.stack == *old(self),
            *final(self) == *final(op.stack),
            op.pointer == old(self).pointer,
            op.consumed() == 0,
            op.mode == mode,
            op.item_size == item_size,
    {
        StackOperandAccessor::new(self, mode, item_size)
    }
}

/// Operands being read from a stack, from the top down.
///
/// `pointer` is the scratch head: it moves down with every read while the
/// stack's own head stays, until `done` commits or discards the move. `data`
/// holds what was read so far, first read first.
pub struct StackOperandAccessor<'s, T> {
    pub stack: &'s mut Stack,
    pub pointer: u8,
    pub mode: AccessMode,
    pub item_size: ItemSize,
    pub data: T,
}

impl<'s> StackOperandAccessor<'s, ()> {
    fn new(stack: &'s mut Stack, mode: AccessMode, item_size: ItemSize) -> (op: Self)
        ensures
            *op.stack == *old(stack),
            *final(stack) == *final(op.stack),
            op.pointer == old(stack).pointer,
            op.consumed() == 0,
            op.mode == mode,
            op.item_size == item_size,
    {
        StackOperandAccessor { pointer: stack.pointer, stack, mode, item_size, data: () }
    }
}

impl<'s, T> StackOperandAccessor<'s, T> {
    /// The stack being read, as it stands.
    pub open spec fn current(&self) -> StackView {
        self.stack@
    }

    /// Number of bytes read so far, modulo 256: how far the scratch head lies
    /// below the head of the stack.
    pub closed spec fn consumed(&self) -> int {
        (self.stack.pointer - self.pointer) % 256
    }

    /// Whether `next` is this accessor after one more read of `width` bytes:
    /// the same stack, mode and width, the scratch head `width` bytes lower.
    pub open spec fn advanced<U>(&self, next: &StackOperandAccessor<'s, U>, width: int) -> bool {
        &&& *next.stack == *self.stack
        &&& next.mode == self.mode
        &&& next.item_size == self.item_size
        &&& next.pointer == (self.pointer - width) % 256
        &&& next.consumed() == (self.consumed() + width) % 256
    }

    /// Where the scratch head lies `width` bytes lower, that many more bytes
    /// count as read, and the byte it then points at is the one that lies
    /// below all the bytes read.
    proof fn lemma_scratch_head(&self, width: int)
        requires
            0 <= width <= 2,
        ensures
            (self.current().pointer - self.consumed() - width) % 256 == (self.pointer - width)
                % 256,
            (self.current().pointer - (self.pointer - width) % 256) % 256 == (self.consumed()
                + width) % 256,
            ((self.pointer - width) % 256 + 1) % 256 == (self.pointer - width + 1) % 256,
    {
        let head = self.current().pointer as int;
        let scratch = self.pointer as int;
        let read = (head - scratch) % 256;
        assert(read == if head >= scratch {
            head - scratch
        } else {
            head - scratch + 256
        });
        let lower = (scratch - width) % 256;
        assert(lower == if scratch >= width {
            scratch - width
        } else {
            scratch - width + 256
        });
    }

    fn this_byte(&self) -> (r: (u8, u8))
        ensures
            r.0 == self.current().byte_under(self.consumed()),
            r.0 == self.current().data[r.1 as int],
            r.1 == (self.pointer - 1) % 256,
            (self.current().pointer - r.1) % 256 == (self.consumed() + 1) % 256,
    {
        proof {
            reveal(StackView::byte_under);
            self.lemma_scratch_head(1);
        }
        let pointer = self.pointer.wrapping_sub(1);
        let byte = self.stack.data[pointer as usize];
        (byte, pointer)
    }

    fn this_short(&self) -> (r: (u16, u8))
        ensures
            r.0 == self.current().short_under(self.consumed()),
            r.0 == short_of(
                self.current().data[r.1 as int],
                self.current().data[(r.1 + 1) % 256],
            ),
            r.1 == (self.pointer - 2) % 256,
            (self.current().pointer - r.1) % 256 == (self.consumed() + 2) % 256,
    {
        proof {
            reveal(StackView::byte_under);
            self.lemma_scratch_head(1);
            self.lemma_scratch_head(2);
        }
        let pointer = self.pointer.wrapping_sub(2);
        let hi = self.stack.data[pointer as usize];
        let lo = self.stack.data[pointer.wrapping_add(1) as usize];
        (compose_short(hi, lo), pointer)
    }

    fn this_item(&self) -> (r: (Item, u8))
        ensures
            r.0 == self.current().item_under(self.consumed(), self.item_size),
            r.0 == self.current().item_from(r.1, self.item_size),
            r.0.size() == self.item_size,
            r.1 == (self.pointer - self.item_size.bytes()) % 256,
            (self.current().pointer - r.1) % 256 == (self.consumed() + self.item_size.bytes()) % 256,
    {
        match self.item_size {
            ItemSize::Byte => {
                let (byte, pointer) = self.this_byte();
                (Item::Byte(byte), pointer)
            },
            ItemSize::Short => {
                let (short, pointer) = self.this_short();
                (Item::Short(short), pointer)
            },
        }
    }

    /// Ends the reading and hands out what was read. In pop mode the stack's
    /// head moves down to the scratch head, by the number of bytes read; in
    /// keep mode the stack is left as it was.
    pub fn done(self) -> (data: T)
        ensures
            data == self.data,
            final(self.stack)@ == old(self.stack)@.after_reads(self.mode, self.consumed()),
            self.mode == AccessMode::Keep ==> *final(self.stack) == *old(self.stack),
            self.mode == AccessMode::Pop ==> final(self.stack).pointer == self.pointer
                && final(self.stack).data == old(self.stack).data,
    {
        reveal(StackView::dropped);
        if self.mode == AccessMode::Pop {
            self.stack.pointer = self.pointer;
        }
        self.data
    }
}

impl<'s> StackOperandAccessor<'s, ()> {
    /// Reads the topmost byte.
    pub fn byte(self) -> (next: StackOperandAccessor<'s, (u8,)>)
        ensures
            next.data == (self.current().byte_under(self.consumed()),),
            self.advanced(&next, 1),
            Item::Byte(next.data.0) == self.current().item_from(next.pointer, ItemSize::Byte),
            *final(next.stack) == *final(self.stack),
    {
        let (byte, pointer) = self.this_byte();
        StackOperandAccessor {
            stack: self.stack,
            pointer,
            mode: self.mode,
            item_size: self.item_size,
            data: (byte,),
        }
    }

    /// Reads the topmost two bytes as a big-endian short.
    pub fn short(self) -> (next: StackOperandAccessor<'s, (u16,)>)
        ensures
            next.data == (self.current().short_under(self.consumed()),),
            self.advanced(&next, 2),
            Item::Short(next.data.0) == self.current().item_from(next.pointer, ItemSize::Short),
            *final(next.stack) == *final(self.stack),
    {
        let (short, pointer) = self.this_short();
        StackOperandAccessor {
            stack: self.stack,
            pointer,
            mode: self.mode,
            item_size: self.item_size,
            data: (short,),
        }
    }

    /// Reads the topmost item, of the width the accessor was made for.
    pub fn item(self) -> (next: StackOperandAccessor<'s, (Item,)>)
        ensures
            next.data == (self.current().item_under(self.consumed(), self.item_size),),
            next.data.0.size() == self.item_size,
            self.advanced(&next, self.item_size.bytes()),
            next.data.0 == self.current().item_from(next.pointer, self.item_size),
            *final(next.stack) == *final(self.stack),
    {
        let (item, pointer) = self.this_item();
        StackOperandAccessor {
            stack: self.stack,
            pointer,
            mode: self.mode,
            item_size: self.item_size,
            data: (item,),
        }
    }
}

impl<'s, T1> StackOperandAccessor<'s, (T1,)> {
    /// Reads the byte below what was read so far.
    pub fn then_byte(self) -> (next: StackOperandAccessor<'s, (T1, u8)>)
        ensures
            next.data == (self.data.0, self.current().byte_under(self.consumed())),
            self.advanced(&next, 1),
            Item::Byte(next.data.1) == self.current().item_from(next.pointer, ItemSize::Byte),
            *final(next.stack) == *final(self.stack),
    {
        let (byte, pointer) = self.this_byte();
        let (d1,) = self.data;
        StackOperandAccessor {
            stack: self.stack,
            pointer,
            mode: self.mode,
            item_size: self.item_size,
            data: (d1, byte),
        }
    }

    /// Reads the big-endian short below what was read so far.
    pub fn then_short(self) -> (next: StackOperandAccessor<'s, (T1, u16)>)
        ensures
            next.data == (self.data.0, self.current().short_under(self.consumed())),
            self.advanced(&next, 2),
            Item::Short(next.data.1) == self.current().item_from(next.pointer, ItemSize::Short),
            *final(next.stack) == *final(self.stack),
    {
        let (short, pointer) = self.this_short();
        let (d1,) = self.data;
        StackOperandAccessor {
            stack: self.stack,
            pointer,
            mode: self.mode,
            item_size: self.item_size,
            data: (d1, short),
        }
    }

    /// Reads the item below what was read so far, of the width the accessor was made for.
    pub fn then_item(self) -> (next: StackOperandAccessor<'s, (T1, Item)>)
        ensures
            next.data == (self.data.0, self.current().item_under(self.consumed(), self.item_size)),
            next.data.1.size() == self.item_size,
            self.advanced(&next, self.item_size.bytes()),
            next.data.1 == self.current().item_from(next.pointer, self.item_size),
            *final(next.stack) == *final(self.stack),
    {
        let (item, pointer) = self.this_item();
        let (d1,) = self.data;
        StackOperandAccessor {
            stack: self.stack,
            pointer,
            mode: self.mode,
            item_size: self.item_size,
            data: (d1, item),
        }
    }
}

impl<'s, T1, T2> StackOperandAccessor<'s, (T1, T2)> {
    /// Reads the byte below what was read so far.
    pub fn then_byte(self) -> (next: StackOperandAccessor<'s, (T1, T2, u8)>)
        ensures
            next.data == (self.data.0, self.data.1, self.current().byte_under(self.consumed())),
            self.advanced(&next, 1),
            Item::Byte(next.data.2) == self.current().item_from(next.pointer, ItemSize::Byte),
            *final(next.stack) == *final(self.stack),
    {
        let (byte, pointer) = self.this_byte();
        let (d1, d2) = self.data;
        StackOperandAccessor {
            stack: self.stack,
            pointer,
            mode: self.mode,
            item_size: self.item_size,
            data: (d1, d2, byte),
        }
    }

    /// Reads the big-endian short below what was read so far.
    pub fn then_short(self) -> (next: StackOperandAccessor<'s, (T1, T2, u16)>)
        ensures
            next.data == (self.data.0, self.data.1, self.current().short_under(self.consumed())),
            self.advanced(&next, 2),
            Item::Short(next.data.2) == self.current().item_from(next.pointer, ItemSize::Short),
            *final(next.stack) == *final(self.stack),
    {
        let (short, pointer) = self.this_short();
        let (d1, d2) = self.data;
        StackOperandAccessor {
            stack: self.stack,
            pointer,
            mode: self.mode,
            item_size: self.item_size,
            data: (d1, d2, short),
        }
    }

    /// Reads the item below what was read so far, of the width the accessor was made for.
    pub fn then_item(self) -> (next: StackOperandAccessor<'s, (T1, T2, Item)>)
        ensures
            next.data == (
                self.data.0,
                self.data.1,
                self.current().item_under(self.consumed(), self.item_size),
            ),
            next.data.2.size() == self.item_size,
            self.advanced(&next, self.item_size.bytes()),
            next.data.2 == self.current().item_from(next.pointer, self.item_size),
            *final(next.stack) == *final(self.stack),
    {
        let (item, pointer) = self.this_item();
        let (d1, d2) = self.data;
        StackOperandAccessor {
            stack: self.stack,
            pointer,
            mode: self.mode,
            item_size: self.item_size,
            data: (d1, d2, item),
        }
    }
}

} // verus!
