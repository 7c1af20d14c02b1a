//! Values shared by every part of the machine: item widths, stack selectors
//! and the tagged item with its wrapping arithmetic.

use crate::address::Address;
use std::cmp::Ordering;
use std::ops::{Add, BitAnd, BitOr, BitXor, Div, Mul, Sub};
use vstd::arithmetic::div_mod::{
    lemma_basic_div, lemma_div_is_ordered_by_denominator, lemma_div_pos_is_pos,
    lemma_fundamental_div_mod, lemma_mod_bound, lemma_mod_multiples_basic, lemma_small_mod,
};
use vstd::arithmetic::power2::{
    lemma2_to64, lemma_pow2_adds, lemma_pow2_pos, lemma_pow2_strictly_increases, pow2,
};
use vstd::bits::{
    lemma_u16_shl_is_mul, lemma_u16_shr_is_div, lemma_u32_shl_is_mul, lemma_u8_shr_is_div,
};
use vstd::prelude::*;
use vstd::std_specs::ops::{AddSpec, DivSpec, MulSpec};

verus! {

/// Which of the two stacks an instruction works on.
#[derive(Debug, Clone, Copy, PartialEq, Eq, Structural)]
pub enum StackMode {
    Working,
    Return,
}

/// The width of an operand.
#[derive(Clone, Copy, Debug, PartialEq, Eq, Structural)]
pub enum ItemSize {
    Byte,
    Short,
}

impl ItemSize {
    /// Number of bytes an item of this width takes on a stack or in memory.
    pub open spec fn bytes(self) -> int {
        match self {
            ItemSize::Byte => 1,
            ItemSize::Short => 2,
        }
    }
}

/// A value of either width, tagged with its width.
#[derive(Clone, Copy, Debug, PartialEq, Eq, Structural, Ord)]
pub enum Item {
    Byte(u8),
    Short(u16),
}

/// The short whose high byte is `hi` and whose low byte is `lo`.
pub open spec fn short_of(hi: u8, lo: u8) -> u16 {
    (hi * 0x100 + lo) as u16
}

/// High byte of a short.
pub open spec fn high_byte(short: u16) -> u8 {
    (short / 0x100) as u8
}

/// Low byte of a short.
pub open spec fn low_byte(short: u16) -> u8 {
    (short % 0x100) as u8
}

/// A byte-addressed memory: main memory, or the page of ports of a device.
///
/// An implementor says what a read yields in a given state and which states a
/// write may lead to; shorts and items are then read and written byte by byte,
/// high byte first, the second byte at the address that follows the first.
pub trait Memory: Sized {
    type AddressSpace: Address;

    /// The byte that a read of `addr` yields in this state.
    spec fn byte_at(&self, addr: Self::AddressSpace) -> u8;

    /// Whether writing `byte` to `addr` in this state may leave the memory as `after`.
    spec fn byte_written(&self, addr: Self::AddressSpace, byte: u8, after: &Self) -> bool;

    /// Reads the byte at `addr`.
    fn read_byte(&self, addr: Self::AddressSpace) -> (byte: u8)
        ensures
            byte == self.byte_at(addr),
    ;

    /// Writes `byte` at `addr`.
    fn write_byte(&mut self, addr: Self::AddressSpace, byte: u8)
        ensures
            old(self).byte_written(addr, byte, final(self)),
    ;

    /// Reads the big-endian short at `addr`.
    fn read_short(&self, addr: Self::AddressSpace) -> (short: u16)
        ensures
            short == short_of(self.byte_at(addr), self.byte_at(addr.next())),
    {
        let hi = self.read_byte(addr);
        let lo = self.read_byte(addr.successor());
        compose_short(hi, lo)
    }

    /// Writes `short` at `addr`, big-endian.
    fn write_short(&mut self, addr: Self::AddressSpace, short: u16)
        ensures
            exists|between: Self| #[trigger]
                old(self).byte_written(addr, high_byte(short), &between)
                    && between.byte_written(addr.next(), low_byte(short), final(self)),
    {
        let (hi, lo) = split_short(short);
        let ghost before = *self;
        self.write_byte(addr, hi);
        let ghost between = *self;
        self.write_byte(addr.successor(), lo);
        assert(before.byte_written(addr, high_byte(short), &between));
    }

    /// Reads an item of the given width at `addr`.
    fn read_memory(&self, addr: Self::AddressSpace, item_size: ItemSize) -> (item: Item)
        ensures
            item == match item_size {
                ItemSize::Byte => Item::Byte(self.byte_at(addr)),
                ItemSize::Short => Item::Short(
                    short_of(self.byte_at(addr), self.byte_at(addr.next())),
                ),
            },
    {
        match item_size {
            ItemSize::Byte => Item::Byte(self.read_byte(addr)),
            ItemSize::Short => Item::Short(self.read_short(addr)),
        }
    }

    /// Writes an item at `addr`.
    fn write_memory(&mut self, addr: Self::AddressSpace, item: Item)
        ensures
            match item {
                Item::Byte(byte) => old(self).byte_written(addr, byte, final(self)),
                Item::Short(short) => exists|between: Self| #[trigger]
                    old(self).byte_written(addr, high_byte(short), &between)
                        && between.byte_written(addr.next(), low_byte(short), final(self)),
            },
    {
        match item {
            Item::Byte(byte) => self.write_byte(addr, byte),
            Item::Short(short) => self.write_short(addr, short),
        }
    }
}

/// The big-endian short that a read of `addr` yields.
pub open spec fn short_at<M: Memory>(memory: &M, addr: M::AddressSpace) -> u16 {
    short_of(memory.byte_at(addr), memory.byte_at(addr.next()))
}

/// The item of the given width that a read of `addr` yields.
pub open spec fn item_at<M: Memory>(memory: &M, addr: M::AddressSpace, size: ItemSize) -> Item {
    match size {
        ItemSize::Byte => Item::Byte(memory.byte_at(addr)),
        ItemSize::Short => Item::Short(short_at(memory, addr)),
    }
}

/// Whether writing `short` at `addr` may take the memory from `before` to
/// `after`: the high byte is written first, then the low byte after it.
pub open spec fn short_written<M: Memory>(
    before: &M,
    addr: M::AddressSpace,
    short: u16,
    after: &M,
) -> bool {
    exists|between: M| #[trigger]
        before.byte_written(addr, high_byte(short), &between) && between.byte_written(
            addr.next(),
            low_byte(short),
            after,
        )
}

/// Whether writing `item` at `addr` may take the memory from `before` to `after`.
pub open spec fn item_written<M: Memory>(
    before: &M,
    addr: M::AddressSpace,
    item: Item,
    after: &M,
) -> bool {
    match item {
        Item::Byte(byte) => before.byte_written(addr, byte, after),
        Item::Short(short) => short_written(before, addr, short, after),
    }
}

/// Puts two bytes together, high byte first.
pub fn compose_short(hi: u8, lo: u8) -> (short: u16)
    ensures
        short == short_of(hi, lo),
        high_byte(short) == hi,
        low_byte(short) == lo,
{
    (hi as u16) * 0x100 + (lo as u16)
}

/// Takes a short apart into its high and its low byte.
pub fn split_short(short: u16) -> (bytes: (u8, u8))
    ensures
        bytes.0 == high_byte(short),
        bytes.1 == low_byte(short),
        short_of(bytes.0, bytes.1) == short,
{
    ((short / 0x100) as u8, (short % 0x100) as u8)
}

impl Item {
    /// Width of the item.
    pub open spec fn size(self) -> ItemSize {
        match self {
            Item::Byte(_) => ItemSize::Byte,
            Item::Short(_) => ItemSize::Short,
        }
    }

    /// The payload as an unsigned number.
    pub open spec fn value(self) -> int {
        match self {
            Item::Byte(n) => n as int,
            Item::Short(n) => n as int,
        }
    }

    /// The item of width `size` whose value is `value` reduced modulo the width.
    pub open spec fn wrap(size: ItemSize, value: int) -> Item {
        match size {
            ItemSize::Byte => Item::Byte((value % 0x100) as u8),
            ItemSize::Short => Item::Short((value % 0x1_0000) as u16),
        }
    }

    /// The item of width `size` that holds one.
    pub open spec fn one(size: ItemSize) -> Item {
        Item::wrap(size, 1)
    }

    /// The item one larger, wrapping at its width.
    pub open spec fn incremented(self) -> Item {
        Item::wrap(self.size(), self.value() + 1)
    }

    /// The remainder of `self` divided by `rhs`, at the width of `self`.
    pub open spec fn remainder(self, rhs: Item) -> Item {
        Item::wrap(self.size(), self.value() % rhs.value())
    }

    /// The value after a zero-filling right shift by `right` bits followed by a
    /// zero-filling left shift by `left` bits, bits leaving the width being lost.
    pub open spec fn shifted(self, left: u8, right: u8) -> Item {
        Item::wrap(
            self.size(),
            (self.value() / pow2(right as nat) as int) * pow2(left as nat) as int,
        )
    }

    /// Adds one, wrapping at the item's width.
    pub fn increment(self) -> (r: Item)
        ensures
            r == self.incremented(),
            r == self.add_spec(Item::one(self.size())),
    {
        match self {
            Item::Byte(n) => Item::Byte(n.wrapping_add(1)),
            Item::Short(n) => Item::Short(n.wrapping_add(1)),
        }
    }

    /// Shifts right by `right` bits, then left by `left` bits. Both shifts fill
    /// with zeros, and a shift by the item's width or more gives zero.
    pub fn shift(self, left: u8, right: u8) -> (r: Item)
        ensures
            r == self.shifted(left, right),
    {
        match self {
            Item::Byte(n) => {
                let lowered: u8 = if right >= 8 { 0 } else { n >> right };
                let raised: u8 = if left >= 8 { 0 } else { lowered << left };
                proof {
                    lemma_shift_byte(n, left, right);
                }
                Item::Byte(raised)
            },
            Item::Short(n) => {
                let lowered: u16 = if right >= 16 { 0 } else { n >> (right as u16) };
                let raised: u16 = if left >= 16 { 0 } else { lowered << (left as u16) };
                proof {
                    lemma_shift_short(n, left, right);
                }
                Item::Short(raised)
            },
        }
    }
}

/// The shifts on a byte agree with division by, and multiplication with, powers of two.
proof fn lemma_shift_byte(n: u8, left: u8, right: u8)
    ensures
        ({
            let lowered: u8 = if right >= 8 { 0 } else { n >> right };
            let raised: u8 = if left >= 8 { 0 } else { lowered << left };
            raised == ((n as int / pow2(right as nat) as int) * pow2(left as nat) as int) % 0x100
        }),
{
    lemma2_to64();
    lemma_pow2_pos(right as nat);
    let lowered: u8 = if right >= 8 { 0 } else { n >> right };
    assert(lowered as int == n as int / pow2(right as nat) as int) by {
        if right >= 8 {
            if right > 8 {
                lemma_pow2_strictly_increases(8, right as nat);
            }
            lemma_basic_div(n as int, pow2(right as nat) as int);
        } else {
            lemma_u8_shr_is_div(n, right);
        }
    }
    let p = pow2(left as nat) as int;
    if left >= 8 {
        let k = pow2((left - 8) as nat) as int;
        lemma_pow2_adds(8, (left - 8) as nat);
        assert(lowered * p == (lowered * k) * 0x100) by (nonlinear_arith)
            requires
                p == 0x100 * k,
        ;
        lemma_mod_multiples_basic(lowered * k, 0x100);
    } else {
        let wide: u16 = lowered as u16;
        let amount: u16 = left as u16;
        lemma_pow2_strictly_increases(left as nat, 8);
        assert(wide * p <= 0xffff) by (nonlinear_arith)
            requires
                0 <= wide <= 0xff,
                0 < p <= 0xff,
        ;
        lemma_u16_shl_is_mul(wide, amount);
        assert(lowered << left == (wide << amount) % 0x100) by (bit_vector)
            requires
                left < 8,
                wide == lowered as u16,
                amount == left as u16,
        ;
    }
}

/// The shifts on a short agree with division by, and multiplication with, powers of two.
proof fn lemma_shift_short(n: u16, left: u8, right: u8)
    ensures
        ({
            let lowered: u16 = if right >= 16 { 0 } else { n >> (right as u16) };
            let raised: u16 = if left >= 16 { 0 } else { lowered << (left as u16) };
            raised == ((n as int / pow2(right as nat) as int) * pow2(left as nat) as int) % 0x1_0000
        }),
{
    lemma2_to64();
    lemma_pow2_pos(right as nat);
    let lowered: u16 = if right >= 16 { 0 } else { n >> (right as u16) };
    assert(lowered as int == n as int / pow2(right as nat) as int) by {
        if right >= 16 {
            if right > 16 {
                lemma_pow2_strictly_increases(16, right as nat);
            }
            lemma_basic_div(n as int, pow2(right as nat) as int);
        } else {
            lemma_u16_shr_is_div(n, right as u16);
        }
    }
    let p = pow2(left as nat) as int;
    if left >= 16 {
        let k = pow2((left - 16) as nat) as int;
        lemma_pow2_adds(16, (left - 16) as nat);
        assert(lowered * p == (lowered * k) * 0x1_0000) by (nonlinear_arith)
            requires
                p == 0x1_0000 * k,
        ;
        lemma_mod_multiples_basic(lowered * k, 0x1_0000);
    } else {
        let narrow: u16 = left as u16;
        let wide: u32 = lowered as u32;
        let amount: u32 = left as u32;
        lemma_pow2_strictly_increases(left as nat, 16);
        assert(wide * p <= 0xffff_ffff) by (nonlinear_arith)
            requires
                0 <= wide <= 0xffff,
                0 < p <= 0xffff,
        ;
        lemma_u32_shl_is_mul(wide, amount);
        assert(lowered << narrow == (wide << amount) % 0x1_0000) by (bit_vector)
            requires
                narrow < 16,
                wide == lowered as u32,
                amount == narrow as u32,
        ;
    }
}

impl vstd::std_specs::ops::AddSpecImpl for Item {
    open spec fn obeys_add_spec() -> bool {
        true
    }

    open spec fn add_req(self, rhs: Item) -> bool {
        self.size() == rhs.size()
    }

    open spec fn add_spec(self, rhs: Item) -> Item {
        Item::wrap(self.size(), self.value() + rhs.value())
    }
}

impl Add for Item {
    type Output = Item;

    /// Sum of two items of one width, wrapping at that width.
    fn add(self, rhs: Item) -> (r: Item) {
        match (self, rhs) {
            (Item::Byte(a), Item::Byte(b)) => Item::Byte(a.wrapping_add(b)),
            (Item::Short(a), Item::Short(b)) => Item::Short(a.wrapping_add(b)),
            _ => self,
        }
    }
}

impl vstd::std_specs::ops::SubSpecImpl for Item {
    open spec fn obeys_sub_spec() -> bool {
        true
    }

    open spec fn sub_req(self, rhs: Item) -> bool {
        self.size() == rhs.size()
    }

    open spec fn sub_spec(self, rhs: Item) -> Item {
        Item::wrap(self.size(), self.value() - rhs.value())
    }
}

impl Sub for Item {
    type Output = Item;

    /// Difference of two items of one width, wrapping at that width.
    fn sub(self, rhs: Item) -> (r: Item) {
        match (self, rhs) {
            (Item::Byte(a), Item::Byte(b)) => Item::Byte(a.wrapping_sub(b)),
            (Item::Short(a), Item::Short(b)) => Item::Short(a.wrapping_sub(b)),
            _ => self,
        }
    }
}

impl vstd::std_specs::ops::MulSpecImpl for Item {
    open spec fn obeys_mul_spec() -> bool {
        true
    }

    open spec fn mul_req(self, rhs: Item) -> bool {
        self.size() == rhs.size()
    }

    open spec fn mul_spec(self, rhs: Item) -> Item {
        Item::wrap(self.size(), self.value() * rhs.value())
    }
}

impl Mul for Item {
    type Output = Item;

    /// Product of two items of one width, wrapping at that width.
    fn mul(self, rhs: Item) -> (r: Item) {
        match (self, rhs) {
            (Item::Byte(a), Item::Byte(b)) => Item::Byte(a.wrapping_mul(b)),
            (Item::Short(a), Item::Short(b)) => Item::Short(a.wrapping_mul(b)),
            _ => self,
        }
    }
}

impl vstd::std_specs::ops::DivSpecImpl for Item {
    open spec fn obeys_div_spec() -> bool {
        true
    }

    open spec fn div_req(self, rhs: Item) -> bool {
        self.size() == rhs.size()
    }

    open spec fn div_spec(self, rhs: Item) -> Item {
        Item::wrap(
            self.size(),
            if rhs.value() == 0 {
                0
            } else {
                self.value() / rhs.value()
            },
        )
    }
}

impl Div for Item {
    type Output = Item;

    /// Quotient of two items of one width. Division by zero gives zero.
    fn div(self, rhs: Item) -> (r: Item) {
        match (self, rhs) {
            (Item::Byte(a), Item::Byte(b)) => {
                proof {
                    lemma_quotient_bounded(a as int, b as int);
                }
                Item::Byte(if b == 0 { 0 } else { a / b })
            },
            (Item::Short(a), Item::Short(b)) => {
                proof {
                    lemma_quotient_bounded(a as int, b as int);
                }
                Item::Short(if b == 0 { 0 } else { a / b })
            },
            _ => self,
        }
    }
}

/// A quotient of natural numbers is no larger than the dividend.
proof fn lemma_quotient_bounded(a: int, b: int)
    requires
        0 <= a,
        0 <= b,
    ensures
        b != 0 ==> 0 <= a / b <= a,
{
    if b != 0 {
        lemma_div_pos_is_pos(a, b);
        lemma_div_is_ordered_by_denominator(a, 1, b);
    }
}

impl vstd::std_specs::ops::BitAndSpecImpl for Item {
    open spec fn obeys_bitand_spec() -> bool {
        true
    }

    open spec fn bitand_req(self, rhs: Item) -> bool {
        self.size() == rhs.size()
    }

    open spec fn bitand_spec(self, rhs: Item) -> Item {
        match (self, rhs) {
            (Item::Byte(a), Item::Byte(b)) => Item::Byte(a & b),
            (Item::Short(a), Item::Short(b)) => Item::Short(a & b),
            _ => self,
        }
    }
}

impl BitAnd for Item {
    type Output = Item;

    /// Bitwise conjunction of two items of one width.
    fn bitand(self, rhs: Item) -> (r: Item) {
        match (self, rhs) {
            (Item::Byte(a), Item::Byte(b)) => Item::Byte(a & b),
            (Item::Short(a), Item::Short(b)) => Item::Short(a & b),
            _ => self,
        }
    }
}

impl vstd::std_specs::ops::BitOrSpecImpl for Item {
    open spec fn obeys_bitor_spec() -> bool {
        true
    }

    open spec fn bitor_req(self, rhs: Item) -> bool {
        self.size() == rhs.size()
    }

    open spec fn bitor_spec(self, rhs: Item) -> Item {
        match (self, rhs) {
            (Item::Byte(a), Item::Byte(b)) => Item::Byte(a | b),
            (Item::Short(a), Item::Short(b)) => Item::Short(a | b),
            _ => self,
        }
    }
}

impl BitOr for Item {
    type Output = Item;

    /// Bitwise disjunction of two items of one width.
    fn bitor(self, rhs: Item) -> (r: Item) {
        match (self, rhs) {
            (Item::Byte(a), Item::Byte(b)) => Item::Byte(a | b),
            (Item::Short(a), Item::Short(b)) => Item::Short(a | b),
            _ => self,
        }
    }
}

impl vstd::std_specs::ops::BitXorSpecImpl for Item {
    open spec fn obeys_bitxor_spec() -> bool {
        true
    }

    open spec fn bitxor_req(self, rhs: Item) -> bool {
        self.size() == rhs.size()
    }

    open spec fn bitxor_spec(self, rhs: Item) -> Item {
        match (self, rhs) {
            (Item::Byte(a), Item::Byte(b)) => Item::Byte(a ^ b),
            (Item::Short(a), Item::Short(b)) => Item::Short(a ^ b),
            _ => self,
        }
    }
}

impl BitXor for Item {
    type Output = Item;

    /// Bitwise exclusive disjunction of two items of one width.
    fn bitxor(self, rhs: Item) -> (r: Item) {
        match (self, rhs) {
            (Item::Byte(a), Item::Byte(b)) => Item::Byte(a ^ b),
            (Item::Short(a), Item::Short(b)) => Item::Short(a ^ b),
            _ => self,
        }
    }
}

impl vstd::std_specs::cmp::PartialOrdSpecImpl for Item {
    open spec fn obeys_partial_cmp_spec() -> bool {
        true
    }

    /// Bytes come before shorts; within one width the unsigned value decides.
    open spec fn partial_cmp_spec(&self, other: &Item) -> Option<Ordering> {
        if self.size() != other.size() {
            if self.size() == ItemSize::Byte {
                Some(Ordering::Less)
            } else {
                Some(Ordering::Greater)
            }
        } else if self.value() < other.value() {
            Some(Ordering::Less)
        } else if self.value() > other.value() {
            Some(Ordering::Greater)
        } else {
            Some(Ordering::Equal)
        }
    }
}

impl PartialOrd for Item {
    fn partial_cmp(&self, other: &Item) -> (r: Option<Ordering>) {
        match (*self, *other) {
            (Item::Byte(a), Item::Byte(b)) => Some(order_of_shorts(widen(a), widen(b))),
            (Item::Short(a), Item::Short(b)) => Some(order_of_shorts(a, b)),
            (Item::Byte(_), Item::Short(_)) => Some(Ordering::Less),
            (Item::Short(_), Item::Byte(_)) => Some(Ordering::Greater),
        }
    }
}

/// A byte as a short of the same value.
fn widen(byte: u8) -> (short: u16)
    ensures
        short == byte,
{
    byte as u16
}

/// How `a` stands to `b` as unsigned numbers.
fn order_of_shorts(a: u16, b: u16) -> (r: Ordering)
    ensures
        a < b ==> r == Ordering::Less,
        a > b ==> r == Ordering::Greater,
        a == b ==> r == Ordering::Equal,
{
    if a < b {
        Ordering::Less
    } else if a > b {
        Ordering::Greater
    } else {
        Ordering::Equal
    }
}

/// Incrementing an item is adding the one of its width.
pub proof fn lemma_increment_adds_one(x: Item)
    ensures
        x.incremented() == x.add_spec(Item::one(x.size())),
{
}

/// Quotient and remainder of natural numbers below a modulus stay below it,
/// and so does the quotient times the divisor; together they give the
/// dividend back.
proof fn lemma_quotient_and_remainder(x: int, y: int, modulus: int)
    requires
        0 <= x < modulus,
        0 < y < modulus,
    ensures
        0 <= x / y < modulus,
        0 <= x % y < modulus,
        0 <= (x / y) * y < modulus,
        (x / y) * y + x % y == x,
{
    lemma_quotient_bounded(x, y);
    lemma_fundamental_div_mod(x, y);
    lemma_mod_bound(x, y);
    assert((x / y) * y == y * (x / y)) by (nonlinear_arith);
}

/// For items `a` and `b` of one width with `b` not zero, the quotient times `b`
/// plus the remainder gives `a` back; with `b` zero the quotient is zero.
pub proof fn lemma_division_round_trip(a: Item, b: Item)
    requires
        a.size() == b.size(),
    ensures
        b.value() != 0 ==> a.div_spec(b).mul_spec(b).add_spec(a.remainder(b)) == a,
        b.value() == 0 ==> a.div_spec(b) == Item::wrap(a.size(), 0),
        b.value() == 0 ==> a.div_spec(b).value() == 0,
{
    if b.value() != 0 {
        let x = a.value();
        let y = b.value();
        let modulus: int = match a.size() {
            ItemSize::Byte => 0x100,
            ItemSize::Short => 0x1_0000,
        };
        lemma_quotient_and_remainder(x, y, modulus);
        let quotient = a.div_spec(b);
        lemma_small_mod((x / y) as nat, modulus as nat);
        assert(quotient.value() == x / y);
        let product = quotient.mul_spec(b);
        lemma_small_mod(((x / y) * y) as nat, modulus as nat);
        assert(product.value() == (x / y) * y);
        let remainder = a.remainder(b);
        lemma_small_mod((x % y) as nat, modulus as nat);
        assert(remainder.value() == x % y);
        lemma_small_mod(x as nat, modulus as nat);
        assert(product.add_spec(remainder).value() == x);
    }
}

} // verus!
