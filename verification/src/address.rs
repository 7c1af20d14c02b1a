//! Address arithmetic for the machine's two address spaces: the 8-bit space of
//! device ports and the 16-bit space of main memory.

use vstd::prelude::*;

verus! {

/// Wrapping addition of bytes, done by `num_traits`.
///
/// Calls `<u8 as num_traits::ops::overflowing::OverflowingAdd>::overflowing_add`,
/// which hands the operands to `u8::overflowing_add`. The contract claims what
/// that method documents: the sum reduced modulo 256, and whether it was reduced.
#[verifier::external_body]
fn overflowing_add_byte(a: u8, b: u8) -> (r: (u8, bool))
    ensures
        r.0 == (a + b) % 0x100,
        r.1 == (a + b > u8::MAX),
{
    num_traits::ops::overflowing::OverflowingAdd::overflowing_add(&a, &b)
}

/// Wrapping addition of shorts, done by `num_traits`.
///
/// Calls `<u16 as num_traits::ops::overflowing::OverflowingAdd>::overflowing_add`,
/// which hands the operands to `u16::overflowing_add`. The contract claims what
/// that method documents: the sum reduced modulo 65536, and whether it was reduced.
#[verifier::external_body]
fn overflowing_add_short(a: u16, b: u16) -> (r: (u16, bool))
    ensures
        r.0 == (a + b) % 0x1_0000,
        r.1 == (a + b > u16::MAX),
{
    num_traits::ops::overflowing::OverflowingAdd::overflowing_add(&a, &b)
}

/// The multiplicative identity of bytes, asked of `num_traits`.
///
/// Calls `<u8 as num_traits::One>::one`, which returns the literal 1.
#[verifier::external_body]
fn one_byte() -> (r: u8)
    ensures
        r == 1,
{
    num_traits::One::one()
}

/// The multiplicative identity of shorts, asked of `num_traits`.
///
/// Calls `<u16 as num_traits::One>::one`, which returns the literal 1.
#[verifier::external_body]
fn one_short() -> (r: u16)
    ensures
        r == 1,
{
    num_traits::One::one()
}

/// An address in a space that wraps around at its end.
pub trait Address: Copy {
    /// Number of addresses in the space.
    spec fn space() -> int;

    /// Position of the address in its space.
    spec fn index(self) -> int;

    /// The address after this one; the last address is followed by the first.
    spec fn next(self) -> Self;

    /// Every address lies in its space, and `next` steps by one modulo the space.
    proof fn lemma_next(self)
        ensures
            0 <= self.index() < Self::space(),
            self.next().index() == (self.index() + 1) % Self::space(),
    ;

    /// Computes the address after this one.
    fn successor(self) -> (next: Self)
        ensures
            next == self.next(),
    ;
}

impl Address for u8 {
    open spec fn space() -> int {
        0x100
    }

    open spec fn index(self) -> int {
        self as int
    }

    open spec fn next(self) -> u8 {
        ((self + 1) % 0x100) as u8
    }

    proof fn lemma_next(self) {
    }

    fn successor(self) -> (next: u8) {
        overflowing_add_byte(self, one_byte()).0
    }
}

impl Address for u16 {
    open spec fn space() -> int {
        0x1_0000
    }

    open spec fn index(self) -> int {
        self as int
    }

    open spec fn next(self) -> u16 {
        ((self + 1) % 0x1_0000) as u16
    }

    proof fn lemma_next(self) {
    }

    fn successor(self) -> (next: u16) {
        overflowing_add_short(self, one_short()).0
    }
}

} // verus!
