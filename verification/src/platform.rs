//! What the host platform fixes: its error numbers, its poll flags and its
//! byte order.

use crate::bytes::{bytes_of, le_bytes, ByteOrder};
use vstd::endian::{endianness, Endian};
use vstd::prelude::*;

verus! {

/// The number of the error "I/O error".
pub open spec fn eio_number() -> i32 {
    5
}

/// The poll flag "there is data to read".
pub open spec fn pollin_flag() -> i16 {
    1
}

/// `libc::EIO`, which is 5 on Linux, the platform that the bridged devices
/// belong to.
#[verifier::external_body]
pub(crate) fn eio() -> (r: i32)
    ensures
        r == eio_number(),
{
    libc::EIO
}

/// `libc::POLLIN`, which is 1 on Linux.
#[verifier::external_body]
pub(crate) fn pollin() -> (r: i16)
    ensures
        r == pollin_flag(),
{
    libc::POLLIN
}

/// The byte order of the machine that this runs on, which vstd calls
/// `endianness`. Which of the two it is, is left open.
pub open spec fn machine_order() -> ByteOrder {
    match endianness() {
        Endian::Little => ByteOrder::Little,
        Endian::Big => ByteOrder::Big,
    }
}

/// `u16::to_ne_bytes` of 1, which gives the two bytes of the number 1 in the
/// byte order of the machine.
#[verifier::external_body]
fn one_in_memory() -> (r: [u8; 2])
    ensures
        r@ == bytes_of(machine_order(), 1, 2),
{
    1u16.to_ne_bytes()
}

/// The byte order that `one` shows, the number 1 as a machine keeps it in two
/// bytes.
pub fn order_shown_by(one: [u8; 2]) -> (order: ByteOrder)
    ensures
        order == (if one@[0] == 1 {
            ByteOrder::Little
        } else {
            ByteOrder::Big
        }),
{
    if one[0] == 1 {
        ByteOrder::Little
    } else {
        ByteOrder::Big
    }
}

/// The byte order of the machine that this runs on.
pub fn host_byte_order() -> (order: ByteOrder)
    ensures
        order == machine_order(),
{
    let one = one_in_memory();
    proof {
        reveal_with_fuel(le_bytes, 3);
    }
    order_shown_by(one)
}

} // verus!
