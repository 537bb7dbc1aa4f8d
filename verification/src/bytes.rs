//! Byte strings: copying, and reading numbers in network order.
use vstd::prelude::*;

verus! {

/// The big-endian number in the two bytes at `at`.
pub open spec fn be16(bytes: Seq<u8>, at: int) -> int {
    bytes[at] * 256 + bytes[at + 1]
}

/// The big-endian number in the four bytes at `at`.
pub open spec fn be32(bytes: Seq<u8>, at: int) -> int {
    bytes[at] * 0x100_0000 + bytes[at + 1] * 0x1_0000 + bytes[at + 2] * 0x100 + bytes[at + 3]
}

/// The four bytes that hold `value` in network order.
pub open spec fn be32_bytes(value: int) -> Seq<u8> {
    seq![
        (value / 0x100_0000 % 256) as u8,
        (value / 0x1_0000 % 256) as u8,
        (value / 0x100 % 256) as u8,
        (value % 256) as u8,
    ]
}

/// Appends a byte string to another.
pub fn append(target: &mut Vec<u8>, bytes: &[u8])
    ensures
        final(target)@ == old(target)@ + bytes@,
{
    target.extend_from_slice(bytes);
    assert(target@ =~= old(target)@ + bytes@);
}

/// An owned copy of a byte string.
pub fn copy(bytes: &[u8]) -> (copied: Vec<u8>)
    ensures
        copied@ == bytes@,
{
    let mut copied: Vec<u8> = Vec::with_capacity(bytes.len());
    append(&mut copied, bytes);
    copied
}

/// Reads the big-endian number in the two bytes at `at`.
pub fn read_be16(bytes: &[u8], at: usize) -> (value: usize)
    requires
        at + 2 <= bytes@.len(),
    ensures
        value == be16(bytes@, at as int),
        value <= 0xffff,
{
    bytes[at] as usize * 256 + bytes[at + 1] as usize
}

/// Reads the big-endian number in the four bytes at `at`.
pub fn read_be32(bytes: &[u8], at: usize) -> (value: u32)
    requires
        at + 4 <= bytes@.len(),
    ensures
        value == be32(bytes@, at as int),
{
    bytes[at] as u32 * 0x100_0000 + bytes[at + 1] as u32 * 0x1_0000 + bytes[at + 2] as u32 * 0x100
        + bytes[at + 3] as u32
}

/// Appends the four bytes that hold `value` in network order.
pub fn append_be32(target: &mut Vec<u8>, value: u32)
    ensures
        final(target)@ == old(target)@ + be32_bytes(value as int),
{
    target.push((value / 0x100_0000) as u8);
    target.push((value / 0x1_0000 % 256) as u8);
    target.push((value / 0x100 % 256) as u8);
    target.push((value % 256) as u8);
    assert(value as int / 0x100_0000 % 256 == value as int / 0x100_0000);
    assert(target@ =~= old(target)@ + be32_bytes(value as int));
}

/// A number below two to the thirty-second comes back from the bytes that hold it.
pub proof fn lemma_be32_round_trip(value: int, rest: Seq<u8>)
    requires
        0 <= value < 0x1_0000_0000,
    ensures
        be32(be32_bytes(value) + rest, 0) == value,
{
    let bytes = be32_bytes(value) + rest;
    assert(bytes[0] == (value / 0x100_0000 % 256) as u8);
    assert(bytes[1] == (value / 0x1_0000 % 256) as u8);
    assert(bytes[2] == (value / 0x100 % 256) as u8);
    assert(bytes[3] == (value % 256) as u8);
}

/// Network order is most significant first: a number read from four bytes has them as
/// its digits to the base of 256, the first byte as the highest, and so has one read
/// from two bytes.
pub proof fn law_first_byte_weighs_most(bytes: Seq<u8>, at: int)
    ensures
        0 <= be32(bytes, at) < 0x1_0000_0000,
        be32(bytes, at) / 0x100_0000 == bytes[at],
        be32(bytes, at) / 0x1_0000 % 0x100 == bytes[at + 1],
        be32(bytes, at) / 0x100 % 0x100 == bytes[at + 2],
        be32(bytes, at) % 0x100 == bytes[at + 3],
        0 <= be16(bytes, at) < 0x1_0000,
        be16(bytes, at) / 0x100 == bytes[at],
        be16(bytes, at) % 0x100 == bytes[at + 1],
{
    let (a, b, c, d) = (
        bytes[at] as int,
        bytes[at + 1] as int,
        bytes[at + 2] as int,
        bytes[at + 3] as int,
    );
    let value = be32(bytes, at);
    lemma_quotient(value, 0x100_0000, a, b * 0x1_0000 + c * 0x100 + d);
    lemma_quotient(value, 0x1_0000, a * 0x100 + b, c * 0x100 + d);
    lemma_quotient(value, 0x100, a * 0x1_0000 + b * 0x100 + c, d);
    lemma_quotient(a * 0x100 + b, 0x100, a, b);
    lemma_quotient(a * 0x1_0000 + b * 0x100 + c, 0x100, a * 0x100 + b, c);
}

/// A number is its quotient times the divisor and a smaller rest.
proof fn lemma_quotient(value: int, divisor: int, quotient: int, rest: int)
    requires
        value == quotient * divisor + rest,
        0 <= rest < divisor,
    ensures
        value / divisor == quotient,
        value % divisor == rest,
{
    vstd::arithmetic::div_mod::lemma_fundamental_div_mod_converse(value, divisor, quotient, rest);
}

/// The bytes that hold a number weigh as much as the number: the first sixteen million
/// and some times, the last once.
pub proof fn law_bytes_weigh_as_the_number(value: int)
    requires
        0 <= value < 0x1_0000_0000,
    ensures
        be32_bytes(value).len() == 4,
        value == 0x100_0000 * be32_bytes(value)[0] + 0x1_0000 * be32_bytes(value)[1] + 0x100
            * be32_bytes(value)[2] + be32_bytes(value)[3],
{
}

} // verus!
