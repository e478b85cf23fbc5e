//! The wire layout of an action list, as a model over byte sequences.
//!
//! All integers are little-endian. A batch starts with a fixed header of
//! [`HAL_SIZE`] bytes:
//!
//! | offset | size | field                         |
//! |--------|------|-------------------------------|
//! | 0      | 4    | version                       |
//! | 4      | 4    | item count                    |
//! | 8      | 8    | compound id (ignored)         |
//! | 16     | 8    | batch flags                   |
//! | 24     | 4    | archive id                    |
//! | 28     | 4    | padding                       |
//!
//! The nul-terminated filesystem name follows, padded so that the first item
//! starts on an 8-byte boundary. Each item starts with a fixed header of
//! [`HAI_SIZE`] bytes:
//!
//! | offset | size | field                         |
//! |--------|------|-------------------------------|
//! | 0      | 4    | total length of the item      |
//! | 4      | 4    | action code                   |
//! | 8      | 16   | file identifier               |
//! | 24     | 16   | data file identifier          |
//! | 40     | 16   | extent (offset, length)       |
//! | 56     | 8    | cookie                        |
//! | 64     | 8    | group id                      |
//!
//! and carries `length - HAI_SIZE` payload bytes, then padding up to the next
//! 8-byte boundary.
use vstd::prelude::*;

verus! {

/// The only version of the batch header that is understood.
pub const HAL_VERSION: u32 = 1;

/// Size in bytes of the fixed part of the batch header.
pub const HAL_SIZE: usize = 32;

/// Size in bytes of the fixed part of an item.
pub const HAI_SIZE: usize = 72;

/// `n` rounded up to the next multiple of eight.
pub open spec fn align8(n: int) -> int {
    (n + 7) / 8 * 8
}

/// The padding that brings a length of `n` up to a multiple of eight.
pub open spec fn pad8(n: int) -> int {
    align8(n) - n
}

/// The little-endian value of the four bytes of `bytes` that start at `at`.
#[verifier::opaque]
pub open spec fn u32_at(bytes: Seq<u8>, at: int) -> u32 {
    (bytes[at] as int + bytes[at + 1] as int * 0x100 + bytes[at + 2] as int * 0x1_0000 + bytes[at
        + 3] as int * 0x100_0000) as u32
}

/// The little-endian value of the eight bytes of `bytes` that start at `at`.
#[verifier::opaque]
pub open spec fn u64_at(bytes: Seq<u8>, at: int) -> u64 {
    (u32_at(bytes, at) as int + u32_at(bytes, at + 4) as int * 0x1_0000_0000) as u64
}

/// The four bytes that hold `value` in little-endian order.
#[verifier::opaque]
pub open spec fn u32_bytes(value: u32) -> Seq<u8> {
    seq![
        (value % 0x100) as u8,
        (value / 0x100 % 0x100) as u8,
        (value / 0x1_0000 % 0x100) as u8,
        (value / 0x100_0000) as u8,
    ]
}

/// The eight bytes that hold `value` in little-endian order.
#[verifier::opaque]
pub open spec fn u64_bytes(value: u64) -> Seq<u8> {
    u32_bytes((value % 0x1_0000_0000) as u32) + u32_bytes((value / 0x1_0000_0000) as u32)
}

/// `count` zero bytes.
pub open spec fn zeros(count: int) -> Seq<u8> {
    Seq::new(count as nat, |i: int| 0u8)
}

/// How many bytes an integer takes.
pub proof fn lemma_field_sizes()
    ensures
        forall|value: u32| #[trigger] u32_bytes(value).len() == 4,
        forall|value: u64| #[trigger] u64_bytes(value).len() == 8,
{
    reveal(u32_bytes);
    reveal(u64_bytes);
}

/// Bytes appended behind a field do not change it.
pub proof fn lemma_fields_of_prefix(front: Seq<u8>, back: Seq<u8>)
    ensures
        forall|at: int|
            0 <= at && at + 4 <= front.len() ==> #[trigger] u32_at(front + back, at) == u32_at(
                front,
                at,
            ),
        forall|at: int|
            0 <= at && at + 8 <= front.len() ==> #[trigger] u64_at(front + back, at) == u64_at(
                front,
                at,
            ),
{
    assert forall|at: int| 0 <= at && at + 4 <= front.len() implies #[trigger] u32_at(
        front + back,
        at,
    ) == u32_at(front, at) by {
        reveal(u32_at);
    }
    assert forall|at: int| 0 <= at && at + 8 <= front.len() implies #[trigger] u64_at(
        front + back,
        at,
    ) == u64_at(front, at) by {
        reveal(u64_at);
    }
}

/// A `u32` is the sum of its four base-256 digits, each with its weight.
proof fn lemma_u32_digits(value: u32)
    ensures
        value == value % 0x100 + (value / 0x100 % 0x100) * 0x100 + (value / 0x1_0000 % 0x100)
            * 0x1_0000 + (value / 0x100_0000) * 0x100_0000,
        value / 0x100_0000 < 0x100,
{
    assert(value == value % 0x100 + (value / 0x100 % 0x100) * 0x100 + (value / 0x1_0000 % 0x100)
        * 0x1_0000 + (value / 0x100_0000) * 0x100_0000) by (bit_vector);
}

/// Reading back what [`u32_bytes`] wrote gives the value.
pub proof fn lemma_u32_appended(before: Seq<u8>, value: u32)
    ensures
        u32_at(before + u32_bytes(value), before.len() as int) == value,
{
    let all = before + u32_bytes(value);
    let at = before.len() as int;
    lemma_u32_digits(value);
    assert(all[at] == value % 0x100 && all[at + 1] == value / 0x100 % 0x100 && all[at + 2] == value
        / 0x1_0000 % 0x100 && all[at + 3] == value / 0x100_0000) by {
        reveal(u32_bytes);
    }
    reveal(u32_at);
}

/// Reading back what [`u64_bytes`] wrote gives the value.
pub proof fn lemma_u64_appended(before: Seq<u8>, value: u64)
    ensures
        u64_at(before + u64_bytes(value), before.len() as int) == value,
{
    reveal(u64_at);
    reveal(u64_bytes);
    lemma_field_sizes();
    let low = (value % 0x1_0000_0000) as u32;
    let high = (value / 0x1_0000_0000) as u32;
    lemma_concat_assoc(before, u32_bytes(low), u32_bytes(high));
    lemma_u32_appended(before, low);
    lemma_fields_of_prefix(before + u32_bytes(low), u32_bytes(high));
    lemma_u32_appended(before + u32_bytes(low), high);
}

/// `n` rounded up to the next multiple of eight, computed with a mask.
pub(crate) fn round_up8(n: u64) -> (r: u64)
    requires
        n <= u64::MAX - 7,
    ensures
        r == align8(n as int),
{
    assert((n + 7) as u64 & !7u64 == (n + 7) as u64 / 8 * 8) by (bit_vector)
        requires
            n <= u64::MAX - 7,
    ;
    (n + 7) & !7u64
}

/// The padding that brings a length of `n` up to a multiple of eight.
pub fn padding8(n: usize) -> (padding: usize)
    ensures
        padding == pad8(n as int),
        padding < 8,
{
    (8 - n % 8) % 8
}

/// Concatenation does not depend on how it is grouped.
pub proof fn lemma_concat_assoc(a: Seq<u8>, b: Seq<u8>, c: Seq<u8>)
    ensures
        (a + b) + c == a + (b + c),
{
}

/// Reads the little-endian `u32` at `at`.
pub(crate) fn get_u32(bytes: &[u8], at: usize) -> (value: u32)
    requires
        at + 4 <= bytes.len(),
    ensures
        value == u32_at(bytes@, at as int),
{
    proof {
        reveal(u32_at);
    }
    let b0: u32 = bytes[at] as u32;
    let b1: u32 = bytes[at + 1] as u32;
    let b2: u32 = bytes[at + 2] as u32;
    let b3: u32 = bytes[at + 3] as u32;
    b0 + b1 * 0x100 + b2 * 0x1_0000 + b3 * 0x100_0000
}

/// Reads the little-endian `u64` at `at`.
pub(crate) fn get_u64(bytes: &[u8], at: usize) -> (value: u64)
    requires
        at + 8 <= bytes.len(),
    ensures
        value == u64_at(bytes@, at as int),
{
    proof {
        reveal(u64_at);
    }
    let low: u64 = get_u32(bytes, at) as u64;
    let high: u64 = get_u32(bytes, at + 4) as u64;
    low + high * 0x1_0000_0000
}

/// Appends the little-endian bytes of `value`.
pub fn put_u32(out: &mut Vec<u8>, value: u32)
    ensures
        final(out)@ == old(out)@ + u32_bytes(value),
{
    out.push((value % 0x100) as u8);
    out.push((value / 0x100 % 0x100) as u8);
    out.push((value / 0x1_0000 % 0x100) as u8);
    out.push((value / 0x100_0000) as u8);
    assert(out@ =~= old(out)@ + u32_bytes(value)) by {
        reveal(u32_bytes);
    }
}

/// Appends the little-endian bytes of `value`.
pub fn put_u64(out: &mut Vec<u8>, value: u64)
    ensures
        final(out)@ == old(out)@ + u64_bytes(value),
{
    put_u32(out, (value % 0x1_0000_0000) as u32);
    put_u32(out, (value / 0x1_0000_0000) as u32);
    assert(out@ =~= old(out)@ + u64_bytes(value)) by {
        reveal(u64_bytes);
    }
}

} // verus!
