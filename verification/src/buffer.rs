//! A fixed-capacity byte buffer with big-endian accessors.
//!
//! The buffer is modelled by the sequence of its bytes. Every accessor is
//! described by the bytes that it reads or replaces; the volatile accessors
//! read and write the same bytes as the plain ones and differ only in the
//! memory fence that accompanies them.

use crate::bytes::{
    be_bytes, be_read_i16, be_read_i32, be_read_i64, be_read_u16, be_read_u32, be_read_u64,
    be_value, be_write_i16, be_write_i32, be_write_i64, be_write_u16, be_write_u32, be_write_u64,
    lemma_be_bytes_len, lemma_be_round_trip, lemma_radix_pow_values, lemma_signed_round_trip,
    pattern_of, radix_pow, signed_of,
};
use crate::fence::{memory_fence, FenceKind};
use crate::pow2::{is_rounded_power_of_two, max_power_of_two, round_to_power_of_two};
use vstd::prelude::*;
use vstd::slice::slice_subrange;

verus! {

/// The width in bytes of a 64-bit value.
pub const LONG_SIZE: usize = 8;

/// The width in bytes of a 32-bit value.
pub const INT_SIZE: usize = 4;

/// The width in bytes of a 16-bit value.
pub const SHORT_SIZE: usize = 2;

/// The offset just past a 64-bit value that starts at `position`.
pub fn calculate_offset_long(position: usize) -> (end: usize)
    requires
        position + LONG_SIZE <= usize::MAX,
    ensures
        end == position + LONG_SIZE,
{
    position + LONG_SIZE
}

/// The offset just past a 32-bit value that starts at `position`.
pub fn calculate_offset_32(position: usize) -> (end: usize)
    requires
        position + INT_SIZE <= usize::MAX,
    ensures
        end == position + INT_SIZE,
{
    position + INT_SIZE
}

/// The offset just past a 16-bit value that starts at `position`.
pub fn calculate_offset_16(position: usize) -> (end: usize)
    requires
        position + SHORT_SIZE <= usize::MAX,
    ensures
        end == position + SHORT_SIZE,
{
    position + SHORT_SIZE
}

/// The bytes `s` with those from `at` on replaced by `patch`.
pub open spec fn splice(s: Seq<u8>, at: int, patch: Seq<u8>) -> Seq<u8> {
    s.subrange(0, at) + patch + s.subrange(at + patch.len(), s.len() as int)
}

/// The `n` bytes of `s` that start at `at`.
pub open spec fn window(s: Seq<u8>, at: int, n: int) -> Seq<u8> {
    s.subrange(at, at + n)
}

/// `n` bytes that all equal `value`.
pub open spec fn filled(n: nat, value: u8) -> Seq<u8> {
    Seq::new(n, |i: int| value)
}

/// A patch that fits leaves the length alone, can be read back where it was
/// put, and leaves every byte outside it unchanged.
pub proof fn lemma_splice(s: Seq<u8>, at: int, patch: Seq<u8>)
    requires
        0 <= at,
        at + patch.len() <= s.len(),
    ensures
        splice(s, at, patch).len() == s.len(),
        window(splice(s, at, patch), at, patch.len() as int) == patch,
        forall|i: int|
            0 <= i < s.len() && !(at <= i < at + patch.len()) ==> splice(s, at, patch)[i] == s[i],
{
    assert(window(splice(s, at, patch), at, patch.len() as int) =~= patch);
}

/// An unsigned value of `n` bytes that is put at `at` is the value that a
/// get of the same width at `at` returns.
pub proof fn lemma_put_then_get_unsigned(s: Seq<u8>, at: int, value: nat, n: nat)
    requires
        0 <= at,
        at + n <= s.len(),
        value < radix_pow(n),
    ensures
        be_value(window(splice(s, at, be_bytes(value, n)), at, n as int)) == value,
{
    lemma_be_bytes_len(value, n);
    lemma_be_round_trip(value, n);
    lemma_splice(s, at, be_bytes(value, n));
}

/// A signed value of `n` bytes that is put at `at` is the value that a get
/// of the same width at `at` returns.
pub proof fn lemma_put_then_get_signed(s: Seq<u8>, at: int, value: int, n: nat)
    requires
        0 <= at,
        at + n <= s.len(),
        -(radix_pow(n) as int) <= 2 * value < radix_pow(n),
    ensures
        signed_of(be_value(window(splice(s, at, be_bytes(pattern_of(value, n), n)), at, n as int)), n)
            == value,
{
    lemma_signed_round_trip(value, n);
    lemma_put_then_get_unsigned(s, at, pattern_of(value, n), n);
}

/// A put changes no byte outside the `n` bytes at `at`, so a value stored
/// elsewhere is read back unchanged.
pub proof fn lemma_put_keeps_other_values(s: Seq<u8>, at: int, patch: Seq<u8>, other: int, n: int)
    requires
        0 <= at,
        at + patch.len() <= s.len(),
        0 <= other,
        0 <= n,
        other + n <= s.len(),
        other + n <= at || at + patch.len() <= other,
    ensures
        window(splice(s, at, patch), other, n) == window(s, other, n),
{
    lemma_splice(s, at, patch);
    assert(window(splice(s, at, patch), other, n) =~= window(s, other, n));
}

/// Offset-addressed access to a fixed block of bytes.
pub trait DirectByteBuffer {
    /// The bytes that the buffer holds.
    spec fn bytes(&self) -> Seq<u8>;

    /// The buffer's fields agree with each other.
    spec fn wf(&self) -> bool;

    /// The number of bytes in the buffer.
    fn capacity(&self) -> (c: usize)
        requires
            self.wf(),
        ensures
            c == self.bytes().len(),
    ;

    /// The largest message that the buffer takes: an eighth of its capacity.
    fn max_message_size(&self) -> (m: usize)
        requires
            self.wf(),
        ensures
            m == self.bytes().len() / 8,
    ;

    /// Reads the unsigned 64-bit value stored at `position`, most significant byte first.
    fn get_u64(&self, position: usize) -> (v: u64)
        requires
            self.wf(),
            position + 8 <= self.bytes().len(),
        ensures
            v as nat == be_value(window(self.bytes(), position as int, 8)),
    ;

    /// Stores `value` at `position` as 8 bytes, most significant byte first.
    fn put_u64(&mut self, position: usize, value: u64)
        requires
            old(self).wf(),
            position + 8 <= old(self).bytes().len(),
        ensures
            final(self).wf(),
            final(self).bytes() == splice(old(self).bytes(), position as int, be_bytes(value as nat, 8)),
            be_value(window(final(self).bytes(), position as int, 8)) == value,
    ;

    /// Reads the signed 64-bit value stored at `position`, most significant byte first.
    fn get_i64(&self, position: usize) -> (v: i64)
        requires
            self.wf(),
            position + 8 <= self.bytes().len(),
        ensures
            v as int == signed_of(be_value(window(self.bytes(), position as int, 8)), 8),
    ;

    /// Stores `value` at `position` as 8 bytes, most significant byte first.
    fn put_i64(&mut self, position: usize, value: i64)
        requires
            old(self).wf(),
            position + 8 <= old(self).bytes().len(),
        ensures
            final(self).wf(),
            final(self).bytes() == splice(old(self).bytes(), position as int, be_bytes(pattern_of(value as int, 8), 8)),
            signed_of(be_value(window(final(self).bytes(), position as int, 8)), 8) == value,
    ;

    /// Reads the unsigned 32-bit value stored at `position`, most significant byte first.
    fn get_u32(&self, position: usize) -> (v: u32)
        requires
            self.wf(),
            position + 4 <= self.bytes().len(),
        ensures
            v as nat == be_value(window(self.bytes(), position as int, 4)),
    ;

    /// Stores `value` at `position` as 4 bytes, most significant byte first.
    fn put_u32(&mut self, position: usize, value: u32)
        requires
            old(self).wf(),
            position + 4 <= old(self).bytes().len(),
        ensures
            final(self).wf(),
            final(self).bytes() == splice(old(self).bytes(), position as int, be_bytes(value as nat, 4)),
            be_value(window(final(self).bytes(), position as int, 4)) == value,
    ;

    /// Reads the signed 32-bit value stored at `position`, most significant byte first.
    fn get_i32(&self, position: usize) -> (v: i32)
        requires
            self.wf(),
            position + 4 <= self.bytes().len(),
        ensures
            v as int == signed_of(be_value(window(self.bytes(), position as int, 4)), 4),
    ;

    /// Stores `value` at `position` as 4 bytes, most significant byte first.
    fn put_i32(&mut self, position: usize, value: i32)
        requires
            old(self).wf(),
            position + 4 <= old(self).bytes().len(),
        ensures
            final(self).wf(),
            final(self).bytes() == splice(old(self).bytes(), position as int, be_bytes(pattern_of(value as int, 4), 4)),
            signed_of(be_value(window(final(self).bytes(), position as int, 4)), 4) == value,
    ;

    /// Reads the unsigned 16-bit value stored at `position`, most significant byte first.
    fn get_u16(&self, position: usize) -> (v: u16)
        requires
            self.wf(),
            position + 2 <= self.bytes().len(),
        ensures
            v as nat == be_value(window(self.bytes(), position as int, 2)),
    ;

    /// Stores `value` at `position` as 2 bytes, most significant byte first.
    fn put_u16(&mut self, position: usize, value: u16)
        requires
            old(self).wf(),
            position + 2 <= old(self).bytes().len(),
        ensures
            final(self).wf(),
            final(self).bytes() == splice(old(self).bytes(), position as int, be_bytes(value as nat, 2)),
            be_value(window(final(self).bytes(), position as int, 2)) == value,
    ;

    /// Reads the signed 16-bit value stored at `position`, most significant byte first.
    fn get_i16(&self, position: usize) -> (v: i16)
        requires
            self.wf(),
            position + 2 <= self.bytes().len(),
        ensures
            v as int == signed_of(be_value(window(self.bytes(), position as int, 2)), 2),
    ;

    /// Stores `value` at `position` as 2 bytes, most significant byte first.
    fn put_i16(&mut self, position: usize, value: i16)
        requires
            old(self).wf(),
            position + 2 <= old(self).bytes().len(),
        ensures
            final(self).wf(),
            final(self).bytes() == splice(old(self).bytes(), position as int, be_bytes(pattern_of(value as int, 2), 2)),
            signed_of(be_value(window(final(self).bytes(), position as int, 2)), 2) == value,
    ;

    /// The `length` bytes that start at `position`.
    fn get_bytes(&self, position: usize, length: usize) -> (out: &[u8])
        requires
            self.wf(),
            position + length <= self.bytes().len(),
        ensures
            out@ == window(self.bytes(), position as int, length as int),
    ;

    /// The `length` bytes that start at `position`, for writing. What is
    /// written through the slice replaces those bytes and no others.
    fn as_bytes_mut(&mut self, position: usize, length: usize) -> (out: &mut [u8])
        requires
            old(self).wf(),
            position + length <= old(self).bytes().len(),
        ensures
            out@ == window(old(self).bytes(), position as int, length as int),
            final(out)@.len() == length ==> final(self).wf() && final(self).bytes() == splice(
                old(self).bytes(),
                position as int,
                final(out)@,
            ),
    ;

    /// Sets each of the `length` bytes that start at `position` to `value`.
    fn set_bytes(&mut self, position: usize, length: usize, value: u8)
        requires
            old(self).wf(),
            position + length <= old(self).bytes().len(),
        ensures
            final(self).wf(),
            final(self).bytes() == splice(old(self).bytes(), position as int, filled(length as nat, value)),
    ;

    /// Copies `bytes` into the buffer, starting at `position`.
    fn write_bytes(&mut self, position: usize, bytes: &[u8])
        requires
            old(self).wf(),
            position + bytes@.len() <= old(self).bytes().len(),
        ensures
            final(self).wf(),
            final(self).bytes() == splice(old(self).bytes(), position as int, bytes@),
    ;
}

/// Access that is ordered against other threads by memory fences: an acquire
/// fence follows each volatile read and a release fence precedes each
/// volatile write.
pub trait AtomicByteBuffer: DirectByteBuffer {

    /// Reads the unsigned 64-bit value stored at `position` and then issues an acquire
    /// fence; the value is the one that `get_u64` reads.
    fn get_u64_volatile(&self, position: usize) -> (v: u64)
        requires
            self.wf(),
            position + 8 <= self.bytes().len(),
        ensures
            v as nat == be_value(window(self.bytes(), position as int, 8)),
    ;

    /// Issues a release fence and then stores `value` at `position`; the bytes
    /// written are those that `put_u64` writes.
    fn put_u64_volatile(&mut self, position: usize, value: u64)
        requires
            old(self).wf(),
            position + 8 <= old(self).bytes().len(),
        ensures
            final(self).wf(),
            final(self).bytes() == splice(old(self).bytes(), position as int, be_bytes(value as nat, 8)),
            be_value(window(final(self).bytes(), position as int, 8)) == value,
    ;

    /// Reads the signed 64-bit value stored at `position` and then issues an acquire
    /// fence; the value is the one that `get_i64` reads.
    fn get_i64_volatile(&self, position: usize) -> (v: i64)
        requires
            self.wf(),
            position + 8 <= self.bytes().len(),
        ensures
            v as int == signed_of(be_value(window(self.bytes(), position as int, 8)), 8),
    ;

    /// Issues a release fence and then stores `value` at `position`; the bytes
    /// written are those that `put_i64` writes.
    fn put_i64_volatile(&mut self, position: usize, value: i64)
        requires
            old(self).wf(),
            position + 8 <= old(self).bytes().len(),
        ensures
            final(self).wf(),
            final(self).bytes() == splice(old(self).bytes(), position as int, be_bytes(pattern_of(value as int, 8), 8)),
            signed_of(be_value(window(final(self).bytes(), position as int, 8)), 8) == value,
    ;

    /// Reads the unsigned 32-bit value stored at `position` and then issues an acquire
    /// fence; the value is the one that `get_u32` reads.
    fn get_u32_volatile(&self, position: usize) -> (v: u32)
        requires
            self.wf(),
            position + 4 <= self.bytes().len(),
        ensures
            v as nat == be_value(window(self.bytes(), position as int, 4)),
    ;

    /// Issues a release fence and then stores `value` at `position`; the bytes
    /// written are those that `put_u32` writes.
    fn put_u32_volatile(&mut self, position: usize, value: u32)
        requires
            old(self).wf(),
            position + 4 <= old(self).bytes().len(),
        ensures
            final(self).wf(),
            final(self).bytes() == splice(old(self).bytes(), position as int, be_bytes(value as nat, 4)),
            be_value(window(final(self).bytes(), position as int, 4)) == value,
    ;

    /// Reads the signed 32-bit value stored at `position` and then issues an acquire
    /// fence; the value is the one that `get_i32` reads.
    fn get_i32_volatile(&self, position: usize) -> (v: i32)
        requires
            self.wf(),
            position + 4 <= self.bytes().len(),
        ensures
            v as int == signed_of(be_value(window(self.bytes(), position as int, 4)), 4),
    ;

    /// Issues a release fence and then stores `value` at `position`; the bytes
    /// written are those that `put_i32` writes.
    fn put_i32_volatile(&mut self, position: usize, value: i32)
        requires
            old(self).wf(),
            position + 4 <= old(self).bytes().len(),
        ensures
            final(self).wf(),
            final(self).bytes() == splice(old(self).bytes(), position as int, be_bytes(pattern_of(value as int, 4), 4)),
            signed_of(be_value(window(final(self).bytes(), position as int, 4)), 4) == value,
    ;
}

/// A byte buffer whose capacity is a power of two.
pub struct AtomicByteBufferInt {
    capacity: usize,
    buffer: Vec<u8>,
    max_message_size: usize,
}

impl View for AtomicByteBufferInt {
    type V = Seq<u8>;

    open spec fn view(&self) -> Seq<u8> {
        self.bytes()
    }
}

/// The `end - start` bytes of `buffer` that start at `start`, for writing.
fn sub_slice_mut(buffer: &mut Vec<u8>, start: usize, end: usize) -> (target: &mut [u8])
    requires
        start <= end <= old(buffer)@.len(),
    ensures
        target@ == old(buffer)@.subrange(start as int, end as int),
        final(buffer)@ == old(buffer)@.subrange(0, start as int) + final(target)@ + old(buffer)@.subrange(
            end as int,
            old(buffer)@.len() as int,
        ),
{
    let whole = buffer.as_mut_slice();
    let (_, rest) = whole.split_at_mut(start);
    let (target, _) = rest.split_at_mut(end - start);
    target
}

impl AtomicByteBufferInt {
    /// A zero-filled buffer whose capacity is `size` rounded up to the next
    /// power of two.
    pub fn new(size: usize) -> (buffer: Self)
        requires
            size <= max_power_of_two(),
        ensures
            buffer.wf(),
            is_rounded_power_of_two(size as nat, buffer@.len()),
            buffer@ == filled(buffer@.len(), 0),
    {
        let correct_size = round_to_power_of_two(size);
        let buffer = vec![0u8; correct_size];
        let max_message_size = correct_size >> 3;
        assert(correct_size >> 3 == correct_size / 8) by (bit_vector);
        assert(buffer@ =~= filled(correct_size as nat, 0));
        AtomicByteBufferInt { capacity: correct_size, buffer, max_message_size }
    }

    /// The capacity of a buffer is a power of two.
    pub proof fn lemma_capacity_is_power_of_two(&self)
        requires
            self.wf(),
        ensures
            vstd::arithmetic::power2::is_pow2(self@.len() as int),
    {
    }
}

impl DirectByteBuffer for AtomicByteBufferInt {
    closed spec fn bytes(&self) -> Seq<u8> {
        self.buffer@
    }

    closed spec fn wf(&self) -> bool {
        &&& self.buffer@.len() == self.capacity
        &&& self.max_message_size == self.capacity / 8
        &&& vstd::arithmetic::power2::is_pow2(self.capacity as int)
    }

    fn capacity(&self) -> (c: usize) {
        self.capacity
    }

    fn max_message_size(&self) -> (m: usize) {
        self.max_message_size
    }

    /// Reads the unsigned 64-bit value stored at `position`, most significant byte first.
    fn get_u64(&self, position: usize) -> (v: u64)
    {
        let end = calculate_offset_long(position);
        let bytes = slice_subrange(self.buffer.as_slice(), position, end);
        assert(bytes@.subrange(0, 8) =~= window(self.bytes(), position as int, 8));
        let v = be_read_u64(bytes);
        v
    }

    /// Stores `value` at `position` as 8 bytes, most significant byte first.
    fn put_u64(&mut self, position: usize, value: u64)
    {
        let ghost before = self.bytes();
        let end = calculate_offset_long(position);
        proof {
            lemma_radix_pow_values();
            lemma_be_bytes_len(value as nat, 8);
            lemma_be_round_trip(value as nat, 8);
            lemma_splice(before, position as int, be_bytes(value as nat, 8));
        }
        let target = sub_slice_mut(&mut self.buffer, position, end);
        be_write_u64(target, value);
        assert(self.buffer@ =~= splice(before, position as int, be_bytes(value as nat, 8)));
    }

    /// Reads the signed 64-bit value stored at `position`, most significant byte first.
    fn get_i64(&self, position: usize) -> (v: i64)
    {
        let end = calculate_offset_long(position);
        let bytes = slice_subrange(self.buffer.as_slice(), position, end);
        assert(bytes@.subrange(0, 8) =~= window(self.bytes(), position as int, 8));
        let v = be_read_i64(bytes);
        v
    }

    /// Stores `value` at `position` as 8 bytes, most significant byte first.
    fn put_i64(&mut self, position: usize, value: i64)
    {
        let ghost before = self.bytes();
        let end = calculate_offset_long(position);
        proof {
            lemma_radix_pow_values();
            lemma_be_bytes_len(pattern_of(value as int, 8), 8);
            lemma_signed_round_trip(value as int, 8);
            lemma_be_round_trip(pattern_of(value as int, 8), 8);
            lemma_splice(before, position as int, be_bytes(pattern_of(value as int, 8), 8));
        }
        let target = sub_slice_mut(&mut self.buffer, position, end);
        be_write_i64(target, value);
        assert(self.buffer@ =~= splice(before, position as int, be_bytes(pattern_of(value as int, 8), 8)));
    }

    /// Reads the unsigned 32-bit value stored at `position`, most significant byte first.
    fn get_u32(&self, position: usize) -> (v: u32)
    {
        let end = calculate_offset_32(position);
        let bytes = slice_subrange(self.buffer.as_slice(), position, end);
        assert(bytes@.subrange(0, 4) =~= window(self.bytes(), position as int, 4));
        let v = be_read_u32(bytes);
        v
    }

    /// Stores `value` at `position` as 4 bytes, most significant byte first.
    fn put_u32(&mut self, position: usize, value: u32)
    {
        let ghost before = self.bytes();
        let end = calculate_offset_32(position);
        proof {
            lemma_radix_pow_values();
            lemma_be_bytes_len(value as nat, 4);
            lemma_be_round_trip(value as nat, 4);
            lemma_splice(before, position as int, be_bytes(value as nat, 4));
        }
        let target = sub_slice_mut(&mut self.buffer, position, end);
        be_write_u32(target, value);
        assert(self.buffer@ =~= splice(before, position as int, be_bytes(value as nat, 4)));
    }

    /// Reads the signed 32-bit value stored at `position`, most significant byte first.
    fn get_i32(&self, position: usize) -> (v: i32)
    {
        let end = calculate_offset_32(position);
        let bytes = slice_subrange(self.buffer.as_slice(), position, end);
        assert(bytes@.subrange(0, 4) =~= window(self.bytes(), position as int, 4));
        let v = be_read_i32(bytes);
        v
    }

    /// Stores `value` at `position` as 4 bytes, most significant byte first.
    fn put_i32(&mut self, position: usize, value: i32)
    {
        let ghost before = self.bytes();
        let end = calculate_offset_32(position);
        proof {
            lemma_radix_pow_values();
            lemma_be_bytes_len(pattern_of(value as int, 4), 4);
            lemma_signed_round_trip(value as int, 4);
            lemma_be_round_trip(pattern_of(value as int, 4), 4);
            lemma_splice(before, position as int, be_bytes(pattern_of(value as int, 4), 4));
        }
        let target = sub_slice_mut(&mut self.buffer, position, end);
        be_write_i32(target, value);
        assert(self.buffer@ =~= splice(before, position as int, be_bytes(pattern_of(value as int, 4), 4)));
    }

    /// Reads the unsigned 16-bit value stored at `position`, most significant byte first.
    fn get_u16(&self, position: usize) -> (v: u16)
    {
        let end = calculate_offset_16(position);
        let bytes = slice_subrange(self.buffer.as_slice(), position, end);
        assert(bytes@.subrange(0, 2) =~= window(self.bytes(), position as int, 2));
        let v = be_read_u16(bytes);
        v
    }

    /// Stores `value` at `position` as 2 bytes, most significant byte first.
    fn put_u16(&mut self, position: usize, value: u16)
    {
        let ghost before = self.bytes();
        let end = calculate_offset_16(position);
        proof {
            lemma_radix_pow_values();
            lemma_be_bytes_len(value as nat, 2);
            lemma_be_round_trip(value as nat, 2);
            lemma_splice(before, position as int, be_bytes(value as nat, 2));
        }
        let target = sub_slice_mut(&mut self.buffer, position, end);
        be_write_u16(target, value);
        assert(self.buffer@ =~= splice(before, position as int, be_bytes(value as nat, 2)));
    }

    /// Reads the signed 16-bit value stored at `position`, most significant byte first.
    fn get_i16(&self, position: usize) -> (v: i16)
    {
        let end = calculate_offset_16(position);
        let bytes = slice_subrange(self.buffer.as_slice(), position, end);
        assert(bytes@.subrange(0, 2) =~= window(self.bytes(), position as int, 2));
        let v = be_read_i16(bytes);
        v
    }

    /// Stores `value` at `position` as 2 bytes, most significant byte first.
    fn put_i16(&mut self, position: usize, value: i16)
    {
        let ghost before = self.bytes();
        let end = calculate_offset_16(position);
        proof {
            lemma_radix_pow_values();
            lemma_be_bytes_len(pattern_of(value as int, 2), 2);
            lemma_signed_round_trip(value as int, 2);
            lemma_be_round_trip(pattern_of(value as int, 2), 2);
            lemma_splice(before, position as int, be_bytes(pattern_of(value as int, 2), 2));
        }
        let target = sub_slice_mut(&mut self.buffer, position, end);
        be_write_i16(target, value);
        assert(self.buffer@ =~= splice(before, position as int, be_bytes(pattern_of(value as int, 2), 2)));
    }

    fn get_bytes(&self, position: usize, length: usize) -> (out: &[u8]) {
        slice_subrange(self.buffer.as_slice(), position, position + length)
    }

    fn as_bytes_mut(&mut self, position: usize, length: usize) -> (out: &mut [u8]) {
        sub_slice_mut(&mut self.buffer, position, position + length)
    }

    fn set_bytes(&mut self, position: usize, length: usize, value: u8) {
        let ghost before = self.buffer@;
        let mut i: usize = 0;
        while i < length
            invariant
                i <= length,
                position + length <= before.len(),
                self.buffer.len() == before.len(),
                self.capacity == old(self).capacity,
                self.max_message_size == old(self).max_message_size,
                self.buffer@ =~= splice(before, position as int, filled(i as nat, value)),
            decreases length - i,
        {
            self.buffer[position + i] = value;
            i = i + 1;
        }
    }

    fn write_bytes(&mut self, position: usize, bytes: &[u8]) {
        let ghost before = self.buffer@;
        let mut i: usize = 0;
        while i < bytes.len()
            invariant
                i <= bytes@.len(),
                position + bytes@.len() <= before.len(),
                self.buffer.len() == before.len(),
                self.capacity == old(self).capacity,
                self.max_message_size == old(self).max_message_size,
                self.buffer@ =~= splice(before, position as int, bytes@.subrange(0, i as int)),
            decreases bytes@.len() - i,
        {
            self.buffer[position + i] = bytes[i];
            i = i + 1;
        }
        assert(bytes@.subrange(0, i as int) =~= bytes@);
    }
}

impl AtomicByteBuffer for AtomicByteBufferInt {
    fn get_u64_volatile(&self, position: usize) -> (v: u64) {
        let v = self.get_u64(position);
        memory_fence(FenceKind::Acquire);
        v
    }

    fn put_u64_volatile(&mut self, position: usize, value: u64) {
        memory_fence(FenceKind::Release);
        self.put_u64(position, value)
    }

    fn get_i64_volatile(&self, position: usize) -> (v: i64) {
        let v = self.get_i64(position);
        memory_fence(FenceKind::Acquire);
        v
    }

    fn put_i64_volatile(&mut self, position: usize, value: i64) {
        memory_fence(FenceKind::Release);
        self.put_i64(position, value)
    }

    fn get_u32_volatile(&self, position: usize) -> (v: u32) {
        let v = self.get_u32(position);
        memory_fence(FenceKind::Acquire);
        v
    }

    fn put_u32_volatile(&mut self, position: usize, value: u32) {
        memory_fence(FenceKind::Release);
        self.put_u32(position, value)
    }

    fn get_i32_volatile(&self, position: usize) -> (v: i32) {
        let v = self.get_i32(position);
        memory_fence(FenceKind::Acquire);
        v
    }

    fn put_i32_volatile(&mut self, position: usize, value: i32) {
        memory_fence(FenceKind::Release);
        self.put_i32(position, value)
    }
}

} // verus!
