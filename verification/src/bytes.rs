//! Big-endian encoding of fixed-width integers, as a mathematical model and
//! as calls into the `byteorder` crate.

use byteorder::{BigEndian, ByteOrder};
use vstd::prelude::*;

verus! {

/// `256` to the power `n`: the number of values that `n` bytes can hold.
pub open spec fn radix_pow(n: nat) -> nat
    decreases n,
{
    if n == 0 {
        1
    } else {
        256 * radix_pow((n - 1) as nat)
    }
}

/// The number that the bytes `s` spell, most significant byte first.
pub open spec fn be_value(s: Seq<u8>) -> nat
    decreases s.len(),
{
    if s.len() == 0 {
        0
    } else {
        be_value(s.drop_last()) * 256 + s.last() as nat
    }
}

/// The `n` bytes that spell the low `n` bytes of `v`, most significant first.
pub open spec fn be_bytes(v: nat, n: nat) -> Seq<u8>
    decreases n,
{
    if n == 0 {
        Seq::empty()
    } else {
        be_bytes(v / 256, (n - 1) as nat).push((v % 256) as u8)
    }
}

/// The two's complement reading of an `n`-byte pattern `v`.
pub open spec fn signed_of(v: nat, n: nat) -> int {
    if 2 * v >= radix_pow(n) {
        v - radix_pow(n)
    } else {
        v as int
    }
}

/// The `n`-byte two's complement pattern of `i`.
pub open spec fn pattern_of(i: int, n: nat) -> nat {
    if i < 0 {
        (i + radix_pow(n)) as nat
    } else {
        i as nat
    }
}

/// The bytes that follow the first `n` bytes of `s`.
pub open spec fn tail_from(s: Seq<u8>, n: int) -> Seq<u8> {
    s.subrange(n, s.len() as int)
}

/// The values of `radix_pow` at the widths that this library encodes.
pub proof fn lemma_radix_pow_values()
    ensures
        radix_pow(0) == 1,
        radix_pow(2) == 0x1_0000,
        radix_pow(4) == 0x1_0000_0000,
        radix_pow(8) == 0x1_0000_0000_0000_0000,
{
    reveal_with_fuel(radix_pow, 9);
}

/// An encoding has as many bytes as were asked for.
pub proof fn lemma_be_bytes_len(v: nat, n: nat)
    ensures
        be_bytes(v, n).len() == n,
    decreases n,
{
    if n > 0 {
        lemma_be_bytes_len(v / 256, (n - 1) as nat);
    }
}

/// Decoding what was encoded gives the number back, when it fits the width.
pub proof fn lemma_be_round_trip(v: nat, n: nat)
    requires
        v < radix_pow(n),
    ensures
        be_value(be_bytes(v, n)) == v,
    decreases n,
{
    if n > 0 {
        let rest = be_bytes(v / 256, (n - 1) as nat);
        let r = radix_pow((n - 1) as nat);
        assert(v / 256 < r) by (nonlinear_arith)
            requires
                v < 256 * r,
        ;
        lemma_be_round_trip(v / 256, (n - 1) as nat);
        assert(be_bytes(v, n).drop_last() =~= rest);
    }
}

/// A two's complement pattern read back as a signed number is that number.
pub proof fn lemma_signed_round_trip(i: int, n: nat)
    requires
        -(radix_pow(n) as int) <= 2 * i < radix_pow(n),
    ensures
        pattern_of(i, n) < radix_pow(n),
        signed_of(pattern_of(i, n), n) == i,
{
}

/// `byteorder::BigEndian::read_u64`: the first 8 bytes of `buf`, read most
/// significant byte first. The call panics on a shorter slice, which the
/// precondition leaves out.
#[verifier::external_body]
pub(crate) fn be_read_u64(buf: &[u8]) -> (v: u64)
    requires
        buf@.len() >= 8,
    ensures
        v as nat == be_value(buf@.subrange(0, 8)),
{
    BigEndian::read_u64(buf)
}

/// `byteorder::BigEndian::read_i64`: the first 8 bytes of `buf`, read most
/// significant byte first as a two's complement number. The call panics on
/// a shorter slice, which the precondition leaves out.
#[verifier::external_body]
pub(crate) fn be_read_i64(buf: &[u8]) -> (v: i64)
    requires
        buf@.len() >= 8,
    ensures
        v as int == signed_of(be_value(buf@.subrange(0, 8)), 8),
{
    BigEndian::read_i64(buf)
}

/// `byteorder::BigEndian::write_u64`: overwrites the first 8 bytes of `buf`
/// with `value`, most significant byte first, and leaves the rest alone. The
/// call panics on a shorter slice, which the precondition leaves out.
#[verifier::external_body]
pub(crate) fn be_write_u64(buf: &mut [u8], value: u64)
    requires
        old(buf)@.len() >= 8,
    ensures
        final(buf)@ == be_bytes(value as nat, 8) + tail_from(old(buf)@, 8),
{
    BigEndian::write_u64(buf, value)
}

/// `byteorder::BigEndian::write_i64`: overwrites the first 8 bytes of `buf`
/// with the two's complement pattern of `value`, most significant byte first,
/// and leaves the rest alone. The call panics on a shorter slice, which the
/// precondition leaves out.
#[verifier::external_body]
pub(crate) fn be_write_i64(buf: &mut [u8], value: i64)
    requires
        old(buf)@.len() >= 8,
    ensures
        final(buf)@ == be_bytes(pattern_of(value as int, 8), 8) + tail_from(old(buf)@, 8),
{
    BigEndian::write_i64(buf, value)
}

/// `byteorder::BigEndian::read_u32`: the first 4 bytes of `buf`, read most
/// significant byte first. The call panics on a shorter slice, which the
/// precondition leaves out.
#[verifier::external_body]
pub(crate) fn be_read_u32(buf: &[u8]) -> (v: u32)
    requires
        buf@.len() >= 4,
    ensures
        v as nat == be_value(buf@.subrange(0, 4)),
{
    BigEndian::read_u32(buf)
}

/// `byteorder::BigEndian::read_i32`: the first 4 bytes of `buf`, read most
/// significant byte first as a two's complement number. The call panics on
/// a shorter slice, which the precondition leaves out.
#[verifier::external_body]
pub(crate) fn be_read_i32(buf: &[u8]) -> (v: i32)
    requires
        buf@.len() >= 4,
    ensures
        v as int == signed_of(be_value(buf@.subrange(0, 4)), 4),
{
    BigEndian::read_i32(buf)
}

/// `byteorder::BigEndian::write_u32`: overwrites the first 4 bytes of `buf`
/// with `value`, most significant byte first, and leaves the rest alone. The
/// call panics on a shorter slice, which the precondition leaves out.
#[verifier::external_body]
pub(crate) fn be_write_u32(buf: &mut [u8], value: u32)
    requires
        old(buf)@.len() >= 4,
    ensures
        final(buf)@ == be_bytes(value as nat, 4) + tail_from(old(buf)@, 4),
{
    BigEndian::write_u32(buf, value)
}

/// `byteorder::BigEndian::write_i32`: overwrites the first 4 bytes of `buf`
/// with the two's complement pattern of `value`, most significant byte first,
/// and leaves the rest alone. The call panics on a shorter slice, which the
/// precondition leaves out.
#[verifier::external_body]
pub(crate) fn be_write_i32(buf: &mut [u8], value: i32)
    requires
        old(buf)@.len() >= 4,
    ensures
        final(buf)@ == be_bytes(pattern_of(value as int, 4), 4) + tail_from(old(buf)@, 4),
{
    BigEndian::write_i32(buf, value)
}

/// `byteorder::BigEndian::read_u16`: the first 2 bytes of `buf`, read most
/// significant byte first. The call panics on a shorter slice, which the
/// precondition leaves out.
#[verifier::external_body]
pub(crate) fn be_read_u16(buf: &[u8]) -> (v: u16)
    requires
        buf@.len() >= 2,
    ensures
        v as nat == be_value(buf@.subrange(0, 2)),
{
    BigEndian::read_u16(buf)
}

/// `byteorder::BigEndian::read_i16`: the first 2 bytes of `buf`, read most
/// significant byte first as a two's complement number. The call panics on
/// a shorter slice, which the precondition leaves out.
#[verifier::external_body]
pub(crate) fn be_read_i16(buf: &[u8]) -> (v: i16)
    requires
        buf@.len() >= 2,
    ensures
        v as int == signed_of(be_value(buf@.subrange(0, 2)), 2),
{
    BigEndian::read_i16(buf)
}

/// `byteorder::BigEndian::write_u16`: overwrites the first 2 bytes of `buf`
/// with `value`, most significant byte first, and leaves the rest alone. The
/// call panics on a shorter slice, which the precondition leaves out.
#[verifier::external_body]
pub(crate) fn be_write_u16(buf: &mut [u8], value: u16)
    requires
        old(buf)@.len() >= 2,
    ensures
        final(buf)@ == be_bytes(value as nat, 2) + tail_from(old(buf)@, 2),
{
    BigEndian::write_u16(buf, value)
}

/// `byteorder::BigEndian::write_i16`: overwrites the first 2 bytes of `buf`
/// with the two's complement pattern of `value`, most significant byte first,
/// and leaves the rest alone. The call panics on a shorter slice, which the
/// precondition leaves out.
#[verifier::external_body]
pub(crate) fn be_write_i16(buf: &mut [u8], value: i16)
    requires
        old(buf)@.len() >= 2,
    ensures
        final(buf)@ == be_bytes(pattern_of(value as int, 2), 2) + tail_from(old(buf)@, 2),
{
    BigEndian::write_i16(buf, value)
}

} // verus!
