//! Fixed-width integer reads and writes of the `byteorder` crate.
use crate::wire::{be_bytes, be_value, le_bytes};
use byteorder::{BigEndian, ByteOrder, LittleEndian};
use vstd::prelude::*;

verus! {

/// `BigEndian::read_u16`: the first two bytes of `buf`, most significant
/// first. It panics on a shorter slice.
#[verifier::external_body]
pub(crate) fn be_read_u16(buf: &[u8]) -> (r: u16)
    requires
        buf@.len() >= 2,
    ensures
        r == be_value(buf@.take(2)),
{
    BigEndian::read_u16(buf)
}

/// `BigEndian::read_u32`: the first four bytes of `buf`, most significant
/// first. It panics on a shorter slice.
#[verifier::external_body]
pub(crate) fn be_read_u32(buf: &[u8]) -> (r: u32)
    requires
        buf@.len() >= 4,
    ensures
        r == be_value(buf@.take(4)),
{
    BigEndian::read_u32(buf)
}

/// `BigEndian::read_u64`: the first eight bytes of `buf`, most significant
/// first. It panics on a shorter slice.
#[verifier::external_body]
pub(crate) fn be_read_u64(buf: &[u8]) -> (r: u64)
    requires
        buf@.len() >= 8,
    ensures
        r == be_value(buf@.take(8)),
{
    BigEndian::read_u64(buf)
}

/// `BigEndian::write_u16`: overwrites the first two bytes of `buf` with `n`,
/// most significant first. It panics on a shorter buffer.
#[verifier::external_body]
pub(crate) fn be_write_u16(buf: &mut Vec<u8>, n: u16)
    requires
        old(buf)@.len() >= 2,
    ensures
        final(buf)@ == be_bytes(n as nat, 2) + old(buf)@.skip(2),
{
    BigEndian::write_u16(&mut buf[..], n)
}

/// `LittleEndian::write_u16`: overwrites the first two bytes of `buf` with
/// `n`, least significant first. It panics on a shorter buffer.
#[verifier::external_body]
pub(crate) fn le_write_u16(buf: &mut Vec<u8>, n: u16)
    requires
        old(buf)@.len() >= 2,
    ensures
        final(buf)@ == le_bytes(n as nat, 2) + old(buf)@.skip(2),
{
    LittleEndian::write_u16(&mut buf[..], n)
}

/// `LittleEndian::write_u32`: overwrites the first four bytes of `buf` with
/// `n`, least significant first. It panics on a shorter buffer.
#[verifier::external_body]
pub(crate) fn le_write_u32(buf: &mut Vec<u8>, n: u32)
    requires
        old(buf)@.len() >= 4,
    ensures
        final(buf)@ == le_bytes(n as nat, 4) + old(buf)@.skip(4),
{
    LittleEndian::write_u32(&mut buf[..], n)
}

/// `LittleEndian::write_u64`: overwrites the first eight bytes of `buf` with
/// `n`, least significant first. It panics on a shorter buffer.
#[verifier::external_body]
pub(crate) fn le_write_u64(buf: &mut Vec<u8>, n: u64)
    requires
        old(buf)@.len() >= 8,
    ensures
        final(buf)@ == le_bytes(n as nat, 8) + old(buf)@.skip(8),
{
    LittleEndian::write_u64(&mut buf[..], n)
}

} // verus!
