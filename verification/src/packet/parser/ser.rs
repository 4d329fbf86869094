//! Writing records.
use super::error::Error;
use crate::wire::{be_bytes, lemma_be_bytes_len};
use vstd::prelude::*;
use vstd::utf8::encode_utf8;

verus! {

/// The bytes written for a string: its UTF-8 length plus one (modulo 256),
/// its UTF-8 bytes and a zero.
pub open spec fn spec_str_bytes(s: Seq<char>) -> Seq<u8> {
    seq![((encode_utf8(s).len() + 1) % 256) as u8] + encode_utf8(s) + seq![0u8]
}

/// Collects the bytes of a record.
pub struct Serializer {
    output: Vec<u8>,
}

impl View for Serializer {
    type V = Seq<u8>;

    /// The bytes written so far.
    closed spec fn view(&self) -> Seq<u8> {
        self.output@
    }
}

impl Serializer {
    /// A serializer that has written nothing.
    pub fn new() -> (r: Self)
        ensures
            r@ == Seq::<u8>::empty(),
    {
        Serializer { output: Vec::new() }
    }

    /// The bytes written.
    pub fn into_output(self) -> (r: Vec<u8>)
        ensures
            r@ == self@,
    {
        self.output
    }

    /// Writes one byte.
    pub fn serialize_u8(&mut self, v: u8) -> (r: Result<(), Error>)
        ensures
            r is Ok,
            final(self)@ == old(self)@.push(v),
    {
        self.output.push(v);
        Ok(())
    }

    /// Writes a character that fits in one byte (below 0x80) as that byte;
    /// any other character is refused and nothing is written.
    pub fn serialize_char(&mut self, v: char) -> (r: Result<(), Error>)
        ensures
            (v as u32) < 0x80 ==> r is Ok && final(self)@ == old(self)@.push((v as u32) as u8),
            (v as u32) >= 0x80 ==> r == Err::<(), Error>(Error::ExpectedU8Character) && final(self)@
                == old(self)@,
    {
        let code = v as u32;
        if code >= 0x80 {
            return Err(Error::ExpectedU8Character);
        }
        self.output.push(code as u8);
        Ok(())
    }

    /// Writes a string (see `spec_str_bytes`).
    pub fn serialize_str(&mut self, v: &str) -> (r: Result<(), Error>)
        ensures
            r is Ok,
            final(self)@ == old(self)@ + spec_str_bytes(v@),
    {
        let bytes = v.as_bytes();
        let str_len = bytes.len();
        self.output.push(((str_len % 256 + 1) % 256) as u8);
        let mut i: usize = 0;
        while i < bytes.len()
            invariant
                i <= bytes@.len(),
                bytes@ == encode_utf8(v@),
                self@ =~= old(self)@ + seq![((bytes@.len() + 1) % 256) as u8] + bytes@.take(
                    i as int,
                ),
            decreases bytes@.len() - i,
        {
            self.output.push(bytes[i]);
            i = i + 1;
        }
        self.output.push(0u8);
        assert(bytes@.take(bytes@.len() as int) =~= bytes@);
        assert(self@ =~= old(self)@ + spec_str_bytes(v@));
        Ok(())
    }

    /// Writes 1 for true and 0 for false.
    pub fn serialize_bool(&mut self, v: bool) -> (r: Result<(), Error>)
        ensures
            r is Ok,
            final(self)@ == old(self)@.push(if v {
                1u8
            } else {
                0u8
            }),
    {
        self.output.push(if v {
            1u8
        } else {
            0u8
        });
        Ok(())
    }

    /// Writes the bytes as they are.
    pub fn serialize_bytes(&mut self, v: &[u8]) -> (r: Result<(), Error>)
        ensures
            r is Ok,
            final(self)@ == old(self)@ + v@,
    {
        let mut i: usize = 0;
        while i < v.len()
            invariant
                i <= v@.len(),
                self@ =~= old(self)@ + v@.take(i as int),
            decreases v@.len() - i,
        {
            self.output.push(v[i]);
            i = i + 1;
        }
        assert(v@.take(v@.len() as int) =~= v@);
        Ok(())
    }

    /// Writes the `n` bytes of `v`, most significant first.
    fn push_be(&mut self, v: u128, n: usize)
        ensures
            final(self)@ == old(self)@ + be_bytes(v as nat, n as nat),
        decreases n,
    {
        if n > 0 {
            self.push_be(v / 256, n - 1);
            self.output.push((v % 256) as u8);
        }
        proof {
            if n > 0 {
                assert(be_bytes(v as nat, n as nat) =~= be_bytes((v / 256) as nat, (n - 1) as nat).push(
                    (v % 256) as u8,
                ));
            } else {
                assert(old(self)@ + be_bytes(v as nat, 0) =~= old(self)@);
            }
        }
    }

    /// Writes two bytes, most significant first.
    pub fn serialize_u16(&mut self, v: u16) -> (r: Result<(), Error>)
        ensures
            r is Ok,
            final(self)@ == old(self)@ + be_bytes(v as nat, 2),
    {
        self.push_be(v as u128, 2);
        Ok(())
    }

    /// Writes four bytes, most significant first.
    pub fn serialize_u32(&mut self, v: u32) -> (r: Result<(), Error>)
        ensures
            r is Ok,
            final(self)@ == old(self)@ + be_bytes(v as nat, 4),
    {
        self.push_be(v as u128, 4);
        Ok(())
    }

    /// Writes eight bytes, most significant first.
    pub fn serialize_u64(&mut self, v: u64) -> (r: Result<(), Error>)
        ensures
            r is Ok,
            final(self)@ == old(self)@ + be_bytes(v as nat, 8),
    {
        self.push_be(v as u128, 8);
        Ok(())
    }

    /// Writes sixteen bytes, most significant first.
    pub fn serialize_u128(&mut self, v: u128) -> (r: Result<(), Error>)
        ensures
            r is Ok,
            final(self)@ == old(self)@ + be_bytes(v as nat, 16),
    {
        self.push_be(v, 16);
        Ok(())
    }
}

} // verus!
