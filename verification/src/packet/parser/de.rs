//! Reading records.
use super::error::Error;
use crate::text::string_from_utf8;
use crate::wire::{be_value, lemma_be_value_bound, lemma_pow256_values, pow256};
use vstd::prelude::*;
use vstd::slice::slice_subrange;
use vstd::utf8::{decode_utf8, valid_utf8};

verus! {

/// The text that the bytes `b` stand for, or the empty text when they are
/// not valid UTF-8.
pub open spec fn utf8_or_empty(b: Seq<u8>) -> Seq<char> {
    if valid_utf8(b) {
        decode_utf8(b)
    } else {
        Seq::empty()
    }
}

/// Reading `k` bytes one at a time: them and the rest of the input, or `Eof`
/// with the input used up.
pub open spec fn spec_take(input: Seq<u8>, k: nat) -> (Result<Seq<u8>, Error>, Seq<u8>) {
    if input.len() >= k {
        (Ok(input.take(k as int)), input.skip(k as int))
    } else {
        (Err(Error::Eof), Seq::empty())
    }
}

/// Reading a string: a length byte `l` (an error when 0), `l - 1` bytes of
/// text (invalid UTF-8 gives the empty text) and a terminating byte.
pub open spec fn spec_deserialize_string(input: Seq<u8>) -> (Result<Seq<char>, Error>, Seq<u8>) {
    if input.len() == 0 {
        (Err(Error::Eof), input)
    } else if input[0] == 0 {
        (Err(Error::ZeroStringLength), input.skip(1))
    } else if input.len() < input[0] + 1 {
        (Err(Error::Eof), Seq::empty())
    } else {
        (Ok(utf8_or_empty(input.subrange(1, input[0] as int))), input.skip(input[0] + 1))
    }
}

/// Reading a borrowed string: a length byte `l` and `l - 1` bytes of text
/// (invalid UTF-8 gives the empty text); no terminating byte is read.
pub open spec fn spec_deserialize_str(input: Seq<u8>) -> (Result<Seq<char>, Error>, Seq<u8>) {
    if input.len() == 0 {
        (Err(Error::Eof), input)
    } else if input.len() < input[0] {
        (Err(Error::Eof), Seq::empty())
    } else {
        (Ok(utf8_or_empty(input.subrange(1, input[0] as int))), input.skip(input[0] as int))
    }
}

/// Reads values from a byte slice, front to back.
pub struct Deserializer<'de> {
    input: &'de [u8],
}

impl<'de> View for Deserializer<'de> {
    type V = Seq<u8>;

    /// The bytes not read yet.
    closed spec fn view(&self) -> Seq<u8> {
        self.input@
    }
}

impl<'de> Deserializer<'de> {
    pub fn from_bytes(input: &'de [u8]) -> (r: Self)
        ensures
            r@ == input@,
    {
        Deserializer { input }
    }

    /// The next byte, without reading it.
    pub fn peek_byte(&mut self) -> (r: Result<u8, Error>)
        ensures
            final(self)@ == old(self)@,
            old(self)@.len() == 0 ==> r == Err::<u8, Error>(Error::Eof),
            old(self)@.len() > 0 ==> r == Ok::<u8, Error>(old(self)@[0]),
    {
        if self.input.len() == 0 {
            Err(Error::Eof)
        } else {
            Ok(self.input[0])
        }
    }

    /// Reads the next byte.
    pub fn next_byte(&mut self) -> (r: Result<u8, Error>)
        ensures
            old(self)@.len() == 0 ==> r == Err::<u8, Error>(Error::Eof) && final(self)@ == old(self)@,
            old(self)@.len() > 0 ==> r == Ok::<u8, Error>(old(self)@[0]) && final(self)@ == old(self)@.skip(1),
    {
        let byte = self.peek_byte()?;
        self.input = slice_subrange(self.input, 1, self.input.len());
        Ok(byte)
    }

    /// Reads a byte: true unless it is 0.
    pub fn parse_bool(&mut self) -> (r: Result<bool, Error>)
        ensures
            old(self)@.len() == 0 ==> r == Err::<bool, Error>(Error::Eof) && final(self)@ == old(self)@,
            old(self)@.len() > 0 ==> r == Ok::<bool, Error>(old(self)@[0] != 0) && final(self)@
                == old(self)@.skip(1),
    {
        let next_char = self.next_byte()?;
        Ok(next_char != 0)
    }

    /// Reads `k` bytes one at a time (see `spec_take`).
    fn take_bytes(&mut self, k: usize) -> (r: Result<Vec<u8>, Error>)
        ensures
            (match r {
                Ok(v) => Ok::<Seq<u8>, Error>(v@),
                Err(e) => Err(e),
            }, final(self)@) == spec_take(old(self)@, k as nat),
    {
        let mut bytes: Vec<u8> = Vec::new();
        let mut i: usize = 0;
        while i < k
            invariant
                i <= k,
                i <= old(self)@.len(),
                bytes@ == old(self)@.take(i as int),
                self@ == old(self)@.skip(i as int),
            decreases k - i,
        {
            let b = self.next_byte();
            match b {
                Ok(b) => {
                    bytes.push(b);
                    assert(old(self)@.take(i + 1) =~= old(self)@.take(i as int).push(b));
                    assert(old(self)@.skip(i as int).skip(1) =~= old(self)@.skip(i + 1));
                },
                Err(e) => {
                    assert(old(self)@.skip(i as int).len() == 0);
                    return Err(e);
                },
            }
            i = i + 1;
        }
        Ok(bytes)
    }

    /// Reads `k` bytes (at most 16) as a number, most significant first.
    fn read_be(&mut self, k: usize) -> (r: Result<u128, Error>)
        requires
            k <= 16,
        ensures
            old(self)@.len() < k ==> r == Err::<u128, Error>(Error::Eof) && final(self)@
                == Seq::<u8>::empty(),
            old(self)@.len() >= k ==> r == Ok::<u128, Error>(
                be_value(old(self)@.take(k as int)) as u128,
            ) && final(self)@ == old(self)@.skip(k as int),
    {
        let bytes = self.take_bytes(k)?;
        let mut acc: u128 = 0;
        let mut i: usize = 0;
        proof {
            lemma_pow256_values();
        }
        while i < k
            invariant
                i <= k <= 16,
                bytes@.len() == k,
                acc == be_value(bytes@.take(i as int)),
                pow256(16) == 0x1_0000_0000_0000_0000_0000_0000_0000_0000,
            decreases k - i,
        {
            proof {
                lemma_be_value_bound(bytes@.take(i + 1));
                lemma_pow256_monotone((i + 1) as nat, 16);
                assert(bytes@.take(i + 1).drop_last() =~= bytes@.take(i as int));
            }
            acc = acc * 256 + bytes[i] as u128;
            i = i + 1;
        }
        assert(bytes@.take(k as int) =~= bytes@);
        Ok(acc)
    }

    pub fn deserialize_u8(&mut self) -> (r: Result<u8, Error>)
        ensures
            old(self)@.len() == 0 ==> r == Err::<u8, Error>(Error::Eof) && final(self)@ == old(self)@,
            old(self)@.len() > 0 ==> r == Ok::<u8, Error>(old(self)@[0]) && final(self)@ == old(self)@.skip(1),
    {
        self.next_byte()
    }

    /// Two bytes, most significant first.
    pub fn deserialize_u16(&mut self) -> (r: Result<u16, Error>)
        ensures
            old(self)@.len() < 2 ==> r == Err::<u16, Error>(Error::Eof) && final(self)@
                == Seq::<u8>::empty(),
            old(self)@.len() >= 2 ==> r == Ok::<u16, Error>(be_value(old(self)@.take(2)) as u16)
                && final(self)@ == old(self)@.skip(2),
    {
        proof {
            lemma_be_value_bound(old(self)@.take(2));
            lemma_pow256_values();
        }
        let v = self.read_be(2)?;
        Ok(v as u16)
    }

    /// Four bytes, most significant first.
    pub fn deserialize_u32(&mut self) -> (r: Result<u32, Error>)
        ensures
            old(self)@.len() < 4 ==> r == Err::<u32, Error>(Error::Eof) && final(self)@
                == Seq::<u8>::empty(),
            old(self)@.len() >= 4 ==> r == Ok::<u32, Error>(be_value(old(self)@.take(4)) as u32)
                && final(self)@ == old(self)@.skip(4),
    {
        proof {
            lemma_be_value_bound(old(self)@.take(4));
            lemma_pow256_values();
        }
        let v = self.read_be(4)?;
        Ok(v as u32)
    }

    /// Eight bytes, most significant first.
    pub fn deserialize_u64(&mut self) -> (r: Result<u64, Error>)
        ensures
            old(self)@.len() < 8 ==> r == Err::<u64, Error>(Error::Eof) && final(self)@
                == Seq::<u8>::empty(),
            old(self)@.len() >= 8 ==> r == Ok::<u64, Error>(be_value(old(self)@.take(8)) as u64)
                && final(self)@ == old(self)@.skip(8),
    {
        proof {
            lemma_be_value_bound(old(self)@.take(8));
            lemma_pow256_values();
        }
        let v = self.read_be(8)?;
        Ok(v as u64)
    }

    /// Sixteen bytes, most significant first.
    pub fn deserialize_u128(&mut self) -> (r: Result<u128, Error>)
        ensures
            old(self)@.len() < 16 ==> r == Err::<u128, Error>(Error::Eof) && final(self)@
                == Seq::<u8>::empty(),
            old(self)@.len() >= 16 ==> r == Ok::<u128, Error>(
                be_value(old(self)@.take(16)) as u128,
            ) && final(self)@ == old(self)@.skip(16),
    {
        self.read_be(16)
    }

    /// A byte, as the character with that number.
    pub fn deserialize_char(&mut self) -> (r: Result<char, Error>)
        ensures
            old(self)@.len() == 0 ==> r == Err::<char, Error>(Error::Eof) && final(self)@ == old(self)@,
            old(self)@.len() > 0 ==> r == Ok::<char, Error>(old(self)@[0] as char) && final(self)@ == old(self)@.skip(1),
    {
        let b = self.next_byte()?;
        Ok(b as char)
    }

    /// A string with its terminating byte (see `spec_deserialize_string`).
    pub fn deserialize_string(&mut self) -> (r: Result<String, Error>)
        ensures
            (match r {
                Ok(s) => Ok::<Seq<char>, Error>(s@),
                Err(e) => Err(e),
            }, final(self)@) == spec_deserialize_string(old(self)@),
    {
        let str_len = self.next_byte()?;
        if str_len < 1 {
            return Err(Error::ZeroStringLength);
        }
        let bytes = self.take_bytes((str_len - 1) as usize)?;
        let end = self.next_byte()?;
        proof {
            assert(bytes@ =~= old(self)@.subrange(1, str_len as int));
            assert(old(self)@.skip(1).skip(str_len - 1).skip(1) =~= old(self)@.skip(str_len + 1));
        }
        let s = match string_from_utf8(bytes) {
            Some(s) => s,
            None => String::new(),
        };
        Ok(s)
    }

    /// A string without a terminating byte (see `spec_deserialize_str`). A
    /// length byte of 0 has no terminating byte to drop, so it is ruled out.
    pub fn deserialize_str(&mut self) -> (r: Result<String, Error>)
        requires
            old(self)@.len() > 0 ==> old(self)@[0] >= 1,
        ensures
            (match r {
                Ok(s) => Ok::<Seq<char>, Error>(s@),
                Err(e) => Err(e),
            }, final(self)@) == spec_deserialize_str(old(self)@),
    {
        let str_len = self.next_byte()?;
        let bytes = self.take_bytes((str_len - 1) as usize)?;
        proof {
            assert(bytes@ =~= old(self)@.subrange(1, str_len as int));
            assert(old(self)@.skip(1).skip(str_len - 1) =~= old(self)@.skip(str_len as int));
        }
        let s = match string_from_utf8(bytes) {
            Some(s) => s,
            None => String::new(),
        };
        Ok(s)
    }
}

pub proof fn lemma_pow256_monotone(a: nat, b: nat)
    requires
        a <= b,
    ensures
        pow256(a) <= pow256(b),
    decreases b,
{
    if a < b {
        lemma_pow256_monotone(a, (b - 1) as nat);
    }
}

} // verus!
