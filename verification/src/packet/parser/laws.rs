//! What reading gives back of what writing wrote, in the record format.
use super::de::{spec_deserialize_str, spec_deserialize_string, utf8_or_empty};
use super::ser::spec_str_bytes;
use crate::wire::{be_bytes, be_value, lemma_be_bytes_len, lemma_be_roundtrip, pow256};
use vstd::prelude::*;
use vstd::utf8::{encode_utf8, encode_utf8_decode_utf8, encode_utf8_valid_utf8};

verus! {

/// A number written as `n` bytes is read back from the first `n` bytes, and
/// the rest follows.
pub proof fn law_uint_roundtrip(v: nat, n: nat, rest: Seq<u8>)
    requires
        v < pow256(n),
    ensures
        (be_bytes(v, n) + rest).len() >= n,
        be_value((be_bytes(v, n) + rest).take(n as int)) == v,
        (be_bytes(v, n) + rest).skip(n as int) == rest,
{
    lemma_be_bytes_len(v, n);
    assert((be_bytes(v, n) + rest).take(n as int) =~= be_bytes(v, n));
    assert((be_bytes(v, n) + rest).skip(n as int) =~= rest);
    lemma_be_roundtrip(v, n);
}

/// A written string whose UTF-8 length plus one fits in a byte is read back
/// whole, terminating byte included, and the rest follows.
pub proof fn law_string_roundtrip(s: Seq<char>, rest: Seq<u8>)
    requires
        encode_utf8(s).len() + 1 < 256,
    ensures
        spec_deserialize_string(spec_str_bytes(s) + rest) == (Ok::<Seq<char>, super::error::Error>(s), rest),
{
    let b = encode_utf8(s);
    let input = spec_str_bytes(s) + rest;
    assert(input[0] == b.len() + 1);
    assert(input.subrange(1, input[0] as int) =~= b);
    assert(input.skip(input[0] + 1) =~= rest);
    encode_utf8_valid_utf8(s);
    encode_utf8_decode_utf8(s);
    assert(utf8_or_empty(b) == s);
}

/// A written string is read back by the borrowed-string reader too, which
/// leaves the terminating byte in front of the rest.
pub proof fn law_str_roundtrip(s: Seq<char>, rest: Seq<u8>)
    requires
        encode_utf8(s).len() + 1 < 256,
    ensures
        spec_deserialize_str(spec_str_bytes(s) + rest) == (
            Ok::<Seq<char>, super::error::Error>(s),
            seq![0u8] + rest,
        ),
{
    let b = encode_utf8(s);
    let input = spec_str_bytes(s) + rest;
    assert(input[0] == b.len() + 1);
    assert(input.subrange(1, input[0] as int) =~= b);
    assert(input.skip(input[0] as int) =~= seq![0u8] + rest);
    encode_utf8_valid_utf8(s);
    encode_utf8_decode_utf8(s);
}

} // verus!
