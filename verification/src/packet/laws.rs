//! What reading gives back of what writing wrote.
use super::commands::Command;
use super::{encode_string, frame_bytes, spec_from_bytes, PacketView};
use crate::wire::{
    be_bytes, be_value, lemma_be_bytes_len, lemma_be_read_back, lemma_be_roundtrip, pow256,
    lemma_pow256_values,
};
use vstd::prelude::*;
use vstd::utf8::{decode_utf8, encode_utf8, encode_utf8_decode_utf8, encode_utf8_valid_utf8, valid_utf8};

verus! {

/// A number written as `n` bytes at the read position is read back, and the
/// read position moves past it.
pub proof fn law_read_uint_after_write(v: PacketView, pre: Seq<u8>, x: nat, n: nat, rest: Seq<u8>)
    requires
        v.data == pre + be_bytes(x, n) + rest,
        v.offset == pre.len(),
        x < pow256(n),
    ensures
        v.spec_read_uint(n as int) == (Some(x), v.with_offset(v.offset + n)),
{
    lemma_be_bytes_len(x, n);
    assert(v.bytes_at(n as int) =~= be_bytes(x, n));
    lemma_be_roundtrip(x, n);
}

/// A string written at the read position is read back, and the read position
/// moves past its length, bytes and terminating zero.
pub proof fn law_read_string_after_write(v: PacketView, pre: Seq<u8>, s: Seq<char>, rest: Seq<u8>)
    requires
        v.data == pre + encode_string(s) + rest,
        v.offset == pre.len(),
        encode_utf8(s).len() + 1 < 65536,
    ensures
        v.spec_read_string() == (
            Some(s),
            v.with_offset(v.offset + (3 + encode_utf8(s).len()) % 256),
        ),
{
    let b = encode_utf8(s);
    let l = b.len();
    lemma_pow256_values();
    lemma_be_bytes_len((l + 1) as nat, 2);
    assert(encode_string(s) =~= be_bytes((l + 1) as nat, 2) + b + seq![0u8]);
    assert(v.bytes_at(2) =~= be_bytes((l + 1) as nat, 2));
    lemma_be_roundtrip((l + 1) as nat, 2);
    assert(v.sequence_len() == l + 1);
    assert(v.data.subrange(v.offset + 2, v.offset + 2 + l) =~= b);
    encode_utf8_valid_utf8(s);
    encode_utf8_decode_utf8(s);
}

/// Reading a complete frame gives its length, its header (also as the session
/// id) and its command, and leaves the read position at the start of its data.
pub proof fn law_read_frame(size: nat, header: u32, cmd: u16, payload: Seq<u8>)
    requires
        size < 65536,
    ensures
        ({
            let p = spec_from_bytes(frame_bytes(size, header, cmd, payload));
            &&& p.data == frame_bytes(size, header, cmd, payload)
            &&& p.size == size
            &&& p.header == header
            &&& p.session_id == Some(header)
            &&& p.raw_cmd == cmd
            &&& p.cmd == match Command::spec_from_u16(cmd) {
                Some(c) => c,
                None => Command::NoCommand,
            }
            &&& p.offset == 8
            &&& p.reverse_offset == 0
            &&& p.is_built
        }),
{
    lemma_pow256_values();
    lemma_be_bytes_len(size, 2);
    lemma_be_bytes_len(header as nat, 4);
    lemma_be_bytes_len(cmd as nat, 2);
    let d = frame_bytes(size, header, cmd, payload);
    assert(d.subrange(0, 2) =~= be_bytes(size, 2));
    assert(d.subrange(2, 6) =~= be_bytes(header as nat, 4));
    assert(d.subrange(6, 8) =~= be_bytes(cmd as nat, 2));
    lemma_be_roundtrip(size, 2);
    lemma_be_roundtrip(header as nat, 4);
    lemma_be_roundtrip(cmd as nat, 2);
}

/// Building a packet and reading the result back gives the command and
/// session id (or header) that were set, the built length, and the written
/// data after the read position.
pub proof fn law_read_built_packet(v: PacketView)
    requires
        !v.is_built,
        v.data.len() + 8 < 65536,
    ensures
        ({
            let p = spec_from_bytes(v.spec_build().data);
            let hdr = match v.session_id {
                Some(s) => s,
                None => v.header,
            };
            &&& p.raw_cmd == v.raw_cmd
            &&& p.session_id == Some(hdr)
            &&& p.size == v.data.len() + 8
            &&& p.offset == 8
            &&& p.data.skip(8) == v.data
        }),
{
    let hdr = match v.session_id {
        Some(s) => s,
        None => v.header,
    };
    law_read_frame((v.data.len() + 8) as nat, hdr, v.raw_cmd, v.data);
    lemma_be_bytes_len((v.data.len() + 8) as nat, 2);
    lemma_be_bytes_len(hdr as nat, 4);
    lemma_be_bytes_len(v.raw_cmd as nat, 2);
    assert(v.spec_build().data.skip(8) =~= v.data);
}

/// A number written as the last `n` bytes is read back from the end.
pub proof fn law_reverse_read_after_write(v: PacketView, pre: Seq<u8>, x: nat, n: nat)
    requires
        v.data == pre + be_bytes(x, n),
        v.reverse_offset == 0,
        x < pow256(n),
    ensures
        v.spec_reverse_read(n as int).0 matches Some(b) && be_value(b) == x,
{
    lemma_be_bytes_len(x, n);
    assert(v.data.subrange(v.data.len() - n, v.data.len() as int) =~= be_bytes(x, n));
    lemma_be_roundtrip(x, n);
}

} // verus!
