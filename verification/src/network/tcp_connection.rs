//! What a connection does with the bytes it receives, and when it sends a
//! heartbeat.
use bytes::BytesMut;
use vstd::prelude::*;

use super::rpc::{law_prepared_packet_names_call, prepared_call_packet, reply_session_id, RPCManager};
use crate::packet::laws::law_read_frame;
use crate::bytes_buf::{buf_advance, bytes_of};
use crate::packet::{frame_bytes, spec_from_bytes, BasePacket, FrameError, PacketView};
use crate::wire::{be_bytes, be_value, lemma_be_bytes_len, lemma_be_roundtrip, lemma_be_value_bound, lemma_pow256_values};

verus! {

/// A connection that has received nothing for this many seconds sends a
/// heartbeat.
pub const HEARTBEAT_IDLE_SECS: u64 = 2;

/// A heartbeat is due once the connection has been idle for
/// `HEARTBEAT_IDLE_SECS` seconds.
pub fn heartbeat_due(idle_secs: u64) -> (r: bool)
    ensures
        r == (idle_secs >= HEARTBEAT_IDLE_SECS),
{
    idle_secs >= HEARTBEAT_IDLE_SECS
}

/// The length of the frame at the start of `d`: its first two bytes.
pub open spec fn frame_len(d: Seq<u8>) -> int {
    be_value(d.take(2)) as int
}

/// `d` starts with a whole frame: its length is there, is at least 2, and
/// that many bytes are there.
pub open spec fn frame_complete(d: Seq<u8>) -> bool {
    d.len() >= 2 && frame_len(d) >= 2 && d.len() >= frame_len(d)
}

/// `d` starts with a length below 2, which no frame can have.
pub open spec fn frame_invalid(d: Seq<u8>) -> bool {
    d.len() >= 2 && frame_len(d) < 2
}

/// What to do after bytes have been received.
#[derive(Debug)]
pub enum ReceiveAction {
    /// No complete frame yet: wait for more bytes.
    WaitForMore,
    /// The bytes start with a length below 2: the stream cannot be read on.
    InvalidFrame,
    /// A reply to one of the connection's remote calls.
    RpcReply(BasePacket),
    /// A heartbeat, which needs no answer.
    Heartbeat,
    /// A packet for the connection's handler.
    Deliver(BasePacket),
}

/// Takes the next frame off `buffer`, when a whole one is there, and says
/// where it goes: to the remote call it replies to, nowhere for a heartbeat
/// (a frame of length 2), or to the handler. The frame's bytes leave the
/// buffer; with no whole frame, or a length below 2, the buffer is left as it
/// is.
pub fn take_next_frame<C>(buffer: &mut BytesMut, rpc: &RPCManager<C>) -> (r: ReceiveAction)
    ensures
        ({
            let d = bytes_of(*old(buffer));
            if frame_invalid(d) {
                &&& r is InvalidFrame
                &&& bytes_of(*final(buffer)) == d
            } else if !frame_complete(d) {
                &&& r is WaitForMore
                &&& bytes_of(*final(buffer)) == d
            } else {
                let p = spec_from_bytes(d.take(frame_len(d)));
                &&& bytes_of(*final(buffer)) == d.skip(frame_len(d))
                &&& if reply_session_id(p) matches Some(s) && rpc@.calls.contains_key(s) {
                    r matches ReceiveAction::RpcReply(pk) && pk@ == p
                } else if p.size == 2 {
                    r is Heartbeat
                } else {
                    r matches ReceiveAction::Deliver(pk) && pk@ == p
                }
            }
        }),
{
    let ghost d = bytes_of(*buffer);
    proof {
        if d.len() >= 2 {
            lemma_be_value_bound(d.take(2));
            lemma_pow256_values();
        }
    }
    let n = match BasePacket::check_frame(buffer, false) {
        Err(FrameError::Invalid) => return ReceiveAction::InvalidFrame,
        Err(FrameError::Incomplete) => return ReceiveAction::WaitForMore,
        Ok(n) => n,
    };
    let packet = match BasePacket::parse_frame(buffer, n) {
        Ok(p) => p,
        Err(_) => return ReceiveAction::WaitForMore,
    };
    let is_for_rpc = rpc.check_packet_for_rpc_response(&packet);
    buf_advance(buffer, n);
    if is_for_rpc {
        ReceiveAction::RpcReply(packet)
    } else if packet.get_len() == 2 {
        ReceiveAction::Heartbeat
    } else {
        ReceiveAction::Deliver(packet)
    }
}

/// A packet that is built and sent arrives as one frame: whatever follows it
/// in the buffer, the receiving side takes exactly its bytes, and the rest
/// stays for the next frame.
pub proof fn law_built_packet_is_one_frame(v: PacketView, rest: Seq<u8>)
    requires
        !v.is_built,
        v.data.len() + 8 < 65536,
    ensures
        ({
            let d = v.spec_build().data;
            let b = d + rest;
            &&& frame_complete(b)
            &&& frame_len(b) == d.len()
            &&& b.take(frame_len(b)) == d
            &&& b.skip(frame_len(b)) == rest
        }),
{
    let hdr = match v.session_id {
        Some(s) => s,
        None => v.header,
    };
    let size = (v.data.len() + 8) as nat;
    let d = v.spec_build().data;
    let b = d + rest;
    lemma_be_bytes_len(size, 2);
    lemma_be_bytes_len(hdr as nat, 4);
    lemma_be_bytes_len(v.raw_cmd as nat, 2);
    assert(d == frame_bytes(size, hdr, v.raw_cmd, v.data));
    assert(b.take(2) =~= be_bytes(size, 2));
    lemma_pow256_values();
    lemma_be_roundtrip(size, 2);
    assert(frame_len(b) == d.len());
    assert(b.take(frame_len(b)) =~= d);
    assert(b.skip(frame_len(b)) =~= rest);
}

/// Two packets built and sent one after the other are taken off the
/// receiving buffer one after the other, in the order they were sent.
pub proof fn law_frames_taken_in_order(v1: PacketView, v2: PacketView, rest: Seq<u8>)
    requires
        !v1.is_built,
        !v2.is_built,
        v1.data.len() + 8 < 65536,
        v2.data.len() + 8 < 65536,
    ensures
        ({
            let d1 = v1.spec_build().data;
            let d2 = v2.spec_build().data;
            let b = d1 + d2 + rest;
            let b2 = b.skip(frame_len(b));
            &&& frame_complete(b)
            &&& b.take(frame_len(b)) == d1
            &&& b2 == d2 + rest
            &&& frame_complete(b2)
            &&& b2.take(frame_len(b2)) == d2
            &&& b2.skip(frame_len(b2)) == rest
        }),
{
    let d1 = v1.spec_build().data;
    let d2 = v2.spec_build().data;
    assert(d1 + d2 + rest =~= d1 + (d2 + rest));
    law_built_packet_is_one_frame(v1, d2 + rest);
    law_built_packet_is_one_frame(v2, rest);
}

/// The packet that a remote call sends under `s`, when it comes back, is one
/// frame whose header names the call: `take_next_frame` hands it to the call
/// as its reply when the call is waiting.
pub proof fn law_call_packet_comes_back_to_its_call(p: PacketView, s: u64, rest: Seq<u8>)
    requires
        s <= crate::network::rpc::MAX_SESS_ID_VALUE,
        p.is_built ==> p.data.len() >= 8,
        p.data.len() + 8 < 65536,
    ensures
        ({
            let d = prepared_call_packet(p, s).data;
            let b = d + rest;
            &&& frame_complete(b)
            &&& b.take(frame_len(b)) == d
            &&& b.skip(frame_len(b)) == rest
            &&& reply_session_id(spec_from_bytes(b.take(frame_len(b)))) == Some(s)
        }),
{
    let payload = if p.is_built { p.data.skip(8) } else { p.data };
    let size = (payload.len() + 8) as nat;
    let d = prepared_call_packet(p, s).data;
    let b = d + rest;
    lemma_be_bytes_len(size, 2);
    lemma_be_bytes_len(s as nat, 4);
    lemma_be_bytes_len(p.raw_cmd as nat, 2);
    assert(d == frame_bytes(size, s as u32, p.raw_cmd, payload));
    assert(b.take(2) =~= be_bytes(size, 2));
    lemma_pow256_values();
    lemma_be_roundtrip(size, 2);
    assert(frame_len(b) == d.len());
    assert(b.take(frame_len(b)) =~= d);
    assert(b.skip(frame_len(b)) =~= rest);
    law_prepared_packet_names_call(p, s);
    law_read_frame(size, s as u32, p.raw_cmd, payload);
}

} // verus!
