//! Session ids for remote calls and the calls that wait for a reply.
use std::collections::HashMap;
use vstd::prelude::*;

use crate::packet::{frame_bytes, BasePacket, PacketError, PacketView};
use crate::wire::{be_bytes, lemma_be_bytes_len, lemma_be_roundtrip, lemma_pow256_values};

verus! {

/// Session ids stay below this value, since other services read them as
/// 32-bit numbers.
pub const MAX_SESS_ID_VALUE: u32 = 0x80000000;

/// The session id handed out from the counter value `counter`, and the
/// counter's next value: one up, except that at `MAX_SESS_ID_VALUE - 2` the
/// value itself is handed out once more and the counter goes back to 1.
pub open spec fn spec_next_session_id(counter: u64) -> (u64, u64) {
    if counter + 2 == MAX_SESS_ID_VALUE {
        (counter, 1)
    } else {
        ((counter + 1) as u64, (counter + 1) as u64)
    }
}

/// Two calls in a row hand out different session ids, except when the first
/// one reaches `MAX_SESS_ID_VALUE - 2`, which the next call hands out again.
pub proof fn law_successive_session_ids_differ(counter: u64)
    requires
        1 <= counter <= MAX_SESS_ID_VALUE - 2,
        counter + 3 != MAX_SESS_ID_VALUE,
    ensures
        spec_next_session_id(counter).0 != spec_next_session_id(spec_next_session_id(counter).1).0,
{
}

/// Hands out session ids for remote calls, counting up and wrapping back to
/// the start before reaching `MAX_SESS_ID_VALUE`.
#[derive(Debug)]
pub struct SessionIdManager {
    session_id: u64,
}

impl View for SessionIdManager {
    type V = u64;

    /// The last counter value.
    closed spec fn view(&self) -> u64 {
        self.session_id
    }
}

impl SessionIdManager {
    #[verifier::type_invariant]
    spec fn counter_in_range(self) -> bool {
        1 <= self.session_id <= MAX_SESS_ID_VALUE - 2
    }

    /// A manager whose counter starts at 1.
    pub fn new() -> (r: Self)
        ensures
            r@ == 1,
    {
        SessionIdManager { session_id: 1 }
    }

    /// The next session id. The counter moves one up and the new value is
    /// returned; when the counter has reached `MAX_SESS_ID_VALUE - 2`, it goes
    /// back to 1 and that last value is returned once more.
    pub fn get_next_session_id(&mut self) -> (r: u64)
        ensures
            (r, final(self)@) == spec_next_session_id(old(self)@),
            2 <= r <= MAX_SESS_ID_VALUE - 2,
            1 <= final(self)@ <= MAX_SESS_ID_VALUE - 2,
    {
        proof {
            use_type_invariant(&*self);
        }
        let session_id_as_int = self.session_id;
        if session_id_as_int + 2 == MAX_SESS_ID_VALUE as u64 {
            self.session_id = 1;
            return session_id_as_int;
        }
        self.session_id = session_id_as_int + 1;
        session_id_as_int + 1
    }
}


/// Why a reply could not be matched to a call.
#[derive(Debug, PartialEq, Eq, Structural)]
pub enum RpcError {
    /// The packet carries no session id of a call that is waiting.
    NoMatchingCall,
}

/// The remote calls made on one connection, each kept under its session id
/// together with the reply it got, until that reply is taken; `C` is what the
/// caller keeps of a call to wake it when its reply comes.
#[derive(Debug)]
pub struct RPCManager<C> {
    session_id_manager: SessionIdManager,
    rpc_calls: HashMap<u64, C>,
    rpc_results: HashMap<u64, BasePacket>,
}

/// The state of an `RPCManager`: the session id counter, the calls, and the
/// replies not taken yet.
pub struct RpcView<C> {
    pub counter: u64,
    pub calls: Map<u64, C>,
    pub results: Map<u64, BasePacket>,
}

/// Handling `reply`: when its header names a call, the reply becomes that
/// call's result (replacing one not taken yet) and the call's session id is
/// given; otherwise nothing changes and `NoMatchingCall` is given.
pub open spec fn spec_reply_outcome<C>(m: RpcView<C>, reply: BasePacket) -> (Result<u64, RpcError>, RpcView<C>) {
    match reply_session_id(reply@) {
        Some(s) => if m.calls.contains_key(s) {
            (Ok(s), RpcView { results: m.results.insert(s, reply), ..m })
        } else {
            (Err(RpcError::NoMatchingCall), m)
        },
        None => (Err(RpcError::NoMatchingCall), m),
    }
}

/// Taking the result of the call under `session_id`: the reply it got, which
/// is then gone, or nothing when no reply is waiting.
pub open spec fn spec_take_result<C>(m: RpcView<C>, session_id: u64) -> (Option<BasePacket>, RpcView<C>) {
    if m.results.contains_key(session_id) {
        (Some(m.results[session_id]), RpcView { results: m.results.remove(session_id), ..m })
    } else {
        (None, m)
    }
}

/// The session id of a packet's header, as a key of the calls.
pub open spec fn reply_session_id(p: PacketView) -> Option<u64> {
    match p.spec_session_id() {
        Some(s) => Some(s as u64),
        None => None,
    }
}

/// A packet prepared for a call under `session_id`: the id is set and the
/// packet is built.
pub open spec fn prepared_call_packet(p: PacketView, session_id: u64) -> PacketView {
    PacketView { session_id: Some(session_id as u32), ..p }.spec_build()
}

impl<C> View for RPCManager<C> {
    type V = RpcView<C>;

    closed spec fn view(&self) -> RpcView<C> {
        RpcView {
            counter: self.session_id_manager@,
            calls: self.rpc_calls@,
            results: self.rpc_results@,
        }
    }
}

impl<C> RPCManager<C> {
    /// A manager with no calls, whose counter starts at 1.
    pub fn new() -> (r: Self)
        ensures
            r@.counter == 1,
            r@.calls == Map::<u64, C>::empty(),
            r@.results == Map::<u64, BasePacket>::empty(),
    {
        RPCManager {
            session_id_manager: SessionIdManager::new(),
            rpc_calls: HashMap::new(),
            rpc_results: HashMap::new(),
        }
    }

    /// Whether `packet` carries the session id of one of the calls.
    pub fn check_packet_for_rpc_response(&self, packet: &BasePacket) -> (r: bool)
        ensures
            r == (reply_session_id(packet@) matches Some(s) && self@.calls.contains_key(s)),
    {
        broadcast use vstd::std_specs::hash::group_hash_axioms;

        match packet.read_session_id() {
            Some(sess_id_u32) => {
                let session_id = sess_id_u32 as u64;
                self.rpc_calls.contains_key(&session_id)
            },
            None => false,
        }
    }

    /// Starts a call: takes the next session id, keeps `call` under it with
    /// no result yet, sets the id on `packet` and builds the packet, which is
    /// then ready to send. The session id is returned.
    pub fn make_sync_call(&mut self, packet: &mut BasePacket, call: C) -> (r: Result<u64, PacketError>)
        requires
            old(packet)@.is_built ==> old(packet)@.data.len() >= 8,
            old(packet)@.data.len() + 8 <= usize::MAX,
        ensures
            r matches Ok(s) && {
                &&& (s, final(self)@.counter) == spec_next_session_id(old(self)@.counter)
                &&& 2 <= s <= MAX_SESS_ID_VALUE - 2
                &&& final(self)@.calls == old(self)@.calls.insert(s, call)
                &&& final(self)@.results == old(self)@.results.remove(s)
                &&& final(packet)@ == prepared_call_packet(old(packet)@, s)
            },
    {
        broadcast use vstd::std_specs::hash::group_hash_axioms;

        let session_id = self.session_id_manager.get_next_session_id();
        self.rpc_calls.insert(session_id, call);
        self.rpc_results.remove(&session_id);
        packet.write_session_id(session_id as u32)?;
        packet.build_packet()?;
        Ok(session_id)
    }

    /// Handles a reply: when the session id in its header names a call, the
    /// reply becomes that call's result and the session id is returned;
    /// otherwise `NoMatchingCall` (see `spec_reply_outcome`).
    pub fn handle_rpc_reply(&mut self, packet: BasePacket) -> (r: Result<u64, RpcError>)
        ensures
            (r, final(self)@) == spec_reply_outcome(old(self)@, packet),
    {
        broadcast use vstd::std_specs::hash::group_hash_axioms;

        if let Some(sess_id_u32) = packet.read_session_id() {
            let session_id = sess_id_u32 as u64;
            if self.rpc_calls.contains_key(&session_id) {
                self.rpc_results.insert(session_id, packet);
                return Ok(session_id);
            }
        }
        Err(RpcError::NoMatchingCall)
    }

    /// The call kept under `session_id`, if any.
    pub fn get_call(&self, session_id: u64) -> (r: Option<&C>)
        ensures
            match r {
                Some(c) => self@.calls.contains_key(session_id) && *c == self@.calls[session_id],
                None => !self@.calls.contains_key(session_id),
            },
    {
        broadcast use vstd::std_specs::hash::group_hash_axioms;

        self.rpc_calls.get(&session_id)
    }

    /// Takes the reply that the call under `session_id` got (see
    /// `spec_take_result`): a second take gives nothing.
    pub fn take_result(&mut self, session_id: u64) -> (r: Option<BasePacket>)
        ensures
            (r, final(self)@) == spec_take_result(old(self)@, session_id),
    {
        broadcast use vstd::std_specs::hash::group_hash_axioms;

        let r = self.rpc_results.remove(&session_id);
        proof {
            if !old(self)@.results.contains_key(session_id) {
                assert(self.rpc_results@ =~= old(self).rpc_results@);
            }
        }
        r
    }
}

/// A packet whose header holds a session id of at most `MAX_SESS_ID_VALUE`
/// is taken as a reply to the call under that id.
pub proof fn law_reply_header_names_call(q: PacketView, s: u64)
    requires
        q.data.len() >= 6,
        q.data.subrange(2, 6) == be_bytes(s as nat, 4),
        s <= MAX_SESS_ID_VALUE,
    ensures
        reply_session_id(q) == Some(s),
{
    lemma_pow256_values();
    lemma_be_roundtrip(s as nat, 4);
}

/// A packet prepared for a call carries the call's session id in its header,
/// so the same packet sent back is taken as the reply to that call.
pub proof fn law_prepared_packet_names_call(p: PacketView, s: u64)
    requires
        s <= MAX_SESS_ID_VALUE,
    ensures
        reply_session_id(prepared_call_packet(p, s)) == Some(s),
{
    let q = prepared_call_packet(p, s);
    let payload = if p.is_built { p.data.skip(8) } else { p.data };
    let size = ((payload.len() + 8) % 65536) as nat;
    lemma_be_bytes_len(size, 2);
    lemma_be_bytes_len(s as nat, 4);
    lemma_be_bytes_len(p.raw_cmd as nat, 2);
    assert(q.data == frame_bytes(size, s as u32, p.raw_cmd, payload));
    assert(q.data.subrange(2, 6) =~= be_bytes(s as nat, 4));
    law_reply_header_names_call(q, s);
}

/// Once a call is made, the packet prepared for it, sent back, is matched to
/// the call: it is recognised as a reply and the call kept for it is found.
pub proof fn law_call_then_reply<C>(m: RpcView<C>, p: PacketView, s: u64, call: C)
    requires
        s <= MAX_SESS_ID_VALUE,
    ensures
        ({
            let calls = m.calls.insert(s, call);
            let q = prepared_call_packet(p, s);
            &&& reply_session_id(q) matches Some(t) && calls.contains_key(t)
            &&& calls[s] == call
        }),
{
    law_prepared_packet_names_call(p, s);
}

/// A reply whose header names a waiting call becomes that call's result:
/// taking the result gives the reply, and taking it again gives nothing.
pub proof fn law_reply_becomes_the_calls_result<C>(m: RpcView<C>, reply: BasePacket, s: u64)
    requires
        reply_session_id(reply@) == Some(s),
        m.calls.contains_key(s),
    ensures
        ({
            let (r, m1) = spec_reply_outcome(m, reply);
            let (first, m2) = spec_take_result(m1, s);
            &&& r == Ok::<u64, RpcError>(s)
            &&& first == Some(reply)
            &&& spec_take_result(m2, s).0 is None
            &&& m2.calls == m.calls
        }),
{
    let m1 = spec_reply_outcome(m, reply).1;
    assert(m1.results.contains_key(s));
    let m2 = spec_take_result(m1, s).1;
    assert(!m2.results.contains_key(s));
}

/// A reply whose header names no call is refused and resolves nothing.
pub proof fn law_unmatched_reply_changes_nothing<C>(m: RpcView<C>, reply: BasePacket)
    requires
        !(reply_session_id(reply@) matches Some(s) && m.calls.contains_key(s)),
    ensures
        spec_reply_outcome(m, reply) == (Err::<u64, RpcError>(RpcError::NoMatchingCall), m),
{
}

} // verus!
