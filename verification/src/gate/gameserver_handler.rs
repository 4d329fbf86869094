//! The decisions of a gate on packets from game servers.
use crate::packet::commands::Command;
use crate::packet::{
    built_new_packet, encode_string, lemma_encode_string_len, string_wire_len, BasePacket,
    PacketView,
};
use crate::wire::{be_bytes, be_value, lemma_be_bytes_len};
use std::collections::HashMap;
use vstd::prelude::*;

verus! {

/// Commands that game server handlers send to this gate.
pub enum GameServerGateCommands {
    /// Send a packet to the client with this id.
    SendPacketToClient(u32, BasePacket),
    SendPacketToGroupServer(BasePacket),
}

/// Why a game server is not accepted.
#[derive(Debug, PartialEq, Eq, Structural)]
pub enum GameServerRejectionReason {
    DuplicateName,
    OverlappingMapList,
}

/// What to do with a packet from a game server.
#[derive(Debug, PartialEq, Eq, Structural)]
pub enum GameServerPacketAction {
    /// The game server introduces itself.
    Init,
    /// The answer to a request to enter a map.
    EnterMapResult,
    /// Pass the packet on to the clients it names.
    SendToClient,
    /// Nothing is done with the packet.
    Unhandled,
}

/// The action for a packet from a game server, by its command: a packet
/// with no known command goes to clients when its command number is from 500
/// to 1000.
pub open spec fn spec_game_server_action(p: PacketView) -> GameServerPacketAction {
    match p.spec_read_cmd().0 {
        Some(Command::GMTGTInit) => GameServerPacketAction::Init,
        Some(Command::GMTCEnterMap) => GameServerPacketAction::EnterMapResult,
        Some(Command::NoCommand) => if 500 <= p.spec_read_cmd().1.raw_cmd <= 1000 {
            GameServerPacketAction::SendToClient
        } else {
            GameServerPacketAction::Unhandled
        },
        _ => GameServerPacketAction::Unhandled,
    }
}

/// Reads the command of a packet from a game server and decides what to do
/// with it (see `spec_game_server_action`).
pub fn classify_game_server_packet(packet: &mut BasePacket) -> (r: GameServerPacketAction)
    requires
        old(packet)@.cmd == Command::NoCommand && old(packet)@.offset <= 6 ==> old(packet)@.offset
            <= old(packet)@.data.len(),
    ensures
        final(packet)@ == old(packet)@.spec_read_cmd().1,
        r == spec_game_server_action(old(packet)@),
{
    let cmd = packet.read_cmd();
    match cmd {
        Some(Command::GMTGTInit) => GameServerPacketAction::Init,
        Some(Command::GMTCEnterMap) => GameServerPacketAction::EnterMapResult,
        Some(Command::NoCommand) => {
            let raw_cmd = packet.get_raw_cmd();
            if 500 <= raw_cmd && raw_cmd <= 1000 {
                GameServerPacketAction::SendToClient
            } else {
                GameServerPacketAction::Unhandled
            }
        },
        _ => GameServerPacketAction::Unhandled,
    }
}

/// The number of clients a packet for clients names: the short at its end.
pub open spec fn target_count(p: PacketView) -> nat {
    be_value(p.spec_reverse_read(2).0.unwrap())
}

/// The `k`-th client a packet for clients names, as (player id, database
/// id): read back from the end after the count, two longs per client.
pub open spec fn target_at(p: PacketView, k: int) -> (u32, u32) {
    let end = p.data.len() - p.reverse_offset - 2 - 8 * k;
    (be_value(p.data.subrange(end - 4, end)) as u32, be_value(p.data.subrange(end - 8, end - 4)) as u32)
}

/// The packets for clients whose list of clients can be read: the count and
/// all the ids are there, and the reverse read position does not pass 255.
pub open spec fn client_targets_readable(p: PacketView) -> bool {
    &&& p.reverse_offset + 2 <= p.data.len()
    &&& p.reverse_offset + 2 + 8 * target_count(p) <= p.data.len()
    &&& p.reverse_offset + 2 + 8 * target_count(p) <= 255
}

/// Reads the clients that a packet from a game server is for. Each read
/// must succeed (see `client_targets_readable` and `try_read_client_targets`).
pub fn read_client_targets(packet: &mut BasePacket) -> (r: Vec<(u32, u32)>)
    requires
        client_targets_readable(old(packet)@),
    ensures
        r@.len() == target_count(old(packet)@),
        forall|k: int| 0 <= k < r@.len() ==> #[trigger] r@[k] == target_at(old(packet)@, k),
        final(packet)@ == (PacketView {
            reverse_offset: (old(packet)@.reverse_offset + 2 + 8 * target_count(old(packet)@)) as u8,
            ..old(packet)@
        }),
{
    try_read_client_targets(packet).unwrap()
}

/// `read_client_targets` for any packet: nothing when the list cannot be
/// read (see `client_targets_readable`), and the packet may then have its
/// count read.
pub fn try_read_client_targets(packet: &mut BasePacket) -> (r: Option<Vec<(u32, u32)>>)
    ensures
        r is Some <==> client_targets_readable(old(packet)@),
        r matches Some(v) ==> {
            &&& v@.len() == target_count(old(packet)@)
            &&& forall|k: int| 0 <= k < v@.len() ==> #[trigger] v@[k] == target_at(old(packet)@, k)
            &&& final(packet)@ == (PacketView {
                reverse_offset: (old(packet)@.reverse_offset + 2 + 8 * target_count(old(packet)@)) as u8,
                ..old(packet)@
            })
        },
{
    let ghost p0 = packet@;
    let rev = packet.get_reverse_offset() as usize;
    let len = packet.data_len();
    if rev + 2 > len || rev + 2 > 255 {
        return None;
    }
    let aim_num = packet.reverse_read_short().unwrap();
    if rev + 2 + 8 * (aim_num as usize) > len || rev + 2 + 8 * (aim_num as usize) > 255 {
        return None;
    }
    let mut targets: Vec<(u32, u32)> = Vec::new();
    let mut i: u16 = 0;
    while i < aim_num
        invariant
            i <= aim_num,
            aim_num == target_count(p0),
            p0.reverse_offset + 2 + 8 * target_count(p0) <= p0.data.len(),
            p0.reverse_offset + 2 + 8 * target_count(p0) <= 255,
            targets@.len() == i,
            forall|k: int| 0 <= k < i ==> #[trigger] targets@[k] == target_at(p0, k),
            packet@ == (PacketView { reverse_offset: (p0.reverse_offset + 2 + 8 * i) as u8, ..p0 }),
        decreases aim_num - i,
    {
        let player_id = packet.reverse_read_long().unwrap();
        let db_id = packet.reverse_read_long().unwrap();
        targets.push((player_id, db_id));
        i = i + 1;
    }
    Some(targets)
}

/// The packet acknowledging a game server's introduction: command
/// `GTTGMInitAcknowledge`, 0 and this gate's name.
pub fn build_init_acknowledge_packet(gate_server_name: &str) -> (r: BasePacket)
    requires
        5 + string_wire_len(gate_server_name@) < u16::MAX,
    ensures
        r@ == built_new_packet(
            Command::GTTGMInitAcknowledge,
            be_bytes(0, 2) + encode_string(gate_server_name@),
        ),
{
    let mut packet = BasePacket::new();
    packet.write_cmd(Command::GTTGMInitAcknowledge).unwrap();
    proof {
        lemma_be_bytes_len(0, 2);
        lemma_encode_string_len(gate_server_name@);
    }
    packet.write_short(0).unwrap();
    packet.write_string(gate_server_name).unwrap();
    assert(packet@.data =~= be_bytes(0, 2) + encode_string(gate_server_name@));
    packet.build_packet().unwrap();
    packet
}

/// The clients, in the order the packet names them, that get a packet for
/// clients: those that are connected (`db_ids` maps each connected player's
/// id to its database id) and whose database id is the one the packet gives.
pub open spec fn spec_recipients(targets: Seq<(u32, u32)>, db_ids: Map<u32, u32>) -> Seq<u32>
    decreases targets.len(),
{
    if targets.len() == 0 {
        Seq::empty()
    } else {
        let prev = spec_recipients(targets.drop_last(), db_ids);
        let (player_id, db_id) = targets.last();
        if db_ids.contains_key(player_id) && db_ids[player_id] == db_id {
            prev.push(player_id)
        } else {
            prev
        }
    }
}

/// Picks the clients that get a packet for clients (see `spec_recipients`).
pub fn select_recipients(targets: &Vec<(u32, u32)>, db_ids: &HashMap<u32, u32>) -> (r: Vec<u32>)
    ensures
        r@ == spec_recipients(targets@, db_ids@),
{
    broadcast use vstd::std_specs::hash::group_hash_axioms;

    let mut r: Vec<u32> = Vec::new();
    let mut i: usize = 0;
    while i < targets.len()
        invariant
            i <= targets@.len(),
            r@ == spec_recipients(targets@.take(i as int), db_ids@),
        decreases targets@.len() - i,
    {
        let (player_id, db_id) = targets[i];
        assert(targets@.take(i + 1).drop_last() =~= targets@.take(i as int));
        assert(targets@.take(i + 1).last() == targets@[i as int]);
        match db_ids.get(&player_id) {
            Some(known) => {
                if *known == db_id {
                    r.push(player_id);
                }
            },
            None => {},
        }
        i = i + 1;
    }
    assert(targets@.take(targets@.len() as int) =~= targets@);
    r
}

} // verus!
