//! Packets that open a session with a client or the group server.
use super::commands::Command;
use super::{built_new_packet, encode_string, lemma_encode_string_len, string_wire_len, BasePacket, PacketError};
use crate::wire::{be_bytes, lemma_be_bytes_len};
use vstd::prelude::*;

verus! {

/// Sent to a client when it connects, with the text it must answer with.
pub struct InitClientPacket {
    pub chapstr: String,
}

impl InitClientPacket {
    pub fn new(chapstr: String) -> (r: Self)
        ensures
            r.chapstr@ == chapstr@,
    {
        InitClientPacket { chapstr }
    }

    /// A packet of this kind with an empty text, whatever `base_packet` holds.
    pub fn from_base_packet(base_packet: BasePacket) -> (r: Result<Self, PacketError>)
        ensures
            r matches Ok(p) && p.chapstr@ == Seq::<char>::empty(),
    {
        Ok(InitClientPacket { chapstr: String::new() })
    }

    /// The packet with command `GTTCEstablishConnection` and the text.
    pub fn to_base_packet(&self) -> (r: Result<BasePacket, PacketError>)
        requires
            3 + string_wire_len(self.chapstr@) < u16::MAX,
        ensures
            r matches Ok(p) && p@ == built_new_packet(
                Command::GTTCEstablishConnection,
                encode_string(self.chapstr@),
            ),
    {
        let mut base_packet = BasePacket::new();
        base_packet.write_cmd(Command::GTTCEstablishConnection)?;
        base_packet.write_string(self.chapstr.as_str())?;
        proof {
            lemma_encode_string_len(self.chapstr@);
        }
        base_packet.build_packet()?;
        Ok(base_packet)
    }
}

/// Sent to the group server to open the session: protocol version and the
/// name of this gate server.
pub struct InitGroupPacket {
    version: u16,
    gate_server_name: String,
}

impl InitGroupPacket {
    pub closed spec fn spec_version(&self) -> u16 {
        self.version
    }

    pub closed spec fn spec_gate_server_name(&self) -> Seq<char> {
        self.gate_server_name@
    }

    pub fn new(version: u16, gate_server_name: String) -> (r: Self)
        ensures
            r.spec_version() == version,
            r.spec_gate_server_name() == gate_server_name@,
    {
        InitGroupPacket { version, gate_server_name }
    }

    /// A packet of this kind with version 0 and an empty name, whatever
    /// `base_packet` holds.
    pub fn from_base_packet(base_packet: BasePacket) -> (r: Result<Self, PacketError>)
        ensures
            r matches Ok(p) && p.spec_version() == 0 && p.spec_gate_server_name() == Seq::<
                char,
            >::empty(),
    {
        Ok(InitGroupPacket { version: 0, gate_server_name: String::new() })
    }

    /// The data of the packet: version and name.
    pub open spec fn spec_payload(version: u16, name: Seq<char>) -> Seq<u8> {
        be_bytes(version as nat, 2) + encode_string(name)
    }

    /// The packet with command `GTTGPInit`.
    pub fn to_base_packet(&self) -> (r: Result<BasePacket, PacketError>)
        requires
            5 + string_wire_len(self.spec_gate_server_name()) < u16::MAX,
        ensures
            r matches Ok(p) && p@ == built_new_packet(
                Command::GTTGPInit,
                Self::spec_payload(self.spec_version(), self.spec_gate_server_name()),
            ),
    {
        let mut base_packet = BasePacket::new();
        base_packet.write_cmd(Command::GTTGPInit)?;
        proof {
            lemma_be_bytes_len(self.version as nat, 2);
        }
        base_packet.write_short(self.version)?;
        base_packet.write_string(self.gate_server_name.as_str())?;
        proof {
            lemma_encode_string_len(self.spec_gate_server_name());
            assert(base_packet@.data =~= Self::spec_payload(
                self.spec_version(),
                self.spec_gate_server_name(),
            ));
        }
        base_packet.build_packet()?;
        Ok(base_packet)
    }
}

/// A player as the group server knows it.
pub struct PlayerForGroupServer {
    pub player_pointer: u32,
    pub login_id: u32,
    pub account_id: u32,
}

/// The bytes of a list of players: three longs each.
pub open spec fn players_bytes(players: Seq<PlayerForGroupServer>) -> Seq<u8>
    decreases players.len(),
{
    if players.len() == 0 {
        Seq::empty()
    } else {
        let p = players.last();
        players_bytes(players.drop_last()) + be_bytes(p.player_pointer as nat, 4) + be_bytes(
            p.login_id as nat,
            4,
        ) + be_bytes(p.account_id as nat, 4)
    }
}

pub proof fn lemma_players_bytes_len(players: Seq<PlayerForGroupServer>)
    ensures
        players_bytes(players).len() == 12 * players.len(),
    decreases players.len(),
{
    if players.len() > 0 {
        lemma_players_bytes_len(players.drop_last());
        let p = players.last();
        lemma_be_bytes_len(p.player_pointer as nat, 4);
        lemma_be_bytes_len(p.login_id as nat, 4);
        lemma_be_bytes_len(p.account_id as nat, 4);
    }
}

/// Tells the group server which players are connected to this gate server.
///
/// - (LONG) player count
/// - (STRING) gate server name
/// - for each player: (LONG) its id in this gate, (LONG) its login id,
///   (LONG) its account id
pub struct SyncPlayerListToGroupServerPacket {
    player_count: u32,
    gate_server_name: String,
    players: Vec<PlayerForGroupServer>,
}

impl SyncPlayerListToGroupServerPacket {
    pub closed spec fn spec_player_count(&self) -> u32 {
        self.player_count
    }

    pub closed spec fn spec_gate_server_name(&self) -> Seq<char> {
        self.gate_server_name@
    }

    pub closed spec fn spec_players(&self) -> Seq<PlayerForGroupServer> {
        self.players@
    }

    pub fn new(player_count: u32, gate_server_name: String, players: Vec<PlayerForGroupServer>) -> (r:
        Self)
        ensures
            r.spec_player_count() == player_count,
            r.spec_gate_server_name() == gate_server_name@,
            r.spec_players() == players@,
    {
        SyncPlayerListToGroupServerPacket { player_count, gate_server_name, players }
    }

    /// A packet of this kind with no players and an empty name, whatever
    /// `base_packet` holds.
    pub fn from_base_packet(base_packet: BasePacket) -> (r: Result<Self, PacketError>)
        ensures
            r matches Ok(p) && p.spec_player_count() == 0 && p.spec_gate_server_name() == Seq::<
                char,
            >::empty() && p.spec_players() == Seq::<PlayerForGroupServer>::empty(),
    {
        Ok(SyncPlayerListToGroupServerPacket {
            player_count: 0,
            gate_server_name: String::new(),
            players: Vec::new(),
        })
    }

    /// The data of the packet: count, name and the players.
    pub open spec fn spec_payload(
        count: u32,
        name: Seq<char>,
        players: Seq<PlayerForGroupServer>,
    ) -> Seq<u8> {
        be_bytes(count as nat, 4) + encode_string(name) + players_bytes(players)
    }

    /// The packet with command `GTTGPSyncPlayerList`.
    pub fn to_base_packet(&self) -> (r: Result<BasePacket, PacketError>)
        requires
            7 + string_wire_len(self.spec_gate_server_name()) + 12 * self.spec_players().len()
                < u16::MAX,
        ensures
            r matches Ok(p) && p@ == built_new_packet(
                Command::GTTGPSyncPlayerList,
                Self::spec_payload(
                    self.spec_player_count(),
                    self.spec_gate_server_name(),
                    self.spec_players(),
                ),
            ),
    {
        let mut base_packet = BasePacket::new();
        base_packet.write_cmd(Command::GTTGPSyncPlayerList)?;
        proof {
            lemma_be_bytes_len(self.player_count as nat, 4);
        }
        base_packet.write_long(self.player_count)?;
        base_packet.write_string(self.gate_server_name.as_str())?;
        proof {
            lemma_encode_string_len(self.spec_gate_server_name());
        }
        let ghost head = base_packet@.data;
        let n = self.players.len();
        let mut i: usize = 0;
        while i < n
            invariant
                n == self.players@.len(),
                i <= n,
                head.len() <= 7 + string_wire_len(self.spec_gate_server_name()),
                7 + string_wire_len(self.spec_gate_server_name()) + 12 * n < u16::MAX,
                base_packet@ == (super::PacketView {
                    data: head + players_bytes(self.players@.take(i as int)),
                    size: (head.len() + 12 * i) as u16,
                    ..base_packet@
                }),
                base_packet@.size == head.len() + 12 * i,
                !base_packet@.is_built,
                base_packet@.cmd == Command::GTTGPSyncPlayerList,
                base_packet@.raw_cmd == Command::GTTGPSyncPlayerList.spec_to_u16(),
                base_packet@.offset == 4,
                base_packet@.header == super::DEFAULT_HEADER,
                base_packet@.reverse_offset == 0,
                !base_packet@.is_for_rpc,
                base_packet@.session_id is None,
            decreases n - i,
        {
            let player = &self.players[i];
            proof {
                lemma_players_bytes_len(self.players@.take(i as int));
                lemma_be_bytes_len(player.player_pointer as nat, 4);
                lemma_be_bytes_len(player.login_id as nat, 4);
                lemma_be_bytes_len(player.account_id as nat, 4);
            }
            base_packet.write_long(player.player_pointer)?;
            base_packet.write_long(player.login_id)?;
            base_packet.write_long(player.account_id)?;
            proof {
                assert(self.players@.take(i + 1).drop_last() =~= self.players@.take(i as int));
                assert(base_packet@.data =~= head + players_bytes(self.players@.take(i + 1)));
            }
            i = i + 1;
        }
        proof {
            assert(self.players@.take(n as int) =~= self.players@);
            lemma_players_bytes_len(self.players@);
            assert(base_packet@.data =~= Self::spec_payload(
                self.spec_player_count(),
                self.spec_gate_server_name(),
                self.spec_players(),
            ));
        }
        base_packet.build_packet()?;
        Ok(base_packet)
    }
}

} // verus!
