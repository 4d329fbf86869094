//! Packets exchanged with game servers.
use crate::packet::commands::Command;
use crate::packet::{
    built_new_packet, encode_string, lemma_encode_string_len, string_wire_len, BasePacket,
    PacketError, PacketView,
};
use crate::text::{split_on, split_string, string_views};
use crate::wire::{be_bytes, be_value, lemma_be_bytes_len};
use vstd::prelude::*;

verus! {

/// Sent by a game server when it connects: its name and the maps it runs,
/// separated by `;`.
pub struct GameServerInitPacket {
    pub game_server_name: String,
    pub map_list: Vec<String>,
}

impl GameServerInitPacket {
    /// The two strings can be read from the packet, each one where the
    /// previous read left the reader.
    pub open spec fn spec_readable(p: PacketView) -> bool {
        &&& p.sequence_readable()
        &&& p.spec_read_string().0 is Some
        &&& p.spec_read_string().1.sequence_readable()
        &&& p.spec_read_string().1.spec_read_string().0 is Some
    }

    /// Reads the name and the map list; the map list is split at each `;`.
    /// Both strings must be readable (see `try_from_base_packet`).
    pub fn from_base_packet(base_packet: BasePacket) -> (r: Result<Self, PacketError>)
        requires
            Self::spec_readable(base_packet@),
        ensures
            r matches Ok(p) && p.game_server_name@ == base_packet@.spec_read_string().0.unwrap()
                && string_views(p.map_list@) == split_on(
                base_packet@.spec_read_string().1.spec_read_string().0.unwrap(),
                ';',
            ),
    {
        Ok(Self::try_from_base_packet(base_packet).unwrap())
    }

    /// `from_base_packet` for any packet: nothing when a string cannot be read.
    pub fn try_from_base_packet(base_packet: BasePacket) -> (r: Option<Self>)
        ensures
            r is Some <==> Self::spec_readable(base_packet@),
            r matches Some(p) ==> p.game_server_name@ == base_packet@.spec_read_string().0.unwrap()
                && string_views(p.map_list@) == split_on(
                base_packet@.spec_read_string().1.spec_read_string().0.unwrap(),
                ';',
            ),
    {
        let mut base_packet = base_packet;
        if !base_packet.can_read_sequence() {
            return None;
        }
        let game_server_name = base_packet.read_string();
        if game_server_name.is_none() || !base_packet.can_read_sequence() {
            return None;
        }
        let map_list_as_string = base_packet.read_string();
        match map_list_as_string {
            Some(maps) => Some(
                Self {
                    game_server_name: game_server_name.unwrap(),
                    map_list: split_string(maps.as_str(), ';'),
                },
            ),
            None => None,
        }
    }
}

/// Asks a game server to put a player on a map.
pub struct GameServerEnterMapPacket {
    act_id: u32,
    password: String,
    db_id: u32,
    world_id: u32,
    map: String,
    map_copy_no: i32,
    x: u32,
    y: u32,
    enter_type: u8,
    player_id: u32,
    s_winer: u16,
}

/// The fields of a request to enter a map.
pub struct EnterMapView {
    pub act_id: u32,
    pub password: Seq<char>,
    pub db_id: u32,
    pub world_id: u32,
    pub map: Seq<char>,
    pub map_copy_no: i32,
    pub x: u32,
    pub y: u32,
    pub enter_type: u8,
    pub player_id: u32,
    pub s_winer: u16,
}

impl View for GameServerEnterMapPacket {
    type V = EnterMapView;

    closed spec fn view(&self) -> EnterMapView {
        EnterMapView {
            act_id: self.act_id,
            password: self.password@,
            db_id: self.db_id,
            world_id: self.world_id,
            map: self.map@,
            map_copy_no: self.map_copy_no,
            x: self.x,
            y: self.y,
            enter_type: self.enter_type,
            player_id: self.player_id,
            s_winer: self.s_winer,
        }
    }
}

impl GameServerEnterMapPacket {
    /// The data of the packet, in the order of its fields; a negative map
    /// copy number is written as `0xFFFFFFFF`.
    pub closed spec fn spec_payload(&self) -> Seq<u8> {
        let copy: u32 = if self.map_copy_no < 0 {
            0xFFFFFFFFu32
        } else {
            self.map_copy_no as u32
        };
        be_bytes(self.act_id as nat, 4) + encode_string(self.password@) + be_bytes(
            self.db_id as nat,
            4,
        ) + be_bytes(self.world_id as nat, 4) + encode_string(self.map@) + be_bytes(copy as nat, 4)
            + be_bytes(self.x as nat, 4) + be_bytes(self.y as nat, 4) + seq![self.enter_type]
            + be_bytes(self.player_id as nat, 4) + be_bytes(self.s_winer as nat, 2)
    }

    /// The data of a packet made by `new` with these fields.
    pub open spec fn spec_new_payload(
        act_id: u32,
        password: Seq<char>,
        db_id: u32,
        world_id: u32,
        map: Seq<char>,
        map_copy_no: i32,
        x: u32,
        y: u32,
        enter_type: u8,
        player_id: u32,
        s_winer: u16,
    ) -> Seq<u8> {
        let copy: u32 = if map_copy_no < 0 {
            0xFFFFFFFFu32
        } else {
            map_copy_no as u32
        };
        be_bytes(act_id as nat, 4) + encode_string(password) + be_bytes(db_id as nat, 4)
            + be_bytes(world_id as nat, 4) + encode_string(map) + be_bytes(copy as nat, 4)
            + be_bytes(x as nat, 4) + be_bytes(y as nat, 4) + seq![enter_type] + be_bytes(
            player_id as nat,
            4,
        ) + be_bytes(s_winer as nat, 2)
    }

    /// The strings are short enough for the packet's size.
    pub closed spec fn spec_fits(&self) -> bool {
        39 + string_wire_len(self.password@) + string_wire_len(self.map@) < u16::MAX
    }

    pub fn new(
        act_id: u32,
        password: String,
        db_id: u32,
        world_id: u32,
        map: String,
        map_copy_no: i32,
        x: u32,
        y: u32,
        enter_type: u8,
        player_id: u32,
        s_winer: u16,
    ) -> (r: Self)
        ensures
            r@ == (EnterMapView {
                act_id,
                password: password@,
                db_id,
                world_id,
                map: map@,
                map_copy_no,
                x,
                y,
                enter_type,
                player_id,
                s_winer,
            }),
            r.spec_payload() == Self::spec_new_payload(
                act_id,
                password@,
                db_id,
                world_id,
                map@,
                map_copy_no,
                x,
                y,
                enter_type,
                player_id,
                s_winer,
            ),
            r.spec_fits() == (39 + string_wire_len(password@) + string_wire_len(map@)
                < u16::MAX),
    {
        Self {
            act_id,
            password,
            db_id,
            world_id,
            map,
            map_copy_no,
            x,
            y,
            enter_type,
            player_id,
            s_winer,
        }
    }

    /// A packet of this kind with every field zero or empty, whatever
    /// `base_packet` holds.
    pub fn from_base_packet(base_packet: BasePacket) -> (r: Result<Self, PacketError>)
        ensures
            r matches Ok(p) && p@ == (EnterMapView {
                act_id: 0,
                password: Seq::<char>::empty(),
                db_id: 0,
                world_id: 0,
                map: Seq::<char>::empty(),
                map_copy_no: 0,
                x: 0,
                y: 0,
                enter_type: 0,
                player_id: 0,
                s_winer: 0,
            }) && p.spec_payload() == Self::spec_new_payload(
                0,
                Seq::<char>::empty(),
                0,
                0,
                Seq::<char>::empty(),
                0,
                0,
                0,
                0,
                0,
                0,
            ),
    {
        Ok(
            Self {
                act_id: 0,
                password: String::new(),
                db_id: 0,
                world_id: 0,
                map: String::new(),
                map_copy_no: 0,
                x: 0,
                y: 0,
                enter_type: 0,
                player_id: 0,
                s_winer: 0,
            },
        )
    }

    /// The packet with command `GTTGMPlayerEnterMap` and the fields.
    pub fn to_base_packet(&self) -> (r: Result<BasePacket, PacketError>)
        requires
            self.spec_fits(),
        ensures
            r matches Ok(p) && p@ == built_new_packet(Command::GTTGMPlayerEnterMap, self.spec_payload()),
    {
        let mut base_packet = BasePacket::new();
        proof {
            lemma_encode_string_len(self.password@);
            lemma_encode_string_len(self.map@);
            lemma_be_bytes_len(self.act_id as nat, 4);
            lemma_be_bytes_len(self.db_id as nat, 4);
            lemma_be_bytes_len(self.world_id as nat, 4);
            lemma_be_bytes_len(self.x as nat, 4);
            lemma_be_bytes_len(self.y as nat, 4);
            lemma_be_bytes_len(self.player_id as nat, 4);
            lemma_be_bytes_len(self.s_winer as nat, 2);
            lemma_be_bytes_len(0xFFFFFFFFnat, 4);
            lemma_be_bytes_len(self.map_copy_no as u32 as nat, 4);
        }
        base_packet.write_cmd(Command::GTTGMPlayerEnterMap)?;
        base_packet.write_long(self.act_id)?;
        base_packet.write_string(self.password.as_str())?;
        base_packet.write_long(self.db_id)?;
        base_packet.write_long(self.world_id)?;
        base_packet.write_string(self.map.as_str())?;
        if self.map_copy_no < 0 {
            base_packet.write_long(0xFFFFFFFF)?;
        } else {
            base_packet.write_long(self.map_copy_no as u32)?;
        }
        base_packet.write_long(self.x)?;
        base_packet.write_long(self.y)?;
        base_packet.write_char(self.enter_type)?;
        base_packet.write_long(self.player_id)?;
        base_packet.write_short(self.s_winer)?;
        assert(base_packet@.data =~= self.spec_payload());
        base_packet.build_packet()?;
        Ok(base_packet)
    }
}

/// A game server's answer to a request to enter a map. Its last bytes are,
/// from the end: the number of players it is aimed at, a player id, a
/// database id; before those, read from the end too: the game server's
/// address for the player, the number of players and whether the player
/// switched maps. The result code is the first short of its data.
#[derive(Debug)]
pub struct GameServerEnterMapResultPacket {
    pub aim_num: u16,
    pub player_id: u32,
    pub db_id: u32,
    pub ret_code: u16,
    pub gm_addr: Option<u32>,
    pub total_players: Option<u32>,
    pub is_switch: Option<u8>,
}

/// A number read back from the end, if there was one.
pub open spec fn opt_be_u32(b: Option<Seq<u8>>) -> Option<u32> {
    match b {
        Some(s) => Some(be_value(s) as u32),
        None => None,
    }
}

impl GameServerEnterMapResultPacket {
    /// The packet after the reads of `from_base_packet`, in order.
    pub open spec fn spec_steps(p: PacketView) -> Seq<PacketView> {
        let v1 = p.spec_reverse_read(2).1;
        let v2 = v1.spec_reverse_read(4).1;
        let v3 = v2.spec_reverse_read(4).1;
        let v4 = v3.spec_read_uint(2).1;
        let v5 = v4.spec_reverse_read(4).1;
        let v6 = v5.spec_reverse_read(4).1;
        seq![p, v1, v2, v3, v4, v5, v6]
    }

    /// The reads that the packet needs succeed, and no read moves a
    /// position past 255.
    pub open spec fn spec_readable(p: PacketView) -> bool {
        let s = Self::spec_steps(p);
        &&& s[0].reverse_readable(2) && s[0].spec_reverse_read(2).0 is Some
        &&& s[1].reverse_readable(4) && s[1].spec_reverse_read(4).0 is Some
        &&& s[2].reverse_readable(4) && s[2].spec_reverse_read(4).0 is Some
        &&& s[3].readable(2) && s[3].spec_read_uint(2).0 is Some
        &&& s[4].reverse_readable(4)
        &&& s[5].reverse_readable(4)
        &&& s[6].reverse_readable(1)
    }

    /// The fields read from `p`.
    pub open spec fn spec_from(p: PacketView) -> GameServerEnterMapResultPacket {
        let s = Self::spec_steps(p);
        GameServerEnterMapResultPacket {
            aim_num: be_value(s[0].spec_reverse_read(2).0.unwrap()) as u16,
            player_id: be_value(s[1].spec_reverse_read(4).0.unwrap()) as u32,
            db_id: be_value(s[2].spec_reverse_read(4).0.unwrap()) as u32,
            ret_code: s[3].spec_read_uint(2).0.unwrap() as u16,
            gm_addr: opt_be_u32(s[4].spec_reverse_read(4).0),
            total_players: opt_be_u32(s[5].spec_reverse_read(4).0),
            is_switch: match s[6].spec_reverse_read(1).0 {
                Some(b) => Some(b[0]),
                None => None,
            },
        }
    }

    /// Reads the fields (see `spec_from` and `try_from_base_packet`).
    pub fn from_base_packet(base_packet: BasePacket) -> (r: Result<Self, PacketError>)
        requires
            Self::spec_readable(base_packet@),
        ensures
            r == Ok::<Self, PacketError>(Self::spec_from(base_packet@)),
    {
        Ok(Self::try_from_base_packet(base_packet).unwrap())
    }

    /// `from_base_packet` for any packet: nothing when a read that the packet
    /// needs fails (see `spec_readable`).
    pub fn try_from_base_packet(base_packet: BasePacket) -> (r: Option<Self>)
        ensures
            r is Some <==> Self::spec_readable(base_packet@),
            r is Some ==> r == Some(Self::spec_from(base_packet@)),
    {
        let ghost s = Self::spec_steps(base_packet@);
        let mut base_packet = base_packet;
        if !base_packet.can_reverse_read(2) {
            return None;
        }
        let aim_num = base_packet.reverse_read_short();
        assert(base_packet@ == s[1]);
        if aim_num.is_none() || !base_packet.can_reverse_read(4) {
            return None;
        }
        let player_id = base_packet.reverse_read_long();
        assert(base_packet@ == s[2]);
        if player_id.is_none() || !base_packet.can_reverse_read(4) {
            return None;
        }
        let db_id = base_packet.reverse_read_long();
        assert(base_packet@ == s[3]);
        if db_id.is_none() || !base_packet.can_read(2) {
            return None;
        }
        let ret_code = base_packet.read_short();
        assert(base_packet@ == s[4]);
        if ret_code.is_none() || !base_packet.can_reverse_read(4) {
            return None;
        }
        let gm_addr = base_packet.reverse_read_long();
        assert(base_packet@ == s[5]);
        if !base_packet.can_reverse_read(4) {
            return None;
        }
        let total_players = base_packet.reverse_read_long();
        assert(base_packet@ == s[6]);
        if !base_packet.can_reverse_read(1) {
            return None;
        }
        let is_switch = base_packet.reverse_read_char();
        Some(
            Self {
                aim_num: aim_num.unwrap(),
                player_id: player_id.unwrap(),
                db_id: db_id.unwrap(),
                ret_code: ret_code.unwrap(),
                gm_addr,
                total_players,
                is_switch,
            },
        )
    }

    /// The packet to pass on to the client: the number of targets is read,
    /// then the targets and the trailing fields (`2 + 8 * aim_num + 8 + 1`
    /// bytes) are dropped from the end and the packet is built again.
    pub fn for_client(base_packet: BasePacket) -> (r: BasePacket)
        requires
            base_packet@.readable(2),
            base_packet@.remaining() >= 2,
            ({
                let v1 = base_packet@.spec_read_uint(2).1;
                let n = 11 + 8 * base_packet@.spec_read_uint(2).0.unwrap();
                &&& n <= v1.data.len()
                &&& v1.is_built ==> v1.data.len() - n >= 8
            }),
        ensures
            ({
                let v1 = base_packet@.spec_read_uint(2).1;
                let n = 11 + 8 * base_packet@.spec_read_uint(2).0.unwrap();
                r@ == v1.spec_discard_last(n as int).spec_build()
            }),
    {
        Self::try_for_client(base_packet).unwrap()
    }

    /// `for_client` for any packet: nothing when the count cannot be read or
    /// the packet is too short for what is dropped.
    pub fn try_for_client(base_packet: BasePacket) -> (r: Option<BasePacket>)
        ensures
            r is Some <==> ({
                let v1 = base_packet@.spec_read_uint(2).1;
                let n = 11 + 8 * base_packet@.spec_read_uint(2).0.unwrap();
                &&& base_packet@.readable(2)
                &&& base_packet@.remaining() >= 2
                &&& n <= v1.data.len()
                &&& v1.is_built ==> v1.data.len() - n >= 8
            }),
            r matches Some(q) ==> ({
                let v1 = base_packet@.spec_read_uint(2).1;
                let n = 11 + 8 * base_packet@.spec_read_uint(2).0.unwrap();
                q@ == v1.spec_discard_last(n as int).spec_build()
            }),
    {
        let mut base_packet = base_packet;
        if !base_packet.can_read(2) {
            return None;
        }
        let aim_num = base_packet.read_short();
        if aim_num.is_none() {
            return None;
        }
        let n = 2 + (4 * 2 * (aim_num.unwrap() as usize)) + (4 * 2) + 1;
        let len = base_packet.data_len();
        if n > len || (base_packet.is_built() && len - n < 8) {
            return None;
        }
        base_packet.discard_last(n);
        base_packet.build_packet().unwrap();
        Some(base_packet)
    }
}

/// Tells a game server that a player leaves its map.
pub struct GameServerLeaveMapPacket {
    is_character_offline: u8,
    player_addr: u32,
    gm_addr: u32,
}

impl GameServerLeaveMapPacket {
    pub closed spec fn spec_fields(&self) -> (u8, u32, u32) {
        (self.is_character_offline, self.player_addr, self.gm_addr)
    }

    pub fn new(is_character_offline: u8, player_addr: u32, gm_addr: u32) -> (r: Self)
        ensures
            r.spec_fields() == (is_character_offline, player_addr, gm_addr),
    {
        Self { is_character_offline, player_addr, gm_addr }
    }

    /// The reads of `from_base_packet` succeed: a byte and two longs.
    pub open spec fn spec_readable(p: PacketView) -> bool {
        let v1 = p.spec_read_uint(1).1;
        let v2 = v1.spec_read_uint(4).1;
        &&& p.readable(1) && p.remaining() >= 1
        &&& v1.readable(4) && v1.remaining() >= 4
        &&& v2.readable(4) && v2.remaining() >= 4
    }

    /// Reads whether the character is offline (a byte), the player's address
    /// and the game server's address (longs); each read must succeed.
    pub fn from_base_packet(base_packet: BasePacket) -> (r: Result<Self, PacketError>)
        requires
            Self::spec_readable(base_packet@),
        ensures
            ({
                let p = base_packet@;
                let v1 = p.spec_read_uint(1).1;
                let v2 = v1.spec_read_uint(4).1;
                r matches Ok(x) && x.spec_fields() == (
                    p.data[p.offset as int],
                    be_value(v1.bytes_at(4)) as u32,
                    be_value(v2.bytes_at(4)) as u32,
                )
            }),
    {
        let mut base_packet = base_packet;
        let is_character_offline = base_packet.read_char().unwrap();
        let player_addr = base_packet.read_long().unwrap();
        let gm_addr = base_packet.read_long().unwrap();
        Ok(Self { is_character_offline, player_addr, gm_addr })
    }
}

} // verus!
