//! Packets about logging in and out.
use super::commands::{Command, ErrorCode};
use super::{built_new_packet, lemma_encode_string_len, encode_string, new_packet_view, string_wire_len, BasePacket, PacketError, PacketView};
use crate::wire::{be_bytes, lemma_be_bytes_len};
use vstd::prelude::*;
use vstd::string::StringExecFns;

verus! {

/// Tells a client that its map crashed, with a message.
pub struct ClientMapCrashPacket {
    msg: String,
}

impl ClientMapCrashPacket {
    /// The message of the packet.
    pub closed spec fn spec_msg(&self) -> Seq<char> {
        self.msg@
    }

    pub fn new(msg: String) -> (r: Self)
        ensures
            r.spec_msg() == msg@,
    {
        Self { msg }
    }

    /// A packet of this kind; the message it gets is a fixed one, whatever
    /// `base_packet` holds.
    pub fn from_base_packet(base_packet: BasePacket) -> (r: Result<Self, PacketError>)
        ensures
            r matches Ok(p) && p.spec_msg() == "ClientMapCrashPacket"@,
    {
        Ok(Self { msg: String::from_str("ClientMapCrashPacket") })
    }

    /// The packet with command `GTTCMapCrash` and the message as a string.
    pub fn to_base_packet(&self) -> (r: Result<BasePacket, PacketError>)
        requires
            3 + string_wire_len(self.spec_msg()) < u16::MAX,
        ensures
            r matches Ok(p) && p@ == built_new_packet(
                Command::GTTCMapCrash,
                encode_string(self.spec_msg()),
            ),
    {
        let mut pkt = BasePacket::new();
        pkt.write_cmd(Command::GTTCMapCrash)?;
        pkt.write_string(self.msg.as_str())?;
        proof {
            lemma_encode_string_len(self.spec_msg());
        }
        pkt.build_packet()?;
        Ok(pkt)
    }
}

/// Tells a client that its login failed, with an error code.
pub struct ClientLoginErrorPacket {
    error_code: ErrorCode,
}

impl ClientLoginErrorPacket {
    /// The error code of the packet.
    pub closed spec fn spec_error_code(&self) -> ErrorCode {
        self.error_code
    }

    pub fn new(error_code: ErrorCode) -> (r: Self)
        ensures
            r.spec_error_code() == error_code,
    {
        Self { error_code }
    }

    /// A packet of this kind; the error code it gets is `ErrNetworkException`,
    /// whatever `base_packet` holds.
    pub fn from_base_packet(base_packet: BasePacket) -> (r: Result<Self, PacketError>)
        ensures
            r matches Ok(p) && p.spec_error_code() == ErrorCode::ErrNetworkException,
    {
        Ok(Self { error_code: ErrorCode::ErrNetworkException })
    }

    /// The data of the packet: the error code as a short, or nothing for `NoError`.
    pub open spec fn spec_payload(e: ErrorCode) -> Seq<u8> {
        if e != ErrorCode::NoError {
            be_bytes(e.spec_to_u16() as nat, 2)
        } else {
            Seq::empty()
        }
    }

    /// The packet with command `GTTCLogin` and the error code, if any.
    pub fn to_base_packet(&self) -> (r: Result<BasePacket, PacketError>)
        ensures
            r matches Ok(p) && p@ == built_new_packet(
                Command::GTTCLogin,
                Self::spec_payload(self.spec_error_code()),
            ),
    {
        let mut pkt = BasePacket::new();
        pkt.write_cmd(Command::GTTCLogin)?;
        if self.error_code != ErrorCode::NoError {
            pkt.write_short(self.error_code.to_u16())?;
        }
        proof {
            lemma_be_bytes_len(self.error_code.spec_to_u16() as nat, 2);
            assert(pkt@.data =~= Self::spec_payload(self.spec_error_code()));
        }
        pkt.build_packet()?;
        Ok(pkt)
    }
}

/// Tells the group server that a client disconnected.
pub struct ClientDisconnectedForGroupPacket {
    account_id: u32,
    ip_addr: u32,
    reason: String,
}

impl ClientDisconnectedForGroupPacket {
    pub closed spec fn spec_account_id(&self) -> u32 {
        self.account_id
    }

    pub closed spec fn spec_ip_addr(&self) -> u32 {
        self.ip_addr
    }

    pub closed spec fn spec_reason(&self) -> Seq<char> {
        self.reason@
    }

    pub fn new(account_id: u32, ip_addr: u32, reason: String) -> (r: Self)
        ensures
            r.spec_account_id() == account_id,
            r.spec_ip_addr() == ip_addr,
            r.spec_reason() == reason@,
    {
        Self { account_id, ip_addr, reason }
    }

    /// A packet of this kind with zero ids and an empty reason, whatever
    /// `base_packet` holds.
    pub fn from_base_packet(base_packet: BasePacket) -> (r: Result<Self, PacketError>)
        ensures
            r matches Ok(p) && p.spec_account_id() == 0 && p.spec_ip_addr() == 0
                && p.spec_reason() == Seq::<char>::empty(),
    {
        Ok(Self { account_id: 0, ip_addr: 0, reason: String::new() })
    }

    /// The data of the packet: account id, ip address and reason.
    pub open spec fn spec_payload(account_id: u32, ip_addr: u32, reason: Seq<char>) -> Seq<u8> {
        be_bytes(account_id as nat, 4) + be_bytes(ip_addr as nat, 4) + encode_string(reason)
    }

    /// The packet with command `GTTGPUserDisconnected`.
    pub fn to_base_packet(&self) -> (r: Result<BasePacket, PacketError>)
        requires
            11 + string_wire_len(self.spec_reason()) < u16::MAX,
        ensures
            r matches Ok(p) && p@ == built_new_packet(
                Command::GTTGPUserDisconnected,
                Self::spec_payload(self.spec_account_id(), self.spec_ip_addr(), self.spec_reason()),
            ),
    {
        let mut pkt = BasePacket::new();
        pkt.write_cmd(Command::GTTGPUserDisconnected)?;
        proof {
            lemma_be_bytes_len(self.account_id as nat, 4);
            lemma_be_bytes_len(self.ip_addr as nat, 4);
        }
        pkt.write_long(self.account_id)?;
        pkt.write_long(self.ip_addr)?;
        pkt.write_string(self.reason.as_str())?;
        proof {
            lemma_encode_string_len(self.spec_reason());
        }
        assert(pkt@.data =~= Self::spec_payload(
            self.spec_account_id(),
            self.spec_ip_addr(),
            self.spec_reason(),
        ));
        pkt.build_packet()?;
        Ok(pkt)
    }
}

/// Tells the group server that a player logged out.
pub struct ClientLogoutFromGroupPacket {
    player_id: u32,
    group_addr: u32,
}

impl ClientLogoutFromGroupPacket {
    pub closed spec fn spec_player_id(&self) -> u32 {
        self.player_id
    }

    pub closed spec fn spec_group_addr(&self) -> u32 {
        self.group_addr
    }

    pub fn new(player_id: u32, group_addr: u32) -> (r: Self)
        ensures
            r.spec_player_id() == player_id,
            r.spec_group_addr() == group_addr,
    {
        Self { player_id, group_addr }
    }

    /// A packet of this kind with zero ids, whatever `base_packet` holds.
    pub fn from_base_packet(base_packet: BasePacket) -> (r: Result<Self, PacketError>)
        ensures
            r matches Ok(p) && p.spec_player_id() == 0 && p.spec_group_addr() == 0,
    {
        Ok(Self { player_id: 0, group_addr: 0 })
    }

    /// The data of the packet: player id and group address.
    pub open spec fn spec_payload(player_id: u32, group_addr: u32) -> Seq<u8> {
        be_bytes(player_id as nat, 4) + be_bytes(group_addr as nat, 4)
    }

    /// The packet with command `GTTGPUserLogout`.
    pub fn to_base_packet(&self) -> (r: Result<BasePacket, PacketError>)
        ensures
            r matches Ok(p) && p@ == built_new_packet(
                Command::GTTGPUserLogout,
                Self::spec_payload(self.spec_player_id(), self.spec_group_addr()),
            ),
    {
        let mut pkt = BasePacket::new();
        pkt.write_cmd(Command::GTTGPUserLogout)?;
        proof {
            lemma_be_bytes_len(self.player_id as nat, 4);
            lemma_be_bytes_len(self.group_addr as nat, 4);
        }
        pkt.write_long(self.player_id)?;
        pkt.write_long(self.group_addr)?;
        assert(pkt@.data =~= Self::spec_payload(self.spec_player_id(), self.spec_group_addr()));
        pkt.build_packet()?;
        Ok(pkt)
    }
}

} // verus!
