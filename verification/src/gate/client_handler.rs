//! The decisions of a gate on packets from game clients.
use super::gate_server::SUPPORTED_CLIENT_VERSION;
use super::player::{CurrentScreen, Player};
use crate::packet::auth::{
    ClientDisconnectedForGroupPacket, ClientLoginErrorPacket, ClientLogoutFromGroupPacket,
    ClientMapCrashPacket,
};
use crate::packet::commands::{Command, ErrorCode};
use crate::packet::{
    built_new_packet, encode_string, lemma_encode_string_len, string_wire_len, string_wire_length,
    BasePacket, PacketView,
};
use crate::text::lemma_ascii_utf8_len;
use crate::wire::{be_bytes, be_value, lemma_be_bytes_len};
use vstd::string::StringExecFns;
use vstd::prelude::*;
use vstd::slice::slice_to_vec;

verus! {

/// Commands that client handlers send to this gate.
pub enum ClientGateCommands {
    /// Drop the connection with this id.
    Disconnect(u32),
}

/// What to do with a packet from a client.
#[derive(Debug, PartialEq, Eq, Structural)]
pub enum ClientPacketAction {
    Login,
    SelectCharacter,
    /// Pass the packet on to the player's game server.
    ForwardToGameServer,
    Disconnect,
}

/// The packet after each step of `classify_client_packet`: two bytes read
/// back from the end, the packet counter (bytes 8 to 12) removed, the last two
/// bytes dropped, the command read.
pub open spec fn client_packet_steps(p: PacketView) -> Seq<PacketView> {
    let v1 = p.spec_reverse_read(1).1;
    let v2 = v1.spec_reverse_read(1).1;
    let v3 = v2.spec_remove_range(8, 12);
    let v4 = v3.spec_discard_last(2);
    let v5 = v4.spec_read_cmd().1;
    seq![p, v1, v2, v3, v4, v5]
}

/// The command a client packet is read as.
pub open spec fn client_packet_command(p: PacketView) -> Option<Command> {
    client_packet_steps(p)[4].spec_read_cmd().0
}

/// The client packets that can be handled: both bytes of the check
/// code are there, the packet is long enough to remove the counter and the
/// code, and its command is a login, a character selection or none.
pub open spec fn client_packet_handled(p: PacketView) -> bool {
    let s = client_packet_steps(p);
    &&& s[0].reverse_readable(1) && s[0].spec_reverse_read(1).0 is Some
    &&& s[1].reverse_readable(1) && s[1].spec_reverse_read(1).0 is Some
    &&& 12 <= s[2].data.len()
    &&& 2 <= s[3].data.len()
    &&& client_packet_command(p) matches Some(c) && (c == Command::CTGTLogin || c
        == Command::CTGTSelectCharacter || c == Command::NoCommand)
}

/// The action for a client packet: login and character selection are
/// handled here; a packet with no known command goes to the game server when
/// its command number is from 1 to 500 and makes the client disconnect
/// otherwise.
pub open spec fn spec_client_action(p: PacketView) -> ClientPacketAction {
    match client_packet_command(p) {
        Some(Command::CTGTLogin) => ClientPacketAction::Login,
        Some(Command::CTGTSelectCharacter) => ClientPacketAction::SelectCharacter,
        _ => if 1 <= client_packet_steps(p)[5].raw_cmd <= 500 {
            ClientPacketAction::ForwardToGameServer
        } else {
            ClientPacketAction::Disconnect
        },
    }
}

/// Takes the check code and packet counter off a client packet, reads its
/// command and decides what to do with it. A missing check code and other
/// commands cannot be handled, so they are ruled out (see
/// `try_classify_client_packet`).
pub fn classify_client_packet(packet: &mut BasePacket) -> (r: ClientPacketAction)
    requires
        client_packet_handled(old(packet)@),
    ensures
        final(packet)@ == client_packet_steps(old(packet)@)[5],
        r == spec_client_action(old(packet)@),
{
    try_classify_client_packet(packet).unwrap()
}

/// `classify_client_packet` for any packet: nothing for a packet that cannot
/// be handled (see `client_packet_handled`), which is then left part-way
/// through the steps.
pub fn try_classify_client_packet(packet: &mut BasePacket) -> (r: Option<ClientPacketAction>)
    ensures
        r is Some <==> client_packet_handled(old(packet)@),
        r is Some ==> final(packet)@ == client_packet_steps(old(packet)@)[5] && r == Some(
            spec_client_action(old(packet)@),
        ),
{
    let ghost s = client_packet_steps(packet@);
    if !packet.can_reverse_read(1) {
        return None;
    }
    let wpe_high = packet.reverse_read_char();
    if wpe_high.is_none() || !packet.can_reverse_read(1) {
        return None;
    }
    let wpe_low = packet.reverse_read_char();
    if wpe_low.is_none() || packet.data_len() < 12 {
        return None;
    }
    // remove the packet counter
    packet.remove_range(8..12);
    if packet.data_len() < 2 {
        return None;
    }
    // remove the two bytes of the check code
    packet.discard_last(2);
    assert(packet@ == s[4]);
    if !packet.can_read_cmd() {
        return None;
    }
    let cmd = packet.read_cmd();
    match cmd {
        Some(Command::CTGTLogin) => Some(ClientPacketAction::Login),
        Some(Command::CTGTSelectCharacter) => Some(ClientPacketAction::SelectCharacter),
        Some(Command::NoCommand) => {
            let raw_cmd = packet.get_raw_cmd();
            if 1 <= raw_cmd && raw_cmd <= 500 {
                Some(ClientPacketAction::ForwardToGameServer)
            } else {
                Some(ClientPacketAction::Disconnect)
            }
        },
        _ => None,
    }
}

/// The view of a login error packet with this code.
pub open spec fn login_error_view(code: ErrorCode) -> PacketView {
    built_new_packet(Command::GTTCLogin, ClientLoginErrorPacket::spec_payload(code))
}

/// The view of the packet telling a client that it is logged in already.
pub open spec fn already_logged_in_view() -> PacketView {
    built_new_packet(Command::GTTCMapCrash, encode_string("Login error - You are already logged in"@))
}

/// The login error packet with this code.
fn login_error_packet(code: ErrorCode) -> (r: BasePacket)
    ensures
        r@ == login_error_view(code),
{
    let pkt = ClientLoginErrorPacket::new(code).to_base_packet();
    pkt.unwrap()
}

/// The checks made on a login request before asking the group server, in
/// order: a player that is logged in already is refused with a map crash
/// packet; a request older than 30 seconds (`packet_too_old`) with a network
/// error; then the client version is read back from the end of the packet and
/// a version other than `SUPPORTED_CLIENT_VERSION` is refused with a version
/// error; a client whose address is unknown (`ip_addr`) with a network error.
/// The result is the packet to send before closing the connection, or nothing
/// when the request passes. The version must be readable, so a packet
/// without one is ruled out for requests that get that far.
pub fn check_login_request(
    packet: &mut BasePacket,
    account_id: u32,
    packet_too_old: bool,
    ip_addr: Option<u32>,
) -> (r: Option<BasePacket>)
    requires
        account_id == 0 && !packet_too_old ==> old(packet)@.reverse_readable(2) && old(
            packet,
        )@.spec_reverse_read(2).0 is Some,
    ensures
        account_id > 0 ==> final(packet)@ == old(packet)@ && (r matches Some(p) && p@
            == already_logged_in_view()),
        account_id == 0 && packet_too_old ==> final(packet)@ == old(packet)@ && (r matches Some(p)
            && p@ == login_error_view(ErrorCode::ErrNetworkException)),
        account_id == 0 && !packet_too_old ==> {
            let version = be_value(old(packet)@.spec_reverse_read(2).0.unwrap());
            &&& final(packet)@ == old(packet)@.spec_reverse_read(2).1
            &&& version != SUPPORTED_CLIENT_VERSION ==> (r matches Some(p) && p@
                == login_error_view(ErrorCode::ErrClientVersionMismatch))
            &&& version == SUPPORTED_CLIENT_VERSION && ip_addr is None ==> (r matches Some(p) && p@
                == login_error_view(ErrorCode::ErrNetworkException))
            &&& version == SUPPORTED_CLIENT_VERSION && ip_addr is Some ==> r is None
        },
{
    if account_id > 0 {
        let msg = String::from_str("Login error - You are already logged in");
        proof {
            reveal_strlit("Login error - You are already logged in");
            lemma_ascii_utf8_len(msg@);
        }
        let error_pkt = ClientMapCrashPacket::new(msg).to_base_packet();
        return Some(error_pkt.unwrap());
    }
    if packet_too_old {
        return Some(login_error_packet(ErrorCode::ErrNetworkException));
    }
    let client_version = packet.reverse_read_short().unwrap();
    if client_version != SUPPORTED_CLIENT_VERSION {
        return Some(login_error_packet(ErrorCode::ErrClientVersionMismatch));
    }
    if ip_addr.is_none() {
        return Some(login_error_packet(ErrorCode::ErrNetworkException));
    }
    None
}

/// A duplicate of `p` given a command and the default header: the start of
/// each packet this gate answers with.
pub open spec fn reply_base(p: PacketView, cmd: Command) -> PacketView {
    PacketView {
        offset: 8,
        reverse_offset: 0,
        cmd: cmd,
        raw_cmd: cmd.spec_to_u16(),
        ..p
    }
}

/// The login request after each step of `build_group_login_request`: the
/// version of the client's check code read back from the end, the last four
/// bytes dropped, the packet built again.
pub open spec fn login_request_steps(p: PacketView) -> Seq<PacketView> {
    let v1 = p.spec_reverse_read(2).1;
    let v2 = v1.spec_discard_last(4);
    let v3 = v2.spec_build();
    seq![p, v1, v2, v3]
}

/// The request to the group server: the client's packet with command
/// `GTTGPUserLogin`, then the client's text, address, connection id and 916.
pub open spec fn group_login_request_view(
    p: PacketView,
    chapstr: Seq<char>,
    ip_addr: u32,
    connection_id: u32,
) -> PacketView {
    reply_base(login_request_steps(p)[3], Command::GTTGPUserLogin).appended(
        encode_string(chapstr),
    ).appended(be_bytes(ip_addr as nat, 4)).appended(be_bytes(connection_id as nat, 4)).appended(
        be_bytes(916, 2),
    )
}

/// The login requests that can be turned into a request to the group
/// server: the check code's version can be read back, the packet holds the
/// four bytes to drop and the group server's fields fit in the length.
pub open spec fn login_request_handled(p: PacketView, chapstr: Seq<char>) -> bool {
    let s = login_request_steps(p);
    &&& p.reverse_readable(2)
    &&& p.spec_reverse_read(2).0 is Some
    &&& 4 <= s[1].data.len()
    &&& s[2].is_built ==> s[2].data.len() >= 8
    &&& s[2].data.len() + 8 <= usize::MAX
    &&& s[3].size + 13 + string_wire_len(chapstr) < u16::MAX
}

/// Turns a client's login request into the request to the group server
/// (see `group_login_request_view`); the client's packet is left as
/// `login_request_steps` gives it. The check code's version must be
/// readable, so a packet without one is ruled out (see
/// `try_build_group_login_request`).
pub fn build_group_login_request(
    packet: &mut BasePacket,
    chapstr: &str,
    ip_addr: u32,
    connection_id: u32,
) -> (r: BasePacket)
    requires
        login_request_handled(old(packet)@, chapstr@),
    ensures
        final(packet)@ == login_request_steps(old(packet)@)[3],
        r@ == group_login_request_view(old(packet)@, chapstr@, ip_addr, connection_id),
{
    try_build_group_login_request(packet, chapstr, ip_addr, connection_id).unwrap()
}

/// `build_group_login_request` for any packet: nothing for a request that
/// cannot be handled (see `login_request_handled`), which is then left
/// part-way through the steps.
pub fn try_build_group_login_request(
    packet: &mut BasePacket,
    chapstr: &str,
    ip_addr: u32,
    connection_id: u32,
) -> (r: Option<BasePacket>)
    ensures
        r is Some <==> login_request_handled(old(packet)@, chapstr@),
        r matches Some(q) ==> final(packet)@ == login_request_steps(old(packet)@)[3] && q@
            == group_login_request_view(old(packet)@, chapstr@, ip_addr, connection_id),
{
    let ghost s = login_request_steps(packet@);
    if !packet.can_reverse_read(2) {
        return None;
    }
    // the version of the check code is not looked at
    if packet.reverse_read_short().is_none() || packet.data_len() < 4 {
        return None;
    }
    packet.discard_last(4);
    if (packet.is_built() && packet.data_len() < 8) || packet.data_len() > usize::MAX - 8 {
        return None;
    }
    packet.build_packet().unwrap();
    if (packet.get_len() as usize) + 13 + (string_wire_length(chapstr) as usize) >= 65535 {
        return None;
    }
    let mut gpserver_packet = packet.duplicate();
    gpserver_packet.write_cmd(Command::GTTGPUserLogin).unwrap();
    proof {
        lemma_encode_string_len(chapstr@);
        lemma_be_bytes_len(ip_addr as nat, 4);
        lemma_be_bytes_len(connection_id as nat, 4);
    }
    gpserver_packet.write_string(chapstr).unwrap();
    gpserver_packet.write_long(ip_addr).unwrap();
    gpserver_packet.write_long(connection_id).unwrap();
    gpserver_packet.write_short(916).unwrap();
    Some(gpserver_packet)
}

/// The group server's login data for a player.
pub struct GroupLoginAccepted {
    pub group_addr: u32,
    pub login_id: u32,
    pub account_id: u32,
    pub by_password: u8,
    pub comm_key_len: u16,
    pub comm_text_key: Vec<u8>,
    /// The login reply to send to the client.
    pub client_packet: BasePacket,
}

/// What the group server's answer to a login means.
pub enum GroupLoginReply {
    /// The answer holds no data: the client gets a network error.
    NoData(BasePacket),
    /// The answer starts with a non-zero error code: the client gets the
    /// answer itself as its login reply.
    Rejected(BasePacket),
    Accepted(GroupLoginAccepted),
}

/// The answer after each step of `process_group_login_reply`: the error
/// code read; then, read back from the end, the group address, login id,
/// account id (longs), password flag (byte), key length (short) and key; then
/// the last `17 + key length` bytes dropped.
pub open spec fn login_reply_steps(p: PacketView) -> Seq<PacketView> {
    let r1 = p.spec_read_uint(2).1;
    let r2 = r1.spec_reverse_read(4).1;
    let r3 = r2.spec_reverse_read(4).1;
    let r4 = r3.spec_reverse_read(4).1;
    let r5 = r4.spec_reverse_read(1).1;
    let r6 = r5.spec_reverse_read(2).1;
    let key_len = be_value(r5.spec_reverse_read(2).0.unwrap());
    let r7 = r6.spec_reverse_read(key_len as int).1;
    let r8 = r7.spec_discard_last(17 + key_len as int);
    seq![p, r1, r2, r3, r4, r5, r6, r7, r8]
}

/// The error code at the start of the answer, if there is one.
pub open spec fn login_reply_error(p: PacketView) -> Option<nat> {
    p.spec_read_uint(2).0
}

/// The answer is a refusal: it starts with a non-zero error code.
pub open spec fn login_reply_refused(p: PacketView) -> bool {
    login_reply_error(p) matches Some(e) && e != 0
}

/// The key length read from the answer.
pub open spec fn login_reply_key_len(p: PacketView) -> nat {
    be_value(login_reply_steps(p)[5].spec_reverse_read(2).0.unwrap())
}

/// The answers that can be handled: the reads and drops that the answer
/// needs succeed, and no position moves past 255.
pub open spec fn login_reply_handled(p: PacketView) -> bool {
    let s = login_reply_steps(p);
    let n = login_reply_key_len(p);
    p.data.len() > 8 ==> {
        &&& p.readable(2)
        &&& p.data.len() + 8 <= usize::MAX
        &&& !login_reply_refused(p) ==> {
            &&& s[1].reverse_readable(4) && s[1].spec_reverse_read(4).0 is Some
            &&& s[2].reverse_readable(4) && s[2].spec_reverse_read(4).0 is Some
            &&& s[3].reverse_readable(4) && s[3].spec_reverse_read(4).0 is Some
            &&& s[4].reverse_readable(1) && s[4].spec_reverse_read(1).0 is Some
            &&& s[5].reverse_readable(2) && s[5].spec_reverse_read(2).0 is Some
            &&& s[6].reverse_offset + n <= s[6].data.len()
            &&& s[6].reverse_offset + n <= 255
            &&& 17 + n <= s[7].data.len()
            &&& s[8].data.len() >= 8
            &&& s[8].size + 9 < u16::MAX
        }
    }
}

/// The client's login reply when the group server accepts: the answer with
/// its last fields dropped, command `GTTCLogin`, then the password flag, 0
/// and 0x3214, with the default header.
pub open spec fn accepted_login_reply_view(p: PacketView) -> PacketView {
    let s = login_reply_steps(p);
    let by_password = s[4].spec_reverse_read(1).0.unwrap()[0];
    PacketView {
        header: crate::packet::DEFAULT_HEADER,
        session_id: Some(crate::packet::DEFAULT_HEADER),
        ..reply_base(s[8], Command::GTTCLogin).appended(seq![by_password]).appended(
            be_bytes(0, 4),
        ).appended(be_bytes(0x3214, 4))
    }.spec_build()
}

/// The client's login reply when the group server refuses: the answer with
/// command `GTTCLogin` and the default header.
pub open spec fn refused_login_reply_view(p: PacketView) -> PacketView {
    PacketView {
        header: crate::packet::DEFAULT_HEADER,
        session_id: Some(crate::packet::DEFAULT_HEADER),
        ..reply_base(login_reply_steps(p)[1], Command::GTTCLogin)
    }.spec_build()
}

/// Reads the group server's answer to a login (see `GroupLoginReply`,
/// `login_reply_steps` and the reply views; see also
/// `try_process_group_login_reply`).
pub fn process_group_login_reply(result: &mut BasePacket) -> (r: GroupLoginReply)
    requires
        login_reply_handled(old(result)@),
    ensures
        old(result)@.data.len() <= 8 ==> final(result)@ == old(result)@ && (r matches GroupLoginReply::NoData(
            p,
        ) && p@ == login_error_view(ErrorCode::ErrNetworkException)),
        old(result)@.data.len() > 8 && login_reply_refused(old(result)@) ==> final(result)@
            == login_reply_steps(old(result)@)[1] && (r matches GroupLoginReply::Rejected(p) && p@
            == refused_login_reply_view(old(result)@)),
        old(result)@.data.len() > 8 && !login_reply_refused(old(result)@) ==> {
            let s = login_reply_steps(old(result)@);
            &&& final(result)@ == s[8]
            &&& r matches GroupLoginReply::Accepted(a)
            &&& a.group_addr == be_value(s[1].spec_reverse_read(4).0.unwrap())
            &&& a.login_id == be_value(s[2].spec_reverse_read(4).0.unwrap())
            &&& a.account_id == be_value(s[3].spec_reverse_read(4).0.unwrap())
            &&& a.by_password == s[4].spec_reverse_read(1).0.unwrap()[0]
            &&& a.comm_key_len == login_reply_key_len(old(result)@)
            &&& a.comm_text_key@ == s[6].spec_reverse_read(
                login_reply_key_len(old(result)@) as int,
            ).0.unwrap()
            &&& a.client_packet@ == accepted_login_reply_view(old(result)@)
        },
{
    try_process_group_login_reply(result).unwrap()
}

/// `process_group_login_reply` for any answer: nothing for an answer that
/// cannot be handled (see `login_reply_handled`), which is then left part-way
/// through the steps.
pub fn try_process_group_login_reply(result: &mut BasePacket) -> (r: Option<GroupLoginReply>)
    ensures
        r is Some <==> login_reply_handled(old(result)@),
        r is Some && old(result)@.data.len() <= 8 ==> final(result)@ == old(result)@ && (r matches Some(
            GroupLoginReply::NoData(p),
        ) && p@ == login_error_view(ErrorCode::ErrNetworkException)),
        r is Some && old(result)@.data.len() > 8 && login_reply_refused(old(result)@) ==> final(result)@
            == login_reply_steps(old(result)@)[1] && (r matches Some(GroupLoginReply::Rejected(p))
            && p@ == refused_login_reply_view(old(result)@)),
        r is Some && old(result)@.data.len() > 8 && !login_reply_refused(old(result)@) ==> {
            let s = login_reply_steps(old(result)@);
            &&& final(result)@ == s[8]
            &&& r matches Some(GroupLoginReply::Accepted(a))
            &&& a.group_addr == be_value(s[1].spec_reverse_read(4).0.unwrap())
            &&& a.login_id == be_value(s[2].spec_reverse_read(4).0.unwrap())
            &&& a.account_id == be_value(s[3].spec_reverse_read(4).0.unwrap())
            &&& a.by_password == s[4].spec_reverse_read(1).0.unwrap()[0]
            &&& a.comm_key_len == login_reply_key_len(old(result)@)
            &&& a.comm_text_key@ == s[6].spec_reverse_read(
                login_reply_key_len(old(result)@) as int,
            ).0.unwrap()
            &&& a.client_packet@ == accepted_login_reply_view(old(result)@)
        },
{
    let ghost s = login_reply_steps(result@);
    if !result.has_data() {
        return Some(GroupLoginReply::NoData(login_error_packet(ErrorCode::ErrNetworkException)));
    }
    if !result.can_read(2) || result.data_len() > usize::MAX - 8 {
        return None;
    }
    let error_code = result.read_short();
    if error_code.is_some() && error_code.unwrap() != 0 {
        let mut err_pkt = result.duplicate();
        err_pkt.write_cmd(Command::GTTCLogin).unwrap();
        err_pkt.reset_header();
        err_pkt.build_packet().unwrap();
        return Some(GroupLoginReply::Rejected(err_pkt));
    }
    if !result.can_reverse_read(4) {
        return None;
    }
    let group_addr = result.reverse_read_long();
    if group_addr.is_none() || !result.can_reverse_read(4) {
        return None;
    }
    let login_id = result.reverse_read_long();
    if login_id.is_none() || !result.can_reverse_read(4) {
        return None;
    }
    let account_id = result.reverse_read_long();
    if account_id.is_none() || !result.can_reverse_read(1) {
        return None;
    }
    let by_password = result.reverse_read_char();
    if by_password.is_none() || !result.can_reverse_read(2) {
        return None;
    }
    let comm_key_len = result.reverse_read_short();
    if comm_key_len.is_none() {
        return None;
    }
    let group_addr = group_addr.unwrap();
    let login_id = login_id.unwrap();
    let account_id = account_id.unwrap();
    let by_password = by_password.unwrap();
    let comm_key_len = comm_key_len.unwrap();
    assert(result@ == s[6]);
    let n = comm_key_len as usize;
    let rev = result.get_reverse_offset() as usize;
    let len = result.data_len();
    if rev + n > len || rev + n > 255 {
        return None;
    }
    let comm_text_key = slice_to_vec(result.reverse_read_bytes(n).unwrap());
    if result.data_len() < 17 + n {
        return None;
    }
    result.discard_last(12 + 1 + 2 + n + 2);
    assert(result@ == s[8]);
    if result.data_len() < 8 || (result.get_len() as usize) + 9 >= 65535 {
        return None;
    }
    let mut client_pkt = result.duplicate();
    client_pkt.write_cmd(Command::GTTCLogin).unwrap();
    proof {
        lemma_be_bytes_len(0, 4);
        lemma_be_bytes_len(0x3214, 4);
    }
    client_pkt.write_char(by_password).unwrap();
    // the encryption of the connection is not configured
    client_pkt.write_long(0).unwrap();
    client_pkt.write_long(0x3214).unwrap();
    client_pkt.reset_header();
    client_pkt.build_packet().unwrap();
    Some(
        GroupLoginReply::Accepted(
            GroupLoginAccepted {
                group_addr,
                login_id,
                account_id,
                by_password,
                comm_key_len,
                comm_text_key,
                client_packet: client_pkt,
            },
        ),
    )
}

/// The request to the group server when a player picks a character: the
/// client's packet with the default header, command `GTTGPUserBeginPlay`,
/// the connection id and the player's group address. It is built when sent.
pub open spec fn begin_play_request_view(p: PacketView, connection_id: u32, group_addr: u32) -> PacketView {
    PacketView {
        header: crate::packet::DEFAULT_HEADER,
        session_id: Some(crate::packet::DEFAULT_HEADER),
        ..reply_base(p, Command::GTTGPUserBeginPlay)
    }.appended(be_bytes(connection_id as nat, 4)).appended(be_bytes(group_addr as nat, 4))
}

/// Turns a client's character selection into the request to the group
/// server (see `begin_play_request_view`).
pub fn build_begin_play_request(packet: &BasePacket, connection_id: u32, group_addr: u32) -> (r:
    BasePacket)
    requires
        packet@.size + 8 <= u16::MAX,
    ensures
        r@ == begin_play_request_view(packet@, connection_id, group_addr),
{
    let mut begin_ply_pkt_for_group = packet.duplicate();
    begin_ply_pkt_for_group.reset_header();
    begin_ply_pkt_for_group.write_cmd(Command::GTTGPUserBeginPlay).unwrap();
    proof {
        lemma_be_bytes_len(connection_id as nat, 4);
    }
    begin_ply_pkt_for_group.write_long(connection_id).unwrap();
    begin_ply_pkt_for_group.write_long(group_addr).unwrap();
    begin_ply_pkt_for_group
}

/// What the group server tells when a player starts playing.
pub struct BeginPlayReply {
    pub error_code: u16,
    pub password: String,
    pub db_id: u32,
    pub world_id: u32,
    pub map_name: String,
    pub garner_winner: u16,
}

/// The answer after each read of `parse_begin_play_reply`: error code
/// (short), password (string), database id and world id (longs), map name
/// (string), garner winner (short).
pub open spec fn begin_play_reply_steps(p: PacketView) -> Seq<PacketView> {
    let v1 = p.spec_read_uint(2).1;
    let v2 = v1.spec_read_string().1;
    let v3 = v2.spec_read_uint(4).1;
    let v4 = v3.spec_read_uint(4).1;
    let v5 = v4.spec_read_string().1;
    let v6 = v5.spec_read_uint(2).1;
    seq![p, v1, v2, v3, v4, v5, v6]
}

/// The reads that an answer with data needs succeed.
pub open spec fn begin_play_reply_handled(p: PacketView) -> bool {
    let s = begin_play_reply_steps(p);
    p.data.len() > 8 ==> {
        &&& s[0].readable(2) && s[0].spec_read_uint(2).0 is Some
        &&& s[1].sequence_readable() && s[1].spec_read_string().0 is Some
        &&& s[2].readable(4) && s[2].spec_read_uint(4).0 is Some
        &&& s[3].readable(4) && s[3].spec_read_uint(4).0 is Some
        &&& s[4].sequence_readable() && s[4].spec_read_string().0 is Some
        &&& s[5].readable(2) && s[5].spec_read_uint(2).0 is Some
    }
}

/// Reads the group server's answer when a player starts playing; nothing
/// for an answer without data. A non-zero error code is only worth a log
/// line, and the fields are read all the same (see also
/// `try_parse_begin_play_reply`).
pub fn parse_begin_play_reply(result: &mut BasePacket) -> (r: Option<BeginPlayReply>)
    requires
        begin_play_reply_handled(old(result)@),
    ensures
        old(result)@.data.len() <= 8 ==> r is None && final(result)@ == old(result)@,
        old(result)@.data.len() > 8 ==> {
            let s = begin_play_reply_steps(old(result)@);
            &&& final(result)@ == s[6]
            &&& r matches Some(b)
            &&& b.error_code == s[0].spec_read_uint(2).0.unwrap()
            &&& b.password@ == s[1].spec_read_string().0.unwrap()
            &&& b.db_id == s[2].spec_read_uint(4).0.unwrap()
            &&& b.world_id == s[3].spec_read_uint(4).0.unwrap()
            &&& b.map_name@ == s[4].spec_read_string().0.unwrap()
            &&& b.garner_winner == s[5].spec_read_uint(2).0.unwrap()
        },
{
    try_parse_begin_play_reply(result).unwrap()
}

/// `parse_begin_play_reply` for any answer: nothing for an answer that
/// cannot be handled (see `begin_play_reply_handled`), which is then left
/// part-way through the reads.
pub fn try_parse_begin_play_reply(result: &mut BasePacket) -> (r: Option<Option<BeginPlayReply>>)
    ensures
        r is Some <==> begin_play_reply_handled(old(result)@),
        r is Some && old(result)@.data.len() <= 8 ==> r == Some(None::<BeginPlayReply>)
            && final(result)@ == old(result)@,
        r is Some && old(result)@.data.len() > 8 ==> {
            let s = begin_play_reply_steps(old(result)@);
            &&& final(result)@ == s[6]
            &&& r matches Some(Some(b))
            &&& b.error_code == s[0].spec_read_uint(2).0.unwrap()
            &&& b.password@ == s[1].spec_read_string().0.unwrap()
            &&& b.db_id == s[2].spec_read_uint(4).0.unwrap()
            &&& b.world_id == s[3].spec_read_uint(4).0.unwrap()
            &&& b.map_name@ == s[4].spec_read_string().0.unwrap()
            &&& b.garner_winner == s[5].spec_read_uint(2).0.unwrap()
        },
{
    let ghost s = begin_play_reply_steps(result@);
    if !result.has_data() {
        return Some(None);
    }
    if !result.can_read(2) {
        return None;
    }
    let error_code = result.read_short();
    if error_code.is_none() || !result.can_read_sequence() {
        return None;
    }
    let password = result.read_string();
    if password.is_none() || !result.can_read(4) {
        return None;
    }
    let db_id = result.read_long();
    if db_id.is_none() || !result.can_read(4) {
        return None;
    }
    let world_id = result.read_long();
    assert(result@ == s[4]);
    if world_id.is_none() || !result.can_read_sequence() {
        return None;
    }
    let map_name = result.read_string();
    if map_name.is_none() || !result.can_read(2) {
        return None;
    }
    let garner_winner = result.read_short();
    if garner_winner.is_none() {
        return None;
    }
    Some(
        Some(
            BeginPlayReply {
                error_code: error_code.unwrap(),
                password: password.unwrap(),
                db_id: db_id.unwrap(),
                world_id: world_id.unwrap(),
                map_name: map_name.unwrap(),
                garner_winner: garner_winner.unwrap(),
            },
        ),
    )
}

/// The packet asking game servers to drop a character.
pub fn build_kick_character_packet(db_id: u32) -> (r: BasePacket)
    ensures
        r@ == built_new_packet(Command::GTTGMKickCharacter, be_bytes(db_id as nat, 4)),
{
    let mut kick_character_pkt = BasePacket::new();
    kick_character_pkt.write_cmd(Command::GTTGMKickCharacter).unwrap();
    proof {
        lemma_be_bytes_len(db_id as nat, 4);
    }
    kick_character_pkt.write_long(db_id).unwrap();
    kick_character_pkt.build_packet().unwrap();
    kick_character_pkt
}

/// The packet telling a client that it is not logged in: a new packet with
/// no command and the error code as a short; it is sent without being built.
pub fn build_not_logged_in_packet() -> (r: BasePacket)
    ensures
        r@ == crate::packet::new_packet_view().appended(
            be_bytes(ErrorCode::ErrClientNotLoggedIn.spec_to_u16() as nat, 2),
        ),
{
    let mut err_pkt = BasePacket::new();
    err_pkt.write_cmd(Command::NoCommand).unwrap();
    err_pkt.write_short(ErrorCode::ErrClientNotLoggedIn.to_u16()).unwrap();
    err_pkt
}

/// What a client's disconnection leads to.
pub enum DisconnectAction {
    /// The player is not logged in: the client gets this packet and the
    /// connection is closed.
    RefuseNotLoggedIn(BasePacket),
    /// The group server is told that the client disconnected (`disconnected`,
    /// sent as is) and that the player logged out (`logout`, a remote call).
    NotifyGroupServer { disconnected: BasePacket, logout: BasePacket },
}

/// The packets of a client's disconnection: a player that is not logged in
/// (on no screen yet) gets `build_not_logged_in_packet`; otherwise the group
/// server is told of the disconnection of the account from its address, with
/// the reason `-27`, and of the logout of the connection from the player's
/// group address.
pub fn plan_disconnect<G>(player: &Player<G>, connection_id: u32) -> (r: DisconnectAction)
    ensures
        player@.current_screen == CurrentScreen::NoScreen ==> (r matches DisconnectAction::RefuseNotLoggedIn(
            p,
        ) && p@ == crate::packet::new_packet_view().appended(
            be_bytes(ErrorCode::ErrClientNotLoggedIn.spec_to_u16() as nat, 2),
        )),
        player@.current_screen != CurrentScreen::NoScreen ==> (r matches DisconnectAction::NotifyGroupServer {
            disconnected,
            logout,
        } && disconnected@ == built_new_packet(
            Command::GTTGPUserDisconnected,
            ClientDisconnectedForGroupPacket::spec_payload(
                player@.account_id,
                player@.ip_addr,
                "-27"@,
            ),
        ) && logout@ == built_new_packet(
            Command::GTTGPUserLogout,
            ClientLogoutFromGroupPacket::spec_payload(connection_id, player@.group_addr),
        )),
{
    if !player.is_active() {
        return DisconnectAction::RefuseNotLoggedIn(build_not_logged_in_packet());
    }
    let reason = String::from_str("-27");
    proof {
        reveal_strlit("-27");
        lemma_ascii_utf8_len(reason@);
    }
    let disconnected = ClientDisconnectedForGroupPacket::new(
        player.get_account_id(),
        player.get_ip_addr(),
        reason,
    ).to_base_packet().unwrap();
    let logout = ClientLogoutFromGroupPacket::new(connection_id, player.get_group_addr())
        .to_base_packet().unwrap();
    DisconnectAction::NotifyGroupServer { disconnected, logout }
}

/// Where a client packet goes by the command it is read with: a login and a
/// character selection are handled by this gate; a packet whose command names
/// no command is forwarded to the player's game server when the command
/// number it was read with is from 1 to 500, and makes the client disconnect
/// otherwise.
pub proof fn law_unnamed_client_commands_forward_or_disconnect(p: PacketView)
    requires
        client_packet_handled(p),
    ensures
        client_packet_command(p) == Some(Command::CTGTLogin) ==> spec_client_action(p)
            == ClientPacketAction::Login,
        client_packet_command(p) == Some(Command::CTGTSelectCharacter) ==> spec_client_action(p)
            == ClientPacketAction::SelectCharacter,
        client_packet_command(p) == Some(Command::NoCommand) && 1 <= client_packet_steps(p)[5].raw_cmd
            <= 500 ==> spec_client_action(p) == ClientPacketAction::ForwardToGameServer,
        client_packet_command(p) == Some(Command::NoCommand) && !(1 <= client_packet_steps(p)[5].raw_cmd
            <= 500) ==> spec_client_action(p) == ClientPacketAction::Disconnect,
        client_packet_command(p) == Some(Command::NoCommand) ==> client_packet_steps(p)[5].raw_cmd
            == if client_packet_steps(p)[4].offset <= 6 {
            be_value(client_packet_steps(p)[4].bytes_at(2)) as u16
        } else {
            client_packet_steps(p)[4].raw_cmd
        },
{
}

} // verus!
