//! The decisions of a gate on answers from the group server.
use crate::packet::commands::Command;
use crate::packet::init::{PlayerForGroupServer, SyncPlayerListToGroupServerPacket};
use crate::packet::{built_new_packet, string_wire_len, string_wire_length, BasePacket, PacketView};
use crate::wire::be_value;
use vstd::prelude::*;

verus! {

/// The group server accepts this gate: its answer has data and does
/// not start with the error code 501.
pub open spec fn spec_group_init_accepted(p: PacketView) -> bool {
    !((p.remaining() >= 2 && be_value(p.bytes_at(2)) == 501) || p.data.len() <= 8)
}

/// Reads the error code of the group server's answer to this gate's
/// introduction and decides whether the connection is accepted (see
/// `spec_group_init_accepted`). An answer too short for the error code reads
/// none and is decided by its length alone: refused with 8 bytes or fewer,
/// accepted with more. What `requires` rules out is only a read position
/// beyond the data or one that the read would move past 255, on which the
/// read itself fails; a short answer meets it.
pub fn group_init_accepted(response: &mut BasePacket) -> (r: bool)
    requires
        old(response)@.readable(2),
    ensures
        final(response)@ == old(response)@.spec_read_uint(2).1,
        r == spec_group_init_accepted(old(response)@),
{
    let err = response.read_short();
    if (err.is_some() && err.unwrap() == 501) || !response.has_data() {
        return false;
    }
    true
}

/// The version this gate gives in its introduction to the group server.
pub const GROUP_SERVER_INIT_VERSION: u16 = 103;

/// Seconds to wait before trying again when the group server is not ready or
/// refused this gate.
pub const GROUP_RETRY_SECS: u64 = 5;

/// Seconds between two looks at a working group server link.
pub const GROUP_POLL_SECS: u64 = 1;

/// What the link to the group server does next.
#[derive(Debug, PartialEq, Eq, Structural)]
pub enum GroupLinkAction {
    /// Connect and introduce this gate.
    Connect,
    /// The connection is there but not ready yet: wait.
    WaitForReady,
    /// Send the list of connected players.
    SyncPlayerList,
    /// Nothing to do: look again later.
    Idle,
}

impl GroupLinkAction {
    /// Seconds to wait after the action: none after connecting (waiting on a
    /// refusal is `init_retry_delay_secs`), `GROUP_RETRY_SECS` while the
    /// connection is not ready, `GROUP_POLL_SECS` otherwise.
    pub fn wait_secs(&self) -> (r: u64)
        ensures
            r == match *self {
                GroupLinkAction::Connect => 0,
                GroupLinkAction::WaitForReady => GROUP_RETRY_SECS,
                _ => GROUP_POLL_SECS,
            },
    {
        match self {
            GroupLinkAction::Connect => 0,
            GroupLinkAction::WaitForReady => GROUP_RETRY_SECS,
            _ => GROUP_POLL_SECS,
        }
    }
}

/// Seconds to wait after introducing this gate: none when the group server
/// accepted it, `GROUP_RETRY_SECS` before trying again when it did not.
pub fn init_retry_delay_secs(accepted: bool) -> (r: u64)
    ensures
        r == if accepted { 0 } else { GROUP_RETRY_SECS },
{
    if accepted {
        0
    } else {
        GROUP_RETRY_SECS
    }
}

/// The state of the link to the group server: whether the list of connected
/// players still has to be sent. It has to be sent once, when the link
/// first works.
#[derive(Debug)]
pub struct GroupLink {
    should_sync_player_list: bool,
}

impl GroupLink {
    /// Whether the player list still has to be sent.
    pub closed spec fn spec_should_sync(self) -> bool {
        self.should_sync_player_list
    }

    /// A new link, which has the player list to send.
    pub fn new() -> (r: Self)
        ensures
            r.spec_should_sync(),
    {
        GroupLink { should_sync_player_list: true }
    }

    pub fn should_sync_player_list(&self) -> (r: bool)
        ensures
            r == self.spec_should_sync(),
    {
        self.should_sync_player_list
    }

    /// The next step of the link: connect when there is no connection, wait
    /// while it is not ready, then send the player list if that is still to
    /// be done, else idle.
    pub open spec fn spec_next_action(self, established: bool, ready: bool) -> GroupLinkAction {
        if !established {
            GroupLinkAction::Connect
        } else if !ready {
            GroupLinkAction::WaitForReady
        } else if self.spec_should_sync() {
            GroupLinkAction::SyncPlayerList
        } else {
            GroupLinkAction::Idle
        }
    }

    /// The next step of the link (see `spec_next_action`).
    pub fn next_action(&self, established: bool, ready: bool) -> (r: GroupLinkAction)
        ensures
            r == self.spec_next_action(established, ready),
    {
        if !established {
            GroupLinkAction::Connect
        } else if !ready {
            GroupLinkAction::WaitForReady
        } else if self.should_sync_player_list {
            GroupLinkAction::SyncPlayerList
        } else {
            GroupLinkAction::Idle
        }
    }

    /// Notes the group server's answer to the player list: once it has
    /// answered, the list is not sent again; a failed call leaves it to send.
    pub fn on_player_list_synced(&mut self, answered: bool)
        ensures
            final(self).spec_should_sync() == (old(self).spec_should_sync() && !answered),
    {
        if answered {
            self.should_sync_player_list = false;
        }
    }
}

/// Once the group server has answered the player list, the link never sends
/// it again, whatever the state of the connection; until then, a ready
/// connection sends it.
pub proof fn law_player_list_sent_once(
    before: GroupLink,
    answered: bool,
    after: GroupLink,
    established: bool,
    ready: bool,
)
    requires
        answered,
        after.spec_should_sync() == (before.spec_should_sync() && !answered),
    ensures
        after.spec_next_action(established, ready) != GroupLinkAction::SyncPlayerList,
        before.spec_should_sync() && established && ready ==> before.spec_next_action(established, ready)
            == GroupLinkAction::SyncPlayerList,
{
}

/// The packet that sends the list of connected players to the group server:
/// their count, this gate's name and the players, or nothing when they do not
/// fit in one packet.
pub fn build_player_list_sync(gate_server_name: String, players: Vec<PlayerForGroupServer>) -> (r:
    Option<BasePacket>)
    ensures
        r is Some <==> 7 + string_wire_len(gate_server_name@) + 12 * players@.len() < u16::MAX,
        r matches Some(p) ==> p@ == built_new_packet(
            Command::GTTGPSyncPlayerList,
            SyncPlayerListToGroupServerPacket::spec_payload(
                players@.len() as u32,
                gate_server_name@,
                players@,
            ),
        ),
{
    let name_len = string_wire_length(gate_server_name.as_str()) as usize;
    let count = players.len();
    if count >= 65536 || 7 + name_len + 12 * count >= 65535 {
        return None;
    }
    let packet = SyncPlayerListToGroupServerPacket::new(count as u32, gate_server_name, players);
    Some(packet.to_base_packet().unwrap())
}

/// Which answers to this gate's introduction accept it: an answer with
/// nothing after its command is refused; one with data is refused only when
/// the error code it starts with is 501, so any other error code, or data too
/// short for an error code, accepts this gate.
pub proof fn law_only_error_501_or_no_data_refuses(p: PacketView)
    ensures
        p.data.len() <= 8 ==> !spec_group_init_accepted(p),
        p.data.len() > 8 && p.spec_read_uint(2).0 == Some(501nat) ==> !spec_group_init_accepted(p),
        p.data.len() > 8 && (p.spec_read_uint(2).0 matches Some(code) && code != 501) ==> spec_group_init_accepted(p),
        p.data.len() > 8 && p.spec_read_uint(2).0 is None ==> spec_group_init_accepted(p),
{
}

} // verus!
