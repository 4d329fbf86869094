//! What this gate knows of a connected player.
use crate::clock::{instant_now, local_time_parts};
use crate::text::{all_ascii, ascii_chars, ascii_to_string, lemma_decimal_digits_ascii, push_zero_padded, zero_padded};
use tokio::time::Instant;
use vstd::prelude::*;
use vstd::pervasive::cloned;

verus! {

/// The screen a player is on.
#[derive(Debug, Clone, Copy, PartialEq, Eq, Structural)]
pub enum CurrentScreen {
    NoScreen,
    CharacterSelection,
    InGame,
}

/// The text `[MM-DD hh:mm:ss:mmm]` for a time, each number zero padded.
pub open spec fn spec_chapstr_bytes(
    month: u32,
    day: u32,
    hour: u32,
    minute: u32,
    second: u32,
    millis: u32,
) -> Seq<u8> {
    seq![91u8] + zero_padded(month as nat, 2) + seq![45u8] + zero_padded(day as nat, 2) + seq![32u8]
        + zero_padded(hour as nat, 2) + seq![58u8] + zero_padded(minute as nat, 2) + seq![58u8]
        + zero_padded(second as nat, 2) + seq![58u8] + zero_padded(millis as nat, 3) + seq![93u8]
}

pub proof fn lemma_zero_padded_ascii(n: nat, width: nat)
    ensures
        all_ascii(zero_padded(n, width)),
{
    lemma_decimal_digits_ascii(n);
}

/// The text a client must answer with, made of the time it connected:
/// `[MM-DD hh:mm:ss:mmm]`.
pub fn format_chapstr(month: u32, day: u32, hour: u32, minute: u32, second: u32, millis: u32) -> (r:
    String)
    ensures
        r@ == ascii_chars(spec_chapstr_bytes(month, day, hour, minute, second, millis)),
{
    let mut v: Vec<u8> = Vec::new();
    v.push(91u8);
    push_zero_padded(&mut v, month as u64, 2);
    v.push(45u8);
    push_zero_padded(&mut v, day as u64, 2);
    v.push(32u8);
    push_zero_padded(&mut v, hour as u64, 2);
    v.push(58u8);
    push_zero_padded(&mut v, minute as u64, 2);
    v.push(58u8);
    push_zero_padded(&mut v, second as u64, 2);
    v.push(58u8);
    push_zero_padded(&mut v, millis as u64, 3);
    v.push(93u8);
    proof {
        lemma_zero_padded_ascii(month as nat, 2);
        lemma_zero_padded_ascii(day as nat, 2);
        lemma_zero_padded_ascii(hour as nat, 2);
        lemma_zero_padded_ascii(minute as nat, 2);
        lemma_zero_padded_ascii(second as nat, 2);
        lemma_zero_padded_ascii(millis as nat, 3);
        let b = spec_chapstr_bytes(month, day, hour, minute, second, millis);
        assert(v@ =~= b);
        assert forall|i: int| 0 <= i < b.len() implies b[i] < 128 by {
            let parts = seq![
                seq![91u8],
                zero_padded(month as nat, 2),
                seq![45u8],
                zero_padded(day as nat, 2),
                seq![32u8],
                zero_padded(hour as nat, 2),
                seq![58u8],
                zero_padded(minute as nat, 2),
                seq![58u8],
                zero_padded(second as nat, 2),
                seq![58u8],
                zero_padded(millis as nat, 3),
                seq![93u8],
            ];
            assert(b =~= parts[0] + parts[1] + parts[2] + parts[3] + parts[4] + parts[5] + parts[6]
                + parts[7] + parts[8] + parts[9] + parts[10] + parts[11] + parts[12]);
        }
    }
    ascii_to_string(v)
}

/// What a player holds, `G` standing for the game server it is on.
pub struct PlayerView<G> {
    pub chapstr: Seq<char>,
    pub login_id: u32,
    pub account_id: u32,
    pub group_addr: u32,
    pub comm_key_len: u16,
    pub comm_text_key: Seq<char>,
    pub current_screen: CurrentScreen,
    pub ip_addr: u32,
    pub password: Seq<char>,
    pub db_id: u32,
    pub world_id: u32,
    pub garner_winner: u16,
    pub current_game_server: Option<G>,
    pub game_addr: u32,
}

/// A connected player; `G` is the handle of the game server it is on.
#[derive(Debug)]
pub struct Player<G> {
    chapstr: String,
    login_id: u32,
    account_id: u32,
    group_addr: u32,
    comm_key_len: u16,
    comm_text_key: String,
    current_screen: CurrentScreen,
    ip_addr: u32,
    password: String,
    db_id: u32,
    world_id: u32,
    garner_winner: u16,
    current_game_server: Option<G>,
    game_addr: u32,
    group_last_pinged_time: Instant,
}

impl<G> View for Player<G> {
    type V = PlayerView<G>;

    closed spec fn view(&self) -> PlayerView<G> {
        PlayerView {
            chapstr: self.chapstr@,
            login_id: self.login_id,
            account_id: self.account_id,
            group_addr: self.group_addr,
            comm_key_len: self.comm_key_len,
            comm_text_key: self.comm_text_key@,
            current_screen: self.current_screen,
            ip_addr: self.ip_addr,
            password: self.password@,
            db_id: self.db_id,
            world_id: self.world_id,
            garner_winner: self.garner_winner,
            current_game_server: self.current_game_server,
            game_addr: self.game_addr,
        }
    }
}

impl<G> Player<G> {
    /// A player that just connected: its text is made of the current local
    /// time (see `format_chapstr`), whose month, day, hour, minute and second
    /// are in their ranges, and everything else is empty or zero.
    pub fn new() -> (r: Self)
        ensures
            exists|mo: u32, d: u32, h: u32, mi: u32, s: u32, ms: u32|
                1 <= mo <= 12 && 1 <= d <= 31 && h <= 23 && mi <= 59 && s <= 59 && r@.chapstr
                    == ascii_chars(#[trigger] spec_chapstr_bytes(mo, d, h, mi, s, ms)),
            r@.login_id == 0,
            r@.account_id == 0,
            r@.group_addr == 0,
            r@.comm_key_len == 0,
            r@.comm_text_key == Seq::<char>::empty(),
            r@.current_screen == CurrentScreen::NoScreen,
            r@.ip_addr == 0,
            r@.password == Seq::<char>::empty(),
            r@.db_id == 0,
            r@.world_id == 0,
            r@.garner_winner == 0,
            r@.current_game_server is None,
            r@.game_addr == 0,
    {
        let (month, day, hour, minute, second, millis) = local_time_parts();
        let chapstr = format_chapstr(month, day, hour, minute, second, millis);
        Player {
            chapstr,
            login_id: 0,
            account_id: 0,
            group_addr: 0,
            comm_key_len: 0,
            comm_text_key: String::new(),
            ip_addr: 0,
            current_screen: CurrentScreen::NoScreen,
            password: String::new(),
            db_id: 0,
            world_id: 0,
            garner_winner: 0,
            current_game_server: None,
            game_addr: 0,
            group_last_pinged_time: instant_now(),
        }
    }

    pub fn unset_game_server(&mut self)
        ensures
            final(self)@ == (PlayerView { current_game_server: None, ..old(self)@ }),
    {
        self.current_game_server = None;
    }

    pub fn get_chapstr(&self) -> (r: String)
        ensures
            r@ == self@.chapstr,
    {
        self.chapstr.clone()
    }

    pub fn set_chapstr(&mut self, chapstr: String)
        ensures
            final(self)@ == (PlayerView { chapstr: chapstr@, ..old(self)@ }),
    {
        self.chapstr = chapstr;
    }

    pub fn get_login_id(&self) -> (r: u32)
        ensures
            r == self@.login_id,
    {
        self.login_id
    }

    pub fn get_db_id(&self) -> (r: u32)
        ensures
            r == self@.db_id,
    {
        self.db_id
    }

    pub fn get_account_id(&self) -> (r: u32)
        ensures
            r == self@.account_id,
    {
        self.account_id
    }

    pub fn get_ip_addr(&self) -> (r: u32)
        ensures
            r == self@.ip_addr,
    {
        self.ip_addr
    }

    pub fn get_group_addr(&self) -> (r: u32)
        ensures
            r == self@.group_addr,
    {
        self.group_addr
    }

    pub fn get_game_addr(&self) -> (r: u32)
        ensures
            r == self@.game_addr,
    {
        self.game_addr
    }

    pub fn get_password(&self) -> (r: String)
        ensures
            r@ == self@.password,
    {
        self.password.clone()
    }

    /// The instant kept as the last time the group server heard of the
    /// player.
    pub closed spec fn spec_last_group_pinged_time(&self) -> Instant {
        self.group_last_pinged_time
    }

    /// When the group server last heard of the player.
    pub fn get_last_group_pinged_time(&self) -> (r: Instant)
        ensures
            r == self.spec_last_group_pinged_time(),
    {
        self.group_last_pinged_time
    }

    /// Notes that the group server heard of the player now.
    pub fn reset_last_group_pinged_time(&mut self)
        ensures
            final(self)@ == old(self)@,
    {
        self.group_last_pinged_time = instant_now();
    }

    pub fn set_current_game_server(&mut self, game_server: G, game_addr: u32)
        ensures
            final(self)@ == (PlayerView {
                current_game_server: Some(game_server),
                game_addr: game_addr,
                ..old(self)@
            }),
    {
        self.current_game_server = Some(game_server);
        self.game_addr = game_addr;
    }

    /// A clone of the handle of the player's game server, if it is on one.
    pub fn get_current_game_server(&self) -> (r: Option<G>) where G: Clone
        ensures
            r is Some <==> self@.current_game_server is Some,
            r matches Some(g) ==> cloned::<G>(self@.current_game_server.unwrap(), g),
    {
        match &self.current_game_server {
            Some(g) => Some(g.clone()),
            None => None,
        }
    }

    /// Records a login: the group server's ids for the player, its key and
    /// address; the player moves to character selection.
    pub fn set_logged_in_context(
        &mut self,
        group_addr: u32,
        login_id: u32,
        account_id: u32,
        comm_key_len: u16,
        comm_text_key: String,
        ip_addr: u32,
    )
        ensures
            final(self)@ == (PlayerView {
                login_id: login_id,
                account_id: account_id,
                group_addr: group_addr,
                comm_key_len: comm_key_len,
                comm_text_key: comm_text_key@,
                ip_addr: ip_addr,
                current_screen: CurrentScreen::CharacterSelection,
                ..old(self)@
            }),
    {
        self.login_id = login_id;
        self.account_id = account_id;
        self.group_addr = group_addr;
        self.comm_key_len = comm_key_len;
        self.comm_text_key = comm_text_key;
        self.ip_addr = ip_addr;
        self.current_screen = CurrentScreen::CharacterSelection;
    }

    /// Records what the group server tells when the player starts playing.
    pub fn set_begin_play_context(
        &mut self,
        password: String,
        db_id: u32,
        world_id: u32,
        garner_winner: u16,
    )
        ensures
            final(self)@ == (PlayerView {
                password: password@,
                db_id: db_id,
                world_id: world_id,
                garner_winner: garner_winner,
                ..old(self)@
            }),
    {
        self.password = password;
        self.db_id = db_id;
        self.world_id = world_id;
        self.garner_winner = garner_winner;
    }

    /// The player is past the connection screen.
    pub fn is_active(&self) -> (r: bool)
        ensures
            r == (self@.current_screen != CurrentScreen::NoScreen),
    {
        self.current_screen != CurrentScreen::NoScreen
    }

    pub fn is_in_game(&self) -> (r: bool)
        ensures
            r == (self@.current_screen == CurrentScreen::InGame),
    {
        self.current_screen == CurrentScreen::InGame
    }

    pub fn set_current_screen(&mut self, current_screen: CurrentScreen)
        ensures
            final(self)@ == (PlayerView { current_screen: current_screen, ..old(self)@ }),
    {
        self.current_screen = current_screen;
    }
}

} // verus!
