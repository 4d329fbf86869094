use bytes::BytesMut;
use gate_server::gate::client_handler::{
    build_begin_play_request, build_group_login_request, build_kick_character_packet,
    build_not_logged_in_packet, check_login_request, classify_client_packet,
    parse_begin_play_reply, process_group_login_reply, try_build_group_login_request,
    plan_disconnect, try_classify_client_packet, try_parse_begin_play_reply,
    try_process_group_login_reply, ClientPacketAction, DisconnectAction, GroupLoginReply,
};
use gate_server::gate::config::MainConfig;
use gate_server::gate::gameserver::{GameServer, GameServerList};
use gate_server::gate::gameserver_handler::{
    build_init_acknowledge_packet, classify_game_server_packet, read_client_targets,
    select_recipients, try_read_client_targets, GameServerPacketAction, GameServerRejectionReason,
};
use gate_server::gate::groupserver_handler::{
    build_player_list_sync, group_init_accepted, init_retry_delay_secs, GroupLink, GroupLinkAction,
    GROUP_SERVER_INIT_VERSION,
};
use gate_server::gate::packets::{
    GameServerEnterMapPacket, GameServerEnterMapResultPacket, GameServerInitPacket,
    GameServerLeaveMapPacket,
};
use gate_server::gate::player::{format_chapstr, CurrentScreen, Player};
use gate_server::network::rpc::{SessionIdManager, MAX_SESS_ID_VALUE};
use gate_server::packet::commands::Command;
use gate_server::packet::BasePacket;
use gate_server::parser::config_parser::ConfigParser;
use gate_server::text::split_string;
use std::iter::FromIterator;

fn server(name: &str, maps: &[&str]) -> GameServer {
    let mut s = GameServer::new();
    s.set_name(name.to_string());
    s.set_map_list(maps.iter().map(|m| m.to_string()).collect());
    s
}

fn frame(cmd: u16, payload: &[u8]) -> BasePacket {
    let mut p = BasePacket::new();
    p.write_buffer(payload.iter().rev().cloned().collect()).unwrap();
    let mut q = p;
    // set the raw command through a known command, then patch it by bytes
    q.write_cmd(Command::NoCommand).unwrap();
    q.build_packet().unwrap();
    let mut bytes = q.as_bytes().to_vec();
    bytes[6] = (cmd >> 8) as u8;
    bytes[7] = (cmd & 0xff) as u8;
    BasePacket::from_bytes(BytesMut::from_iter(bytes))
}

#[test]
fn session_ids_count_up_and_wrap() {
    let mut m = SessionIdManager::new();
    assert_eq!(m.get_next_session_id(), 2);
    assert_eq!(m.get_next_session_id(), 3);
    for _ in 0..10 {
        let id = m.get_next_session_id();
        assert!(id >= 2 && id <= (MAX_SESS_ID_VALUE - 2) as u64);
    }
    assert_eq!(m.get_next_session_id(), 14);
}

#[test]
fn game_server_conflicts() {
    let mut servers: GameServerList<u32> = GameServerList::new();
    assert_eq!(servers.check_for_duplicate_name_or_overlapping_maps(&server("A", &["garner"])), Ok(()));
    servers.add_game_server(server("A", &["garner", "magicsea"]), 10);
    servers.add_game_server(server("B", &["darkblue"]), 20);
    assert_eq!(
        servers.check_for_duplicate_name_or_overlapping_maps(&server("B", &["x"])),
        Err(GameServerRejectionReason::DuplicateName)
    );
    assert_eq!(
        servers.check_for_duplicate_name_or_overlapping_maps(&server("C", &["y", "magicsea"])),
        Err(GameServerRejectionReason::OverlappingMapList)
    );
    assert_eq!(servers.check_for_duplicate_name_or_overlapping_maps(&server("C", &["y"])), Ok(()));
    assert_eq!(servers.find_game_server_with_map(&"darkblue".to_string()), Some(&20));
    assert_eq!(servers.find_game_server_with_map(&"garner".to_string()), Some(&10));
    assert_eq!(servers.find_game_server_with_map(&"nowhere".to_string()), None);
    assert_eq!(servers.get_handlers(), &[10, 20]);
    assert_eq!(
        servers.register_game_server(server("D", &["darkblue"]), 30),
        Err(GameServerRejectionReason::OverlappingMapList)
    );
    assert_eq!(servers.get_handlers(), &[10, 20]);
    assert_eq!(servers.register_game_server(server("D", &["lonetower"]), 30), Ok(()));
    assert_eq!(servers.get_handlers(), &[10, 20, 30]);
    assert_eq!(servers.find_game_server_with_map(&"lonetower".to_string()), Some(&30));
}

#[test]
fn game_server_init_packet_splits_maps() {
    let mut p = BasePacket::new();
    p.write_cmd(Command::GMTGTInit).unwrap();
    p.write_string("GameServer1").unwrap();
    p.write_string("garner;magicsea;").unwrap();
    p.build_packet().unwrap();
    let mut q = BasePacket::from_bytes(p.as_bytes());
    assert_eq!(q.read_cmd(), Some(Command::GMTGTInit));
    let init = GameServerInitPacket::from_base_packet(q).unwrap();
    assert_eq!(init.game_server_name, "GameServer1");
    assert_eq!(init.map_list, vec!["garner".to_string(), "magicsea".to_string(), String::new()]);
}

#[test]
fn split_keeps_empty_pieces() {
    assert_eq!(split_string("", ';'), vec![String::new()]);
    assert_eq!(split_string("a;;b", ';'), vec!["a".to_string(), String::new(), "b".to_string()]);
}

#[test]
fn enter_map_packet_bytes() {
    let p = GameServerEnterMapPacket::new(1, "pw".to_string(), 2, 3, "m".to_string(), -1, 4, 5, 6, 7, 8)
        .to_base_packet()
        .unwrap();
    let bytes = p.as_bytes().to_vec();
    assert_eq!(&bytes[..8], &[0, 48, 0x80, 0, 0, 0, 3, 235]);
    assert_eq!(
        &bytes[8..],
        &[
            0, 0, 0, 1, 0, 3, 112, 119, 0, 0, 0, 0, 2, 0, 0, 0, 3, 0, 2, 109, 0, 255, 255, 255,
            255, 0, 0, 0, 4, 0, 0, 0, 5, 6, 0, 0, 0, 7, 0, 8
        ]
    );
}

#[test]
fn enter_map_result_fields_and_client_packet() {
    // data: ret code, then is_switch, total players, gm addr, db id, player id, aim num
    let mut payload = vec![0u8, 0];
    payload.push(1);
    payload.extend_from_slice(&[0, 0, 0, 9]);
    payload.extend_from_slice(&[0, 0, 0, 8]);
    payload.extend_from_slice(&[0, 0, 0, 7]);
    payload.extend_from_slice(&[0, 0, 0, 6]);
    payload.extend_from_slice(&[0, 0]);
    let p = frame(516, &payload);
    let r = GameServerEnterMapResultPacket::from_base_packet(p.duplicate()).unwrap();
    assert_eq!(r.aim_num, 0);
    assert_eq!(r.player_id, 6);
    assert_eq!(r.db_id, 7);
    assert_eq!(r.ret_code, 0);
    assert_eq!(r.gm_addr, Some(8));
    assert_eq!(r.total_players, Some(9));
    assert_eq!(r.is_switch, Some(1));

    let mut c = p.duplicate();
    assert_eq!(c.read_cmd(), Some(Command::GMTCEnterMap));
    let client = GameServerEnterMapResultPacket::for_client(c);
    assert_eq!(
        client.as_bytes().to_vec(),
        vec![0, 18, 0x80, 0, 0, 0, 2, 4, 0, 0, 1, 0, 0, 0, 9, 0, 0, 0]
    );
}

#[test]
fn leave_map_packet_reads_fields() {
    let p = frame(1234, &[1, 0, 0, 0, 2, 0, 0, 0, 3]);
    let l = GameServerLeaveMapPacket::from_base_packet(p);
    assert!(l.is_ok());
    let _ = GameServerLeaveMapPacket::new(1, 2, 3);
}

#[test]
fn game_server_packets_are_classified() {
    let mut p = frame(1501, &[]);
    assert_eq!(classify_game_server_packet(&mut p), GameServerPacketAction::Init);
    let mut p = frame(516, &[]);
    assert_eq!(classify_game_server_packet(&mut p), GameServerPacketAction::EnterMapResult);
    let mut p = frame(700, &[]);
    assert_eq!(classify_game_server_packet(&mut p), GameServerPacketAction::SendToClient);
    let mut p = frame(1200, &[]);
    assert_eq!(classify_game_server_packet(&mut p), GameServerPacketAction::Unhandled);
}

#[test]
fn client_targets_are_read_from_the_end() {
    let mut p = frame(700, &[9, 0, 0, 0, 20, 0, 0, 0, 10, 0, 0, 0, 21, 0, 0, 0, 11, 0, 2]);
    let t = read_client_targets(&mut p);
    assert_eq!(t, vec![(11, 21), (10, 20)]);
    assert_eq!(p.get_reverse_offset(), 18);
}

#[test]
fn init_acknowledge_packet_bytes() {
    let p = build_init_acknowledge_packet("G");
    assert_eq!(p.as_bytes().to_vec(), vec![0, 14, 0x80, 0, 0, 0, 3, 237, 0, 0, 0, 2, 71, 0]);
}

#[test]
fn group_init_answers() {
    let mut p = frame(2001, &[1, 245, 0]);
    assert!(!group_init_accepted(&mut p));
    let mut p = frame(2001, &[0, 0, 0]);
    assert!(group_init_accepted(&mut p));
    let mut p = frame(2001, &[]);
    assert!(p.can_read(2));
    assert!(!group_init_accepted(&mut p));
    // a single byte of data: no error code can be read, and the answer has data
    let mut p = frame(2001, &[5]);
    assert!(p.can_read(2));
    assert!(group_init_accepted(&mut p));
}

#[test]
fn client_packets_are_classified() {
    // header, command, then a packet counter of four bytes, data, and a check code of two bytes
    let login = frame(431, &[0, 0, 0, 1, 5, 9, 9]);
    let mut p = login.duplicate();
    assert_eq!(classify_client_packet(&mut p), ClientPacketAction::Login);
    assert_eq!(p.as_bytes().to_vec(), vec![0, 15, 0x80, 0, 0, 0, 1, 175, 5]);

    let mut p = frame(433, &[0, 0, 0, 1, 9, 9]);
    assert_eq!(classify_client_packet(&mut p), ClientPacketAction::SelectCharacter);
}

#[test]
fn login_checks_in_order() {
    let base = frame(431, &[0, 136]);
    let mut p = base.duplicate();
    let r = check_login_request(&mut p, 3, false, Some(1)).unwrap();
    assert_eq!(r.as_bytes()[6..8].to_vec(), vec![1, 247]);
    let mut p = base.duplicate();
    let r = check_login_request(&mut p, 0, true, Some(1)).unwrap();
    assert_eq!(r.as_bytes().to_vec(), vec![0, 10, 0x80, 0, 0, 0, 3, 163, 0, 1]);
    let mut p = base.duplicate();
    assert!(check_login_request(&mut p, 0, false, Some(1)).is_none());
    assert_eq!(p.get_reverse_offset(), 2);
    let mut p = base.duplicate();
    let r = check_login_request(&mut p, 0, false, None).unwrap();
    assert_eq!(r.as_bytes().to_vec(), vec![0, 10, 0x80, 0, 0, 0, 3, 163, 0, 1]);
    let mut p = frame(431, &[0, 135]);
    let r = check_login_request(&mut p, 0, false, Some(1)).unwrap();
    assert_eq!(r.as_bytes().to_vec(), vec![0, 10, 0x80, 0, 0, 0, 3, 163, 0, 7]);
}

#[test]
fn group_login_request_bytes() {
    let mut p = frame(431, &[7, 3, 148, 0, 136]);
    let req = build_group_login_request(&mut p, "c", 0x0A000001, 5);
    assert_eq!(p.as_bytes().to_vec(), vec![0, 9, 0x80, 0, 0, 0, 1, 175, 7]);
    let bytes = req.as_bytes().to_vec();
    assert_eq!(bytes, vec![0, 9, 0x80, 0, 0, 0, 1, 175, 7, 0, 2, 99, 0, 10, 0, 0, 1, 0, 0, 0, 5, 3, 148]);
}

#[test]
fn group_login_replies() {
    let mut empty = frame(931, &[]);
    assert!(matches!(process_group_login_reply(&mut empty), GroupLoginReply::NoData(_)));

    let mut refused = frame(931, &[0, 3]);
    match process_group_login_reply(&mut refused) {
        GroupLoginReply::Rejected(p) => {
            assert_eq!(p.as_bytes().to_vec(), vec![0, 10, 0x80, 0, 0, 0, 3, 163, 0, 3])
        }
        _ => panic!("expected a refusal"),
    }

    // error code 0, an extra byte, two bytes dropped with the fields, the key "ab", key
    // length 2, password flag 1, account id 3, login id 2, group address 1
    let data = vec![
        0u8, 0, 42, 120, 121, 97, 98, 0, 2, 1, 0, 0, 0, 3, 0, 0, 0, 2, 0, 0, 0, 1,
    ];
    let mut accepted = frame(931, &data);
    match process_group_login_reply(&mut accepted) {
        GroupLoginReply::Accepted(a) => {
            assert_eq!(a.group_addr, 1);
            assert_eq!(a.login_id, 2);
            assert_eq!(a.account_id, 3);
            assert_eq!(a.by_password, 1);
            assert_eq!(a.comm_key_len, 2);
            assert_eq!(a.comm_text_key, vec![97, 98]);
            assert_eq!(
                a.client_packet.as_bytes().to_vec(),
                vec![0, 20, 0x80, 0, 0, 0, 3, 163, 0, 0, 42, 1, 0, 0, 0, 0, 0, 0, 0x32, 0x14]
            );
        }
        _ => panic!("expected an acceptance"),
    }
}

#[test]
fn begin_play_request_and_reply() {
    let p = frame(433, &[]);
    let req = build_begin_play_request(&p, 5, 6);
    let mut req = req;
    req.build_packet().unwrap();
    assert_eq!(req.as_bytes().to_vec(), vec![0, 16, 0x80, 0, 0, 0, 7, 213, 0, 0, 0, 5, 0, 0, 0, 6]);

    let mut data = vec![0u8, 0, 0, 3, 112, 119, 0, 0, 0, 0, 4, 0, 0, 0, 2, 0, 2, 109, 0, 0, 1];
    data.push(0);
    let mut reply = frame(2005, &data[..21]);
    let b = parse_begin_play_reply(&mut reply).unwrap();
    assert_eq!(b.error_code, 0);
    assert_eq!(b.password, "pw");
    assert_eq!(b.db_id, 4);
    assert_eq!(b.world_id, 2);
    assert_eq!(b.map_name, "m");
    assert_eq!(b.garner_winner, 1);

    let mut empty = frame(2005, &[]);
    assert!(parse_begin_play_reply(&mut empty).is_none());
}

#[test]
fn small_packets() {
    let k = build_kick_character_packet(9);
    assert_eq!(k.as_bytes().to_vec(), vec![0, 12, 0x80, 0, 0, 0, 3, 241, 0, 0, 0, 9]);
    let n = build_not_logged_in_packet();
    assert_eq!(n.as_bytes().to_vec(), vec![0, 6]);
}

#[test]
fn chapstr_format() {
    assert_eq!(format_chapstr(3, 7, 9, 5, 1, 42), "[03-07 09:05:01:042]");
    assert_eq!(format_chapstr(12, 31, 23, 59, 59, 999), "[12-31 23:59:59:999]");
    let p: Player<u32> = Player::new();
    assert_eq!(p.get_chapstr().len(), 20);
}

#[test]
fn player_screens_and_context() {
    let mut p: Player<u32> = Player::new();
    assert!(!p.is_active());
    p.set_logged_in_context(1, 2, 3, 4, "key".to_string(), 5);
    assert!(p.is_active());
    assert!(!p.is_in_game());
    assert_eq!(p.get_group_addr(), 1);
    assert_eq!(p.get_login_id(), 2);
    assert_eq!(p.get_account_id(), 3);
    assert_eq!(p.get_ip_addr(), 5);
    p.set_begin_play_context("pw".to_string(), 6, 7, 8);
    assert_eq!(p.get_password(), "pw");
    assert_eq!(p.get_db_id(), 6);
    p.set_current_game_server(11, 12);
    assert_eq!(p.get_current_game_server(), Some(11));
    assert_eq!(p.get_game_addr(), 12);
    p.unset_game_server();
    assert_eq!(p.get_current_game_server(), None);
    p.set_current_screen(CurrentScreen::InGame);
    assert!(p.is_in_game());
    p.set_chapstr("c".to_string());
    assert_eq!(p.get_chapstr(), "c");
}

#[test]
fn config_holders() {
    let c = ConfigParser::from_data(5u32);
    assert_eq!(c.get_data(), 5);
    let m = MainConfig::new("Gate".to_string());
    assert_eq!(m.get_name(), "Gate");
}

#[test]
fn group_link_sends_the_player_list_once() {
    let mut link = GroupLink::new();
    assert!(link.should_sync_player_list());
    assert_eq!(link.next_action(false, false), GroupLinkAction::Connect);
    assert_eq!(link.next_action(true, false), GroupLinkAction::WaitForReady);
    assert_eq!(link.next_action(true, true), GroupLinkAction::SyncPlayerList);
    link.on_player_list_synced(false);
    assert_eq!(link.next_action(true, true), GroupLinkAction::SyncPlayerList);
    link.on_player_list_synced(true);
    assert!(!link.should_sync_player_list());
    assert_eq!(link.next_action(true, true), GroupLinkAction::Idle);
    assert_eq!(link.next_action(false, true), GroupLinkAction::Connect);
}

#[test]
fn group_link_waits() {
    assert_eq!(GroupLinkAction::Connect.wait_secs(), 0);
    assert_eq!(GroupLinkAction::WaitForReady.wait_secs(), 5);
    assert_eq!(GroupLinkAction::SyncPlayerList.wait_secs(), 1);
    assert_eq!(GroupLinkAction::Idle.wait_secs(), 1);
    assert_eq!(init_retry_delay_secs(true), 0);
    assert_eq!(init_retry_delay_secs(false), 5);
    assert_eq!(GROUP_SERVER_INIT_VERSION, 103);
}

#[test]
fn unreadable_packets_are_refused_by_the_checked_readers() {
    // no packet counter and check code: too short to classify
    let mut p = BasePacket::from_bytes(BytesMut::from_iter(vec![0u8, 8, 0x80, 0, 0, 0, 1, 175]));
    assert_eq!(try_classify_client_packet(&mut p), None);
    // an unknown known command is not handled
    let mut p = frame(931, &[0, 0, 0, 1, 9, 9]);
    assert_eq!(try_classify_client_packet(&mut p), None);
    let mut p = frame(431, &[0, 0, 0, 1, 5, 9, 9]);
    assert_eq!(try_classify_client_packet(&mut p), Some(ClientPacketAction::Login));

    let mut p = BasePacket::from_bytes(BytesMut::from_iter(vec![0u8, 2]));
    assert!(try_build_group_login_request(&mut p, "c", 1, 2).is_none());
    let mut p = frame(431, &[7, 3, 148, 0, 136]);
    assert!(try_build_group_login_request(&mut p, "c", 1, 2).is_some());

    // an accepted login answer without the group address
    let mut p = frame(2003, &[0, 0, 1]);
    assert!(try_process_group_login_reply(&mut p).is_none());
    let mut p = frame(2003, &[0, 5]);
    assert!(matches!(try_process_group_login_reply(&mut p), Some(GroupLoginReply::Rejected(_))));

    // a begin play answer whose password is cut short
    let mut p = frame(2004, &[0, 0, 0, 9, 1]);
    assert!(try_parse_begin_play_reply(&mut p).is_none());
    let mut p = frame(2004, &[]);
    assert!(matches!(try_parse_begin_play_reply(&mut p), Some(None)));

    // a count of clients larger than what follows
    let mut p = frame(700, &[0, 0, 0, 1, 0, 2]);
    assert_eq!(try_read_client_targets(&mut p), None);
    let mut p = frame(700, &[0, 0, 0, 1, 0, 0, 0, 2, 0, 1]);
    assert_eq!(try_read_client_targets(&mut p), Some(vec![(2, 1)]));

    assert!(GameServerInitPacket::try_from_base_packet(frame(1501, &[0, 2, 65])).is_none());
    assert!(GameServerEnterMapResultPacket::try_from_base_packet(frame(516, &[0])).is_none());
    assert!(GameServerEnterMapResultPacket::try_for_client(frame(516, &[0, 5])).is_none());
}

#[test]
fn packet_checks_tell_which_reads_are_allowed() {
    let p = frame(700, &[0, 3, 65, 66, 0]);
    assert!(p.can_read(2));
    assert!(p.can_read_sequence());
    assert!(p.can_reverse_read(4));
    assert!(p.can_read_cmd());
    assert_eq!(p.data_len(), 13);
    assert!(p.is_built());
    assert!(!BasePacket::new().is_built());
}

#[test]
fn disconnection_depends_on_the_login() {
    let mut player: Player<u8> = Player::new();
    match plan_disconnect(&player, 9) {
        DisconnectAction::RefuseNotLoggedIn(p) => {
            assert_eq!(p.as_bytes().to_vec(), vec![0, 6]);
        }
        _ => panic!("a player that is not logged in is refused"),
    }
    player.set_logged_in_context(0x0102, 5, 7, 0, String::new(), 0x0A000001);
    match plan_disconnect(&player, 9) {
        DisconnectAction::NotifyGroupServer { disconnected, logout } => {
            assert_eq!(
                disconnected.as_bytes().to_vec(),
                vec![0, 22, 0x80, 0, 0, 0, 7, 219, 0, 0, 0, 7, 10, 0, 0, 1, 0, 4, 45, 50, 55, 0]
            );
            assert_eq!(
                logout.as_bytes().to_vec(),
                vec![0, 16, 0x80, 0, 0, 0, 7, 212, 0, 0, 0, 9, 0, 0, 1, 2]
            );
        }
        _ => panic!("a logged in player is reported to the group server"),
    }
}

#[test]
fn recipients_are_connected_clients_with_the_named_database_id() {
    let mut db_ids = std::collections::HashMap::new();
    db_ids.insert(11u32, 21u32);
    db_ids.insert(10, 99);
    let targets = vec![(11u32, 21u32), (10, 20), (12, 22), (11, 21)];
    assert_eq!(select_recipients(&targets, &db_ids), vec![11, 11]);
    assert_eq!(select_recipients(&vec![], &db_ids), Vec::<u32>::new());
}

#[test]
fn player_list_packet_counts_the_players() {
    let players = vec![
        gate_server::packet::init::PlayerForGroupServer { player_pointer: 1, login_id: 2, account_id: 3 },
    ];
    let p = build_player_list_sync("G".to_string(), players).unwrap();
    assert_eq!(
        p.as_bytes().to_vec(),
        vec![0, 28, 0x80, 0, 0, 0, 7, 223, 0, 0, 0, 1, 0, 2, 71, 0, 0, 0, 0, 1, 0, 0, 0, 2, 0, 0, 0, 3]
    );
    let many: Vec<_> = (0..6000u32)
        .map(|i| gate_server::packet::init::PlayerForGroupServer { player_pointer: i, login_id: i, account_id: i })
        .collect();
    assert!(build_player_list_sync("G".to_string(), many).is_none());
}
