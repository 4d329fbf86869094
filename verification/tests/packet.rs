use bytes::BytesMut;
use gate_server::packet::auth::{
    ClientDisconnectedForGroupPacket, ClientLoginErrorPacket, ClientLogoutFromGroupPacket,
    ClientMapCrashPacket,
};
use gate_server::packet::commands::{Command, ErrorCode};
use gate_server::packet::heartbeat::HeartbeatPacket;
use gate_server::packet::init::{
    InitClientPacket, InitGroupPacket, PlayerForGroupServer, SyncPlayerListToGroupServerPacket,
};
use gate_server::packet::{BasePacket, FrameError, PacketError};
use std::iter::FromIterator;

fn get_test_packet_one() -> BytesMut {
    BytesMut::from_iter(vec![
        0, 40, 128, 0, 0, 0, 5, 234, 0, 7, 107, 105, 108, 108, 116, 49, 0, 0, 6, 76, 111, 99, 97,
        108, 0, 0, 2, 97, 0, 99, 0, 0, 13, 67, 1, 57, 41, 112, 0, 1,
    ])
}

#[test]
fn it_creates_a_packet_from_bytes() {
    let data = get_test_packet_one();
    let bytes_clone = data.clone();
    let packet = BasePacket::from_bytes(data);

    assert_eq!(packet.get_len(), 40);
    assert_eq!(packet.as_bytes(), bytes_clone);
}

#[test]
fn it_reads_strings_correctly() {
    let data = get_test_packet_one();
    let mut packet = BasePacket::from_bytes(data);

    let _ = packet.read_cmd().unwrap();
    let char_name = packet.read_string().unwrap();
    let chat_channel = packet.read_string().unwrap();
    let chat_content = packet.read_string().unwrap();

    assert_eq!(char_name, "killt1");
    assert_eq!(chat_channel, "Local");
    assert_eq!(chat_content, "a");
}

#[test]
fn it_reads_reverse_data_correctly() {
    let data = get_test_packet_one();
    let mut packet = BasePacket::from_bytes(data);

    let last_char = packet.reverse_read_char().unwrap();
    assert_eq!(last_char, 1);

    let last_short = packet.reverse_read_short().unwrap();
    assert_eq!(last_short, 28672);
}

#[test]
fn it_creates_an_empty_packet() {
    let packet = BasePacket::new();
    assert_eq!(packet.as_bytes(), BytesMut::new());
}

#[test]
fn from_bytes_reads_header_and_unknown_command() {
    let packet = BasePacket::from_bytes(get_test_packet_one());
    assert_eq!(packet.get_session_id(), Some(0x8000_0000));
    assert_eq!(packet.get_raw_cmd(), 1514);
    assert_eq!(packet.get_offset(), 8);
    assert_eq!(packet.read_session_id(), Some(0x8000_0000));
}

#[test]
fn from_bytes_of_a_short_buffer_reads_what_is_there() {
    let mut packet = BasePacket::from_bytes(BytesMut::from_iter(vec![0u8]));
    assert_eq!(packet.get_len(), 0);
    assert_eq!(packet.get_session_id(), None);
    assert_eq!(packet.read_cmd(), None);
    assert_eq!(packet.read_session_id(), None);
}

#[test]
fn session_id_above_the_limit_is_reduced() {
    let packet = BasePacket::from_bytes(BytesMut::from_iter(vec![0, 8, 0x80, 0, 0, 5, 0, 0]));
    assert_eq!(packet.read_session_id(), Some(5));
    let packet = BasePacket::from_bytes(BytesMut::from_iter(vec![0, 8, 0, 0, 0, 7, 0, 0]));
    assert_eq!(packet.read_session_id(), Some(7));
}

#[test]
fn written_values_read_back_after_building() {
    let mut p = BasePacket::new();
    p.write_cmd(Command::GTTGPInit).unwrap();
    p.write_char(9).unwrap();
    p.write_short(0x1234).unwrap();
    p.write_long(0xDEADBEEF).unwrap();
    p.write_long_long(0x0102030405060708).unwrap();
    p.write_string("héllo").unwrap();
    p.write_session_id(77).unwrap();
    p.build_packet().unwrap();

    let mut q = BasePacket::from_bytes(p.as_bytes());
    assert_eq!(q.get_len(), 8 + 1 + 2 + 4 + 8 + 2 + 6 + 1);
    assert_eq!(q.get_session_id(), Some(77));
    assert_eq!(q.read_cmd(), Some(Command::GTTGPInit));
    assert_eq!(q.get_raw_cmd(), 2001);
    assert_eq!(q.read_char(), Some(9));
    assert_eq!(q.read_short(), Some(0x1234));
    assert_eq!(q.read_long(), Some(0xDEADBEEF));
    assert_eq!(q.read_long_long(), Some(0x0102030405060708));
    assert_eq!(q.read_string().as_deref(), Some("héllo"));
    assert_eq!(q.read_char(), None);
}

#[test]
fn write_buffer_reverses_and_shorts_are_big_endian() {
    let mut p = BasePacket::new();
    p.write_buffer(vec![1, 2, 3]).unwrap();
    p.write_short(0x0102).unwrap();
    assert_eq!(p.get_len(), 5);
    assert_eq!(p.as_bytes().to_vec(), vec![3, 2, 1, 1, 2]);
}

#[test]
fn write_sequence_takes_at_most_len_bytes() {
    let mut p = BasePacket::new();
    p.write_sequence(&[7, 8, 9], 2).unwrap();
    p.write_sequence(&[5], 3).unwrap();
    assert_eq!(p.as_bytes().to_vec(), vec![0, 3, 7, 8, 0, 0, 4, 5, 0]);
}

#[test]
fn building_twice_replaces_the_header() {
    let mut p = BasePacket::new();
    p.write_cmd(Command::GTTCLogin).unwrap();
    p.write_char(1).unwrap();
    p.build_packet().unwrap();
    p.reset_header();
    p.build_packet().unwrap();
    assert_eq!(p.as_bytes().to_vec(), vec![0, 9, 0x80, 0, 0, 0, 3, 163, 1]);
}

#[test]
fn check_frame_reports_incomplete_and_lengths() {
    assert_eq!(BasePacket::check_frame(&BytesMut::from_iter(vec![0u8]), false), Err(FrameError::Incomplete));
    assert_eq!(BasePacket::check_frame(&BytesMut::from_iter(vec![0u8, 10, 1]), false), Err(FrameError::Incomplete));
    assert_eq!(
        BasePacket::check_frame(&BytesMut::from_iter(vec![0u8, 10, 1, 2, 3, 4, 5, 6]), false),
        Err(FrameError::Incomplete)
    );
    assert_eq!(
        BasePacket::check_frame(&BytesMut::from_iter(vec![0u8, 10, 1, 2, 3, 4, 5, 6, 7]), false),
        Err(FrameError::Incomplete)
    );
    assert_eq!(
        BasePacket::check_frame(&BytesMut::from_iter(vec![0u8, 10, 1, 2, 3, 4, 5, 6, 7, 8]), false),
        Ok(10)
    );
    assert_eq!(BasePacket::check_frame(&BytesMut::from_iter(vec![0u8, 2]), false), Ok(2));
    assert_eq!(BasePacket::check_frame(&BytesMut::from_iter(vec![0u8, 1, 5]), false), Err(FrameError::Invalid));
    assert_eq!(BasePacket::check_frame(&BytesMut::from_iter(vec![0u8, 0]), false), Err(FrameError::Invalid));
    assert_eq!(BasePacket::check_frame(&get_test_packet_one(), false), Ok(40));
}

#[test]
fn parse_frame_takes_the_frame_from_the_buffer() {
    let mut buf = get_test_packet_one();
    buf.extend_from_slice(&[9, 9, 9]);
    let p = BasePacket::parse_frame(&mut buf, 40).unwrap();
    assert_eq!(buf.len(), 43);
    assert_eq!(p.get_len(), 40);
    assert_eq!(p.as_bytes(), get_test_packet_one());
}

#[test]
fn discard_and_remove_range_update_size_and_offsets() {
    let mut p = BasePacket::from_bytes(get_test_packet_one());
    assert_eq!(p.reverse_read_long(), Some(0x29700001));
    p.discard_last(3);
    assert_eq!(p.get_len(), 37);
    assert_eq!(p.get_reverse_offset(), 1);
    p.discard_last(5);
    assert_eq!(p.get_reverse_offset(), 0);
    p.remove_range(2..6);
    assert_eq!(p.get_offset(), 0);
    assert_eq!(p.get_len(), 28);
    let bytes = p.as_bytes().to_vec();
    assert_eq!(&bytes[..4], &[0, 40, 5, 234]);
}

#[test]
fn reverse_read_bytes_reads_from_the_end() {
    let mut p = BasePacket::from_bytes(BytesMut::from_iter(vec![0, 8, 0, 0, 0, 0, 0, 0, 1, 2, 3, 4]));
    assert_eq!(p.reverse_read_bytes(2), Some(&[3u8, 4][..]));
    assert_eq!(p.get_reverse_offset(), 2);
    assert_eq!(p.reverse_read_bytes(20), None);
    assert_eq!(p.get_reverse_offset(), 2);
    assert_eq!(p.reverse_read_bytes(2), Some(&[1u8, 2][..]));
    assert_eq!(p.get_reverse_offset(), 4);

    let mut q = BasePacket::from_bytes(BytesMut::from_iter(vec![0u8, 6, 1, 2, 3, 4]));
    assert_eq!(q.reverse_read_bytes(2), Some(&[3u8, 4][..]));
    assert_eq!(q.reverse_read_bytes(2), Some(&[1u8, 2][..]));
}

#[test]
fn duplicate_restarts_the_readers() {
    let mut p = BasePacket::from_bytes(get_test_packet_one());
    let _ = p.read_string();
    let _ = p.reverse_read_char();
    let d = p.duplicate();
    assert_eq!(d.get_offset(), 8);
    assert_eq!(d.get_reverse_offset(), 0);
    assert_eq!(d.as_bytes(), get_test_packet_one());
}

#[test]
fn invalid_utf8_string_is_consumed_but_not_returned() {
    let mut p = BasePacket::from_bytes(BytesMut::from_iter(vec![0, 13, 0, 0, 0, 0, 0, 0, 0, 2, 0xFF, 0, 5]));
    assert_eq!(p.read_string(), None);
    assert_eq!(p.get_offset(), 12);
    assert_eq!(p.read_char(), Some(5));
}

#[test]
fn zero_length_sequence_is_not_read() {
    let mut p = BasePacket::from_bytes(BytesMut::from_iter(vec![0, 11, 0, 0, 0, 0, 0, 0, 0, 0, 1]));
    assert_eq!(p.read_sequence(), None);
    assert_eq!(p.get_offset(), 8);
}

#[test]
fn command_numbers_round_trip() {
    for c in [
        Command::NoCommand,
        Command::CTGTLogin,
        Command::GMTCEnterMap,
        Command::GTTGPSyncPlayerList,
        Command::GTTGMKickCharacter,
    ] {
        assert_eq!(Command::try_from_u16(c.to_u16()), Some(c));
    }
    assert_eq!(Command::try_from_u16(1514), None);
    assert_eq!(Command::CTGTLogin.to_u16(), 431);
    assert_eq!(ErrorCode::ErrClientVersionMismatch.to_u16(), 7);
    assert_eq!(ErrorCode::try_from_u16(6), Some(ErrorCode::ErrClientNotLoggedIn));
    assert_eq!(ErrorCode::try_from_u16(2), None);
}

#[test]
fn command_display_text() {
    assert_eq!(Command::CTGTLogin.to_display_string(), "CTGTLogin");
    assert_eq!(Command::NoCommand.to_display_string(), "None");
    assert_eq!(Command::GMTCEnterMap.to_display_string(), "Unknown, value: 516");
    assert_eq!(Command::GTTGMKickCharacter.to_display_string(), "Unknown, value: 1009");
}

#[test]
fn map_crash_packet_bytes() {
    let p = ClientMapCrashPacket::new("ab".to_string()).to_base_packet().unwrap();
    assert_eq!(p.as_bytes().to_vec(), vec![0, 13, 0x80, 0, 0, 0, 1, 247, 0, 3, 97, 98, 0]);
}

#[test]
fn login_error_packet_bytes() {
    let p = ClientLoginErrorPacket::new(ErrorCode::ErrClientVersionMismatch).to_base_packet().unwrap();
    assert_eq!(p.as_bytes().to_vec(), vec![0, 10, 0x80, 0, 0, 0, 3, 163, 0, 7]);
    let p = ClientLoginErrorPacket::new(ErrorCode::NoError).to_base_packet().unwrap();
    assert_eq!(p.as_bytes().to_vec(), vec![0, 8, 0x80, 0, 0, 0, 3, 163]);
}

#[test]
fn group_packets_bytes() {
    let p = ClientDisconnectedForGroupPacket::new(1, 2, "-27".to_string()).to_base_packet().unwrap();
    assert_eq!(
        p.as_bytes().to_vec(),
        vec![0, 22, 0x80, 0, 0, 0, 7, 219, 0, 0, 0, 1, 0, 0, 0, 2, 0, 4, 45, 50, 55, 0]
    );
    let p = ClientLogoutFromGroupPacket::new(3, 4).to_base_packet().unwrap();
    assert_eq!(p.as_bytes().to_vec(), vec![0, 16, 0x80, 0, 0, 0, 7, 212, 0, 0, 0, 3, 0, 0, 0, 4]);
    let p = InitGroupPacket::new(103, "G".to_string()).to_base_packet().unwrap();
    assert_eq!(p.as_bytes().to_vec(), vec![0, 14, 0x80, 0, 0, 0, 7, 209, 0, 103, 0, 2, 71, 0]);
    let p = InitClientPacket::new("x".to_string()).to_base_packet().unwrap();
    assert_eq!(p.as_bytes().to_vec(), vec![0, 12, 0x80, 0, 0, 0, 3, 172, 0, 2, 120, 0]);
}

#[test]
fn sync_player_list_packet_bytes() {
    let players = vec![
        PlayerForGroupServer { player_pointer: 1, login_id: 2, account_id: 3 },
        PlayerForGroupServer { player_pointer: 4, login_id: 5, account_id: 6 },
    ];
    let p = SyncPlayerListToGroupServerPacket::new(2, "G".to_string(), players).to_base_packet().unwrap();
    let mut expected = vec![0, 40, 0x80, 0, 0, 0, 7, 223, 0, 0, 0, 2, 0, 2, 71, 0];
    for v in [1u8, 2, 3, 4, 5, 6] {
        expected.extend_from_slice(&[0, 0, 0, v]);
    }
    assert_eq!(p.as_bytes().to_vec(), expected);
}

#[test]
fn heartbeat_packets() {
    let p = HeartbeatPacket::default().to_base_packet().unwrap();
    assert_eq!(p.get_len(), 2);
    assert_eq!(p.as_bytes().to_vec(), vec![0, 2]);
    let p = HeartbeatPacket::default().to_base_packet().unwrap();
    assert!(HeartbeatPacket::from_base_packet(p).is_ok());
    let q = BasePacket::from_bytes(BytesMut::from_iter(vec![0u8, 3, 0]));
    assert_eq!(HeartbeatPacket::from_base_packet(q).err(), Some(PacketError::InvalidHeartbeatLength));
}
