use bytes::BytesMut;
use gate_server::network::rpc::{RPCManager, RpcError};
use gate_server::network::tcp_connection::{heartbeat_due, take_next_frame, ReceiveAction};
use gate_server::packet::commands::Command;
use gate_server::packet::BasePacket;
use std::iter::FromIterator;

fn login_packet() -> BasePacket {
    let mut p = BasePacket::new();
    p.write_cmd(Command::GTTGPUserLogin).unwrap();
    p.write_long(7).unwrap();
    p
}

#[test]
fn a_call_gets_the_next_session_id_in_its_header() {
    let mut rpc: RPCManager<&str> = RPCManager::new();
    let mut p = login_packet();
    assert_eq!(rpc.make_sync_call(&mut p, "first"), Ok(2));
    let bytes = p.as_bytes().to_vec();
    assert_eq!(bytes.len(), 12);
    assert_eq!(&bytes[0..2], &[0, 12]);
    assert_eq!(&bytes[2..6], &[0, 0, 0, 2]);
    let mut q = login_packet();
    assert_eq!(rpc.make_sync_call(&mut q, "second"), Ok(3));
}

#[test]
fn an_echoed_call_packet_is_matched_to_its_call() {
    let mut rpc: RPCManager<&str> = RPCManager::new();
    let mut p = login_packet();
    let id = rpc.make_sync_call(&mut p, "login").unwrap();
    let reply = BasePacket::from_bytes(p.as_bytes());
    assert_eq!(reply.read_session_id(), Some(id as u32));
    assert!(rpc.check_packet_for_rpc_response(&reply));
    let reply_bytes = reply.duplicate().get_as_bytes().to_vec();
    assert!(rpc.take_result(id).is_none());
    assert_eq!(rpc.handle_rpc_reply(reply), Ok(id));
    assert_eq!(rpc.get_call(id), Some(&"login"));
    let result = rpc.take_result(id).unwrap();
    assert_eq!(result.get_as_bytes().to_vec(), reply_bytes);
    assert!(rpc.take_result(id).is_none());
    assert_eq!(rpc.get_call(id + 1), None);
}

#[test]
fn packets_without_a_waiting_call_are_not_replies() {
    let mut rpc: RPCManager<u8> = RPCManager::new();
    let other = BasePacket::from_bytes(BytesMut::from_iter(vec![0, 8, 0, 0, 0, 9, 0, 0]));
    assert!(!rpc.check_packet_for_rpc_response(&other));
    assert_eq!(rpc.handle_rpc_reply(other), Err(RpcError::NoMatchingCall));
    assert!(rpc.take_result(9).is_none());
    let short = BasePacket::from_bytes(BytesMut::from_iter(vec![0, 2]));
    assert!(!rpc.check_packet_for_rpc_response(&short));
    assert_eq!(rpc.handle_rpc_reply(short), Err(RpcError::NoMatchingCall));
}

#[test]
fn incomplete_frames_wait_for_more_bytes() {
    let rpc: RPCManager<u8> = RPCManager::new();
    let mut buffer = BytesMut::from_iter(vec![0u8]);
    assert!(matches!(take_next_frame(&mut buffer, &rpc), ReceiveAction::WaitForMore));
    assert_eq!(buffer.to_vec(), vec![0u8]);
    let mut buffer = BytesMut::from_iter(vec![0u8, 12, 0, 0, 0, 1, 3, 0]);
    assert!(matches!(take_next_frame(&mut buffer, &rpc), ReceiveAction::WaitForMore));
    assert_eq!(buffer.len(), 8);
}

#[test]
fn heartbeat_frames_are_dropped() {
    let rpc: RPCManager<u8> = RPCManager::new();
    let mut buffer = BytesMut::from_iter(vec![0u8, 2, 0, 8]);
    assert!(matches!(take_next_frame(&mut buffer, &rpc), ReceiveAction::Heartbeat));
    assert_eq!(buffer.to_vec(), vec![0u8, 8]);
}

#[test]
fn complete_frames_are_delivered_and_leave_the_buffer() {
    let rpc: RPCManager<u8> = RPCManager::new();
    let mut buffer =
        BytesMut::from_iter(vec![0u8, 10, 0x80, 0, 0, 0, 0x01, 0xAF, 0, 7, 0, 2]);
    match take_next_frame(&mut buffer, &rpc) {
        ReceiveAction::Deliver(mut p) => {
            assert_eq!(p.get_len(), 10);
            assert_eq!(p.read_cmd(), Some(Command::CTGTLogin));
            assert_eq!(p.get_raw_cmd(), 431);
            assert_eq!(p.read_short(), Some(7));
        }
        other => panic!("unexpected {:?}", other),
    }
    assert_eq!(buffer.to_vec(), vec![0u8, 2]);
}

#[test]
fn replies_to_calls_go_to_the_call() {
    let mut rpc: RPCManager<u8> = RPCManager::new();
    let mut p = login_packet();
    let id = rpc.make_sync_call(&mut p, 1).unwrap();
    let mut buffer = p.as_bytes();
    match take_next_frame(&mut buffer, &rpc) {
        ReceiveAction::RpcReply(reply) => {
            assert_eq!(reply.read_session_id(), Some(id as u32));
            assert_eq!(rpc.handle_rpc_reply(reply), Ok(id));
            assert_eq!(rpc.get_call(id), Some(&1));
            assert!(rpc.take_result(id).is_some());
        }
        other => panic!("unexpected {:?}", other),
    }
    assert!(buffer.is_empty());
}

#[test]
fn heartbeats_are_due_after_two_idle_seconds() {
    assert!(!heartbeat_due(0));
    assert!(!heartbeat_due(1));
    assert!(heartbeat_due(2));
    assert!(heartbeat_due(30));
}

#[test]
fn a_built_packet_arrives_as_one_frame() {
    let rpc: RPCManager<u8> = RPCManager::new();
    let mut p = login_packet();
    p.build_packet().unwrap();
    let sent = p.as_bytes().to_vec();
    let mut buffer = BytesMut::from_iter(sent.iter().cloned().chain(vec![0u8, 2, 0]));
    match take_next_frame(&mut buffer, &rpc) {
        ReceiveAction::Deliver(mut q) => {
            assert_eq!(q.get_len() as usize, sent.len());
            assert_eq!(q.read_long(), Some(7));
        }
        other => panic!("unexpected {:?}", other),
    }
    assert_eq!(buffer.to_vec(), vec![0u8, 2, 0]);
}

#[test]
fn a_later_reply_replaces_one_not_taken() {
    let mut rpc: RPCManager<u8> = RPCManager::new();
    let mut p = login_packet();
    let id = rpc.make_sync_call(&mut p, 1).unwrap();
    let bytes = p.as_bytes().to_vec();
    let mut second = bytes.clone();
    second.push(99);
    assert_eq!(rpc.handle_rpc_reply(BasePacket::from_bytes(BytesMut::from_iter(bytes))), Ok(id));
    assert_eq!(rpc.handle_rpc_reply(BasePacket::from_bytes(BytesMut::from_iter(second.clone()))), Ok(id));
    assert_eq!(rpc.take_result(id).unwrap().get_as_bytes().to_vec(), second);
    assert!(rpc.take_result(id).is_none());
}

#[test]
fn partial_frames_wait_and_bad_lengths_are_refused() {
    let rpc: RPCManager<u8> = RPCManager::new();
    let mut buffer = BytesMut::from_iter(vec![0u8, 12, 0x80, 0, 0, 0, 0x01, 0xAF, 0, 7]);
    assert!(matches!(take_next_frame(&mut buffer, &rpc), ReceiveAction::WaitForMore));
    assert_eq!(buffer.len(), 10);
    buffer.extend_from_slice(&[0, 1]);
    assert!(matches!(take_next_frame(&mut buffer, &rpc), ReceiveAction::Deliver(_)));
    assert!(buffer.is_empty());

    let mut buffer = BytesMut::from_iter(vec![0u8, 1, 9]);
    assert!(matches!(take_next_frame(&mut buffer, &rpc), ReceiveAction::InvalidFrame));
    assert_eq!(buffer.to_vec(), vec![0u8, 1, 9]);
}
