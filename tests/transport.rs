use shelly::dedup::{DedupOutcome, DedupTable, PeerAddr};
use shelly::protocol::{decode_header, decode_response_payload, encode_request, CommError, MsgType, RequestPayload};
use shelly::transport::{handle_packet, reply_for, CommConfig, PacketAction, ReplyOutcome, UserResponse};

fn peer(port: u16) -> PeerAddr {
    PeerAddr { ip: 0x7f000001, port, is_v6: false }
}

fn request(seq: u32, content: &str) -> Vec<u8> {
    encode_request(seq, &RequestPayload { content: content.to_string() }).unwrap()
}

#[test]
fn plain_echo() {
    let config = CommConfig::default();
    let mut table = config.dedup_table();
    let p = peer(40000);
    let packet = request(1, "ping");
    match handle_packet(&mut table, config.max_payload_bytes, &packet, p, 1000) {
        PacketAction::Dispatch { ack, seq, content } => {
            assert_eq!(ack, vec![0x02, 0x00, 0x00, 0x00, 0x01]);
            assert_eq!(seq, 1);
            assert_eq!(content, "ping");
        }
        other => panic!("unexpected {:?}", other),
    }
    let reply = reply_for(1, ReplyOutcome::Answered(UserResponse::new("pong".to_string()))).unwrap();
    assert!(reply.cache);
    assert_eq!(decode_header(&reply.bytes).unwrap(), (MsgType::Response, 1));
    let payload = decode_response_payload(&reply.bytes[5..]).unwrap();
    assert_eq!(payload.content, "pong");
    assert!(!payload.is_error);
}

#[test]
fn dedup_replay_sends_the_same_bytes() {
    let config = CommConfig::default();
    let mut table = config.dedup_table();
    let p = peer(40001);
    let packet = request(1, "ping");
    let mut dispatched = 0;
    if let PacketAction::Dispatch { .. } = handle_packet(&mut table, 65536, &packet, p, 1000) {
        dispatched += 1;
    }
    let reply = reply_for(1, ReplyOutcome::Answered(UserResponse::new("pong".to_string()))).unwrap();
    table.record_response(p, 1, reply.bytes.clone(), 1500);
    for t in [2000u64, 3000, 4000] {
        match handle_packet(&mut table, 65536, &packet, p, t) {
            PacketAction::Reply(bytes) => assert_eq!(bytes, reply.bytes),
            PacketAction::Dispatch { .. } => dispatched += 1,
            other => panic!("unexpected {:?}", other),
        }
    }
    assert_eq!(dispatched, 1);
}

#[test]
fn retransmit_in_flight_is_acknowledged_again() {
    let mut table = DedupTable::new(256, 300_000);
    let p = peer(40002);
    let packet = request(9, "slow");
    assert!(matches!(handle_packet(&mut table, 65536, &packet, p, 0), PacketAction::Dispatch { .. }));
    match handle_packet(&mut table, 65536, &packet, p, 10) {
        PacketAction::Reply(bytes) => assert_eq!(bytes, vec![0x02, 0, 0, 0, 9]),
        other => panic!("unexpected {:?}", other),
    }
}

#[test]
fn oversize_datagram_is_dropped() {
    let mut table = DedupTable::new(256, 300_000);
    let p = peer(40003);
    let mut packet = vec![0x01, 0, 0, 0, 1];
    packet.extend(std::iter::repeat(0u8).take(65537));
    match handle_packet(&mut table, 65536, &packet, p, 0) {
        PacketAction::Drop(CommError::PayloadTooLarge(n)) => assert_eq!(n, 65537),
        other => panic!("unexpected {:?}", other),
    }
    assert_eq!(table.entry_count(p), 0);
    let normal = request(2, "hi");
    assert!(matches!(handle_packet(&mut table, 65536, &normal, p, 1), PacketAction::Dispatch { .. }));
}

#[test]
fn ill_formed_and_foreign_packets() {
    let mut table = DedupTable::new(256, 300_000);
    let p = peer(40004);
    assert!(matches!(handle_packet(&mut table, 65536, &[], p, 0), PacketAction::Drop(CommError::DecodeError(_))));
    assert!(matches!(
        handle_packet(&mut table, 65536, &[0x07, 0, 0, 0, 1], p, 0),
        PacketAction::Drop(CommError::DecodeError(_))
    ));
    assert!(matches!(
        handle_packet(&mut table, 65536, &[0x02, 0, 0, 0, 1], p, 0),
        PacketAction::Ignore(MsgType::RequestAck)
    ));
    assert_eq!(table.peer_count(), 0);
    // A request whose payload is not MessagePack is remembered, and dropped.
    assert!(matches!(
        handle_packet(&mut table, 65536, &[0x01, 0, 0, 0, 5, 0xc1], p, 0),
        PacketAction::Drop(CommError::DecodeError(_))
    ));
    assert!(table.contains(p, 5));
}

#[test]
fn capacity_evicts_oldest_first() {
    let cap = 3usize;
    let mut table = DedupTable::new(cap, 300_000);
    let p = peer(40005);
    for seq in 0..8u32 {
        assert!(matches!(table.on_request(p, seq, seq as u64 * 10), DedupOutcome::Accepted));
        assert!(table.entry_count(p) <= cap);
    }
    assert_eq!(table.entry_count(p), cap);
    for seq in 0..5u32 {
        assert!(!table.contains(p, seq));
    }
    for seq in 5..8u32 {
        assert!(table.contains(p, seq));
    }
    let other = peer(40006);
    assert!(matches!(table.on_request(other, 0, 100), DedupOutcome::Accepted));
    assert_eq!(table.entry_count(p), cap);
    assert_eq!(table.entry_count(other), 1);
}

#[test]
fn sweep_forgets_expired_entries() {
    let mut table = DedupTable::new(256, 1000);
    let p = peer(40007);
    let q = peer(40008);
    table.on_request(p, 1, 0);
    table.on_request(q, 1, 100);
    table.on_request(p, 2, 500);
    // Time never runs backwards for the table: an earlier stamp counts as the latest.
    table.on_request(q, 2, 400);
    assert!(table.contains(q, 2));
    table.sweep(1200);
    assert!(!table.contains(p, 1));
    assert!(table.contains(p, 2));
    assert!(!table.contains(q, 1));
    assert!(table.contains(q, 2));
    assert_eq!(table.peer_count(), 2);
    table.sweep(5000);
    assert_eq!(table.peer_count(), 0);
}

#[test]
fn failures_reply_once_without_caching() {
    for (outcome, text) in [
        (ReplyOutcome::ChannelClosed, "No response from handler"),
        (ReplyOutcome::TimedOut, "Response timeout"),
        (ReplyOutcome::QueueFull, "Internal server error"),
    ] {
        let reply = reply_for(4, outcome).unwrap();
        assert!(!reply.cache);
        let payload = decode_response_payload(&reply.bytes[5..]).unwrap();
        assert_eq!(payload.content, text);
        assert!(payload.is_error);
    }
}

#[test]
fn comm_config_defaults() {
    let c = CommConfig::default();
    assert_eq!(c.listen_port, 9700);
    assert_eq!(c.max_payload_bytes, 65536);
    assert_eq!(c.dedup_capacity, 256);
    assert_eq!(c.dedup_ttl_secs, 300);
    assert_eq!(c.bind_addr_text(), "0.0.0.0:9700");
    let r = UserResponse::error("x".to_string());
    assert!(r.is_error);
}
