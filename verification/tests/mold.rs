use marketwire::moldudp64::receiver::{Receiver, ReceiverError};
use marketwire::moldudp64::transmitter::Transmitter;
use marketwire::moldudp64::types::{
    DownstreamPacket, Header, MessageBlock, RequestPacket, SessionId,
};

fn block(text: &[u8]) -> MessageBlock {
    MessageBlock::new(text.to_vec()).expect("bad block")
}

fn data_packet(session: &SessionId, seq: u64, texts: &[&[u8]]) -> DownstreamPacket {
    let blocks: Vec<MessageBlock> = texts.iter().map(|t| block(t)).collect();
    DownstreamPacket::new(Header::new(session.clone(), seq, 0), blocks).expect("bad packet")
}

#[test]
fn downstream_roundtrip() {
    let session = SessionId::new(b"S").expect("bad id");
    let packet = data_packet(&session, 100, &[b"one", b"two"]);
    let bytes = packet.serialize();
    let reparsed = DownstreamPacket::parse(&bytes).expect("bad parse");
    assert_eq!(reparsed.header.session, session);
    assert_eq!(reparsed.header.sequence_number, 100);
    assert_eq!(reparsed.header.message_count, 2);
    assert_eq!(reparsed.message_blocks.len(), 2);
    assert_eq!(reparsed.message_blocks[0].as_slice(), b"one");
    assert_eq!(reparsed.message_blocks[1].as_slice(), b"two");

    let hb = DownstreamPacket::heartbeat(session.clone(), 7);
    let reparsed = DownstreamPacket::parse(&hb.serialize()).expect("bad parse");
    assert!(reparsed.header.is_heartbeat());
    assert_eq!(reparsed.header.sequence_number, 7);

    let end = DownstreamPacket::end_session(session.clone(), 9);
    let reparsed = DownstreamPacket::parse(&end.serialize()).expect("bad parse");
    assert!(reparsed.header.is_end_session());

    // a truncated block section is refused
    let mut bytes = packet.serialize();
    bytes.truncate(bytes.len() - 1);
    assert!(DownstreamPacket::parse(&bytes).is_err());
}

#[test]
fn request_packet_roundtrip() {
    let session = SessionId::new(b"S").expect("bad id");
    let req = RequestPacket::new(session.clone(), 102, 2);
    let bytes = req.serialize();
    assert_eq!(bytes.len(), 20);
    let reparsed = RequestPacket::parse(&bytes).expect("bad parse");
    assert_eq!(reparsed.session, session);
    assert_eq!(reparsed.sequence_number, 102);
    assert_eq!(reparsed.message_count, 2);
}

#[test]
fn gap_rerequest_and_reordered_delivery() {
    let session = SessionId::new(b"S").expect("bad id");
    let mut rx = Receiver::new(session.clone(), 100, true);

    // seq 100, two blocks: delivered at once
    let step = rx.on_packet(data_packet(&session, 100, &[b"m100", b"m101"]));
    assert_eq!(step.delivered.len(), 2);
    assert_eq!(step.delivered[0].as_slice(), b"m100");
    assert_eq!(step.delivered[1].as_slice(), b"m101");
    assert!(step.request.is_none());
    assert_eq!(rx.next_expected(), 102);

    // seq 104 opens a gap: nothing delivered, a rerequest for [102, 103]
    let step = rx.on_packet(data_packet(&session, 104, &[b"m104"]));
    assert!(step.delivered.is_empty());
    let req = step.request.expect("bad request");
    assert_eq!(req.session, session);
    assert_eq!(req.sequence_number, 102);
    assert_eq!(req.message_count, 2);
    assert_eq!(rx.next_expected(), 102);

    // the retransmission fills the gap and the buffered packet drains
    let step = rx.on_packet(data_packet(&session, 102, &[b"m102", b"m103"]));
    assert_eq!(step.delivered.len(), 3);
    assert_eq!(step.delivered[0].as_slice(), b"m102");
    assert_eq!(step.delivered[1].as_slice(), b"m103");
    assert_eq!(step.delivered[2].as_slice(), b"m104");
    assert_eq!(rx.next_expected(), 105);
}

#[test]
fn receiver_close_paths() {
    let session = SessionId::new(b"S").expect("bad id");
    let other = SessionId::new(b"T").expect("bad id");

    let mut rx = Receiver::new(session.clone(), 1, false);
    let step = rx.on_packet(data_packet(&other, 1, &[b"x"]));
    assert_eq!(step.err, Some(ReceiverError::UnexpectedSession));
    assert!(rx.is_closed());

    let mut rx = Receiver::new(session.clone(), 1, false);
    let step = rx.on_packet(DownstreamPacket::end_session(session.clone(), 5));
    assert!(step.end_of_session);
    assert_eq!(step.err, Some(ReceiverError::SessionEnded));

    let mut rx = Receiver::new(session.clone(), 1, false);
    assert_eq!(rx.on_timeout(), ReceiverError::ServerTimedOut);
    assert_eq!(rx.close_err(), Some(ReceiverError::ServerTimedOut));

    // heartbeats advance the expected number without delivering
    let mut rx = Receiver::new(session.clone(), 1, false);
    let step = rx.on_packet(DownstreamPacket::heartbeat(session.clone(), 41));
    assert!(step.delivered.is_empty());
    assert_eq!(rx.next_expected(), 41);

    // duplicates below the expected number are discarded
    let mut rx = Receiver::new(session.clone(), 10, false);
    let step = rx.on_packet(data_packet(&session, 5, &[b"a", b"b"]));
    assert!(step.delivered.is_empty());
    assert_eq!(rx.next_expected(), 10);

    // an overlap delivers only the unseen tail
    let mut rx = Receiver::new(session.clone(), 6, false);
    let step = rx.on_packet(data_packet(&session, 5, &[b"m5", b"m6"]));
    assert_eq!(step.delivered.len(), 1);
    assert_eq!(step.delivered[0].as_slice(), b"m6");
    assert_eq!(rx.next_expected(), 7);
}

#[test]
fn transmitter_numbers_and_splits() {
    let session = SessionId::new(b"S").expect("bad id");
    let mut tx = Transmitter::new(session.clone(), 100);

    let hb = tx.send_heartbeat();
    assert!(hb.header.is_heartbeat());
    assert_eq!(hb.header.sequence_number, 100);

    // a small budget forces one block per packet
    let blocks = vec![block(b"aaaa"), block(b"bbbb"), block(b"cccc")];
    let packets = tx.send_messages(blocks, 26);
    assert_eq!(packets.len(), 3);
    assert_eq!(packets[0].header.sequence_number, 100);
    assert_eq!(packets[1].header.sequence_number, 101);
    assert_eq!(packets[2].header.sequence_number, 102);
    assert_eq!(packets[0].message_blocks[0].as_slice(), b"aaaa");
    assert_eq!(tx.next_sequence_number(), 103);

    // a roomy budget keeps a run together
    let blocks = vec![block(b"dd"), block(b"ee")];
    let packets = tx.send_messages(blocks, 4096);
    assert_eq!(packets.len(), 1);
    assert_eq!(packets[0].header.sequence_number, 103);
    assert_eq!(packets[0].header.message_count, 2);
    assert_eq!(tx.next_sequence_number(), 105);

    let end = tx.send_end_session();
    assert!(end.header.is_end_session());
    assert_eq!(end.header.sequence_number, 105);
}
