use marketwire::soupbintcp::client::{ClientError, ClientOptions, ClientState, TickAction};
use marketwire::soupbintcp::server::{
    decide_login, reply_packets, LoginDecision, Session, SessionsManager,
};
use marketwire::soupbintcp::types::{
    LoginReject, Packet, PacketParseError, PacketType, Password, Payload, SequenceNumber,
    SessionId, Username,
};

#[test]
fn login_request_wire_form() {
    // username "USER", password "pass", blank session, sequence number zero
    let packet = Packet::login_request(
        Username::new(b"USER").expect("bad username"),
        Password::new(b"pass").expect("bad password"),
        SessionId::blank(),
        SequenceNumber::zero(),
    );
    let mut expected: Vec<u8> = vec![0x00, 0x2F, 0x4C];
    expected.extend_from_slice(b"USER  ");
    expected.extend_from_slice(b"pass      ");
    expected.extend_from_slice(b"          ");
    expected.extend_from_slice(b"                   0");
    assert_eq!(packet.as_slice(), &expected[..]);

    let reparsed = Packet::parse(packet.as_slice()).expect("bad parse");
    assert_eq!(reparsed.packet_type(), PacketType::LoginRequest);
    assert_eq!(reparsed.username().unwrap().as_slice(), b"USER  ");
    assert_eq!(reparsed.password().unwrap().as_slice(), b"pass      ");
    assert!(reparsed.session().unwrap().is_blank());
    assert_eq!(reparsed.sequence_number().unwrap().to_u64_opt(), Some(0));
}

#[test]
fn wrong_password_is_rejected_on_the_wire() {
    let mut mgr = SessionsManager::new();
    mgr.try_add_current(Session::new(SessionId::new(b"S1").expect("bad id")))
        .ok()
        .expect("bad add");
    let request = Packet::login_request(
        Username::new(b"USER").expect("bad username"),
        Password::new(b"wrong").expect("bad password"),
        SessionId::blank(),
        SequenceNumber::zero(),
    );
    let decision = decide_login(
        &Username::new(b"USER").expect("bad username"),
        &Password::new(b"pass").expect("bad password"),
        &mgr,
        &request,
    );
    assert_eq!(decision, LoginDecision::Reject(LoginReject::NotAuthorized));
    let frames = reply_packets(&decision);
    assert_eq!(frames.len(), 1);
    assert_eq!(frames[0].as_slice(), &[0x00u8, 0x02, 0x4A, 0x41][..]);
}

#[test]
fn credentials_fold_case() {
    let mut mgr = SessionsManager::new();
    mgr.try_add_current(Session::new(SessionId::new(b"S1").expect("bad id")))
        .ok()
        .expect("bad add");
    let request = Packet::login_request(
        Username::new(b"user").expect("bad username"),
        Password::new(b"PASS").expect("bad password"),
        SessionId::blank(),
        SequenceNumber::zero(),
    );
    let decision = decide_login(
        &Username::new(b"USER").expect("bad username"),
        &Password::new(b"pass").expect("bad password"),
        &mgr,
        &request,
    );
    match decision {
        LoginDecision::Accept { start, replay, .. } => {
            assert_eq!(start, 1);
            assert!(replay.is_empty());
        }
        other => panic!("expected an accept, got {other:?}"),
    }
}

#[test]
fn unknown_session_is_unavailable() {
    let mgr = SessionsManager::new();
    let request = Packet::login_request(
        Username::new(b"USER").expect("bad username"),
        Password::new(b"pass").expect("bad password"),
        SessionId::blank(),
        SequenceNumber::zero(),
    );
    let decision = decide_login(
        &Username::new(b"USER").expect("bad username"),
        &Password::new(b"pass").expect("bad password"),
        &mgr,
        &request,
    );
    assert_eq!(decision, LoginDecision::Reject(LoginReject::SessionNotAvail));
}

#[test]
fn replay_from_one_sees_every_send() {
    let mut session = Session::new(SessionId::new(b"S1").expect("bad id"));
    for text in [&b"alpha"[..], &b"beta"[..], &b"gamma"[..]] {
        let payload = Payload::new(text.to_vec()).expect("bad payload");
        session.send_sequenced(payload).expect("bad send");
    }
    assert_eq!(session.next_sequence_number(), 4);
    let (start, replay) = session.login_reply(1);
    assert_eq!(start, 1);
    let contents: Vec<&[u8]> = replay.iter().map(|p| p.as_slice()).collect();
    assert_eq!(contents, vec![&b"alpha"[..], &b"beta"[..], &b"gamma"[..]]);
    // a tail subscribe replays nothing
    let (start, replay) = session.login_reply(0);
    assert_eq!(start, 4);
    assert!(replay.is_empty());
    // a mid-stream login replays the suffix
    let (start, replay) = session.login_reply(3);
    assert_eq!(start, 3);
    assert_eq!(replay.len(), 1);
    assert_eq!(replay[0].as_slice(), b"gamma");
}

#[test]
fn heartbeat_timeout_closes_the_client() {
    let mut state = ClientState::new(0);
    // nothing is due right away
    assert_eq!(state.on_tick(500, 15_000), TickAction::Idle);
    // a second of send silence asks for a heartbeat
    assert_eq!(state.on_tick(1_000, 15_000), TickAction::SendHeartbeat);
    state.on_sent(1_000);
    // at the server timeout the close-error slot holds the timeout
    assert_eq!(state.on_tick(15_001, 15_000), TickAction::Close);
    assert_eq!(state.close_err(), &Some(ClientError::ServerTimedOut));
    // the first error wins; later ticks are idle
    assert_eq!(state.on_tick(30_000, 15_000), TickAction::Idle);
    assert_eq!(state.close_err(), &Some(ClientError::ServerTimedOut));
}

#[test]
fn login_response_decision() {
    let accepted = Packet::login_accepted(
        SessionId::new(b"S1").expect("bad id"),
        SequenceNumber::from_u64(7),
    );
    let (session, seq) =
        marketwire::soupbintcp::client::handle_login_response(accepted).expect("bad response");
    assert_eq!(session.as_slice(), b"        S1");
    assert_eq!(seq.to_u64_opt(), Some(7));

    let reject = Packet::login_reject(LoginReject::SessionNotAvail);
    match marketwire::soupbintcp::client::handle_login_response(reject) {
        Err(ClientError::LoginRejected(LoginReject::SessionNotAvail)) => {}
        other => panic!("expected a reject, got {other:?}"),
    }

    let other = Packet::server_heartbeat();
    match marketwire::soupbintcp::client::handle_login_response(other) {
        Err(ClientError::UnexpectedPacket(_)) => {}
        got => panic!("expected an unexpected-packet error, got {got:?}"),
    }
}

#[test]
fn frame_roundtrip_and_rejects() {
    let payload = Payload::new(b"hello".to_vec()).expect("bad payload");
    let packet = Packet::sequenced_data(payload);
    let reparsed = Packet::parse(packet.as_slice()).expect("bad parse");
    assert_eq!(reparsed.packet_type(), PacketType::SequencedData);
    assert_eq!(reparsed.payload(), b"hello");

    // a fixed-length variant rejects a payload of the wrong length
    let bad = vec![0x00, 0x03, 0x48, 0x01, 0x02];
    assert_eq!(
        Packet::parse(&bad),
        Err(PacketParseError::MismatchLen { want: 0, got: 2 })
    );
    // an unknown type byte is refused
    let unknown = vec![0x00, 0x01, 0x51];
    assert_eq!(Packet::parse(&unknown), Err(PacketParseError::InvalidPacketType(0x51)));
    // a zero length field is refused
    let zero = vec![0x00, 0x00, 0x48];
    assert_eq!(Packet::parse(&zero), Err(PacketParseError::MismatchLen { want: 1, got: 0 }));
    // a truncated frame is refused
    let short = vec![0x00];
    assert_eq!(Packet::parse(&short), Err(PacketParseError::Io));
    // demanding a type refuses other frames
    let hb = Packet::server_heartbeat();
    assert_eq!(
        Packet::parse_as(PacketType::LoginRequest, hb.as_slice()),
        Err(PacketParseError::UnexpectedPacketType {
            want: PacketType::LoginRequest,
            got: PacketType::ServerHeartbeat,
            payload_len: 0,
        })
    );
}

#[test]
fn identifiers_pad_and_roundtrip() {
    assert_eq!(Username::new(b"AB").expect("bad username").as_slice(), b"AB    ");
    assert_eq!(Password::new(b"pw").expect("bad password").as_slice(), b"pw        ");
    assert_eq!(SessionId::new(b"XYZ").expect("bad id").as_slice(), b"       XYZ");
    assert!(Username::new(b"TOOLONGNAME").is_err());

    let n = SequenceNumber::from_u64(1234567);
    assert_eq!(n.to_u64(), 1234567);
    assert_eq!(n.to_u64_opt(), Some(1234567));
    assert!(n.is_valid());
    assert_eq!(SequenceNumber::from_u64(0), SequenceNumber::zero());
    assert_eq!(SequenceNumber::from_u64(u64::MAX).to_u64_opt(), Some(u64::MAX));

    // a space between digits fails the strict read but not the loose one
    let mixed = SequenceNumber::new(b"1 2").expect("bad field");
    assert_eq!(mixed.to_u64_opt(), None);
    assert!(!mixed.is_valid());
    assert_eq!(mixed.to_u64(), 12);
}

#[test]
fn options_build_login_packet() {
    let opts = ClientOptions::new()
        .with_username(Username::new(b"USER").expect("bad username"))
        .with_password(Password::new(b"pass").expect("bad password"))
        .with_server_timeout(5_000);
    assert_eq!(opts.server_timeout(), 5_000);
    let packet = opts.login_packet();
    assert_eq!(packet.packet_type(), PacketType::LoginRequest);
    assert_eq!(packet.username().unwrap().as_slice(), b"USER  ");
}

#[test]
fn manager_tracks_current_session() {
    let mut mgr = SessionsManager::new();
    let s1 = SessionId::new(b"S1").expect("bad id");
    let s2 = SessionId::new(b"S2").expect("bad id");
    mgr.try_add_current(Session::new(s1.clone())).ok().expect("bad add");
    mgr.try_add(Session::new(s2.clone())).ok().expect("bad add");
    assert_eq!(mgr.len(), 2);
    // adding the same id again fails
    assert!(mgr.try_add(Session::new(s1.clone())).is_err());
    // blank resolves to the current session
    let got = mgr.get(&SessionId::blank()).expect("bad current");
    assert_eq!(got.id().as_slice(), s1.as_slice());
    assert!(mgr.set_current(&s2));
    let got = mgr.get(&SessionId::blank()).expect("bad current");
    assert_eq!(got.id().as_slice(), s2.as_slice());
    // removing the current session with a blank replacement designates the
    // most recently inserted remaining one
    let (removed, changed) = mgr.remove_session(&s2, Some(&SessionId::blank()));
    assert!(removed.is_some());
    assert!(changed);
    let got = mgr.get(&SessionId::blank()).expect("bad current");
    assert_eq!(got.id().as_slice(), s1.as_slice());
    mgr.shutdown();
    assert_eq!(mgr.len(), 0);
    assert!(mgr.get(&SessionId::blank()).is_none());
}
