use allvu::client::{introduce_connection as client_step, ClientHandshake, ClientSession, ClientStep};
use allvu::connection::{Connection, LinkState, Policy};
use allvu::handshake::{
    check_greeting, greeting_payload, HandshakeError, HandshakeEvent, HandshakeState,
    IntroductionResult, Role,
};
use allvu::packet::{ConnectionPacket, PacketType, MAX_PAYLOAD_LEN};
use allvu::registry::{RegistryError, SessionRegistry};
use allvu::server::{introduce_connection as server_step, read_request, ServerHandshake, ServerStep};
use allvu::session::{Session, SessionError};

fn packet(kind: PacketType, payload: &str) -> ConnectionPacket {
    ConnectionPacket { packet_type: kind, packet_data: payload.as_bytes().to_vec() }
}

fn handshaking(id: u32) -> Connection {
    Connection { id, penalty: 0, failures: 0, state: LinkState::Handshaking }
}

#[test]
fn greetings_are_spelled_with_role_and_version() {
    assert_eq!(greeting_payload(Role::Client, "1.0"), b"ALLVU-CLIENT-1.0".to_vec());
    assert_eq!(greeting_payload(Role::Server, "0.3.1"), b"ALLVU-SERVER-0.3.1".to_vec());
    assert_eq!(greeting_payload(Role::Server, ""), b"ALLVU-SERVER-".to_vec());
}

#[test]
fn client_of_1_0_meets_server_of_2_0() {
    assert_eq!(
        check_greeting(b"ALLVU-SERVER-2.0", Role::Server, "1.0"),
        Err(HandshakeError::VersionMismatch)
    );
}

#[test]
fn client_of_1_0_meets_server_of_1_0() {
    assert_eq!(check_greeting(b"ALLVU-SERVER-1.0", Role::Server, "1.0"), Ok(()));
    assert_eq!(check_greeting(b"ALLVU-CLIENT-1.0", Role::Client, "1.0"), Ok(()));
}

#[test]
fn a_greeting_of_the_wrong_peer_is_an_identity_mismatch() {
    for payload in [
        &b"ALLVU-CLIENT-1.0"[..],
        b"ALLVO-SERVER-1.0",
        b"allvu-server-1.0",
        b"ALLVU-SERVER",
        b"ALLVU_SERVER_1.0",
        b"",
        b"HTTP/1.1 200 OK",
        &[0xff, 0xfe],
    ] {
        assert_eq!(
            check_greeting(payload, Role::Server, "1.0"),
            Err(HandshakeError::PeerIdentityMismatch)
        );
    }
}

#[test]
fn the_version_is_held_byte_for_byte() {
    for payload in [
        &b"ALLVU-SERVER-1.00"[..],
        b"ALLVU-SERVER-1",
        b"ALLVU-SERVER-",
        b"ALLVU-SERVER-1.0 ",
        b"ALLVU-SERVER-1.0-rc1",
        b"ALLVU-SERVER-1.\xff",
    ] {
        assert_eq!(
            check_greeting(payload, Role::Server, "1.0"),
            Err(HandshakeError::VersionMismatch)
        );
    }
    assert_eq!(check_greeting(b"ALLVU-SERVER-1.0-rc1", Role::Server, "1.0-rc1"), Ok(()));
}

#[test]
fn client_asks_for_a_fresh_session() {
    let request = IntroductionResult::NewSession(String::from("no password yet :)"));
    let mut h = ClientHandshake::new(String::from("1.0"), request);
    assert_eq!(h.state(), HandshakeState::Start);
    assert_eq!(h.start(), ClientStep::Send(packet(PacketType::InitialGreet, "ALLVU-CLIENT-1.0")));
    assert_eq!(h.state(), HandshakeState::GreetSent);
    assert_eq!(
        h.on_packet(&packet(PacketType::InitialGreet, "ALLVU-SERVER-1.0")),
        ClientStep::Send(packet(PacketType::NewSession, "no password yet :)"))
    );
    assert_eq!(h.state(), HandshakeState::VersionChecked);
    assert_eq!(h.token(), None);
    assert_eq!(h.on_packet(&packet(PacketType::NewSession, "abc123")), ClientStep::Wait);
    assert_eq!(h.state(), HandshakeState::SessionResolved);
    assert_eq!(h.token(), Some(String::from("abc123")));
    assert_eq!(h.on_packet(&packet(PacketType::ReadyForTransmission, "AllVu Ready")), ClientStep::Done);
    assert_eq!(h.state(), HandshakeState::Ready);
    assert_eq!(h.on_packet(&packet(PacketType::MediaData, "x")), ClientStep::Done);
    assert_eq!(h.start(), ClientStep::Done);
}

#[test]
fn client_asks_for_an_existing_session() {
    let request = IntroductionResult::ExistingSession(String::from("abc123"));
    let mut h = ClientHandshake::new(String::from("1.0"), request);
    h.start();
    assert_eq!(
        h.on_packet(&packet(PacketType::InitialGreet, "ALLVU-SERVER-1.0")),
        ClientStep::Send(packet(PacketType::ExistingSession, "abc123"))
    );
    assert_eq!(h.state(), HandshakeState::SessionResolved);
    assert_eq!(h.token(), Some(String::from("abc123")));
    assert_eq!(h.on_packet(&packet(PacketType::ReadyForTransmission, "")), ClientStep::Done);
}

#[test]
fn client_fails_on_a_server_of_another_version() {
    let request = IntroductionResult::NewSession(String::new());
    let mut h = ClientHandshake::new(String::from("1.0"), request);
    h.start();
    assert_eq!(
        h.on_packet(&packet(PacketType::InitialGreet, "ALLVU-SERVER-2.0")),
        ClientStep::Failed(HandshakeError::VersionMismatch)
    );
    assert_eq!(h.state(), HandshakeState::Failed(HandshakeError::VersionMismatch));
    assert_eq!(
        h.on_packet(&packet(PacketType::InitialGreet, "ALLVU-SERVER-1.0")),
        ClientStep::Failed(HandshakeError::VersionMismatch)
    );
    assert_eq!(h.start(), ClientStep::Failed(HandshakeError::VersionMismatch));
}

#[test]
fn client_fails_on_a_peer_that_is_no_server() {
    let request = IntroductionResult::NewSession(String::new());
    let mut h = ClientHandshake::new(String::from("1.0"), request);
    h.start();
    assert_eq!(
        h.on_packet(&packet(PacketType::InitialGreet, "ALLVU-CLIENT-1.0")),
        ClientStep::Failed(HandshakeError::PeerIdentityMismatch)
    );
}

#[test]
fn client_takes_no_packet_out_of_place() {
    let fresh = || ClientHandshake::new(String::from("1.0"), IntroductionResult::NewSession(String::new()));
    let violation = ClientStep::Failed(HandshakeError::ProtocolViolation);

    let mut h = fresh();
    assert_eq!(h.on_packet(&packet(PacketType::InitialGreet, "ALLVU-SERVER-1.0")), violation);

    let mut h = fresh();
    h.start();
    assert_eq!(h.on_packet(&packet(PacketType::ReadyForTransmission, "ALLVU-SERVER-1.0")), violation);

    let mut h = fresh();
    h.start();
    h.on_packet(&packet(PacketType::InitialGreet, "ALLVU-SERVER-1.0"));
    assert_eq!(h.on_packet(&packet(PacketType::ReadyForTransmission, "")), violation);

    let mut h = fresh();
    h.start();
    h.on_packet(&packet(PacketType::InitialGreet, "ALLVU-SERVER-1.0"));
    let no_text = ConnectionPacket { packet_type: PacketType::NewSession, packet_data: vec![0xff] };
    assert_eq!(h.on_packet(&no_text), violation);

    let mut h = fresh();
    h.start();
    h.on_packet(&packet(PacketType::InitialGreet, "ALLVU-SERVER-1.0"));
    h.on_packet(&packet(PacketType::NewSession, "tok"));
    assert_eq!(h.on_packet(&packet(PacketType::MediaData, "early")), violation);
    assert_eq!(h.state(), HandshakeState::Failed(HandshakeError::ProtocolViolation));
}

#[test]
fn client_refuses_what_does_not_fit_a_packet() {
    let long = "v".repeat(MAX_PAYLOAD_LEN as usize);
    let mut h = ClientHandshake::new(long, IntroductionResult::NewSession(String::new()));
    assert_eq!(h.start(), ClientStep::Failed(HandshakeError::ProtocolViolation));

    let credential = "c".repeat(MAX_PAYLOAD_LEN as usize + 1);
    let mut h = ClientHandshake::new(String::from("1.0"), IntroductionResult::NewSession(credential));
    h.start();
    assert_eq!(
        h.on_packet(&packet(PacketType::InitialGreet, "ALLVU-SERVER-1.0")),
        ClientStep::Failed(HandshakeError::ProtocolViolation)
    );
}

#[test]
fn a_handshake_that_takes_too_long_fails() {
    let mut h = ClientHandshake::new(String::from("1.0"), IntroductionResult::NewSession(String::new()));
    assert_eq!(client_step(&mut h, &HandshakeEvent::Begin), ClientStep::Send(packet(PacketType::InitialGreet, "ALLVU-CLIENT-1.0")));
    assert_eq!(client_step(&mut h, &HandshakeEvent::Sent), ClientStep::Wait);
    assert_eq!(client_step(&mut h, &HandshakeEvent::TimedOut), ClientStep::Failed(HandshakeError::Timeout));
    assert_eq!(client_step(&mut h, &HandshakeEvent::Closed), ClientStep::Failed(HandshakeError::Timeout));
    assert_eq!(h.state(), HandshakeState::Failed(HandshakeError::Timeout));
}

#[test]
fn a_handshake_that_is_done_is_not_undone() {
    let mut h = ClientHandshake::new(String::from("1.0"), IntroductionResult::ExistingSession(String::from("t")));
    client_step(&mut h, &HandshakeEvent::Begin);
    client_step(&mut h, &HandshakeEvent::Received(packet(PacketType::InitialGreet, "ALLVU-SERVER-1.0")));
    assert_eq!(
        client_step(&mut h, &HandshakeEvent::Received(packet(PacketType::ReadyForTransmission, ""))),
        ClientStep::Done
    );
    assert_eq!(client_step(&mut h, &HandshakeEvent::Closed), ClientStep::Done);
    h.abort(HandshakeError::Timeout);
    assert_eq!(h.state(), HandshakeState::Ready);
}

#[test]
fn a_connection_that_ends_fails_the_handshake() {
    let mut h = ClientHandshake::new(String::from("1.0"), IntroductionResult::NewSession(String::new()));
    client_step(&mut h, &HandshakeEvent::Begin);
    assert_eq!(client_step(&mut h, &HandshakeEvent::Closed), ClientStep::Failed(HandshakeError::ConnectionClosed));
}

#[test]
fn read_request_tells_the_two_requests_apart() {
    assert_eq!(
        read_request(&packet(PacketType::NewSession, "secret")),
        Ok(IntroductionResult::NewSession(String::from("secret")))
    );
    assert_eq!(
        read_request(&packet(PacketType::ExistingSession, "tok")),
        Ok(IntroductionResult::ExistingSession(String::from("tok")))
    );
    assert_eq!(read_request(&packet(PacketType::MediaData, "tok")), Err(HandshakeError::ProtocolViolation));
    let no_text = ConnectionPacket { packet_type: PacketType::ExistingSession, packet_data: vec![0x80] };
    assert_eq!(read_request(&no_text), Err(HandshakeError::ProtocolViolation));
}

#[test]
fn request_packets_carry_the_text() {
    let new = IntroductionResult::NewSession(String::from("pw"));
    assert_eq!(new.to_packet(), Some(packet(PacketType::NewSession, "pw")));
    let join = IntroductionResult::ExistingSession(String::from("tok"));
    assert_eq!(join.to_packet(), Some(packet(PacketType::ExistingSession, "tok")));
    let long = IntroductionResult::ExistingSession("t".repeat(MAX_PAYLOAD_LEN as usize + 1));
    assert_eq!(long.to_packet(), None);
}

#[test]
fn server_makes_a_session_for_the_first_link() {
    let mut registry = SessionRegistry::new(Policy::standard());
    let mut h = ServerHandshake::new(String::from("1.0"), 7);
    assert_eq!(
        h.on_packet(&packet(PacketType::InitialGreet, "ALLVU-CLIENT-1.0"), &mut registry, String::from("unused")),
        ServerStep::Send(vec![packet(PacketType::InitialGreet, "ALLVU-SERVER-1.0")])
    );
    assert_eq!(h.state(), HandshakeState::VersionChecked);
    assert_eq!(registry.len(), 0);
    assert_eq!(
        h.on_packet(&packet(PacketType::NewSession, "no password yet :)"), &mut registry, String::from("TOKEN1")),
        ServerStep::Send(vec![
            packet(PacketType::NewSession, "TOKEN1"),
            packet(PacketType::ReadyForTransmission, "AllVu Ready"),
        ])
    );
    assert_eq!(h.state(), HandshakeState::SessionResolved);
    assert_eq!(h.token(), Some(String::from("TOKEN1")));
    assert!(h.made_session());
    assert_eq!(registry.len(), 1);
    {
        let session = registry.get("TOKEN1").unwrap();
        assert_eq!(session.id(), 1);
        assert_eq!(session.retreive_token(), "TOKEN1");
        assert_eq!(session.links(), vec![handshaking(7)]);
    }
    h.ready_sent(&mut registry);
    assert_eq!(h.state(), HandshakeState::Ready);
    assert_eq!(
        registry.get("TOKEN1").unwrap().links(),
        vec![Connection { id: 7, penalty: 0, failures: 0, state: LinkState::Ready }]
    );
}

#[test]
fn server_binds_a_second_link_to_the_session() {
    let mut registry = SessionRegistry::new(Policy::standard());
    assert_eq!(registry.create_with_token(String::from("TOKEN1"), 7), Ok(1));
    let mut h = ServerHandshake::new(String::from("1.0"), 8);
    h.on_packet(&packet(PacketType::InitialGreet, "ALLVU-CLIENT-1.0"), &mut registry, String::new());
    assert_eq!(
        h.on_packet(&packet(PacketType::ExistingSession, "TOKEN1"), &mut registry, String::from("unused")),
        ServerStep::Send(vec![packet(PacketType::ReadyForTransmission, "AllVu Ready")])
    );
    assert_eq!(h.token(), Some(String::from("TOKEN1")));
    assert!(!h.made_session());
    assert_eq!(registry.len(), 1);
    assert_eq!(registry.get("TOKEN1").unwrap().links(), vec![handshaking(7), handshaking(8)]);
    assert!(!registry.contains("unused"));
}

#[test]
fn server_refuses_a_token_that_is_not_registered() {
    let mut registry = SessionRegistry::new(Policy::standard());
    registry.create_with_token(String::from("TOKEN1"), 7).unwrap();
    let mut h = ServerHandshake::new(String::from("1.0"), 8);
    h.on_packet(&packet(PacketType::InitialGreet, "ALLVU-CLIENT-1.0"), &mut registry, String::new());
    assert_eq!(
        h.on_packet(&packet(PacketType::ExistingSession, "TOKEN2"), &mut registry, String::new()),
        ServerStep::Failed(HandshakeError::UnknownSession)
    );
    assert_eq!(h.state(), HandshakeState::Failed(HandshakeError::UnknownSession));
    assert_eq!(registry.len(), 1);
    assert_eq!(registry.get("TOKEN1").unwrap().link_count(), 1);
}

#[test]
fn server_fails_on_a_client_of_another_version() {
    let mut registry = SessionRegistry::new(Policy::standard());
    let mut h = ServerHandshake::new(String::from("2.0"), 1);
    assert_eq!(
        h.on_packet(&packet(PacketType::InitialGreet, "ALLVU-CLIENT-1.0"), &mut registry, String::new()),
        ServerStep::Failed(HandshakeError::VersionMismatch)
    );
    let mut h = ServerHandshake::new(String::from("2.0"), 1);
    assert_eq!(
        h.on_packet(&packet(PacketType::InitialGreet, "ALLVU-SERVER-2.0"), &mut registry, String::new()),
        ServerStep::Failed(HandshakeError::PeerIdentityMismatch)
    );
}

#[test]
fn server_takes_no_packet_out_of_place() {
    let mut registry = SessionRegistry::new(Policy::standard());
    let violation = ServerStep::Failed(HandshakeError::ProtocolViolation);

    let mut h = ServerHandshake::new(String::from("1.0"), 1);
    assert_eq!(h.on_packet(&packet(PacketType::NewSession, "pw"), &mut registry, String::from("T")), violation);

    let mut h = ServerHandshake::new(String::from("1.0"), 1);
    h.on_packet(&packet(PacketType::InitialGreet, "ALLVU-CLIENT-1.0"), &mut registry, String::new());
    assert_eq!(h.on_packet(&packet(PacketType::MediaData, "pw"), &mut registry, String::from("T")), violation);

    let mut h = ServerHandshake::new(String::from("1.0"), 1);
    h.on_packet(&packet(PacketType::InitialGreet, "ALLVU-CLIENT-1.0"), &mut registry, String::new());
    h.on_packet(&packet(PacketType::NewSession, "pw"), &mut registry, String::from("T"));
    assert_eq!(h.on_packet(&packet(PacketType::MediaData, "early"), &mut registry, String::new()), violation);
    assert_eq!(registry.len(), 1);
}

#[test]
fn server_cannot_make_a_session_under_a_token_in_use() {
    let mut registry = SessionRegistry::new(Policy::standard());
    registry.create_with_token(String::from("T"), 7).unwrap();
    let mut h = ServerHandshake::new(String::from("1.0"), 8);
    h.on_packet(&packet(PacketType::InitialGreet, "ALLVU-CLIENT-1.0"), &mut registry, String::new());
    assert_eq!(
        h.on_packet(&packet(PacketType::NewSession, "pw"), &mut registry, String::from("T")),
        ServerStep::Failed(HandshakeError::SessionUnavailable)
    );
    assert_eq!(registry.len(), 1);
}

#[test]
fn a_whole_handshake_between_client_and_server() {
    let mut registry = SessionRegistry::new(Policy::standard());
    let mut client = ClientHandshake::new(String::from("1.0"), IntroductionResult::NewSession(String::from("pw")));
    let mut server = ServerHandshake::new(String::from("1.0"), 1);
    let mut to_server = match client_step(&mut client, &HandshakeEvent::Begin) {
        ClientStep::Send(p) => vec![p],
        other => panic!("{:?}", other),
    };
    let mut rounds = 0;
    while client.state() != HandshakeState::Ready {
        rounds += 1;
        assert!(rounds < 10);
        let mut to_client = Vec::new();
        for p in to_server.drain(..) {
            match server_step(&mut server, &mut registry, &HandshakeEvent::Received(p)) {
                ServerStep::Send(replies) => to_client.extend(replies),
                other => panic!("{:?}", other),
            }
        }
        if server.state() == HandshakeState::SessionResolved {
            assert_eq!(server_step(&mut server, &mut registry, &HandshakeEvent::Sent), ServerStep::Done);
        }
        for p in to_client {
            match client_step(&mut client, &HandshakeEvent::Received(p)) {
                ClientStep::Send(p) => to_server.push(p),
                ClientStep::Wait | ClientStep::Done => {}
                other => panic!("{:?}", other),
            }
        }
    }
    assert_eq!(server.state(), HandshakeState::Ready);
    let token = client.token().unwrap();
    assert_eq!(token.len(), 24);
    assert!(token.chars().all(|c| c.is_ascii_alphanumeric()));
    assert_eq!(server.token(), Some(token.clone()));
    assert!(registry.is_live(&token));
    assert_eq!(registry.get(&token).unwrap().links()[0].state, LinkState::Ready);

    let mut second = ClientHandshake::new(String::from("1.0"), IntroductionResult::ExistingSession(token.clone()));
    let mut server2 = ServerHandshake::new(String::from("1.0"), 2);
    let greet = match second.start() {
        ClientStep::Send(p) => p,
        other => panic!("{:?}", other),
    };
    let reply = match server_step(&mut server2, &mut registry, &HandshakeEvent::Received(greet)) {
        ServerStep::Send(mut replies) => replies.remove(0),
        other => panic!("{:?}", other),
    };
    let request = match second.on_packet(&reply) {
        ClientStep::Send(p) => p,
        other => panic!("{:?}", other),
    };
    let ready = match server_step(&mut server2, &mut registry, &HandshakeEvent::Received(request)) {
        ServerStep::Send(mut replies) => {
            assert_eq!(replies.len(), 1);
            replies.remove(0)
        }
        other => panic!("{:?}", other),
    };
    assert_eq!(second.on_packet(&ready), ClientStep::Done);
    assert_eq!(registry.len(), 1);
    assert_eq!(registry.get(&token).unwrap().link_count(), 2);
}

#[test]
fn an_aborted_handshake_takes_its_link_out_of_the_session() {
    let mut registry = SessionRegistry::new(Policy::standard());
    registry.create_with_token(String::from("T"), 7).unwrap();
    let mut h = ServerHandshake::new(String::from("1.0"), 8);
    h.on_packet(&packet(PacketType::InitialGreet, "ALLVU-CLIENT-1.0"), &mut registry, String::new());
    h.on_packet(&packet(PacketType::ExistingSession, "T"), &mut registry, String::new());
    assert_eq!(registry.get("T").unwrap().link_count(), 2);
    assert_eq!(
        server_step(&mut h, &mut registry, &HandshakeEvent::TimedOut),
        ServerStep::Failed(HandshakeError::Timeout)
    );
    assert_eq!(registry.get("T").unwrap().links(), vec![handshaking(7)]);
    assert_eq!(server_step(&mut h, &mut registry, &HandshakeEvent::Sent), ServerStep::Failed(HandshakeError::Timeout));
}

#[test]
fn ready_sent_fails_where_the_session_has_lost_the_link() {
    let mut registry = SessionRegistry::new(Policy::standard());
    let mut h = ServerHandshake::new(String::from("1.0"), 7);
    h.on_packet(&packet(PacketType::InitialGreet, "ALLVU-CLIENT-1.0"), &mut registry, String::new());
    h.on_packet(&packet(PacketType::NewSession, ""), &mut registry, String::from("T"));
    assert_eq!(registry.get_mut("T").unwrap().record_failure(7, true), Ok(true));
    h.ready_sent(&mut registry);
    assert_eq!(h.state(), HandshakeState::Failed(HandshakeError::ConnectionClosed));
}

#[test]
fn joining_with_an_unregistered_token_is_refused() {
    let mut registry = SessionRegistry::new(Policy::standard());
    assert_eq!(registry.join("nothing", 1), Err(HandshakeError::UnknownSession));
    registry.create_with_token(String::from("T"), 1).unwrap();
    assert_eq!(registry.join("t", 2), Err(HandshakeError::UnknownSession));
    assert_eq!(registry.join("", 2), Err(HandshakeError::UnknownSession));
    assert_eq!(registry.join("TT", 2), Err(HandshakeError::UnknownSession));
    assert_eq!(registry.get("T").unwrap().link_count(), 1);
}

#[test]
fn joining_with_the_token_of_a_new_session_adds_a_link() {
    let mut registry = SessionRegistry::new(Policy::standard());
    let token = registry.create_session(1).unwrap();
    assert_eq!(token.len(), 24);
    assert!(token.chars().all(|c| c.is_ascii_alphanumeric()));
    assert_eq!(registry.get(&token).unwrap().link_count(), 1);
    assert_eq!(registry.join(&token, 2), Ok(1));
    assert_eq!(registry.get(&token).unwrap().link_count(), 2);
    assert_eq!(registry.join(&token, 3), Ok(1));
    assert_eq!(registry.get(&token).unwrap().links(), vec![handshaking(1), handshaking(2), handshaking(3)]);
    assert_eq!(registry.join(&token, 2), Err(HandshakeError::DuplicateLink));
    assert_eq!(registry.get(&token).unwrap().link_count(), 3);
}

#[test]
fn sessions_are_numbered_in_the_order_of_their_making() {
    let mut registry = SessionRegistry::new(Policy::standard());
    assert_eq!(registry.create_with_token(String::from("a"), 1), Ok(1));
    assert_eq!(registry.create_with_token(String::from("b"), 1), Ok(2));
    assert_eq!(registry.create_with_token(String::from("a"), 5), Err(RegistryError::TokenInUse));
    assert_eq!(registry.create_with_token(String::from("c"), 1), Ok(3));
    assert_eq!(registry.len(), 3);
    assert_eq!(registry.get("b").unwrap().id(), 2);
    assert_eq!(registry.join("c", 2), Ok(3));
}

#[test]
fn a_registry_that_has_run_out_of_numbers_makes_no_session() {
    let mut registry = SessionRegistry::numbered_from(u32::MAX - 1, Policy::standard());
    assert_eq!(registry.create_with_token(String::from("a"), 1), Ok(u32::MAX - 1));
    assert_eq!(registry.create_with_token(String::from("b"), 1), Err(RegistryError::OutOfIds));
    assert_eq!(registry.create_with_token(String::from("a"), 1), Err(RegistryError::TokenInUse));
    assert_eq!(registry.create_session(2), Err(RegistryError::OutOfIds));
    assert_eq!(registry.len(), 1);
    let mut h = ServerHandshake::new(String::from("1.0"), 8);
    h.on_packet(&packet(PacketType::InitialGreet, "ALLVU-CLIENT-1.0"), &mut registry, String::new());
    assert_eq!(
        h.on_packet(&packet(PacketType::NewSession, "pw"), &mut registry, String::from("c")),
        ServerStep::Failed(HandshakeError::SessionUnavailable)
    );
}

#[test]
fn closing_a_session_takes_it_out_of_the_registry() {
    let mut registry = SessionRegistry::new(Policy::standard());
    registry.create_with_token(String::from("a"), 4).unwrap();
    registry.join("a", 9).unwrap();
    registry.create_with_token(String::from("b"), 5).unwrap();
    let (session, links) = registry.close_session("a").unwrap();
    assert_eq!(links, vec![4, 9]);
    assert!(session.is_closed());
    assert_eq!(session.link_count(), 0);
    assert_eq!(registry.len(), 1);
    assert!(registry.close_session("a").is_none());
    assert_eq!(registry.join("a", 10), Err(HandshakeError::UnknownSession));
    assert_eq!(registry.join("b", 10), Ok(2));
}

#[test]
fn the_token_of_a_dead_session_opens_nothing() {
    let mut registry = SessionRegistry::new(Policy::standard());
    registry.create_with_token(String::from("T"), 1).unwrap();
    assert!(registry.is_live("T"));
    assert_eq!(registry.get_mut("T").unwrap().record_failure(1, true), Ok(true));
    assert!(registry.contains("T"));
    assert!(!registry.is_live("T"));
    assert_eq!(registry.join("T", 2), Err(HandshakeError::UnknownSession));
    let dead = registry.remove("T").unwrap();
    assert!(dead.is_closed());
    assert_eq!(dead.retreive_token(), "T");
    assert_eq!(registry.len(), 0);
    assert!(registry.remove("T").is_none());
    assert!(!registry.contains("T"));
}

#[test]
fn remove_keeps_the_other_sessions() {
    let mut registry = SessionRegistry::new(Policy::standard());
    for (i, t) in ["a", "b", "c"].iter().enumerate() {
        registry.create_with_token(String::from(*t), i as u32).unwrap();
    }
    assert_eq!(registry.remove("b").unwrap().id(), 2);
    assert_eq!(registry.len(), 2);
    assert_eq!(registry.get("a").unwrap().id(), 1);
    assert_eq!(registry.get("c").unwrap().id(), 3);
    assert!(registry.get("b").is_none());
    assert!(registry.get_mut("b").is_none());
}

#[test]
fn a_client_session_asks_for_a_fresh_session_first_and_joins_it_afterwards() {
    let session = Session::with_token(1, String::from("local"), Policy::standard());
    let mut client = ClientSession::new(session, String::from("pw"));
    assert_eq!(client.next_request(), IntroductionResult::NewSession(String::from("pw")));
    assert!(client.remember_token(String::from("T1")));
    assert_eq!(client.next_request(), IntroductionResult::ExistingSession(String::from("T1")));
    assert!(!client.remember_token(String::from("T2")));
    assert_eq!(client.next_request(), IntroductionResult::ExistingSession(String::from("T1")));
}

#[test]
fn a_client_session_sends_on_its_links() {
    let session = Session::with_token(1, String::from("local"), Policy::standard());
    let mut client = ClientSession::new(session, String::from("pw"));
    let p = packet(PacketType::MediaData, "x");
    assert_eq!(client.send(&p), Err(SessionError::NoAvailableLink));
    let ready = Connection { id: 3, penalty: 0, failures: 0, state: LinkState::Ready };
    assert_eq!(client.add_connection(ready), Ok(()));
    assert_eq!(client.add_connection(ready), Err(SessionError::DuplicateLink));
    let out = client.send(&p).unwrap();
    assert_eq!(out.link_id, 3);
    assert_eq!(out.frame, vec![20, 0, 0, 0, 1, b'x']);
    assert_eq!(client.session_mut().record_failure(3, true), Ok(true));
    assert_eq!(client.send(&p), Err(SessionError::NoAvailableLink));
}

#[test]
fn a_tick_of_the_registry_passes_over_every_session() {
    let policy = Policy { exclusion_threshold: 2, max_consecutive_failures: 10, success_credit: 1, idle_decay: 1 };
    let mut registry = SessionRegistry::new(policy);
    registry.create_with_token(String::from("a"), 1).unwrap();
    registry.create_with_token(String::from("b"), 2).unwrap();
    for token in ["a", "b"] {
        let session = registry.get_mut(token).unwrap();
        let id = session.links()[0].id;
        session.mark_ready(id).unwrap();
        session.record_failure(id, false).unwrap();
        assert_eq!(session.links()[0].state, LinkState::Degraded);
    }
    registry.tick();
    assert_eq!(
        registry.get("a").unwrap().links(),
        vec![Connection { id: 1, penalty: 0, failures: 1, state: LinkState::Ready }]
    );
    assert_eq!(
        registry.get("b").unwrap().links(),
        vec![Connection { id: 2, penalty: 0, failures: 1, state: LinkState::Ready }]
    );
    assert_eq!(registry.len(), 2);
}

#[test]
fn a_client_session_adopts_the_link_of_a_handshake_that_is_done() {
    let session = Session::with_token(1, String::from("local"), Policy::standard());
    let mut client = ClientSession::new(session, String::from("pw"));
    let mut h = ClientHandshake::new(String::from("1.0"), client.next_request());
    assert_eq!(client.adopt(&h, handshaking(1)), Err(SessionError::HandshakeIncomplete));
    h.start();
    h.on_packet(&packet(PacketType::InitialGreet, "ALLVU-SERVER-1.0"));
    h.on_packet(&packet(PacketType::NewSession, "T1"));
    assert_eq!(client.adopt(&h, handshaking(1)), Err(SessionError::HandshakeIncomplete));
    h.on_packet(&packet(PacketType::ReadyForTransmission, ""));
    assert_eq!(client.adopt(&h, handshaking(1)), Ok(()));
    assert_eq!(client.next_request(), IntroductionResult::ExistingSession(String::from("T1")));
    assert_eq!(
        client.session_mut().links(),
        vec![Connection { id: 1, penalty: 0, failures: 0, state: LinkState::Ready }]
    );
    assert_eq!(client.adopt(&h, handshaking(1)), Err(SessionError::DuplicateLink));

    let mut second = ClientHandshake::new(String::from("1.0"), client.next_request());
    second.start();
    second.on_packet(&packet(PacketType::InitialGreet, "ALLVU-SERVER-1.0"));
    second.on_packet(&packet(PacketType::ReadyForTransmission, ""));
    assert_eq!(client.adopt(&second, handshaking(2)), Ok(()));
    assert_eq!(client.session_mut().link_count(), 2);
    assert_eq!(client.next_request(), IntroductionResult::ExistingSession(String::from("T1")));
    assert_eq!(client.send(&packet(PacketType::MediaData, "x")).unwrap().link_id, 1);
}

#[test]
fn the_versions_decide_between_peers_of_the_right_roles() {
    let versions = ["1.0", "2.0", "1.0.1", "", "1.0-rc1", "0.1.0"];
    for theirs in versions {
        for ours in versions {
            let verdict = check_greeting(&greeting_payload(Role::Server, theirs), Role::Server, ours);
            if theirs == ours {
                assert_eq!(verdict, Ok(()));
            } else {
                assert_eq!(verdict, Err(HandshakeError::VersionMismatch));
            }
            let wrong_role = check_greeting(&greeting_payload(Role::Client, theirs), Role::Server, ours);
            assert_eq!(wrong_role, Err(HandshakeError::PeerIdentityMismatch));
        }
    }
}
