use room_relay::fanout::{
    broadcast, should_deliver, BroadcastHub, DeliverAction, DeliverLoop, Delivery,
};
use room_relay::connection::{
    client_count, insert_client, remove_client, Action, ConnState, Connection, ConnectionRegistry,
    DropReason, Handshake, Inbound,
};
use room_relay::consts::{BROADCAST_CAPACITY, MAX_CLIENTS, MAX_RELAYS, MAX_ROOMS};
use room_relay::payload::{sys_user, ChatMessage, Hello, TextPayload};
use room_relay::registry::CapacityExceeded;
use room_relay::relay_registry::{RelayRegistry, RelayReply, ScanVerdict};
use room_relay::room_registry::{
    CreateRoomResponse, JoinError, RoomError, RoomPrivacy, RoomRegistry,
};
use room_relay::shutdown::{bind_address, AcceptAction, AcceptEvent, AcceptLoop, ShutdownCoordinator};
use room_relay::wire::{
    decode_binary, encode_hello, BinaryMessage, Opcode, ProtocolViolation, TextOpcode,
};

fn s(text: &str) -> String {
    text.to_string()
}

fn hello_from(name: &str) -> Inbound {
    let mut bytes = vec![0u8];
    bytes.extend_from_slice(name.as_bytes());
    Inbound::Binary(bytes)
}

fn active(clients: &mut ConnectionRegistry<u32>, id: &str, handle: u32) -> Connection {
    let mut c = Connection::new();
    assert!(c.upgraded());
    match c.handshake_with_id(clients, &hello_from("someone"), handle, s(id)) {
        Handshake::Admitted(_, _) => {}
        Handshake::Dropped(_, _) => panic!("a well-formed hello is admitted"),
    }
    c
}

#[test]
fn limits() {
    assert_eq!(MAX_RELAYS, 100);
    assert_eq!(MAX_ROOMS, 10_000);
    assert_eq!(MAX_CLIENTS, 100);
    assert_eq!(BROADCAST_CAPACITY, 100);
}

#[test]
fn room_ids_are_hyphenated_uuids() {
    let mut rooms = RoomRegistry::new();
    let room = rooms.create().unwrap();
    assert_eq!(room.privacy, RoomPrivacy::Public);
    assert_eq!(room.id.len(), 36);
    for (i, c) in room.id.chars().enumerate() {
        if i == 8 || i == 13 || i == 18 || i == 23 {
            assert_eq!(c, '-');
        } else {
            assert!(c.is_ascii_digit() || ('a'..='f').contains(&c));
        }
    }
    let other = rooms.create().unwrap();
    assert_ne!(room.id, other.id);
    assert_eq!(rooms.len(), 2);
    assert_eq!(rooms.room_ids(), vec![room.id.clone(), other.id.clone()]);
    assert_eq!(rooms.get(&room.id).map(|r| r.privacy), Some(RoomPrivacy::Public));
}

#[test]
fn a_relay_hosts_as_many_rooms_as_its_ceiling() {
    let mut rooms = RoomRegistry::with_capacity(3);
    let mut ok = 0;
    let mut refused = 0;
    for i in 0..5 {
        match rooms.create_with_id(format!("room-{}", i), RoomPrivacy::Public) {
            Ok(room) => {
                assert_eq!(room.id, format!("room-{}", i));
                assert!(i < 3);
                ok += 1;
            }
            Err(e) => {
                assert_eq!(e, RoomError::CapacityExceeded);
                refused += 1;
            }
        }
    }
    assert_eq!((ok, refused), (3, 2));
    assert_eq!(rooms.len(), 3);
}

#[test]
fn the_default_relay_hosts_ten_thousand_rooms() {
    let mut rooms = RoomRegistry::new();
    let mut ok = 0;
    for i in 0..(MAX_ROOMS + 7) {
        if rooms.create_with_id(format!("r{}", i), RoomPrivacy::Private).is_ok() {
            ok += 1;
        }
    }
    assert_eq!(ok, MAX_ROOMS);
    assert_eq!(rooms.len(), MAX_ROOMS);
    assert!(matches!(rooms.create(), Err(RoomError::CapacityExceeded)));
}

#[test]
fn a_room_id_in_use_is_refused() {
    let mut rooms = RoomRegistry::with_capacity(4);
    assert!(rooms.create_with_id(s("r"), RoomPrivacy::Public).is_ok());
    assert!(matches!(rooms.create_with_id(s("r"), RoomPrivacy::Private), Err(RoomError::IdTaken(_))));
    assert_eq!(rooms.get(&s("r")).map(|r| r.privacy), Some(RoomPrivacy::Public));
    assert_eq!(rooms.len(), 1);
}

#[test]
fn a_full_relay_with_zero_rooms_refuses() {
    let mut rooms = RoomRegistry::with_capacity(0);
    assert!(matches!(rooms.create(), Err(RoomError::CapacityExceeded)));
    assert!(matches!(
        rooms.create_with_id(s("r"), RoomPrivacy::Public),
        Err(RoomError::CapacityExceeded)
    ));
}

#[test]
fn destroy_makes_room() {
    let mut rooms = RoomRegistry::with_capacity(1);
    rooms.create_with_id(s("a"), RoomPrivacy::Private).unwrap();
    assert_eq!(rooms.destroy(&s("zzz")), None);
    assert_eq!(rooms.destroy(&s("a")), Some(RoomPrivacy::Private));
    assert!(rooms.get(&s("a")).is_none());
    assert!(rooms.create_with_id(s("b"), RoomPrivacy::Public).is_ok());
}

#[test]
fn privacy_wire_names() {
    assert_eq!(RoomPrivacy::Public.as_str(), "public");
    assert_eq!(RoomPrivacy::Private.as_str(), "private");
    assert_eq!(RoomPrivacy::parse(&s("public")), Some(RoomPrivacy::Public));
    assert_eq!(RoomPrivacy::parse(&s("private")), Some(RoomPrivacy::Private));
    assert_eq!(RoomPrivacy::parse(&s("Public")), None);
    assert_eq!(RoomPrivacy::parse(&s("")), None);
}

#[test]
fn the_hub_answers_with_the_relay_address() {
    let mut rooms = RoomRegistry::new();
    let room = rooms.create_with_id(s("room-1"), RoomPrivacy::Public).unwrap();
    let response = CreateRoomResponse::new(room, s("127.0.0.1:9000"));
    assert_eq!(response.id, "room-1");
    assert_eq!(response.privacy, RoomPrivacy::Public);
    assert_eq!(response.relay_addr, "127.0.0.1:9000");
}

#[test]
fn opcodes() {
    assert_eq!(Opcode::Hello.as_byte(), 0);
    assert_eq!(Opcode::try_from(0), Ok(Opcode::Hello));
    assert_eq!(Opcode::try_from(1), Err(()));
    assert_eq!(Opcode::try_from(255), Err(()));
    assert_eq!(TextOpcode::AssignID.as_number(), 0);
    assert_eq!(TextOpcode::ChatMessage.as_number(), 1);
    assert_eq!(TextOpcode::from_number(0), Some(TextOpcode::AssignID));
    assert_eq!(TextOpcode::from_number(1), Some(TextOpcode::ChatMessage));
    assert_eq!(TextOpcode::from_number(2), None);
}

#[test]
fn hello_frames_are_the_opcode_and_the_text() {
    assert_eq!(encode_hello(&s("abc123")), vec![0, b'a', b'b', b'c', b'1', b'2', b'3']);
    assert_eq!(encode_hello(&s("")), vec![0]);
    assert_eq!(encode_hello(&s("é")), vec![0, 0xc3, 0xa9]);
}

#[test]
fn binary_frames_decode() {
    match decode_binary(&vec![0, b'b', b'o', b'b']) {
        Ok(BinaryMessage::Hello(name)) => assert_eq!(name, "bob"),
        Err(_) => panic!("a hello with a name is well formed"),
    }
    match decode_binary(&encode_hello(&s("grüße"))) {
        Ok(BinaryMessage::Hello(name)) => assert_eq!(name, "grüße"),
        Err(_) => panic!("what was encoded decodes"),
    }
    assert!(matches!(decode_binary(&vec![]), Err(ProtocolViolation::MissingOpcode)));
    assert!(matches!(decode_binary(&vec![7, 1, 2]), Err(ProtocolViolation::UnknownOpcode(7))));
    assert!(matches!(decode_binary(&vec![0]), Err(ProtocolViolation::MissingPayload)));
    assert!(matches!(decode_binary(&vec![0, 0xff, 0xfe]), Err(ProtocolViolation::InvalidText)));
}

#[test]
fn payloads() {
    let hello = TextPayload::hello(s("abc"));
    assert_eq!(hello, TextPayload::Hello(Hello { id: s("abc") }));
    assert_eq!(hello.opcode(), TextOpcode::AssignID);
    assert_eq!(hello.author_id(), None);
    let chat = TextPayload::chat(s("a"), s("hi"));
    assert_eq!(chat, TextPayload::ChatMessage(ChatMessage { author_id: s("a"), content: s("hi") }));
    assert_eq!(chat.opcode(), TextOpcode::ChatMessage);
    assert_eq!(chat.author_id(), Some(&s("a")));
    assert_eq!(chat.duplicate(), chat);
    let system = sys_user();
    assert_eq!(system.id, "system");
    assert_eq!(system.name, "System");
    assert!(system.is_system);
}

#[test]
fn connection_registry_last_writer_wins() {
    let mut clients: ConnectionRegistry<u32> = ConnectionRegistry::new();
    assert_eq!(clients.insert(s("a"), 1), Ok(None));
    assert_eq!(clients.insert(s("b"), 2), Ok(None));
    assert_eq!(clients.insert(s("a"), 3), Ok(Some(1)));
    assert_eq!(clients.len(), 2);
    assert_eq!(clients.get(&s("a")), Some(&3));
    assert_eq!(clients.ids(), vec![s("a"), s("b")]);
    let seen: Vec<(String, u32)> = clients.iter().into_iter().map(|(k, v)| (k.clone(), *v)).collect();
    assert_eq!(seen, vec![(s("a"), 3), (s("b"), 2)]);
    assert_eq!(clients.remove(&s("a")), Some(3));
    assert_eq!(clients.get(&s("a")), None);
}

#[test]
fn connection_registry_is_bounded() {
    let mut clients: ConnectionRegistry<u32> = ConnectionRegistry::with_capacity(1);
    assert_eq!(clients.insert(s("a"), 1), Ok(None));
    assert!(clients.would_refuse(&s("b")));
    assert!(!clients.would_refuse(&s("a")));
    assert_eq!(clients.insert(s("b"), 2), Err(CapacityExceeded));
    assert_eq!(clients.len(), 1);
    let mut default: ConnectionRegistry<u32> = ConnectionRegistry::new();
    for i in 0..MAX_CLIENTS {
        assert!(default.insert(format!("c{}", i), 0).is_ok());
    }
    assert_eq!(default.insert(s("one-more"), 0), Err(CapacityExceeded));
}

#[test]
fn client_helpers() {
    let mut clients: ConnectionRegistry<u32> = ConnectionRegistry::new();
    assert_eq!(client_count(&clients), 0);
    assert_eq!(insert_client(&mut clients, s("a"), 1), Ok(None));
    assert_eq!(insert_client(&mut clients, s("b"), 2), Ok(None));
    assert_eq!(insert_client(&mut clients, s("a"), 3), Ok(Some(1)));
    assert_eq!(client_count(&clients), 2);
    remove_client(&mut clients, &s("a"));
    remove_client(&mut clients, &s("nobody"));
    assert_eq!(client_count(&clients), 1);
    assert_eq!(clients.get(&s("b")), Some(&2));
}

#[test]
fn handshake_assigns_the_id_and_close_removes_it() {
    let mut clients: ConnectionRegistry<u32> = ConnectionRegistry::new();
    let mut c = Connection::new();
    assert_eq!(c.current(), ConnState::Connecting);
    assert!(c.upgraded());
    assert!(!c.upgraded());
    assert_eq!(c.current(), ConnState::Handshaking);
    match c.handshake_with_id(&mut clients, &hello_from("bob"), 11, s("abc123")) {
        Handshake::Admitted(hello, replaced) => {
            assert_eq!(hello, encode_hello(&s("abc123")));
            assert_eq!(hello, b"\0abc123".to_vec());
            assert_eq!(replaced, None);
        }
        Handshake::Dropped(_, _) => panic!("a well-formed hello is admitted"),
    }
    assert_eq!(c.current(), ConnState::Active);
    assert_eq!(c.assigned_id(), Some(s("abc123")));
    assert_eq!(clients.get(&s("abc123")), Some(&11));
    assert!(matches!(c.on_frame(&Inbound::Close), Action::Close));
    assert_eq!(c.current(), ConnState::Closing);
    assert_eq!(c.finish(&mut clients), Some(11));
    assert_eq!(c.current(), ConnState::Closed);
    assert_eq!(clients.get(&s("abc123")), None);
    assert_eq!(clients.len(), 0);
}

#[test]
fn handshake_with_a_fresh_id() {
    let mut clients: ConnectionRegistry<u32> = ConnectionRegistry::new();
    let mut c = Connection::new();
    c.upgraded();
    let hello = match c.handshake(&mut clients, &Inbound::Text(Some(TextPayload::hello(s("x")))), 5) {
        Handshake::Admitted(hello, _) => hello,
        Handshake::Dropped(_, _) => panic!("a hello in JSON is a hello"),
    };
    let id = c.assigned_id().unwrap();
    assert_eq!(id.chars().count(), 21);
    assert!(id.chars().all(|ch| ch.is_ascii_alphanumeric() || ch == '_' || ch == '-'));
    assert_eq!(hello, encode_hello(&id));
    assert_eq!(clients.get(&id), Some(&5));
    let mut d = Connection::new();
    d.upgraded();
    assert!(matches!(d.handshake(&mut clients, &hello_from("y"), 6), Handshake::Admitted(_, _)));
    assert_ne!(d.assigned_id().unwrap(), id);
}

#[test]
fn a_malformed_first_frame_drops_the_connection() {
    let mut clients: ConnectionRegistry<u32> = ConnectionRegistry::new();
    let cases: Vec<(Inbound, ProtocolViolation)> = vec![
        (Inbound::Binary(vec![0]), ProtocolViolation::MissingPayload),
        (Inbound::Binary(vec![]), ProtocolViolation::MissingOpcode),
        (Inbound::Binary(vec![9, b'x']), ProtocolViolation::UnknownOpcode(9)),
        (Inbound::Binary(vec![0, 0xc3]), ProtocolViolation::InvalidText),
        (Inbound::Text(None), ProtocolViolation::InvalidText),
        (
            Inbound::Text(Some(TextPayload::chat(s("a"), s("hi")))),
            ProtocolViolation::UnknownOpcode(1),
        ),
        (Inbound::Other, ProtocolViolation::MissingOpcode),
    ];
    for (frame, violation) in cases {
        let mut c = Connection::new();
        c.upgraded();
        match c.handshake_with_id(&mut clients, &frame, 1, s("id")) {
            Handshake::Dropped(reason, handle) => {
                assert_eq!(reason, DropReason::Violation(violation));
                assert_eq!(handle, 1);
            }
            Handshake::Admitted(_, _) => panic!("a malformed first frame is not admitted"),
        }
        assert_eq!(c.current(), ConnState::Closed);
        assert_eq!(c.assigned_id(), None);
        assert_eq!(clients.len(), 0);
    }
}

#[test]
fn handshake_out_of_turn_changes_nothing() {
    let mut clients: ConnectionRegistry<u32> = ConnectionRegistry::new();
    let mut c = Connection::new();
    assert!(matches!(
        c.handshake_with_id(&mut clients, &hello_from("bob"), 1, s("id")),
        Handshake::Dropped(DropReason::NotHandshaking, 1)
    ));
    assert_eq!(c.current(), ConnState::Connecting);
    let mut a = active(&mut clients, "a", 1);
    assert!(matches!(
        a.handshake_with_id(&mut clients, &hello_from("bob"), 2, s("b")),
        Handshake::Dropped(DropReason::NotHandshaking, 2)
    ));
    assert_eq!(a.current(), ConnState::Active);
    assert_eq!(clients.ids(), vec![s("a")]);
}

#[test]
fn a_full_registry_drops_the_connection() {
    let mut clients: ConnectionRegistry<u32> = ConnectionRegistry::with_capacity(1);
    let _a = active(&mut clients, "a", 1);
    let mut b = Connection::new();
    b.upgraded();
    assert!(matches!(
        b.handshake_with_id(&mut clients, &hello_from("bob"), 2, s("b")),
        Handshake::Dropped(DropReason::Full, 2)
    ));
    assert_eq!(b.current(), ConnState::Closed);
    assert!(matches!(b.handshake(&mut clients, &hello_from("bob"), 2), Handshake::Dropped(_, 2)));
    assert_eq!(clients.ids(), vec![s("a")]);
}

#[test]
fn an_id_that_is_taken_is_replaced() {
    let mut clients: ConnectionRegistry<u32> = ConnectionRegistry::new();
    let _a = active(&mut clients, "same", 1);
    let mut b = Connection::new();
    b.upgraded();
    match b.handshake_with_id(&mut clients, &hello_from("bob"), 2, s("same")) {
        Handshake::Admitted(_, replaced) => assert_eq!(replaced, Some(1)),
        Handshake::Dropped(_, _) => panic!("the last writer wins"),
    }
    assert_eq!(clients.len(), 1);
    assert_eq!(clients.get(&s("same")), Some(&2));
}

#[test]
fn frames_on_an_active_connection() {
    let mut clients: ConnectionRegistry<u32> = ConnectionRegistry::new();
    let mut a = active(&mut clients, "A", 1);
    match a.on_frame(&hello_from("again")) {
        Action::SendHello(frame) => assert_eq!(frame, vec![0, b'A']),
        _ => panic!("a hello is answered with the id"),
    }
    assert!(matches!(a.on_frame(&Inbound::Binary(vec![42, 1, 2])), Action::Ignore));
    assert!(matches!(a.on_frame(&Inbound::Binary(vec![1])), Action::Ignore));
    assert!(matches!(a.on_frame(&Inbound::Text(None)), Action::Ignore));
    assert!(matches!(a.on_frame(&Inbound::Other), Action::Ignore));
    assert!(matches!(a.on_frame(&Inbound::Text(Some(TextPayload::hello(s("x"))))), Action::Ignore));
    assert_eq!(a.current(), ConnState::Active);
    match a.on_frame(&Inbound::Text(Some(TextPayload::chat(s("someone-else"), s("hi"))))) {
        Action::Publish(message) => assert_eq!(message, TextPayload::chat(s("A"), s("hi"))),
        _ => panic!("a chat message is published"),
    }
    assert!(matches!(a.on_frame(&Inbound::ReadError), Action::Close));
    assert_eq!(a.current(), ConnState::Closing);
    assert!(matches!(a.on_frame(&Inbound::Close), Action::Ignore));
    assert!(matches!(a.on_frame(&Inbound::Shutdown), Action::Ignore));
    assert_eq!(a.current(), ConnState::Closing);
}

#[test]
fn ending_before_the_handshake_closes_at_once() {
    let mut clients: ConnectionRegistry<u32> = ConnectionRegistry::new();
    let mut c = Connection::new();
    assert!(matches!(c.on_frame(&Inbound::Other), Action::Ignore));
    assert_eq!(c.current(), ConnState::Connecting);
    assert!(matches!(c.on_frame(&Inbound::Shutdown), Action::Close));
    assert_eq!(c.current(), ConnState::Closed);
    assert_eq!(c.finish(&mut clients), None);
    let mut d = Connection::new();
    d.upgraded();
    assert!(matches!(d.on_frame(&Inbound::Close), Action::Close));
    assert_eq!(d.current(), ConnState::Closed);
}

#[test]
fn finish_happens_once() {
    let mut clients: ConnectionRegistry<u32> = ConnectionRegistry::new();
    let mut a = active(&mut clients, "a", 1);
    let _b = active(&mut clients, "b", 2);
    a.on_frame(&Inbound::Close);
    assert_eq!(a.finish(&mut clients), Some(1));
    assert_eq!(a.finish(&mut clients), None);
    assert_eq!(a.current(), ConnState::Closed);
    assert_eq!(clients.ids(), vec![s("b")]);
    let mut again = active(&mut clients, "a", 9);
    assert_eq!(a.finish(&mut clients), None);
    assert_eq!(clients.get(&s("a")), Some(&9));
    assert_eq!(again.finish(&mut clients), Some(9));
}

#[test]
fn a_message_goes_to_everyone_but_its_author() {
    let mut clients: ConnectionRegistry<u32> = ConnectionRegistry::new();
    let mut a = active(&mut clients, "A", 1);
    let _b = active(&mut clients, "B", 2);
    let _c = active(&mut clients, "C", 3);
    let message = match a.on_frame(&Inbound::Text(Some(TextPayload::chat(s("A"), s("hi"))))) {
        Action::Publish(m) => m,
        _ => panic!("a chat message is published"),
    };
    let hub = broadcast();
    assert_eq!(hub.recipients(&clients, &message), vec![s("B"), s("C")]);
    let mut received = vec![0, 0, 0];
    for (i, id) in ["A", "B", "C"].iter().enumerate() {
        let mut deliver = DeliverLoop::new(s(id));
        match deliver.on_event(Delivery::Message(message.duplicate())) {
            DeliverAction::Send(m) => {
                assert_eq!(m, TextPayload::chat(s("A"), s("hi")));
                received[i] += 1;
            }
            DeliverAction::Skip => {}
            DeliverAction::Stop => panic!("a message does not end a deliver loop"),
        }
    }
    assert_eq!(received, vec![0, 1, 1]);
}

#[test]
fn should_deliver_skips_the_author_only() {
    let chat = TextPayload::chat(s("a"), s("x"));
    assert!(!should_deliver(&chat, &s("a")));
    assert!(should_deliver(&chat, &s("b")));
    assert!(should_deliver(&chat, &s("")));
    assert!(should_deliver(&TextPayload::hello(s("a")), &s("a")));
}

#[test]
fn recipients_of_a_hello_are_all_connections() {
    let mut clients: ConnectionRegistry<u32> = ConnectionRegistry::new();
    let _a = active(&mut clients, "A", 1);
    let _b = active(&mut clients, "B", 2);
    let hub = broadcast();
    assert_eq!(hub.recipients(&clients, &TextPayload::hello(s("A"))), vec![s("A"), s("B")]);
    assert_eq!(hub.recipients(&clients, &TextPayload::chat(s("Z"), s("x"))), vec![s("A"), s("B")]);
    let empty: ConnectionRegistry<u32> = ConnectionRegistry::new();
    assert!(hub.recipients(&empty, &TextPayload::chat(s("A"), s("x"))).is_empty());
}

#[test]
fn broadcast_hub_settings() {
    assert_eq!(broadcast().capacity(), 100);
    assert_eq!(BroadcastHub::with_capacity(0), None);
    assert_eq!(BroadcastHub::with_capacity(7).map(|h| h.capacity()), Some(7));
}

#[test]
fn deliver_loop_counts_missed_messages_and_stops_for_good() {
    let mut deliver = DeliverLoop::new(s("a"));
    assert!(deliver.is_running());
    assert!(matches!(deliver.on_event(Delivery::Lagged(3)), DeliverAction::Skip));
    assert!(matches!(deliver.on_event(Delivery::Lagged(4)), DeliverAction::Skip));
    assert_eq!(deliver.missed_count(), 7);
    assert!(matches!(deliver.on_event(Delivery::Lagged(u64::MAX)), DeliverAction::Skip));
    assert_eq!(deliver.missed_count(), u64::MAX);
    assert!(matches!(deliver.on_event(Delivery::SendFailed), DeliverAction::Stop));
    assert!(!deliver.is_running());
    assert!(matches!(
        deliver.on_event(Delivery::Message(TextPayload::chat(s("b"), s("x")))),
        DeliverAction::Stop
    ));
    for end in [Delivery::ChannelClosed, Delivery::Shutdown] {
        let mut other = DeliverLoop::new(s("b"));
        assert!(matches!(other.on_event(end), DeliverAction::Stop));
        assert!(!other.is_running());
    }
}

#[test]
fn shutdown_fires_once() {
    let mut shutdown = ShutdownCoordinator::new();
    assert!(!shutdown.is_fired());
    assert!(shutdown.fire());
    assert!(shutdown.is_fired());
    assert!(!shutdown.fire());
    assert!(shutdown.is_fired());
}

#[test]
fn accept_loop_serves_until_shutdown() {
    let mut accept = AcceptLoop::new();
    assert_eq!(accept.on_event(AcceptEvent::Connected), AcceptAction::Serve);
    assert_eq!(accept.on_event(AcceptEvent::Failed), AcceptAction::Retry);
    assert_eq!(accept.on_event(AcceptEvent::Connected), AcceptAction::Serve);
    assert_eq!(accept.served_count(), 2);
    assert!(!accept.is_stopped());
    assert_eq!(accept.on_event(AcceptEvent::Shutdown), AcceptAction::Stop);
    assert!(accept.is_stopped());
    assert_eq!(accept.on_event(AcceptEvent::Connected), AcceptAction::Stop);
    assert_eq!(accept.served_count(), 2);
}

#[test]
fn shutdown_with_three_connections_and_a_scan_in_flight() {
    let mut shutdown = ShutdownCoordinator::new();
    let mut accept = AcceptLoop::new();
    let mut clients: ConnectionRegistry<u32> = ConnectionRegistry::new();
    let mut connections = Vec::new();
    for (i, id) in ["a", "b", "c"].iter().enumerate() {
        assert_eq!(accept.on_event(AcceptEvent::Connected), AcceptAction::Serve);
        connections.push(active(&mut clients, id, i as u32));
    }
    let mut hub: RelayRegistry<u32> = RelayRegistry::new();
    hub.register(s("r1:1"), 0, true).unwrap();
    hub.register(s("r2:1"), 0, true).unwrap();
    let mut scan = hub.begin_scan();
    assert!(matches!(hub.on_reply(&mut scan, &RelayReply::Failed), ScanVerdict::Continue));

    assert!(shutdown.fire());
    assert_eq!(accept.on_event(AcceptEvent::Shutdown), AcceptAction::Stop);
    assert_eq!(accept.on_event(AcceptEvent::Connected), AcceptAction::Stop);
    for c in connections.iter_mut() {
        assert!(matches!(c.on_frame(&Inbound::Shutdown), Action::Close));
        assert!(matches!(c.on_frame(&Inbound::Close), Action::Ignore));
        assert!(c.finish(&mut clients).is_some());
        assert!(c.finish(&mut clients).is_none());
        assert_eq!(c.current(), ConnState::Closed);
    }
    assert_eq!(clients.len(), 0);

    assert_eq!(hub.room_count(), 0);
    match hub.on_reply(&mut scan, &RelayReply::Created(s("room"), RoomPrivacy::Public)) {
        ScanVerdict::Won(room, address, _) => {
            assert_eq!(hub.route_room(&room), Some(address));
        }
        _ => panic!("the relay accepted"),
    }
    assert_eq!(hub.room_count(), 1);
}

#[test]
fn bind_addresses() {
    assert_eq!(bind_address("127.0.0.1", 8080), "127.0.0.1:8080");
    assert_eq!(bind_address("localhost", 0), "localhost:0");
    assert_eq!(bind_address("::1", 65535), "::1:65535");
}

fn two_rooms() -> RoomRegistry {
    let mut rooms = RoomRegistry::new();
    rooms.create_with_id(s("red"), RoomPrivacy::Public).unwrap();
    rooms.create_with_id(s("blue"), RoomPrivacy::Private).unwrap();
    rooms
}

#[test]
fn connections_join_rooms_that_exist() {
    let mut rooms = two_rooms();
    assert_eq!(rooms.join(&s("green"), s("a")), Err(JoinError::NoSuchRoom));
    assert_eq!(rooms.join(&s("red"), s("a")), Ok(()));
    assert_eq!(rooms.join(&s("red"), s("b")), Ok(()));
    assert_eq!(rooms.join(&s("blue"), s("c")), Ok(()));
    assert_eq!(rooms.join(&s("blue"), s("a")), Err(JoinError::AlreadyJoined));
    assert_eq!(rooms.join(&s("red"), s("a")), Err(JoinError::AlreadyJoined));
    assert_eq!(rooms.join(&s("green"), s("a")), Err(JoinError::NoSuchRoom));
    assert_eq!(rooms.room_of(&s("a")), Some(s("red")));
    assert_eq!(rooms.room_of(&s("c")), Some(s("blue")));
    assert_eq!(rooms.room_of(&s("z")), None);
    assert_eq!(rooms.members_in(&s("red")), vec![s("a"), s("b")]);
    assert_eq!(rooms.members_in(&s("blue")), vec![s("c")]);
    assert!(rooms.members_in(&s("green")).is_empty());
    assert!(rooms.has_members(&s("red")));
    assert!(!rooms.has_members(&s("green")));
    assert_eq!(rooms.len(), 2);
}

#[test]
fn rooms_hold_as_many_connections_as_the_relay() {
    let mut rooms = two_rooms();
    for i in 0..MAX_CLIENTS {
        let room = if i % 2 == 0 { s("red") } else { s("blue") };
        assert_eq!(rooms.join(&room, format!("c{}", i)), Ok(()));
    }
    assert_eq!(rooms.join(&s("red"), s("one-more")), Err(JoinError::Full));
    assert_eq!(rooms.join(&s("red"), s("c0")), Err(JoinError::AlreadyJoined));
    assert_eq!(rooms.members_in(&s("red")).len(), MAX_CLIENTS / 2);
    assert_eq!(rooms.leave(&s("c0")), Some(s("red")));
    assert_eq!(rooms.join(&s("blue"), s("one-more")), Ok(()));
}

#[test]
fn a_room_is_destroyed_when_its_last_member_leaves() {
    let mut rooms = two_rooms();
    rooms.join(&s("red"), s("a")).unwrap();
    rooms.join(&s("red"), s("b")).unwrap();
    assert_eq!(rooms.leave(&s("nobody")), None);
    assert_eq!(rooms.leave(&s("a")), Some(s("red")));
    assert_eq!(rooms.room_ids(), vec![s("red"), s("blue")]);
    assert_eq!(rooms.leave(&s("a")), None);
    assert_eq!(rooms.leave(&s("b")), Some(s("red")));
    assert_eq!(rooms.room_ids(), vec![s("blue")]);
    assert!(rooms.get(&s("red")).is_none());
    assert_eq!(rooms.join(&s("red"), s("a")), Err(JoinError::NoSuchRoom));
    assert_eq!(rooms.len(), 1);
}

#[test]
fn destroying_a_room_turns_its_members_out() {
    let mut rooms = two_rooms();
    rooms.join(&s("red"), s("a")).unwrap();
    rooms.join(&s("blue"), s("b")).unwrap();
    rooms.join(&s("red"), s("c")).unwrap();
    assert_eq!(rooms.destroy(&s("red")), Some(RoomPrivacy::Public));
    assert_eq!(rooms.room_of(&s("a")), None);
    assert_eq!(rooms.room_of(&s("c")), None);
    assert_eq!(rooms.room_of(&s("b")), Some(s("blue")));
    assert!(rooms.members_in(&s("red")).is_empty());
    assert_eq!(rooms.join(&s("blue"), s("a")), Ok(()));
    assert_eq!(rooms.members_in(&s("blue")), vec![s("b"), s("a")]);
}

#[test]
fn a_relay_that_shuts_down_destroys_its_rooms() {
    let mut rooms = two_rooms();
    rooms.join(&s("red"), s("a")).unwrap();
    rooms.clear();
    assert_eq!(rooms.len(), 0);
    assert_eq!(rooms.room_of(&s("a")), None);
    assert!(rooms.room_ids().is_empty());
    assert!(rooms.create_with_id(s("red"), RoomPrivacy::Public).is_ok());
    assert!(!rooms.has_members(&s("red")));
}

#[test]
fn insert_client_says_when_the_registry_is_full() {
    let mut clients: ConnectionRegistry<u32> = ConnectionRegistry::with_capacity(1);
    assert_eq!(insert_client(&mut clients, s("a"), 1), Ok(None));
    assert_eq!(insert_client(&mut clients, s("b"), 2), Err(CapacityExceeded));
    assert_eq!(insert_client(&mut clients, s("a"), 3), Ok(Some(1)));
    assert_eq!(client_count(&clients), 1);
    assert_eq!(clients.get(&s("b")), None);
}

#[test]
fn a_malformed_frame_ends_the_connection_it_came_on() {
    let frames: Vec<Vec<u8>> = vec![vec![], vec![0], vec![0, 0xff, 0xfe], vec![0, b'o', b'k', 0xc3]];
    for bytes in frames {
        let mut clients: ConnectionRegistry<u32> = ConnectionRegistry::new();
        let mut a = active(&mut clients, "A", 1);
        let mut b = active(&mut clients, "B", 2);
        assert!(matches!(a.on_frame(&Inbound::Binary(bytes)), Action::Close));
        assert_eq!(a.current(), ConnState::Closing);
        assert_eq!(b.current(), ConnState::Active);
        assert_eq!(a.finish(&mut clients), Some(1));
        assert_eq!(a.current(), ConnState::Closed);
        assert_eq!(clients.get(&s("A")), None);
        assert_eq!(clients.get(&s("B")), Some(&2));
        assert!(matches!(b.on_frame(&hello_from("still here")), Action::SendHello(_)));
        assert_eq!(b.current(), ConnState::Active);
    }
}

#[test]
fn an_unknown_opcode_or_unreadable_text_does_not_end_the_connection() {
    let mut clients: ConnectionRegistry<u32> = ConnectionRegistry::new();
    let mut a = active(&mut clients, "A", 1);
    for frame in [
        Inbound::Binary(vec![1]),
        Inbound::Binary(vec![255, 0xff, 0xfe]),
        Inbound::Text(None),
        Inbound::Other,
    ] {
        assert!(matches!(a.on_frame(&frame), Action::Ignore));
        assert_eq!(a.current(), ConnState::Active);
    }
    assert_eq!(clients.get(&s("A")), Some(&1));
}

#[test]
fn a_room_is_owed_on_a_relay_without_rooms() {
    for ceiling in [1, 2, MAX_ROOMS] {
        let mut rooms = RoomRegistry::with_capacity(ceiling);
        let room = rooms.create().unwrap();
        assert_eq!(rooms.len(), 1);
        assert_eq!(rooms.room_ids(), vec![room.id]);
    }
}

#[test]
fn the_id_that_is_taken_comes_back() {
    let mut rooms = RoomRegistry::with_capacity(4);
    rooms.create_with_id(s("r"), RoomPrivacy::Public).unwrap();
    assert_eq!(
        rooms.create_with_id(s("r"), RoomPrivacy::Private).map(|room| room.id),
        Err(RoomError::IdTaken(s("r")))
    );
    let made = rooms.create().unwrap();
    assert_eq!(
        rooms.create_with_id(made.id.clone(), RoomPrivacy::Public).map(|room| room.id),
        Err(RoomError::IdTaken(made.id))
    );
    assert_eq!(rooms.len(), 2);
}

#[test]
fn the_default_channel_settings() {
    assert_eq!(BroadcastHub::new().capacity(), BROADCAST_CAPACITY);
    assert_eq!(BroadcastHub::new(), broadcast());
}
