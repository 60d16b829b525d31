use crane_socket::constant::{MAX_NUM_ROOMS, ROOM_ID_LEN};
use crane_socket::message::client::ClientMessage;
use crane_socket::message::server::ServerMessage;
use crane_socket::peer::PeerAddr;
use crane_socket::registry::{RoomError, RoomRegistry};

fn addr(port: u16) -> PeerAddr {
    PeerAddr::V4 { ip4: 0x0102_0304, port }
}

fn room_with(reg: &mut RoomRegistry, id: &str, members: &[PeerAddr]) {
    reg.insert_room(id.to_string(), members.to_vec());
    for m in members {
        reg.assign(*m, id.to_string());
    }
}

#[test]
fn test_create_room_success() {
    let mut reg = RoomRegistry::new();
    let a = addr(1234);

    let sends = reg.handle_create_room(a).unwrap();

    assert_eq!(reg.room_count(), 1);
    assert_eq!(reg.client_count(), 1);
    let room_id = reg.room_of(a).unwrap();
    assert!(reg.has_room(&room_id));
    assert_eq!(reg.room_len(&room_id), Some(1));
    assert_eq!(sends.len(), 1);
    assert!(matches!(&sends[0], (ServerMessage::RoomCreated(id), to) if *id == room_id && *to == a));
    assert_eq!(room_id.chars().count(), ROOM_ID_LEN);
    assert!(room_id.chars().all(|c| c.is_ascii_alphanumeric()));
}

#[test]
fn test_create_room_already_in_room() {
    let mut reg = RoomRegistry::new();
    let a = addr(1234);
    reg.assign(a, "room1".to_string());

    let err = reg.handle_create_room(a).unwrap_err();

    assert_eq!(reg.room_count(), 0);
    assert_eq!(err, RoomError::AlreadyInRoom("room1".to_string()));
    assert!(err.text("1.2.3.4:1234", "").contains("Peer is already in a room"));
}

#[test]
fn test_join_room_success() {
    let mut reg = RoomRegistry::new();
    let a1 = addr(1234);
    let a2 = addr(12345);
    room_with(&mut reg, "room1", &[a1]);

    let sends = reg.handle_join_room(a2, "room1".to_string()).unwrap();

    let id = "room1".to_string();
    assert_eq!(reg.room_len(&id), Some(2));
    assert!(reg.is_member(&id, a2));
    assert_eq!(reg.room_of(a2), Some(id));
    assert_eq!(
        sends,
        vec![(ServerMessage::JoinedSuccessfully, a2), (ServerMessage::ClientJoined, a1)]
    );
}

#[test]
fn test_join_same_peer_twice() {
    let mut reg = RoomRegistry::new();
    let a = addr(1234);
    room_with(&mut reg, "room1", &[a]);

    let err = reg.handle_join_room(a, "room1".to_string()).unwrap_err();

    assert_eq!(err, RoomError::ClientAlreadyInRoom);
    assert!(err.text("1.2.3.4:1234", "").contains("Client is already in a room"));
    assert_eq!(reg.room_len(&"room1".to_string()), Some(1));
}

#[test]
fn test_join_nonexistent_room() {
    let mut reg = RoomRegistry::new();
    let a = addr(1234);

    let err = reg.handle_join_room(a, "room1".to_string()).unwrap_err();

    assert_eq!(reg.room_count(), 0);
    assert_eq!(reg.client_count(), 0);
    assert!(err.text("1.2.3.4:1234", "").contains("No room with room_id"));
    assert_eq!(err.text("", ""), "No room with room_id=room1 exists");
}

#[test]
fn test_leave_room_success() {
    let mut reg = RoomRegistry::new();
    let a1 = addr(1234);
    let a2 = addr(1235);
    room_with(&mut reg, "room1", &[a1, a2]);

    let sends = reg.handle_leave_room(a2).unwrap();

    let id = "room1".to_string();
    assert_eq!(reg.room_len(&id), Some(1));
    assert!(!reg.is_member(&id, a2));
    assert_eq!(reg.room_of(a2), None);
    assert_eq!(sends, vec![(ServerMessage::ClientLeft, a1)]);
}

#[test]
fn test_leave_room_empty_room_deleted() {
    let mut reg = RoomRegistry::new();
    let a = addr(1234);
    room_with(&mut reg, "room1", &[a]);

    let sends = reg.handle_leave_room(a).unwrap();

    assert!(sends.is_empty());
    assert_eq!(reg.room_count(), 0);
    assert_eq!(reg.client_count(), 0);
}

#[test]
fn test_leave_nonexistent_room() {
    let mut reg = RoomRegistry::new();
    let a = addr(1234);

    let err = reg.handle_leave_room(a).unwrap_err();

    assert_eq!(err, RoomError::NotInRoom);
    assert_eq!(err.text("1.2.3.4:1234", ""), "Peer is not in a room");
}

#[test]
fn test_binary_data_forwarding() {
    let mut reg = RoomRegistry::new();
    let a1 = addr(1234);
    let a2 = addr(1235);
    room_with(&mut reg, "room1", &[a1, a2]);
    let data = vec![1, 2, 3];

    let sends = reg.handle_binary_data(a1, data.clone()).unwrap();

    assert_eq!(sends, vec![(ServerMessage::binary(data), a2)]);
}

#[test]
fn test_text_data_forwarding() {
    let mut reg = RoomRegistry::new();
    let a1 = addr(1234);
    let a2 = addr(1235);
    room_with(&mut reg, "room1", &[a1, a2]);
    let text = "Hello".to_string();

    let sends = reg.handle_text_data(a1, text.clone()).unwrap();

    assert_eq!(sends, vec![(ServerMessage::text(text), a2)]);
}

#[test]
fn test_send_after_leave() {
    let mut reg = RoomRegistry::new();
    let a1 = addr(1234);
    let a2 = addr(1235);
    room_with(&mut reg, "room1", &[a1, a2]);

    let left = reg.handle_leave_room(a2).unwrap();
    assert_eq!(reg.room_of(a2), None);

    let sends = reg.handle_text_data(a1, "Hello".to_string()).unwrap();

    assert_eq!(left, vec![(ServerMessage::ClientLeft, a1)]);
    assert!(sends.is_empty());
}

#[test]
fn test_send_error() {
    let a = addr(1234);
    let err = RoomError::ClientReported("Test".to_string());
    let reply = (ServerMessage::Error(err.text("1.2.3.4:1234", "")), a);
    assert_eq!(reply, (ServerMessage::Error("Test".to_string()), a));
}

#[test]
fn data_from_a_peer_in_no_room_is_refused() {
    let reg = RoomRegistry::new();
    let err = reg.handle_binary_data(addr(1), vec![1]).unwrap_err();
    assert_eq!(err, RoomError::NoRoomForPeer);
    assert_eq!(err.text("1.2.3.4:1", ""), "No room found for peer 1.2.3.4:1");
}

#[test]
fn a_room_is_full_past_its_limit() {
    let mut reg = RoomRegistry::new();
    room_with(&mut reg, "room1", &[addr(1), addr(2)]);
    reg.handle_join_room(addr(3), "room1".to_string()).unwrap();
    let err = reg.handle_join_room(addr(4), "room1".to_string()).unwrap_err();
    assert_eq!(err, RoomError::RoomFull);
    assert_eq!(err.text("", ""), "The room is full");
    assert_eq!(reg.room_of(addr(4)), None);
}

#[test]
fn a_peer_recorded_but_missing_from_its_room() {
    let mut reg = RoomRegistry::new();
    reg.insert_room("room1".to_string(), vec![addr(1)]);
    reg.assign(addr(2), "room1".to_string());
    let err = reg.handle_leave_room(addr(2)).unwrap_err();
    assert_eq!(err, RoomError::NotFoundInRoom("room1".to_string()));
    assert_eq!(err.text("1.2.3.4:2", ""), "Peer 1.2.3.4:2 not found in room room1");
    assert_eq!(reg.room_of(addr(2)), None);
}

#[test]
fn no_rooms_left_past_the_limit() {
    let mut reg = RoomRegistry::new();
    for i in 0..=MAX_NUM_ROOMS {
        reg.insert_room(format!("r{}", i), vec![]);
    }
    let err = reg.handle_create_room(addr(1)).unwrap_err();
    assert_eq!(err, RoomError::NoRoomsLeft);
    assert_eq!(err.text("", ""), "No available rooms left");
}

#[test]
fn process_message_dispatches() {
    let mut reg = RoomRegistry::new();
    let a = addr(7);
    let pong = reg.process_message(a, ClientMessage::Ping(vec![1])).unwrap();
    assert_eq!(pong, vec![(ServerMessage::Pong(vec![1]), a)]);

    let err = reg.process_message(a, ClientMessage::Error("boom".to_string())).unwrap_err();
    assert_eq!(err, RoomError::ClientReported("boom".to_string()));

    let err = reg.process_message(a, ClientMessage::Pong(vec![])).unwrap_err();
    assert_eq!(err, RoomError::Unexpected(ClientMessage::Pong(vec![])));
    assert_eq!(err.text("", "Pong"), "Received unexpected message: Pong");

    let created = reg.process_message(a, ClientMessage::CreateRoom).unwrap();
    assert_eq!(created.len(), 1);
    let left = reg.process_message(a, ClientMessage::Close(None)).unwrap();
    assert!(left.is_empty());
    assert_eq!(reg.room_count(), 0);
}

#[test]
fn join_then_leave_restores_the_registry() {
    let mut reg = RoomRegistry::new();
    room_with(&mut reg, "room1", &[addr(1)]);
    reg.handle_join_room(addr(2), "room1".to_string()).unwrap();
    reg.handle_leave_room(addr(2)).unwrap();
    assert_eq!(reg.room_len(&"room1".to_string()), Some(1));
    assert!(reg.is_member(&"room1".to_string(), addr(1)));
    assert_eq!(reg.room_of(addr(2)), None);
    assert_eq!(reg.client_count(), 1);
}

#[test]
fn create_then_leave_leaves_no_room() {
    let mut reg = RoomRegistry::new();
    reg.handle_create_room(addr(1)).unwrap();
    reg.handle_leave_room(addr(1)).unwrap();
    assert_eq!(reg.room_count(), 0);
    assert_eq!(reg.client_count(), 0);
}

#[test]
fn shutdown_of_the_server_tells_every_client() {
    let mut reg = RoomRegistry::new();
    room_with(&mut reg, "room1", &[addr(1), addr(2)]);
    room_with(&mut reg, "room2", &[addr(3)]);
    let mut sends = reg.on_shutdown(None).unwrap();
    sends.sort_by_key(|(_, a)| a.port());
    assert_eq!(
        sends,
        vec![
            (ServerMessage::ServerClosed, addr(1)),
            (ServerMessage::ServerClosed, addr(2)),
            (ServerMessage::ServerClosed, addr(3)),
        ]
    );
    assert_eq!(reg.room_count(), 2);
    let closed = reg.close_server();
    assert_eq!(closed.len(), 3);
    let all = reg.close_all_rooms();
    assert_eq!(all.len(), 3);
}

#[test]
fn shutdown_of_a_connection_leaves_its_room() {
    let mut reg = RoomRegistry::new();
    room_with(&mut reg, "room1", &[addr(1), addr(2)]);
    let sends = reg.on_shutdown(Some(addr(1))).unwrap();
    assert_eq!(sends, vec![(ServerMessage::ClientLeft, addr(2))]);
    assert_eq!(reg.room_of(addr(1)), None);
}

#[test]
fn created_room_ids_differ() {
    let mut reg = RoomRegistry::new();
    reg.handle_create_room(addr(1)).unwrap();
    reg.handle_create_room(addr(2)).unwrap();
    let r1 = reg.room_of(addr(1)).unwrap();
    let r2 = reg.room_of(addr(2)).unwrap();
    assert_ne!(r1, r2);
    assert_eq!(reg.room_count(), 2);
}
