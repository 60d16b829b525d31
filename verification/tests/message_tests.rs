use crane_socket::message::binary::{
    BinaryMessageTrait, BinaryMessageType, ClientBinaryMessage, ServerBinaryMessage,
};
use crane_socket::message::client::ClientMessage;
use crane_socket::message::common::{MessageError, Tags};
use crane_socket::message::proxy::{incoming_binary, outgoing, Message, Outgoing};
use crane_socket::message::server::ServerMessage;
use crane_socket::message::ws::{CloseFrame, Frame, WsMessage};
use crane_socket::error::ProxyServerError;

#[test]
fn client_test_text_encode_decode_roundtrip() {
    let s = "Hello";
    let msg = ClientMessage::Text(s.into());
    let ws_msg: WsMessage = msg.clone().into_ws();
    let parsed = ClientMessage::from(ws_msg);
    assert_eq!(parsed, msg);
}

#[test]
fn client_test_message_len() {
    let msg = ClientMessage::Text("123".into());
    assert_eq!(msg.len(), 3);

    let msg = ClientMessage::Binary(vec![1, 2, 3]);
    assert_eq!(msg.len(), 3);

    let msg = ClientMessage::CreateRoom;
    assert_eq!(msg.len(), 0);
}

#[test]
fn test_client_binary_encode_decode_roundtrip() {
    let msg = ClientMessage::Binary(vec![1, 2, 3]);
    let bytes: Vec<u8> = msg.clone().into_bytes();
    let parsed = ClientMessage::try_from(bytes.as_slice()).unwrap();
    assert_eq!(parsed, msg);

    let ws: WsMessage = msg.clone().into_ws();
    let parsed: ClientMessage = ClientMessage::from(ws);
    assert_eq!(parsed, msg);
}

#[test]
fn test_client_create_room_roundtrip() {
    let msg = ClientMessage::CreateRoom;
    let bytes: Vec<u8> = msg.clone().into_bytes();
    let parsed = ClientMessage::try_from(bytes.as_slice()).unwrap();
    assert_eq!(parsed, msg);

    let ws: WsMessage = msg.clone().into_ws();
    let parsed: ClientMessage = ClientMessage::from(ws);
    assert_eq!(parsed, msg);
}

#[test]
fn test_client_join_room_roundtrip() {
    let msg = ClientMessage::JoinRoom("test_room".to_string());
    let bytes: Vec<u8> = msg.clone().into_bytes();
    let parsed = ClientMessage::try_from(bytes.as_slice()).unwrap();
    assert_eq!(parsed, msg);

    let ws: WsMessage = msg.clone().into_ws();
    let parsed: ClientMessage = ClientMessage::from(ws);
    assert_eq!(parsed, msg);
}

#[test]
fn client_test_client_insufficient_data() {
    let bytes = vec![Tags::JoinRoom.as_u8(), 0xFF, 0xFF, 0xFF];
    let result = ClientMessage::try_from(bytes.as_slice());
    assert_eq!(result, Err(MessageError::InsufficientData));
}

#[test]
fn test_client_message_serialization_deserialization() {
    let messages = vec![
        ClientMessage::CreateRoom,
        ClientMessage::LeaveRoom,
        ClientMessage::Close(None),
    ];
    for msg in messages {
        let bytes = msg.as_bytes();
        assert_eq!(bytes.len(), 1, "Expected 1 byte for {:?}", msg);
        let deserialized = ClientMessage::try_from(&bytes[..]).unwrap();
        assert_eq!(deserialized, msg, "Deserialization failed for {:?}", msg);
    }

    let text_messages = vec![
        (ClientMessage::text("hello".to_string()), Tags::Text, b"hello".to_vec()),
        (ClientMessage::JoinRoom("room123".to_string()), Tags::JoinRoom, b"room123".to_vec()),
        (ClientMessage::Error("error msg".to_string()), Tags::Error, b"error msg".to_vec()),
        (ClientMessage::Binary(vec![1, 2, 3]), Tags::Binary, vec![1, 2, 3]),
        (ClientMessage::Ping(vec![4, 5]), Tags::Ping, vec![4, 5]),
        (ClientMessage::Pong(vec![6]), Tags::Pong, vec![6]),
    ];
    for (msg, tag, expected_payload) in text_messages {
        let bytes = msg.as_bytes();
        assert_eq!(bytes[0], tag.as_u8(), "Wrong tag for {:?}", msg);
        let len = u64::from_be_bytes(bytes[1..9].try_into().unwrap()) as usize;
        assert_eq!(len, bytes[9..].len(), "Wrong payload length for {:?}", msg);
        assert_eq!(bytes[9..].to_vec(), expected_payload, "Wrong payload for {:?}", msg);
        let deserialized = ClientMessage::try_from(&bytes[..]).unwrap();
        assert_eq!(deserialized, msg, "Deserialization failed for {:?}", msg);
    }
}

#[test]
fn server_test_text_encode_decode_roundtrip() {
    let s = "Hello";
    let msg = ServerMessage::Text(s.into());
    let ws_msg: WsMessage = msg.clone().into_ws();
    let parsed = ServerMessage::from(ws_msg);
    assert_eq!(parsed, msg);
}

#[test]
fn test_client_joined_roundtrip() {
    let msg = ServerMessage::ClientJoined;
    let ws: WsMessage = msg.clone().into_ws();
    let parsed: ServerMessage = ServerMessage::from(ws);
    assert_eq!(parsed, msg);
}

#[test]
fn server_test_message_len() {
    let msg = ServerMessage::Text("123".into());
    assert_eq!(msg.len(), 3);

    let msg = ServerMessage::Binary(vec![1, 2, 3]);
    assert_eq!(msg.len(), 3);

    let msg = ServerMessage::ClientJoined;
    assert_eq!(msg.len(), 0);
}

#[test]
fn test_server_binary_encode_decode_regular() {
    let msg = ServerMessage::Binary(vec![1, 2, 3]);
    let bytes: Vec<u8> = msg.clone().into_bytes();
    let parsed = ServerMessage::try_from(bytes.as_slice()).unwrap();
    assert_eq!(parsed, msg);

    let ws: WsMessage = msg.clone().into_ws();
    let parsed: ServerMessage = ServerMessage::from(ws);
    assert_eq!(parsed, msg);
}

#[test]
fn test_server_joined_successfully_roundtrip() {
    let msg = ServerMessage::JoinedSuccessfully;
    let bytes: Vec<u8> = msg.clone().into_bytes();
    let parsed = ServerMessage::try_from(bytes.as_slice()).unwrap();
    assert_eq!(parsed, msg);

    let ws: WsMessage = msg.clone().into_ws();
    let parsed: ServerMessage = ServerMessage::from(ws);
    assert_eq!(parsed, msg);
}

#[test]
fn test_server_room_created_roundtrip() {
    let msg = ServerMessage::RoomCreated("test_room".to_string());
    let bytes: Vec<u8> = msg.clone().into_bytes();
    let parsed = ServerMessage::try_from(bytes.as_slice()).unwrap();
    assert_eq!(parsed, msg);

    let ws: WsMessage = msg.clone().into_ws();
    let parsed: ServerMessage = ServerMessage::from(ws);
    assert_eq!(parsed, msg);
}

#[test]
fn server_test_client_insufficient_data() {
    let bytes = vec![Tags::JoinRoom.as_u8(), 0xFF, 0xFF, 0xFF];
    let result = ServerMessage::try_from(bytes.as_slice());
    assert_eq!(result, Err(MessageError::InsufficientData));
}

#[test]
fn test_server_message_serialization_deserialization() {
    let messages = vec![
        ServerMessage::JoinedSuccessfully,
        ServerMessage::ClientJoined,
        ServerMessage::ClientLeft,
        ServerMessage::Close(None),
    ];
    for msg in messages {
        let bytes = msg.as_bytes();
        assert_eq!(bytes.len(), 1, "Expected 1 byte for {:?}", msg);
        let deserialized = ServerMessage::try_from(&bytes[..]).unwrap();
        assert_eq!(deserialized, msg, "Deserialization failed for {:?}", msg);
    }

    let text_messages = vec![
        (ServerMessage::text("hello".to_string()), Tags::Text, b"hello".to_vec()),
        (ServerMessage::RoomCreated("room123".to_string()), Tags::RoomCreated, b"room123".to_vec()),
        (ServerMessage::Error("error msg".to_string()), Tags::Error, b"error msg".to_vec()),
    ];
    for (msg, tag, expected_payload) in text_messages {
        let bytes = msg.as_bytes();
        assert_eq!(bytes[0], tag.as_u8(), "Wrong tag for {:?}", msg);
        let len = u64::from_be_bytes(bytes[1..9].try_into().unwrap()) as usize;
        assert_eq!(len, bytes[9..].len(), "Wrong payload length for {:?}", msg);
        assert_eq!(bytes[9..].to_vec(), expected_payload, "Wrong payload for {:?}", msg);
        let deserialized = ServerMessage::try_from(&bytes[..]).unwrap();
        assert_eq!(deserialized, msg, "Deserialization failed for {:?}", msg);
    }
}

#[test]
fn tag_bytes_are_fixed() {
    assert_eq!(Tags::RoomCreated.as_u8(), 1);
    assert_eq!(Tags::ServerClosed.as_u8(), 5);
    assert_eq!(Tags::CreateRoom.as_u8(), 6);
    assert_eq!(Tags::Text.as_u8(), 10);
    assert_eq!(Tags::Frame.as_u8(), 15);
}

#[test]
fn text_bytes_are_tag_length_and_utf8() {
    let bytes = ClientMessage::text("hé".to_string()).into_bytes();
    assert_eq!(bytes, vec![10, 0, 0, 0, 0, 0, 0, 0, 3, b'h', 0xC3, 0xA9]);
}

#[test]
fn decode_errors_for_each_kind() {
    assert_eq!(ClientMessage::try_from(&[]), Err(MessageError::EmptyData));
    assert_eq!(ClientMessage::try_from(&[200]), Err(MessageError::InvalidTag(200)));
    assert_eq!(ServerMessage::try_from(&[6]), Err(MessageError::InvalidTag(6)));
    assert_eq!(
        ClientMessage::try_from(&[10, 0, 0, 0, 0, 0, 0, 0, 1, 0xFF]),
        Err(MessageError::InvalidUtf8)
    );
    assert_eq!(
        ServerMessage::try_from(&[200, 0, 0, 0, 0, 0, 0, 0, 0]),
        Err(MessageError::InvalidTag(200))
    );
    assert_eq!(
        ClientMessage::try_from(&[11, 0, 0, 0, 0, 0, 0, 0, 5, 1]),
        Err(MessageError::InsufficientData)
    );
}

#[test]
fn bytes_after_announced_payload_are_ignored() {
    let parsed = ServerMessage::try_from(&[11, 0, 0, 0, 0, 0, 0, 0, 1, 7, 8, 9]).unwrap();
    assert_eq!(parsed, ServerMessage::Binary(vec![7]));
}

#[test]
fn server_closed_is_one_tag() {
    let bytes = ServerMessage::ServerClosed.as_bytes();
    assert_eq!(bytes, vec![5]);
    assert_eq!(ServerMessage::try_from(&bytes[..]).unwrap(), ServerMessage::ServerClosed);
    assert_eq!(ServerMessage::ServerClosed.to_text().unwrap(), "Server Closed");
}

#[test]
fn close_frame_keeps_only_its_tag_on_a_stream() {
    let msg = ClientMessage::Close(Some(CloseFrame { code: 1000, reason: "bye".to_string() }));
    let parsed = ClientMessage::try_from(&msg.as_bytes()[..]).unwrap();
    assert_eq!(parsed, ClientMessage::Close(None));
}

#[test]
fn ws_forms_of_relay_messages() {
    assert_eq!(ClientMessage::CreateRoom.into_ws(), WsMessage::Binary(vec![6]));
    assert_eq!(
        ClientMessage::JoinRoom("ab".to_string()).into_ws(),
        WsMessage::Binary(vec![7, b'a', b'b'])
    );
    assert_eq!(ServerMessage::Binary(vec![1]).into_ws(), WsMessage::Binary(vec![11, 1]));
    // A binary WebSocket message with an unknown first byte stays binary data.
    assert_eq!(
        ClientMessage::from(WsMessage::Binary(vec![200, 1])),
        ClientMessage::Binary(vec![200, 1])
    );
    assert_eq!(ServerMessage::from(WsMessage::Binary(vec![])), ServerMessage::Binary(vec![]));
}

#[test]
fn texts_of_messages() {
    assert_eq!(ClientMessage::CreateRoom.to_text().unwrap(), "Create Room");
    assert_eq!(ClientMessage::LeaveRoom.to_text().unwrap(), "Leave Room");
    assert_eq!(ClientMessage::Close(None).to_text().unwrap(), "Close");
    assert_eq!(ServerMessage::ClientJoined.to_text().unwrap(), "Client Joined");
    assert_eq!(ClientMessage::Binary(vec![0xFF]).to_text(), Err(MessageError::InvalidUtf8));
    assert_eq!(ClientMessage::Binary(vec![0xFF, 0xFE]).to_string(), "Binary Data<length=2>");
    assert_eq!(ServerMessage::text("hi".to_string()).to_string(), "hi");
    assert_eq!(ClientMessage::CreateRoom.into_text().unwrap(), "");
    assert_eq!(ClientMessage::Ping(b"ok".to_vec()).into_text().unwrap(), "ok");
    assert_eq!(ClientMessage::JoinRoom("r".to_string()).into_data(), b"r".to_vec());
}

#[test]
fn kinds_of_messages() {
    let m = ServerMessage::binary(vec![1]);
    assert!(m.is_binary() && !m.is_text() && !m.is_ping() && !m.is_pong() && !m.is_close());
    assert!(ClientMessage::Close(None).is_close());
    assert!(ClientMessage::Text(String::new()).is_empty());
    let f = Frame::empty();
    assert_eq!(f.len(), 2);
    assert_eq!(ClientMessage::Frame(Frame::empty()).len(), 2);
}

#[test]
fn binary_messages_round_trip() {
    let m = ClientBinaryMessage::Data(vec![9, 8]);
    let bytes = m.encode();
    assert_eq!(bytes, vec![0, 9, 8]);
    assert!(ClientBinaryMessage::is_valid(&bytes));
    assert_eq!(ClientBinaryMessage::get_type(&bytes), Some(BinaryMessageType::Data));
    assert_eq!(ServerBinaryMessage::decode(&bytes).unwrap(), ServerBinaryMessage::Data(vec![9, 8]));
    assert_eq!(
        ClientBinaryMessage::decode(&[]),
        Err(ProxyServerError::InvalidData("Empty binary message".to_string()))
    );
    assert_eq!(
        ServerBinaryMessage::decode(&[3, 1]),
        Err(ProxyServerError::InvalidData("Unknown binary message type".to_string()))
    );
    assert_eq!(ServerBinaryMessage::get_type(&[3]), None);
}

#[test]
fn peer_messages_convert_to_websocket() {
    let w = WsMessage::Ping(vec![1]);
    let m = Message::from(w.clone());
    assert_eq!(m, Message::Ping(vec![1]));
    assert_eq!(m.try_into_ws().unwrap(), w);
    assert_eq!(
        Message::PeerDisconnected.try_into_ws(),
        Err("PeerLeft cannot be converted to tungstenite::Message")
    );
    assert_eq!(Message::PeerDisconnected.to_text().unwrap(), "Peer Disconnected");
    assert_eq!(Message::PeerDisconnected.len(), 0);
    assert_eq!(Message::text("abc".to_string()).to_string(), "abc");
    assert_eq!(Message::binary(vec![0xFF]).to_string(), "Binary Data<length=1>");
    assert_eq!(Message::Close(None).into_data(), Vec::<u8>::new());
}

#[test]
fn peer_messages_over_the_relay() {
    match outgoing(Message::binary(vec![4, 5])) {
        Ok(Outgoing::Binary(b)) => {
            assert_eq!(b, vec![0, 4, 5]);
            assert_eq!(incoming_binary(&b), Some(Message::Binary(vec![4, 5])));
        }
        _ => panic!("binary data travels as a binary message"),
    }
    assert!(matches!(outgoing(Message::Ping(vec![])), Err(Message::Ping(_))));
    assert_eq!(incoming_binary(&[1, 2]), None);
}
