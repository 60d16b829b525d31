use crane_socket::actors::{
    bytes_inbound, farewell_notices, ws_inbound, ActorStep, ClientErrorCounters, ErrorCounter, Inbound,
};
use crane_socket::constant::MAX_MESSAGE_SIZE;
use crane_socket::error::ProxyServerError;
use crane_socket::framing::{
    announced_length, assemble_frame, client_stream_frame_start, is_tag_only_message,
    stream_frame_start, validate_datagram, validate_tag_with_payload, DatagramError, FrameStart,
};
use crane_socket::message::client::ClientMessage;
use crane_socket::message::server::ServerMessage;
use crane_socket::message::ws::{Frame, WsMessage};
use crane_socket::peer::PeerAddr;
use crane_socket::session::{
    join_reply, join_reply_datagram, join_reply_tag, register_reply, register_reply_datagram,
    register_reply_tag, wait_reply, wait_reply_datagram, wait_reply_tag, RelayError,
};
use crane_socket::message::common::MessageError;

#[test]
fn tag_only_and_payload_tags() {
    for t in [6u8, 8, 2, 3, 4, 5, 14, 15] {
        assert!(is_tag_only_message(t), "tag {}", t);
        assert!(validate_tag_with_payload(t).is_err());
    }
    for t in [10u8, 11, 12, 13, 1, 7, 9] {
        assert!(!is_tag_only_message(t), "tag {}", t);
        assert_eq!(validate_tag_with_payload(t), Ok(()));
    }
    assert_eq!(
        validate_tag_with_payload(0),
        Err("Received a message with an unexpected tag".to_string())
    );
}

#[test]
fn datagrams_are_checked_whole() {
    assert_eq!(validate_datagram(&[]), Err(DatagramError::Empty));
    assert_eq!(validate_datagram(&[6]), Ok(vec![6]));
    assert_eq!(validate_datagram(&[6, 0]), Err(DatagramError::TagOnlyTooLong(2)));
    assert_eq!(
        validate_datagram(&[0, 1]),
        Err(DatagramError::UnexpectedTag("Received a message with an unexpected tag".to_string()))
    );
    assert_eq!(validate_datagram(&[10, 0, 0]), Err(DatagramError::TooShort(3)));
    assert_eq!(
        validate_datagram(&[10, 0, 0, 0, 0, 0, 0, 0, 2, b'a']),
        Err(DatagramError::LengthMismatch { announced: 2, got: 10 })
    );
    let whole = ClientMessage::text("ab".to_string()).into_bytes();
    assert_eq!(validate_datagram(&whole), Ok(whole.clone()));
    let mut longer = whole.clone();
    longer.push(0);
    assert!(validate_datagram(&longer).is_err());
    let server = ServerMessage::RoomCreated("r".to_string()).into_bytes();
    assert_eq!(validate_datagram(&server), Ok(server.clone()));
}

#[test]
fn stream_frames_start_by_tag() {
    assert_eq!(stream_frame_start(5), Ok(FrameStart::TagOnly));
    assert_eq!(stream_frame_start(11), Ok(FrameStart::NeedsLength));
    assert!(stream_frame_start(99).is_err());
    assert!(client_stream_frame_start(5).is_err());
    assert_eq!(client_stream_frame_start(6), Ok(FrameStart::TagOnly));
    assert_eq!(client_stream_frame_start(7), Ok(FrameStart::NeedsLength));
}

#[test]
fn stream_frames_reassemble_to_the_message() {
    let msg = ClientMessage::JoinRoom("room".to_string());
    let bytes = msg.as_bytes();
    let len = announced_length(&bytes[1..9]);
    assert_eq!(len, 4);
    let frame = assemble_frame(bytes[0], &bytes[1..9], &bytes[9..]);
    assert_eq!(frame, bytes);
    assert_eq!(ClientMessage::try_from(&frame).unwrap(), msg);
}

#[test]
fn inbound_bytes() {
    let m = ClientMessage::binary(vec![1, 2]);
    assert_eq!(bytes_inbound(&m.as_bytes(), false), Inbound::Deliver(m));
    assert_eq!(
        bytes_inbound(&[200], false),
        Inbound::Reject { notice: ClientMessage::Error("Invalid message".to_string()), error: None }
    );
    assert_eq!(
        bytes_inbound(&[200], true),
        Inbound::Reject {
            notice: ClientMessage::Error("Invalid message".to_string()),
            error: Some(ProxyServerError::InvalidData("Received invalid message".to_string())),
        }
    );
    let big = vec![0u8; MAX_MESSAGE_SIZE + 1];
    assert_eq!(
        bytes_inbound(&big, true),
        Inbound::Reject { notice: ClientMessage::Error("Message too large".to_string()), error: None }
    );
}

#[test]
fn inbound_websocket_messages() {
    assert_eq!(ws_inbound(WsMessage::Ping(vec![1])), Inbound::Ignore);
    assert_eq!(ws_inbound(WsMessage::Pong(vec![])), Inbound::Ignore);
    assert_eq!(
        ws_inbound(WsMessage::Frame(Frame::empty())),
        Inbound::Fail(ProxyServerError::InvalidData("Unsupported message type".to_string()))
    );
    assert_eq!(
        ws_inbound(WsMessage::Binary(vec![6])),
        Inbound::Deliver(ClientMessage::CreateRoom)
    );
    assert_eq!(
        ws_inbound(WsMessage::Text("hi".to_string())),
        Inbound::Deliver(ClientMessage::text("hi".to_string()))
    );
    assert_eq!(
        ws_inbound(WsMessage::Text("x".repeat(MAX_MESSAGE_SIZE + 1))),
        Inbound::Reject { notice: ClientMessage::Error("Message too large".to_string()), error: None }
    );
}

#[test]
fn websocket_size_limit_counts_the_raw_message() {
    let mut join = vec![7u8];
    join.extend(std::iter::repeat(b'r').take(MAX_MESSAGE_SIZE));
    assert_eq!(join.len(), MAX_MESSAGE_SIZE + 1);
    assert_eq!(
        ws_inbound(WsMessage::Binary(join)),
        Inbound::Reject { notice: ClientMessage::Error("Message too large".to_string()), error: None }
    );
    let mut fits = vec![7u8];
    fits.extend(std::iter::repeat(b'r').take(MAX_MESSAGE_SIZE - 1));
    assert_eq!(
        ws_inbound(WsMessage::Binary(fits)),
        Inbound::Deliver(ClientMessage::JoinRoom("r".repeat(MAX_MESSAGE_SIZE - 1)))
    );
}

#[test]
fn error_counters() {
    let mut c = ErrorCounter::new();
    assert_eq!(c.get(), 0);
    assert!(c.record_failure());
    assert_eq!(c.get(), 1);
    c.record_success();
    assert_eq!(c.get(), 0);

    let p = PeerAddr::V4 { ip4: 1, port: 2 };
    let q = PeerAddr::V6 { ip6: 1, port: 2, flowinfo: 0, scope_id: 0 };
    let mut cs = ClientErrorCounters::new();
    assert_eq!(cs.get(p), 0);
    cs.record_send_failure(p);
    assert_eq!(cs.get(p), 1);
    cs.record_success(p);
    assert_eq!(cs.get(p), 0);
    assert!(cs.record_failure(q));
    assert_eq!(cs.get(q), 0);
    assert_eq!(
        farewell_notices(),
        vec![ClientMessage::Error("Invalid message".to_string()), ClientMessage::LeaveRoom]
    );
}

#[test]
fn replies_to_a_join_request() {
    assert_eq!(join_reply(&ServerMessage::JoinedSuccessfully), Ok(()));
    assert_eq!(join_reply(&ServerMessage::ClientLeft), Err(RelayError::RoomUnavailable));
    assert_eq!(join_reply_tag(2), Ok(()));
    assert_eq!(join_reply_tag(9), Err(RelayError::RoomUnavailable));
    assert_eq!(join_reply_datagram(1, 2), Ok(()));
    assert_eq!(
        join_reply_datagram(0, 2),
        Err(RelayError::UnexpectedMessage("Expected message with len=1. Got len=0".to_string()))
    );
}

#[test]
fn replies_to_a_room_request() {
    assert_eq!(register_reply(ServerMessage::RoomCreated("abc".to_string())), Ok("abc".to_string()));
    assert_eq!(register_reply(ServerMessage::ClientJoined), Err(ServerMessage::ClientJoined));
    assert_eq!(register_reply_tag(1), Ok(()));
    assert_eq!(register_reply_tag(2), Err(RelayError::RoomUnavailable));
    let created = ServerMessage::RoomCreated("xyz".to_string()).into_bytes();
    assert_eq!(register_reply_datagram(&created), Ok("xyz".to_string()));
    assert_eq!(
        register_reply_datagram(&[4]),
        Err(RelayError::UnexpectedMessage("Expected RoomCreated. Got Client Left".to_string()))
    );
    assert_eq!(register_reply_datagram(&[]), Err(RelayError::InvalidMessage(MessageError::EmptyData)));
}

#[test]
fn waiting_for_the_other_peer() {
    assert_eq!(wait_reply(ServerMessage::ClientJoined), Ok(()));
    assert_eq!(wait_reply(ServerMessage::ClientLeft), Err(ServerMessage::ClientLeft));
    assert_eq!(wait_reply_tag(3), Ok(()));
    assert_eq!(
        wait_reply_tag(4),
        Err(RelayError::UnexpectedMessage(
            "Expected ClientJoined message (tag 3), got tag 4".to_string()
        ))
    );
    assert_eq!(wait_reply_datagram(1, 3), Ok(()));
    assert_eq!(
        wait_reply_datagram(2, 3),
        Err(RelayError::UnexpectedMessage(
            "Expected ClientJoined with len=1. Got msg with len=2".to_string()
        ))
    );
}

#[test]
fn actor_steps_after_each_message() {
    let mut c = ErrorCounter::new();
    assert_eq!(c.after_receive(true), ActorStep::Continue);
    assert_eq!(c.get(), 0);
    assert_eq!(c.after_receive(false), ActorStep::LeaveAndStop);
    assert_eq!(c.get(), 1);
    let mut d = ErrorCounter::new();
    assert_eq!(d.after_send(false), ActorStep::Stop);
    assert_eq!(d.after_send(true), ActorStep::Continue);
    assert_eq!(d.get(), 0);
}
