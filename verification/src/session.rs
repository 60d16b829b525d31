//! What a peer makes of the relay's replies while it creates a room, joins
//! one, or waits for the other peer: over a WebSocket the reply is a message,
//! over TCP and UDP its first byte decides.
use vstd::prelude::*;

use crate::message::common::{tag_byte, MessageError, Tags};
use crate::message::server::{
    server_decode, server_display, server_len_fits, ServerMessage, ServerMessageView,
};
use crate::wire::{concat, decimal, decimal_string};

verus! {

/// Why a peer could not create, join or wait in a room.
#[derive(Debug, Clone, PartialEq, Eq)]
pub enum RelayError {
    /// The relay refused the room.
    RoomUnavailable,
    /// The relay sent something else than the reply awaited.
    UnexpectedMessage(String),
    /// The relay's reply could not be read as a message.
    InvalidMessage(MessageError),
}

/// A relay error over texts of characters.
pub enum RelayErrorView {
    RoomUnavailable,
    UnexpectedMessage(Seq<char>),
    InvalidMessage(MessageError),
}

impl View for RelayError {
    type V = RelayErrorView;

    open spec fn view(&self) -> RelayErrorView {
        match self {
            RelayError::RoomUnavailable => RelayErrorView::RoomUnavailable,
            RelayError::UnexpectedMessage(s) => RelayErrorView::UnexpectedMessage(s@),
            RelayError::InvalidMessage(e) => RelayErrorView::InvalidMessage(*e),
        }
    }
}

/// The view of an outcome without a value.
pub open spec fn unit_view(r: Result<(), RelayError>) -> Result<(), RelayErrorView> {
    match r {
        Ok(()) => Ok(()),
        Err(e) => Err(e@),
    }
}

/// The view of an outcome that names a room.
pub open spec fn room_view(r: Result<String, RelayError>) -> Result<Seq<char>, RelayErrorView> {
    match r {
        Ok(s) => Ok(s@),
        Err(e) => Err(e@),
    }
}

/// The view of an outcome that names a room or gives back the reply.
pub open spec fn room_or_reply_view(r: Result<String, ServerMessage>) -> Result<
    Seq<char>,
    ServerMessageView,
> {
    match r {
        Ok(s) => Ok(s@),
        Err(m) => Err(m@),
    }
}

/// The view of an outcome that gives back the reply.
pub open spec fn reply_view(r: Result<(), ServerMessage>) -> Result<(), ServerMessageView> {
    match r {
        Ok(()) => Ok(()),
        Err(m) => Err(m@),
    }
}

/// A join request succeeds on the relay's confirmation, and the room is
/// unavailable on anything else.
pub open spec fn join_outcome(confirmed: bool) -> Result<(), RelayErrorView> {
    if confirmed {
        Ok(())
    } else {
        Err(RelayErrorView::RoomUnavailable)
    }
}

/// What a peer makes of the relay's reply to its join request over a WebSocket.
pub fn join_reply(reply: &ServerMessage) -> (r: Result<(), RelayError>)
    ensures
        unit_view(r) == join_outcome(reply@ is JoinedSuccessfully),
{
    match reply {
        ServerMessage::JoinedSuccessfully => Ok(()),
        _ => Err(RelayError::RoomUnavailable),
    }
}

/// What a peer makes of the first byte of the relay's reply to its join
/// request over TCP.
pub fn join_reply_tag(tag: u8) -> (r: Result<(), RelayError>)
    ensures
        unit_view(r) == join_outcome(tag == tag_byte(Tags::JoinedSuccessfully)),
{
    if tag == Tags::JoinedSuccessfully.as_u8() {
        Ok(())
    } else {
        Err(RelayError::RoomUnavailable)
    }
}

/// The complaint about a datagram of `len` bytes where one byte was awaited.
pub open spec fn one_byte_join_text(len: nat) -> Seq<char> {
    "Expected message with len=1. Got len="@ + decimal(len)
}

/// What a peer makes of the relay's reply to its join request over UDP: the
/// datagram's length, and its first byte.
pub fn join_reply_datagram(len: usize, tag: u8) -> (r: Result<(), RelayError>)
    ensures
        len != 1 ==> unit_view(r) == Err::<(), RelayErrorView>(
            RelayErrorView::UnexpectedMessage(one_byte_join_text(len as nat)),
        ),
        len == 1 ==> unit_view(r) == join_outcome(tag == tag_byte(Tags::JoinedSuccessfully)),
{
    if len != 1 {
        let text = concat(String::from_str("Expected message with len=1. Got len="), decimal_string(len).as_str());
        proof {
            reveal_strlit("Expected message with len=1. Got len=");
        }
        return Err(RelayError::UnexpectedMessage(text));
    }
    join_reply_tag(tag)
}

/// The room that the relay created, from its reply over a WebSocket; any
/// other reply is given back.
pub fn register_reply(reply: ServerMessage) -> (r: Result<String, ServerMessage>)
    ensures
        room_or_reply_view(r) == match reply@ {
            ServerMessageView::RoomCreated(id) => Ok::<Seq<char>, ServerMessageView>(id),
            m => Err(m),
        },
{
    match reply {
        ServerMessage::RoomCreated(id) => Ok(id),
        m => Err(m),
    }
}

/// Whether the first byte of the relay's reply over TCP announces a created
/// room, whose name follows; the room is unavailable otherwise.
pub fn register_reply_tag(tag: u8) -> (r: Result<(), RelayError>)
    ensures
        unit_view(r) == join_outcome(tag == tag_byte(Tags::RoomCreated)),
{
    if tag == Tags::RoomCreated.as_u8() {
        Ok(())
    } else {
        Err(RelayError::RoomUnavailable)
    }
}

/// The complaint about a reply that is not the creation of a room, with how
/// the reply shows.
pub open spec fn not_created_text(shown: Seq<char>) -> Seq<char> {
    "Expected RoomCreated. Got "@ + shown
}

/// The room that the relay created, from its reply datagram over UDP: the
/// datagram must hold a message, and the message must name the room.
pub open spec fn register_datagram_outcome(data: Seq<u8>) -> Result<Seq<char>, RelayErrorView> {
    match server_decode(data) {
        Err(e) => Err(RelayErrorView::InvalidMessage(e)),
        Ok(ServerMessageView::RoomCreated(id)) => Ok(id),
        Ok(m) => Err(RelayErrorView::UnexpectedMessage(not_created_text(server_display(m)))),
    }
}

/// The room that the relay created, from its reply datagram over UDP.
pub fn register_reply_datagram(data: &[u8]) -> (r: Result<String, RelayError>)
    ensures
        room_view(r) == register_datagram_outcome(data@),
{
    match ServerMessage::try_from(data) {
        Err(e) => Err(RelayError::InvalidMessage(e)),
        Ok(ServerMessage::RoomCreated(id)) => Ok(id),
        Ok(m) => {
            assert(server_len_fits(m@));
            let shown = m.to_string();
            let text = concat(String::from_str("Expected RoomCreated. Got "), shown.as_str());
            proof {
                reveal_strlit("Expected RoomCreated. Got ");
            }
            Err(RelayError::UnexpectedMessage(text))
        },
    }
}

/// Whether the relay's message over a WebSocket announces the other peer;
/// any other message is given back.
pub fn wait_reply(reply: ServerMessage) -> (r: Result<(), ServerMessage>)
    ensures
        reply_view(r) == if reply@ is ClientJoined {
            Ok::<(), ServerMessageView>(())
        } else {
            Err(reply@)
        },
{
    match reply {
        ServerMessage::ClientJoined => Ok(()),
        m => Err(m),
    }
}

/// The complaint about a first byte that does not announce the other peer.
pub open spec fn not_joined_text(tag: u8) -> Seq<char> {
    "Expected ClientJoined message (tag "@ + decimal(tag_byte(Tags::ClientJoined) as nat)
        + "), got tag "@ + decimal(tag as nat)
}

/// Whether the first byte of the relay's message over TCP announces the other
/// peer.
pub fn wait_reply_tag(tag: u8) -> (r: Result<(), RelayError>)
    ensures
        tag == tag_byte(Tags::ClientJoined) ==> r is Ok,
        tag != tag_byte(Tags::ClientJoined) ==> unit_view(r) == Err::<(), RelayErrorView>(
            RelayErrorView::UnexpectedMessage(not_joined_text(tag)),
        ),
{
    let joined = Tags::ClientJoined.as_u8();
    if tag == joined {
        return Ok(());
    }
    let text = concat(String::from_str("Expected ClientJoined message (tag "), decimal_string(joined as usize).as_str());
    let text = concat(text, "), got tag ");
    let text = concat(text, decimal_string(tag as usize).as_str());
    proof {
        reveal_strlit("Expected ClientJoined message (tag ");
        reveal_strlit("), got tag ");
    }
    Err(RelayError::UnexpectedMessage(text))
}

/// The complaint about a datagram of `len` bytes where the one-byte
/// announcement of the other peer was awaited.
pub open spec fn one_byte_wait_text(len: nat) -> Seq<char> {
    "Expected ClientJoined with len=1. Got msg with len="@ + decimal(len)
}

/// Whether the relay's datagram over UDP, of `len` bytes opening with `tag`,
/// announces the other peer.
pub fn wait_reply_datagram(len: usize, tag: u8) -> (r: Result<(), RelayError>)
    ensures
        len != 1 ==> unit_view(r) == Err::<(), RelayErrorView>(
            RelayErrorView::UnexpectedMessage(one_byte_wait_text(len as nat)),
        ),
        len == 1 && tag == tag_byte(Tags::ClientJoined) ==> r is Ok,
        len == 1 && tag != tag_byte(Tags::ClientJoined) ==> unit_view(r) == Err::<
            (),
            RelayErrorView,
        >(RelayErrorView::UnexpectedMessage(not_joined_text(tag))),
{
    if len != 1 {
        let text = concat(
            String::from_str("Expected ClientJoined with len=1. Got msg with len="),
            decimal_string(len).as_str(),
        );
        proof {
            reveal_strlit("Expected ClientJoined with len=1. Got msg with len=");
        }
        return Err(RelayError::UnexpectedMessage(text));
    }
    wait_reply_tag(tag)
}

} // verus!
