use vstd::prelude::*;

use crate::message::client::{client_encode, client_encodable, ClientMessageView};
use crate::message::common::{tag_byte, Tags};
use crate::message::server::{server_encode, server_encodable, ServerMessageView};
use crate::wire::{
    announced_len, be_value, bytes_to_vec, lemma_len_prefixed_parts,
    u64_from_be,
};

verus! {

/// Tags of messages that are the tag alone.
pub open spec fn tag_only(tag: u8) -> bool {
    tag == tag_byte(Tags::CreateRoom) || tag == tag_byte(Tags::LeaveRoom) || tag == tag_byte(
        Tags::JoinedSuccessfully,
    ) || tag == tag_byte(Tags::ClientJoined) || tag == tag_byte(Tags::ClientLeft) || tag
        == tag_byte(Tags::ServerClosed) || tag == tag_byte(Tags::Close) || tag == tag_byte(
        Tags::Frame,
    )
}

/// Tags of messages that carry a length and content.
pub open spec fn tag_with_payload(tag: u8) -> bool {
    tag == tag_byte(Tags::Text) || tag == tag_byte(Tags::Binary) || tag == tag_byte(Tags::Ping)
        || tag == tag_byte(Tags::Pong) || tag == tag_byte(Tags::RoomCreated) || tag == tag_byte(
        Tags::JoinRoom,
    ) || tag == tag_byte(Tags::Error)
}

/// Whether a message with this tag is the tag alone.
pub fn is_tag_only_message(tag: u8) -> (b: bool)
    ensures
        b == tag_only(tag),
{
    tag == Tags::CreateRoom.as_u8() || tag == Tags::LeaveRoom.as_u8() || tag
        == Tags::JoinedSuccessfully.as_u8() || tag == Tags::ClientJoined.as_u8() || tag
        == Tags::ClientLeft.as_u8() || tag == Tags::ServerClosed.as_u8() || tag
        == Tags::Close.as_u8() || tag == Tags::Frame.as_u8()
}

/// The text of the refusal of a tag that is neither alone nor followed by content.
pub open spec fn unexpected_tag_text() -> Seq<char> {
    "Received a message with an unexpected tag"@
}

/// Accepts a tag that carries a length and content, and refuses any other.
pub fn validate_tag_with_payload(tag: u8) -> (r: Result<(), String>)
    ensures
        match r {
            Ok(()) => tag_with_payload(tag),
            Err(s) => !tag_with_payload(tag) && s@ == unexpected_tag_text(),
        },
{
    if !(tag == Tags::Text.as_u8() || tag == Tags::Binary.as_u8() || tag == Tags::Ping.as_u8()
        || tag == Tags::Pong.as_u8() || tag == Tags::RoomCreated.as_u8() || tag
        == Tags::JoinRoom.as_u8() || tag == Tags::Error.as_u8()) {
        return Err(String::from_str("Received a message with an unexpected tag"));
    }
    Ok(())
}

/// Why a datagram is not a whole message.
#[derive(Debug, Clone, PartialEq, Eq)]
pub enum DatagramError {
    /// The datagram is empty.
    Empty,
    /// A tag-only message has more bytes than its tag; this is its length.
    TagOnlyTooLong(usize),
    /// The tag is neither alone nor followed by content; the text says so.
    UnexpectedTag(String),
    /// The datagram is shorter than a tag and a length; this is its length.
    TooShort(usize),
    /// The datagram's length is not that of the tag, the length and the
    /// announced content.
    LengthMismatch { announced: u64, got: usize },
}

/// A datagram that is one whole message, byte for byte.
pub open spec fn datagram_ok(data: Seq<u8>) -> bool {
    &&& data.len() > 0
    &&& if tag_only(data[0]) {
        data.len() == 1
    } else {
        tag_with_payload(data[0]) && data.len() >= 9 && data.len() == 9 + announced_len(data)
    }
}

/// Accepts a datagram that holds exactly one message and gives its bytes;
/// else says what is wrong with it, checking in this order: empty, a tag
/// alone with more bytes, an unknown tag, too short for a length, a length
/// that does not match.
pub fn validate_datagram(data: &[u8]) -> (r: Result<Vec<u8>, DatagramError>)
    ensures
        match r {
            Ok(v) => datagram_ok(data@) && v@ == data@,
            Err(DatagramError::Empty) => data@.len() == 0,
            Err(DatagramError::TagOnlyTooLong(n)) => data@.len() > 1 && tag_only(data@[0]) && n
                == data@.len(),
            Err(DatagramError::UnexpectedTag(s)) => data@.len() > 0 && !tag_only(data@[0])
                && !tag_with_payload(data@[0]) && s@ == unexpected_tag_text(),
            Err(DatagramError::TooShort(n)) => data@.len() > 0 && !tag_only(data@[0])
                && tag_with_payload(data@[0]) && data@.len() < 9 && n == data@.len(),
            Err(DatagramError::LengthMismatch { announced, got }) => data@.len() >= 9 && !tag_only(
                data@[0],
            ) && tag_with_payload(data@[0]) && announced == announced_len(data@) && got
                == data@.len() && got != 9 + announced,
        },
{
    let len = data.len();
    if len == 0 {
        return Err(DatagramError::Empty);
    }
    let tag = data[0];
    if is_tag_only_message(tag) {
        if len != 1 {
            return Err(DatagramError::TagOnlyTooLong(len));
        }
        return Ok(bytes_to_vec(data));
    }
    match validate_tag_with_payload(tag) {
        Err(msg) => return Err(DatagramError::UnexpectedTag(msg)),
        Ok(()) => {},
    }
    if len < 9 {
        return Err(DatagramError::TooShort(len));
    }
    let announced = u64_from_be(vstd::slice::slice_subrange(data, 1, 9));
    if announced > (len - 9) as u64 || (announced as usize) != len - 9 {
        return Err(DatagramError::LengthMismatch { announced, got: len });
    }
    Ok(bytes_to_vec(data))
}

/// How a stream frame goes on after its tag.
#[derive(Debug, Clone, PartialEq, Eq)]
pub enum FrameStart {
    /// The tag is the whole frame.
    TagOnly,
    /// Eight bytes of length follow, then that many bytes of content.
    NeedsLength,
}

/// How a frame read by a connection goes on after this tag: a tag alone, a
/// tag followed by a length and content, or a tag the connection refuses.
pub fn stream_frame_start(tag: u8) -> (r: Result<FrameStart, String>)
    ensures
        match r {
            Ok(FrameStart::TagOnly) => tag_only(tag),
            Ok(FrameStart::NeedsLength) => !tag_only(tag) && tag_with_payload(tag),
            Err(s) => !tag_only(tag) && !tag_with_payload(tag) && s@ == unexpected_tag_text(),
        },
{
    if is_tag_only_message(tag) {
        return Ok(FrameStart::TagOnly);
    }
    match validate_tag_with_payload(tag) {
        Ok(()) => Ok(FrameStart::NeedsLength),
        Err(s) => Err(s),
    }
}

/// Tags that the relay reads alone from a client's stream: those of
/// `tag_only` but the relay's own closing notice.
pub open spec fn client_tag_only(tag: u8) -> bool {
    tag_only(tag) && tag != tag_byte(Tags::ServerClosed)
}

/// How a frame read by the relay from a client's stream goes on after this
/// tag; the relay's own closing notice is refused there.
pub fn client_stream_frame_start(tag: u8) -> (r: Result<FrameStart, String>)
    ensures
        match r {
            Ok(FrameStart::TagOnly) => client_tag_only(tag),
            Ok(FrameStart::NeedsLength) => !client_tag_only(tag) && tag_with_payload(tag),
            Err(s) => !client_tag_only(tag) && !tag_with_payload(tag) && s@ == unexpected_tag_text(),
        },
{
    if tag != Tags::ServerClosed.as_u8() && is_tag_only_message(tag) {
        return Ok(FrameStart::TagOnly);
    }
    match validate_tag_with_payload(tag) {
        Ok(()) => Ok(FrameStart::NeedsLength),
        Err(s) => Err(s),
    }
}

/// The content length that eight length bytes announce.
pub fn announced_length(len_bytes: &[u8]) -> (n: u64)
    requires
        len_bytes@.len() == 8,
    ensures
        n == be_value(len_bytes@),
{
    u64_from_be(len_bytes)
}

/// A frame put back together from its tag, its length bytes and its content.
pub fn assemble_frame(tag: u8, len_bytes: &[u8], payload: &[u8]) -> (r: Vec<u8>)
    ensures
        r@ == seq![tag] + len_bytes@ + payload@,
{
    let mut v: Vec<u8> = Vec::new();
    v.push(tag);
    v.extend_from_slice(len_bytes);
    v.extend_from_slice(payload);
    assert(v@ =~= seq![tag] + len_bytes@ + payload@);
    v
}

/// The bytes of every client message pass as one whole datagram.
pub proof fn lemma_client_datagram_ok(m: ClientMessageView)
    requires
        client_encodable(m),
    ensures
        datagram_ok(client_encode(m)),
{
    match m {
        ClientMessageView::Text(s) => lemma_len_prefixed_parts(tag_byte(Tags::Text), vstd::utf8::encode_utf8(s)),
        ClientMessageView::Binary(d) => lemma_len_prefixed_parts(tag_byte(Tags::Binary), d),
        ClientMessageView::Ping(d) => lemma_len_prefixed_parts(tag_byte(Tags::Ping), d),
        ClientMessageView::Pong(d) => lemma_len_prefixed_parts(tag_byte(Tags::Pong), d),
        ClientMessageView::JoinRoom(s) => lemma_len_prefixed_parts(tag_byte(Tags::JoinRoom), vstd::utf8::encode_utf8(s)),
        ClientMessageView::Error(s) => lemma_len_prefixed_parts(tag_byte(Tags::Error), vstd::utf8::encode_utf8(s)),
        _ => {},
    }
}


/// The bytes of every server message pass as one whole datagram.
pub proof fn lemma_server_datagram_ok(m: ServerMessageView)
    requires
        server_encodable(m),
    ensures
        datagram_ok(server_encode(m)),
{
    match m {
        ServerMessageView::Text(s) => lemma_len_prefixed_parts(tag_byte(Tags::Text), vstd::utf8::encode_utf8(s)),
        ServerMessageView::Binary(d) => lemma_len_prefixed_parts(tag_byte(Tags::Binary), d),
        ServerMessageView::Ping(d) => lemma_len_prefixed_parts(tag_byte(Tags::Ping), d),
        ServerMessageView::Pong(d) => lemma_len_prefixed_parts(tag_byte(Tags::Pong), d),
        ServerMessageView::RoomCreated(s) => lemma_len_prefixed_parts(tag_byte(Tags::RoomCreated), vstd::utf8::encode_utf8(s)),
        ServerMessageView::Error(s) => lemma_len_prefixed_parts(tag_byte(Tags::Error), vstd::utf8::encode_utf8(s)),
        _ => {},
    }
}

/// A whole message read from a stream, tag, length bytes and content put back
/// together, is the message's bytes: every encoded message either is a tag
/// alone or starts with a tag that announces content, and its bytes are that
/// tag, eight length bytes and as many content bytes as they announce.
pub proof fn lemma_client_stream_reassembly(m: ClientMessageView)
    requires
        client_encodable(m),
    ensures
        tag_only(client_encode(m)[0]) ==> client_encode(m).len() == 1,
        !tag_only(client_encode(m)[0]) ==> tag_with_payload(client_encode(m)[0])
            && client_encode(m) == seq![client_encode(m)[0]] + client_encode(m).subrange(1, 9)
            + client_encode(m).subrange(9, 9 + be_value(client_encode(m).subrange(1, 9)))
            && client_encode(m).len() == 9 + be_value(client_encode(m).subrange(1, 9)),
{
    let e = client_encode(m);
    lemma_client_datagram_ok(m);
    if !tag_only(e[0]) {
        assert(e =~= seq![e[0]] + e.subrange(1, 9) + e.subrange(9, 9 + be_value(e.subrange(1, 9))));
    }
}

/// The relay reads the stream of a client by each message's first byte, and
/// reads every message that a client sends as it was written: where the
/// message is its tag alone (creating or leaving a room, closing, a raw frame)
/// the tag is taken as a whole frame, and any other message's tag is taken as
/// one that eight length bytes follow. No tag of a client message is refused.
pub proof fn lemma_client_tags_read_by_relay(m: ClientMessageView, r: Result<FrameStart, String>)
    requires
        client_encodable(m),
        match r {
            Ok(FrameStart::TagOnly) => client_tag_only(client_encode(m)[0]),
            Ok(FrameStart::NeedsLength) => !client_tag_only(client_encode(m)[0]) && tag_with_payload(
                client_encode(m)[0],
            ),
            Err(s) => !client_tag_only(client_encode(m)[0]) && !tag_with_payload(client_encode(m)[0])
                && s@ == unexpected_tag_text(),
        },
    ensures
        r is Ok,
        r matches Ok(FrameStart::TagOnly) <==> client_encode(m).len() == 1,
        r matches Ok(FrameStart::NeedsLength) <==> client_encode(m).len() > 1,
{
    lemma_client_datagram_ok(m);
    match m {
        ClientMessageView::Text(s) => lemma_len_prefixed_parts(tag_byte(Tags::Text), vstd::utf8::encode_utf8(s)),
        ClientMessageView::Binary(d) => lemma_len_prefixed_parts(tag_byte(Tags::Binary), d),
        ClientMessageView::Ping(d) => lemma_len_prefixed_parts(tag_byte(Tags::Ping), d),
        ClientMessageView::Pong(d) => lemma_len_prefixed_parts(tag_byte(Tags::Pong), d),
        ClientMessageView::JoinRoom(s) => lemma_len_prefixed_parts(tag_byte(Tags::JoinRoom), vstd::utf8::encode_utf8(s)),
        ClientMessageView::Error(s) => lemma_len_prefixed_parts(tag_byte(Tags::Error), vstd::utf8::encode_utf8(s)),
        _ => {},
    }
}

/// What the relay's reader of a client's stream makes of each first byte: the
/// tags of messages that are a tag alone (a peer joined or left, joined
/// successfully, create or leave a room, close, raw frame) are whole frames;
/// the tags of messages with content (room created, join a room, error, text,
/// binary, ping, pong) are followed by a length; the relay's own closing
/// notice and every other byte are refused.
pub proof fn lemma_client_frame_start_by_tag(tag: u8, r: Result<FrameStart, String>)
    requires
        match r {
            Ok(FrameStart::TagOnly) => client_tag_only(tag),
            Ok(FrameStart::NeedsLength) => !client_tag_only(tag) && tag_with_payload(tag),
            Err(s) => !client_tag_only(tag) && !tag_with_payload(tag) && s@ == unexpected_tag_text(),
        },
    ensures
        r matches Ok(FrameStart::TagOnly) <==> (tag == 2 || tag == 3 || tag == 4 || tag == 6 || tag
            == 8 || tag == 14 || tag == 15),
        r matches Ok(FrameStart::NeedsLength) <==> (tag == 1 || 7 <= tag <= 13) && tag != 8,
        r is Err <==> tag == 0 || tag == 5 || tag > 15,
{
}

} // verus!
