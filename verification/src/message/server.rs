use vstd::prelude::*;
use vstd::utf8::*;

use crate::message::client::{client_to_ws, ClientMessageView};
use crate::message::common::{tag_byte, MessageError, Tags};
use crate::message::ws::{
    close_view, empty_frame_view, frame_len, frame_len_fits, CloseFrameView, Frame, FrameView,
    WsMessage, WsMessageView, CloseFrame,
};
use crate::wire::{
    after_first, announced_len, announced_payload, bytes_to_vec, decode_text, decode_text_or_empty,
    encode_len_prefixed, encode_tagged, len_prefixed, string_bytes, tagged, u64_from_be,
    lemma_len_prefixed_parts, lemma_utf8_roundtrip,
    utf8_or_empty, utf8_result, view_text, single_byte, binary_label, binary_label_string,
};

verus! {

broadcast use vstd::utf8::group_utf8_lib;

/// A message that the relay sends to a client.
#[derive(Debug, Clone, PartialEq, Eq)]
pub enum ServerMessage {
    Text(String),
    Binary(Vec<u8>),
    Ping(Vec<u8>),
    Pong(Vec<u8>),
    Close(Option<CloseFrame>),
    Frame(Frame),
    RoomCreated(String),
    JoinedSuccessfully,
    ClientJoined,
    ClientLeft,
    Error(String),
    /// The relay is closing; every peer in a room is told so when it shuts
    /// down. On a stream or in a datagram it is its tag alone, 5, and that
    /// byte reads back as this message.
    ServerClosed,
}

/// A server message over sequences.
pub enum ServerMessageView {
    Text(Seq<char>),
    Binary(Seq<u8>),
    Ping(Seq<u8>),
    Pong(Seq<u8>),
    Close(Option<CloseFrameView>),
    Frame(FrameView),
    RoomCreated(Seq<char>),
    JoinedSuccessfully,
    ClientJoined,
    ClientLeft,
    Error(Seq<char>),
    ServerClosed,
}

impl View for ServerMessage {
    type V = ServerMessageView;

    open spec fn view(&self) -> ServerMessageView {
        match self {
            ServerMessage::Text(s) => ServerMessageView::Text(s@),
            ServerMessage::Binary(d) => ServerMessageView::Binary(d@),
            ServerMessage::Ping(d) => ServerMessageView::Ping(d@),
            ServerMessage::Pong(d) => ServerMessageView::Pong(d@),
            ServerMessage::Close(c) => ServerMessageView::Close(close_view(*c)),
            ServerMessage::Frame(f) => ServerMessageView::Frame(f@),
            ServerMessage::RoomCreated(s) => ServerMessageView::RoomCreated(s@),
            ServerMessage::JoinedSuccessfully => ServerMessageView::JoinedSuccessfully,
            ServerMessage::ClientJoined => ServerMessageView::ClientJoined,
            ServerMessage::ClientLeft => ServerMessageView::ClientLeft,
            ServerMessage::Error(s) => ServerMessageView::Error(s@),
            ServerMessage::ServerClosed => ServerMessageView::ServerClosed,
        }
    }
}

/// The view of a decoding result.
pub open spec fn server_result_view(r: Result<ServerMessage, MessageError>) -> Result<
    ServerMessageView,
    MessageError,
> {
    match r {
        Ok(m) => Ok(m@),
        Err(e) => Err(e),
    }
}

/// The bytes of a server message on a stream or in a datagram: a tag, then for
/// a message with content its length as eight big-endian bytes and the content.
pub open spec fn server_encode(m: ServerMessageView) -> Seq<u8> {
    match m {
        ServerMessageView::Text(s) => len_prefixed(tag_byte(Tags::Text), encode_utf8(s)),
        ServerMessageView::Binary(d) => len_prefixed(tag_byte(Tags::Binary), d),
        ServerMessageView::Ping(d) => len_prefixed(tag_byte(Tags::Ping), d),
        ServerMessageView::Pong(d) => len_prefixed(tag_byte(Tags::Pong), d),
        ServerMessageView::Close(_) => seq![tag_byte(Tags::Close)],
        ServerMessageView::Frame(_) => seq![tag_byte(Tags::Frame)],
        ServerMessageView::RoomCreated(s) => len_prefixed(tag_byte(Tags::RoomCreated), encode_utf8(s)),
        ServerMessageView::JoinedSuccessfully => seq![tag_byte(Tags::JoinedSuccessfully)],
        ServerMessageView::ClientJoined => seq![tag_byte(Tags::ClientJoined)],
        ServerMessageView::ClientLeft => seq![tag_byte(Tags::ClientLeft)],
        ServerMessageView::Error(s) => len_prefixed(tag_byte(Tags::Error), encode_utf8(s)),
        ServerMessageView::ServerClosed => seq![tag_byte(Tags::ServerClosed)],
    }
}

/// The server message that bytes on a stream or in a datagram stand for, or
/// why they stand for none. Bytes after the announced content are ignored.
pub open spec fn server_decode(data: Seq<u8>) -> Result<ServerMessageView, MessageError> {
    if data.len() == 0 {
        Err(MessageError::EmptyData)
    } else if data.len() == 1 {
        let tag = data[0];
        if tag == tag_byte(Tags::JoinedSuccessfully) {
            Ok(ServerMessageView::JoinedSuccessfully)
        } else if tag == tag_byte(Tags::ClientJoined) {
            Ok(ServerMessageView::ClientJoined)
        } else if tag == tag_byte(Tags::ClientLeft) {
            Ok(ServerMessageView::ClientLeft)
        } else if tag == tag_byte(Tags::ServerClosed) {
            Ok(ServerMessageView::ServerClosed)
        } else if tag == tag_byte(Tags::Close) {
            Ok(ServerMessageView::Close(None))
        } else if tag == tag_byte(Tags::Frame) {
            Ok(ServerMessageView::Frame(empty_frame_view()))
        } else {
            Err(MessageError::InvalidTag(tag))
        }
    } else if data.len() < 9 || data.len() < 9 + announced_len(data) {
        Err(MessageError::InsufficientData)
    } else {
        let tag = data[0];
        let p = announced_payload(data);
        if tag == tag_byte(Tags::Text) {
            match utf8_result(p) {
                Ok(s) => Ok(ServerMessageView::Text(s)),
                Err(e) => Err(e),
            }
        } else if tag == tag_byte(Tags::Binary) {
            Ok(ServerMessageView::Binary(p))
        } else if tag == tag_byte(Tags::Ping) {
            Ok(ServerMessageView::Ping(p))
        } else if tag == tag_byte(Tags::Pong) {
            Ok(ServerMessageView::Pong(p))
        } else if tag == tag_byte(Tags::RoomCreated) {
            match utf8_result(p) {
                Ok(s) => Ok(ServerMessageView::RoomCreated(s)),
                Err(e) => Err(e),
            }
        } else if tag == tag_byte(Tags::Error) {
            match utf8_result(p) {
                Ok(s) => Ok(ServerMessageView::Error(s)),
                Err(e) => Err(e),
            }
        } else {
            Err(MessageError::InvalidTag(tag))
        }
    }
}

/// The WebSocket message that carries a server message: text, ping, pong,
/// close and raw frames as they are, the rest as a binary message that starts
/// with the tag and goes on with the content, with no length.
pub open spec fn server_to_ws(m: ServerMessageView) -> WsMessageView {
    match m {
        ServerMessageView::Text(s) => WsMessageView::Text(s),
        ServerMessageView::Ping(d) => WsMessageView::Ping(d),
        ServerMessageView::Pong(d) => WsMessageView::Pong(d),
        ServerMessageView::Close(c) => WsMessageView::Close(c),
        ServerMessageView::Frame(f) => WsMessageView::Frame(f),
        ServerMessageView::Binary(d) => WsMessageView::Binary(tagged(tag_byte(Tags::Binary), d)),
        ServerMessageView::RoomCreated(s) => WsMessageView::Binary(
            tagged(tag_byte(Tags::RoomCreated), encode_utf8(s)),
        ),
        ServerMessageView::JoinedSuccessfully => WsMessageView::Binary(
            seq![tag_byte(Tags::JoinedSuccessfully)],
        ),
        ServerMessageView::ClientJoined => WsMessageView::Binary(seq![tag_byte(Tags::ClientJoined)]),
        ServerMessageView::ClientLeft => WsMessageView::Binary(seq![tag_byte(Tags::ClientLeft)]),
        ServerMessageView::ServerClosed => WsMessageView::Binary(seq![tag_byte(Tags::ServerClosed)]),
        ServerMessageView::Error(s) => WsMessageView::Binary(
            tagged(tag_byte(Tags::Error), encode_utf8(s)),
        ),
    }
}

/// The server message that a WebSocket message carries. A binary message is
/// read by its first byte; one with an unknown first byte stays binary data.
pub open spec fn server_from_ws(w: WsMessageView) -> ServerMessageView {
    match w {
        WsMessageView::Text(s) => ServerMessageView::Text(s),
        WsMessageView::Binary(d) => {
            if d.len() == 0 {
                ServerMessageView::Binary(Seq::empty())
            } else {
                let tag = d[0];
                let p = d.subrange(1, d.len() as int);
                if tag == tag_byte(Tags::RoomCreated) {
                    ServerMessageView::RoomCreated(utf8_or_empty(p))
                } else if tag == tag_byte(Tags::JoinedSuccessfully) {
                    ServerMessageView::JoinedSuccessfully
                } else if tag == tag_byte(Tags::ClientJoined) {
                    ServerMessageView::ClientJoined
                } else if tag == tag_byte(Tags::ClientLeft) {
                    ServerMessageView::ClientLeft
                } else if tag == tag_byte(Tags::ServerClosed) {
                    ServerMessageView::ServerClosed
                } else if tag == tag_byte(Tags::Error) {
                    ServerMessageView::Error(utf8_or_empty(p))
                } else if tag == tag_byte(Tags::Binary) {
                    ServerMessageView::Binary(p)
                } else {
                    ServerMessageView::Binary(d)
                }
            }
        },
        WsMessageView::Ping(d) => ServerMessageView::Ping(d),
        WsMessageView::Pong(d) => ServerMessageView::Pong(d),
        WsMessageView::Close(c) => ServerMessageView::Close(c),
        WsMessageView::Frame(f) => ServerMessageView::Frame(f),
    }
}

/// The length of a server message's content in bytes; a raw frame counts its header too.
pub open spec fn server_len(m: ServerMessageView) -> int {
    match m {
        ServerMessageView::Text(s) => encode_utf8(s).len() as int,
        ServerMessageView::Binary(d) => d.len() as int,
        ServerMessageView::Ping(d) => d.len() as int,
        ServerMessageView::Pong(d) => d.len() as int,
        ServerMessageView::Close(None) => 0,
        ServerMessageView::Close(Some(f)) => encode_utf8(f.reason).len() as int,
        ServerMessageView::Frame(f) => frame_len(f),
        _ => 0,
    }
}

/// A server message whose length fits in a `usize`.
pub open spec fn server_len_fits(m: ServerMessageView) -> bool {
    match m {
        ServerMessageView::Frame(f) => frame_len_fits(f),
        _ => true,
    }
}

/// The content of a server message as bytes.
pub open spec fn server_data(m: ServerMessageView) -> Seq<u8> {
    match m {
        ServerMessageView::Text(s) => encode_utf8(s),
        ServerMessageView::Binary(d) => d,
        ServerMessageView::Ping(d) => d,
        ServerMessageView::Pong(d) => d,
        ServerMessageView::Close(None) => Seq::empty(),
        ServerMessageView::Close(Some(f)) => encode_utf8(f.reason),
        ServerMessageView::Frame(f) => f.payload,
        ServerMessageView::RoomCreated(s) => encode_utf8(s),
        ServerMessageView::Error(s) => encode_utf8(s),
        _ => Seq::empty(),
    }
}

/// The content of a server message as text, as `into_text` gives it.
pub open spec fn server_into_text(m: ServerMessageView) -> Result<Seq<char>, MessageError> {
    match m {
        ServerMessageView::Text(s) => Ok(s),
        ServerMessageView::Binary(d) => utf8_result(d),
        ServerMessageView::Ping(d) => utf8_result(d),
        ServerMessageView::Pong(d) => utf8_result(d),
        ServerMessageView::Close(None) => Ok(Seq::empty()),
        ServerMessageView::Close(Some(f)) => Ok(f.reason),
        ServerMessageView::Frame(f) => utf8_result(f.payload),
        ServerMessageView::RoomCreated(s) => Ok(s),
        ServerMessageView::Error(s) => Ok(s),
        _ => Ok(Seq::empty()),
    }
}

/// The text of a server message, as `to_text` gives it: the content, or a
/// name for a message without content.
pub open spec fn server_to_text(m: ServerMessageView) -> Result<Seq<char>, MessageError> {
    match m {
        ServerMessageView::Text(s) => Ok(s),
        ServerMessageView::Binary(d) => utf8_result(d),
        ServerMessageView::Ping(d) => utf8_result(d),
        ServerMessageView::Pong(d) => utf8_result(d),
        ServerMessageView::Close(None) => Ok("Close"@),
        ServerMessageView::Close(Some(f)) => Ok(f.reason),
        ServerMessageView::Frame(f) => utf8_result(f.payload),
        ServerMessageView::RoomCreated(s) => Ok(s),
        ServerMessageView::Error(s) => Ok(s),
        ServerMessageView::JoinedSuccessfully => Ok("Joined Successfully"@),
        ServerMessageView::ClientLeft => Ok("Client Left"@),
        ServerMessageView::ClientJoined => Ok("Client Joined"@),
        ServerMessageView::ServerClosed => Ok("Server Closed"@),
    }
}

/// Whether a text result and a slice result agree.
pub open spec fn text_matches(r: Result<&str, MessageError>, t: Result<Seq<char>, MessageError>) -> bool {
    match (r, t) {
        (Ok(s), Ok(u)) => s@ == u,
        (Err(e), Err(f)) => e == f,
        _ => false,
    }
}

/// Whether a text result and a string result agree.
pub open spec fn string_matches(r: Result<String, MessageError>, t: Result<Seq<char>, MessageError>) -> bool {
    match (r, t) {
        (Ok(s), Ok(u)) => s@ == u,
        (Err(e), Err(f)) => e == f,
        _ => false,
    }
}

impl ServerMessage {
    /// A text message.
    pub fn text(s: String) -> (m: ServerMessage)
        ensures
            m@ == ServerMessageView::Text(s@),
    {
        ServerMessage::Text(s)
    }

    /// A binary message.
    pub fn binary(b: Vec<u8>) -> (m: ServerMessage)
        ensures
            m@ == ServerMessageView::Binary(b@),
    {
        ServerMessage::Binary(b)
    }

    pub fn is_text(&self) -> (b: bool)
        ensures
            b == (self@ is Text),
    {
        matches!(self, ServerMessage::Text(_))
    }

    pub fn is_binary(&self) -> (b: bool)
        ensures
            b == (self@ is Binary),
    {
        matches!(self, ServerMessage::Binary(_))
    }

    pub fn is_ping(&self) -> (b: bool)
        ensures
            b == (self@ is Ping),
    {
        matches!(self, ServerMessage::Ping(_))
    }

    pub fn is_pong(&self) -> (b: bool)
        ensures
            b == (self@ is Pong),
    {
        matches!(self, ServerMessage::Pong(_))
    }

    pub fn is_close(&self) -> (b: bool)
        ensures
            b == (self@ is Close),
    {
        matches!(self, ServerMessage::Close(_))
    }

    /// The length of the content in bytes.
    pub fn len(&self) -> (n: usize)
        requires
            server_len_fits(self@),
        ensures
            n == server_len(self@),
    {
        match self {
            ServerMessage::Text(s) => string_bytes(s).len(),
            ServerMessage::Binary(d) => d.len(),
            ServerMessage::Ping(d) => d.len(),
            ServerMessage::Pong(d) => d.len(),
            ServerMessage::Close(None) => 0,
            ServerMessage::Close(Some(f)) => string_bytes(&f.reason).len(),
            ServerMessage::Frame(f) => f.len(),
            _ => 0,
        }
    }

    /// Whether the content is empty.
    pub fn is_empty(&self) -> (b: bool)
        requires
            server_len_fits(self@),
        ensures
            b == (server_len(self@) == 0),
    {
        self.len() == 0
    }

    /// The content as bytes.
    pub fn into_data(self) -> (d: Vec<u8>)
        ensures
            d@ == server_data(self@),
    {
        match self {
            ServerMessage::Text(s) => bytes_to_vec(string_bytes(&s)),
            ServerMessage::Binary(d) => d,
            ServerMessage::Ping(d) => d,
            ServerMessage::Pong(d) => d,
            ServerMessage::Close(None) => Vec::new(),
            ServerMessage::Close(Some(f)) => bytes_to_vec(string_bytes(&f.reason)),
            ServerMessage::Frame(f) => f.payload,
            ServerMessage::RoomCreated(s) => bytes_to_vec(string_bytes(&s)),
            ServerMessage::Error(s) => bytes_to_vec(string_bytes(&s)),
            _ => Vec::new(),
        }
    }

    /// The content as text.
    pub fn into_text(self) -> (r: Result<String, MessageError>)
        ensures
            string_matches(r, server_into_text(self@)),
    {
        match self {
            ServerMessage::Text(s) => Ok(s),
            ServerMessage::Binary(d) => decode_text(d.as_slice()),
            ServerMessage::Ping(d) => decode_text(d.as_slice()),
            ServerMessage::Pong(d) => decode_text(d.as_slice()),
            ServerMessage::Close(None) => Ok(String::new()),
            ServerMessage::Close(Some(f)) => Ok(f.reason),
            ServerMessage::Frame(f) => decode_text(f.payload.as_slice()),
            ServerMessage::RoomCreated(s) => Ok(s),
            ServerMessage::Error(s) => Ok(s),
            _ => Ok(String::new()),
        }
    }

    /// The text of the message: its content, or a name for one without content.
    pub fn to_text(&self) -> (r: Result<&str, MessageError>)
        ensures
            text_matches(r, server_to_text(self@)),
    {
        match self {
            ServerMessage::Text(s) => Ok(s.as_str()),
            ServerMessage::Binary(d) => view_text(d.as_slice()),
            ServerMessage::Ping(d) => view_text(d.as_slice()),
            ServerMessage::Pong(d) => view_text(d.as_slice()),
            ServerMessage::Close(None) => Ok("Close"),
            ServerMessage::Close(Some(f)) => Ok(f.reason.as_str()),
            ServerMessage::Frame(f) => view_text(f.payload.as_slice()),
            ServerMessage::RoomCreated(s) => Ok(s.as_str()),
            ServerMessage::Error(s) => Ok(s.as_str()),
            ServerMessage::JoinedSuccessfully => Ok("Joined Successfully"),
            ServerMessage::ClientLeft => Ok("Client Left"),
            ServerMessage::ClientJoined => Ok("Client Joined"),
            ServerMessage::ServerClosed => Ok("Server Closed"),
        }
    }

    /// The bytes of the message on a stream or in a datagram.
    pub fn as_bytes(&self) -> (r: Vec<u8>)
        ensures
            r@ == server_encode(self@),
    {
        match self {
            ServerMessage::Text(s) => encode_len_prefixed(Tags::Text.as_u8(), string_bytes(s)),
            ServerMessage::Binary(d) => encode_len_prefixed(Tags::Binary.as_u8(), d.as_slice()),
            ServerMessage::Ping(d) => encode_len_prefixed(Tags::Ping.as_u8(), d.as_slice()),
            ServerMessage::Pong(d) => encode_len_prefixed(Tags::Pong.as_u8(), d.as_slice()),
            ServerMessage::Close(_) => single_byte(Tags::Close.as_u8()),
            ServerMessage::Frame(_) => single_byte(Tags::Frame.as_u8()),
            ServerMessage::RoomCreated(s) => encode_len_prefixed(Tags::RoomCreated.as_u8(), string_bytes(s)),
            ServerMessage::JoinedSuccessfully => single_byte(Tags::JoinedSuccessfully.as_u8()),
            ServerMessage::ClientJoined => single_byte(Tags::ClientJoined.as_u8()),
            ServerMessage::ClientLeft => single_byte(Tags::ClientLeft.as_u8()),
            ServerMessage::Error(s) => encode_len_prefixed(Tags::Error.as_u8(), string_bytes(s)),
            ServerMessage::ServerClosed => single_byte(Tags::ServerClosed.as_u8()),
        }
    }

    /// The bytes of the message on a stream or in a datagram.
    pub fn into_bytes(self) -> (r: Vec<u8>)
        ensures
            r@ == server_encode(self@),
    {
        self.as_bytes()
    }

    /// Reads a server message from the bytes of a stream frame or a datagram.
    pub fn try_from(data: &[u8]) -> (r: Result<ServerMessage, MessageError>)
        ensures
            server_result_view(r) == server_decode(data@),
    {
        if data.len() == 0 {
            return Err(MessageError::EmptyData);
        }
        let tag = data[0];
        if data.len() == 1 {
            if tag == Tags::JoinedSuccessfully.as_u8() {
                return Ok(ServerMessage::JoinedSuccessfully);
            } else if tag == Tags::ClientJoined.as_u8() {
                return Ok(ServerMessage::ClientJoined);
            } else if tag == Tags::ClientLeft.as_u8() {
                return Ok(ServerMessage::ClientLeft);
            } else if tag == Tags::ServerClosed.as_u8() {
                return Ok(ServerMessage::ServerClosed);
            } else if tag == Tags::Close.as_u8() {
                return Ok(ServerMessage::Close(None));
            } else if tag == Tags::Frame.as_u8() {
                return Ok(ServerMessage::Frame(Frame::empty()));
            } else {
                return Err(MessageError::InvalidTag(tag));
            }
        }
        if data.len() < 9 {
            return Err(MessageError::InsufficientData);
        }
        let len = u64_from_be(vstd::slice::slice_subrange(data, 1, 9));
        if len > (data.len() - 9) as u64 {
            return Err(MessageError::InsufficientData);
        }
        let end = 9 + len as usize;
        let payload = vstd::slice::slice_subrange(data, 9, end);
        assert(payload@ == announced_payload(data@));
        if tag == Tags::Text.as_u8() {
            match decode_text(payload) {
                Ok(s) => Ok(ServerMessage::Text(s)),
                Err(e) => Err(e),
            }
        } else if tag == Tags::Binary.as_u8() {
            Ok(ServerMessage::Binary(bytes_to_vec(payload)))
        } else if tag == Tags::Ping.as_u8() {
            Ok(ServerMessage::Ping(bytes_to_vec(payload)))
        } else if tag == Tags::Pong.as_u8() {
            Ok(ServerMessage::Pong(bytes_to_vec(payload)))
        } else if tag == Tags::RoomCreated.as_u8() {
            match decode_text(payload) {
                Ok(s) => Ok(ServerMessage::RoomCreated(s)),
                Err(e) => Err(e),
            }
        } else if tag == Tags::Error.as_u8() {
            match decode_text(payload) {
                Ok(s) => Ok(ServerMessage::Error(s)),
                Err(e) => Err(e),
            }
        } else {
            Err(MessageError::InvalidTag(tag))
        }
    }

    /// The server message that a WebSocket message carries.
    pub fn from(w: WsMessage) -> (m: ServerMessage)
        ensures
            m@ == server_from_ws(w@),
    {
        match w {
            WsMessage::Text(s) => ServerMessage::Text(s),
            WsMessage::Binary(d) => {
                if d.len() == 0 {
                    return ServerMessage::Binary(Vec::new());
                }
                let tag = d[0];
                let p = after_first(d.as_slice());
                if tag == Tags::RoomCreated.as_u8() {
                    ServerMessage::RoomCreated(decode_text_or_empty(p))
                } else if tag == Tags::JoinedSuccessfully.as_u8() {
                    ServerMessage::JoinedSuccessfully
                } else if tag == Tags::ClientJoined.as_u8() {
                    ServerMessage::ClientJoined
                } else if tag == Tags::ClientLeft.as_u8() {
                    ServerMessage::ClientLeft
                } else if tag == Tags::ServerClosed.as_u8() {
                    ServerMessage::ServerClosed
                } else if tag == Tags::Error.as_u8() {
                    ServerMessage::Error(decode_text_or_empty(p))
                } else if tag == Tags::Binary.as_u8() {
                    ServerMessage::Binary(bytes_to_vec(p))
                } else {
                    ServerMessage::Binary(d)
                }
            },
            WsMessage::Ping(d) => ServerMessage::Ping(d),
            WsMessage::Pong(d) => ServerMessage::Pong(d),
            WsMessage::Close(c) => ServerMessage::Close(c),
            WsMessage::Frame(f) => ServerMessage::Frame(f),
        }
    }

    /// The WebSocket message that carries this server message.
    pub fn into_ws(self) -> (w: WsMessage)
        ensures
            w@ == server_to_ws(self@),
    {
        match self {
            ServerMessage::Text(s) => WsMessage::Text(s),
            ServerMessage::Ping(d) => WsMessage::Ping(d),
            ServerMessage::Pong(d) => WsMessage::Pong(d),
            ServerMessage::Close(c) => WsMessage::Close(c),
            ServerMessage::Frame(f) => WsMessage::Frame(f),
            ServerMessage::Binary(d) => WsMessage::Binary(encode_tagged(Tags::Binary.as_u8(), d.as_slice())),
            ServerMessage::RoomCreated(s) => WsMessage::Binary(encode_tagged(Tags::RoomCreated.as_u8(), string_bytes(&s))),
            ServerMessage::JoinedSuccessfully => WsMessage::Binary(single_byte(Tags::JoinedSuccessfully.as_u8())),
            ServerMessage::ClientJoined => WsMessage::Binary(single_byte(Tags::ClientJoined.as_u8())),
            ServerMessage::ClientLeft => WsMessage::Binary(single_byte(Tags::ClientLeft.as_u8())),
            ServerMessage::ServerClosed => WsMessage::Binary(single_byte(Tags::ServerClosed.as_u8())),
            ServerMessage::Error(s) => WsMessage::Binary(encode_tagged(Tags::Error.as_u8(), string_bytes(&s))),
        }
    }
}

} // verus!

verus! {

/// The message that the stream form keeps of a server message: a close frame's
/// code and reason and a raw frame's content are not sent, only their tags.
pub open spec fn server_stream_form(m: ServerMessageView) -> ServerMessageView {
    match m {
        ServerMessageView::Close(_) => ServerMessageView::Close(None),
        ServerMessageView::Frame(_) => ServerMessageView::Frame(empty_frame_view()),
        _ => m,
    }
}

/// A server message whose content is short enough for its length to be written in eight bytes.
pub open spec fn server_encodable(m: ServerMessageView) -> bool {
    match m {
        ServerMessageView::Text(s) => encode_utf8(s).len() <= u64::MAX,
        ServerMessageView::Binary(d) => d.len() <= u64::MAX,
        ServerMessageView::Ping(d) => d.len() <= u64::MAX,
        ServerMessageView::Pong(d) => d.len() <= u64::MAX,
        ServerMessageView::RoomCreated(s) => encode_utf8(s).len() <= u64::MAX,
        ServerMessageView::Error(s) => encode_utf8(s).len() <= u64::MAX,
        _ => true,
    }
}

/// Reading back the bytes of a server message gives the message, but for the
/// content of a close frame or a raw frame, which the bytes do not carry.
pub proof fn lemma_server_stream_roundtrip(m: ServerMessageView)
    requires
        server_encodable(m),
    ensures
        server_decode(server_encode(m)) == Ok::<ServerMessageView, MessageError>(server_stream_form(m)),
{
    match m {
        ServerMessageView::Text(s) => {
            lemma_len_prefixed_parts(tag_byte(Tags::Text), encode_utf8(s));
            lemma_utf8_roundtrip(s);
        },
        ServerMessageView::Binary(d) => {
            lemma_len_prefixed_parts(tag_byte(Tags::Binary), d);
        },
        ServerMessageView::Ping(d) => {
            lemma_len_prefixed_parts(tag_byte(Tags::Ping), d);
        },
        ServerMessageView::Pong(d) => {
            lemma_len_prefixed_parts(tag_byte(Tags::Pong), d);
        },
        ServerMessageView::RoomCreated(s) => {
            lemma_len_prefixed_parts(tag_byte(Tags::RoomCreated), encode_utf8(s));
            lemma_utf8_roundtrip(s);
        },
        ServerMessageView::Error(s) => {
            lemma_len_prefixed_parts(tag_byte(Tags::Error), encode_utf8(s));
            lemma_utf8_roundtrip(s);
        },
        _ => {},
    }
}

/// Every server message but a close frame with a reason and a raw frame comes
/// back unchanged from its bytes.
pub proof fn lemma_server_stream_roundtrip_exact(m: ServerMessageView)
    requires
        server_encodable(m),
        !(m is Close && m->Close_0 is Some),
        !(m is Frame),
    ensures
        server_decode(server_encode(m)) == Ok::<ServerMessageView, MessageError>(m),
{
    lemma_server_stream_roundtrip(m);
}

/// Every server message comes back unchanged from the WebSocket message that carries it.
pub proof fn lemma_server_ws_roundtrip(m: ServerMessageView)
    ensures
        server_from_ws(server_to_ws(m)) == m,
{
    match m {
        ServerMessageView::Binary(d) => {
            let t = tagged(tag_byte(Tags::Binary), d);
            assert(t.subrange(1, t.len() as int) =~= d);
        },
        ServerMessageView::RoomCreated(s) => {
            let t = tagged(tag_byte(Tags::RoomCreated), encode_utf8(s));
            assert(t.subrange(1, t.len() as int) =~= encode_utf8(s));
            lemma_utf8_roundtrip(s);
        },
        ServerMessageView::Error(s) => {
            let t = tagged(tag_byte(Tags::Error), encode_utf8(s));
            assert(t.subrange(1, t.len() as int) =~= encode_utf8(s));
            lemma_utf8_roundtrip(s);
        },
        _ => {},
    }
}

} // verus!

verus! {

/// How a server message shows: its text, or its length where it has no text.
pub open spec fn server_display(m: ServerMessageView) -> Seq<char> {
    match server_to_text(m) {
        Ok(s) => s,
        Err(_) => binary_label(server_len(m) as nat),
    }
}

impl ServerMessage {
    /// How the message shows: its text, or its length where it has no text.
    pub fn to_string(&self) -> (r: String)
        requires
            server_len_fits(self@),
        ensures
            r@ == server_display(self@),
    {
        match self.to_text() {
            Ok(s) => s.to_owned(),
            Err(_) => binary_label_string(self.len()),
        }
    }
}

} // verus!

verus! {

impl ServerMessage {
    /// A copy of the message.
    pub fn duplicate(&self) -> (r: ServerMessage)
        ensures
            r@ == self@,
    {
        match self {
            ServerMessage::Text(s) => ServerMessage::Text(s.clone()),
            ServerMessage::Binary(d) => ServerMessage::Binary(crate::wire::copy_bytes(d)),
            ServerMessage::Ping(d) => ServerMessage::Ping(crate::wire::copy_bytes(d)),
            ServerMessage::Pong(d) => ServerMessage::Pong(crate::wire::copy_bytes(d)),
            ServerMessage::Close(c) => ServerMessage::Close(crate::message::ws::duplicate_close(c)),
            ServerMessage::Frame(f) => ServerMessage::Frame(f.duplicate()),
            ServerMessage::RoomCreated(s) => ServerMessage::RoomCreated(s.clone()),
            ServerMessage::JoinedSuccessfully => ServerMessage::JoinedSuccessfully,
            ServerMessage::ClientJoined => ServerMessage::ClientJoined,
            ServerMessage::ClientLeft => ServerMessage::ClientLeft,
            ServerMessage::Error(s) => ServerMessage::Error(s.clone()),
            ServerMessage::ServerClosed => ServerMessage::ServerClosed,
        }
    }
}

/// Over WebSocket the relay sends each message that WebSocket has a kind for
/// as that kind: text as text of the same characters, ping and pong with the
/// same data, a close with the same close frame, a raw frame as itself; the
/// relay's other messages go as binary data that starts with their tag. What
/// the relay forwards of a peer's text, binary data, ping, pong, close or raw
/// frame goes out as the WebSocket message the peer itself would send for it.
pub proof fn lemma_server_ws_kinds(m: ServerMessageView)
    ensures
        m matches ServerMessageView::Text(s) ==> server_to_ws(m) == WsMessageView::Text(s),
        m matches ServerMessageView::Ping(d) ==> server_to_ws(m) == WsMessageView::Ping(d),
        m matches ServerMessageView::Pong(d) ==> server_to_ws(m) == WsMessageView::Pong(d),
        m matches ServerMessageView::Close(c) ==> server_to_ws(m) == WsMessageView::Close(c),
        m matches ServerMessageView::Frame(f) ==> server_to_ws(m) == WsMessageView::Frame(f),
        server_to_ws(m) is Text <==> m is Text,
        forall|w: WsMessageView|
            #![trigger server_from_ws(w)]
            w matches WsMessageView::Text(s) ==> server_from_ws(w) == ServerMessageView::Text(s),
        !(m is Text || m is Ping || m is Pong || m is Close || m is Frame) ==> (server_to_ws(
            m,
        ) matches WsMessageView::Binary(b) && b.len() >= 1),
        m matches ServerMessageView::Text(s) ==> server_to_ws(m) == client_to_ws(
            ClientMessageView::Text(s),
        ),
        m matches ServerMessageView::Binary(d) ==> server_to_ws(m) == client_to_ws(
            ClientMessageView::Binary(d),
        ),
        m matches ServerMessageView::Ping(d) ==> server_to_ws(m) == client_to_ws(
            ClientMessageView::Ping(d),
        ),
        m matches ServerMessageView::Pong(d) ==> server_to_ws(m) == client_to_ws(
            ClientMessageView::Pong(d),
        ),
        m matches ServerMessageView::Close(c) ==> server_to_ws(m) == client_to_ws(
            ClientMessageView::Close(c),
        ),
        m matches ServerMessageView::Frame(f) ==> server_to_ws(m) == client_to_ws(
            ClientMessageView::Frame(f),
        ),
{
}

} // verus!
