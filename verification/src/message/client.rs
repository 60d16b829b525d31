use vstd::prelude::*;
use vstd::utf8::*;

use crate::message::common::{tag_byte, MessageError, Tags};
use crate::message::ws::{
    close_view, empty_frame_view, frame_len, frame_len_fits, CloseFrameView, Frame, FrameView,
    WsMessage, WsMessageView, CloseFrame,
};
use crate::wire::{
    after_first, announced_len, announced_payload, bytes_to_vec, decode_text, decode_text_or_empty,
    encode_len_prefixed, encode_tagged, len_prefixed, string_bytes, tagged, u64_from_be,
    lemma_len_prefixed_parts, lemma_utf8_roundtrip,
    utf8_or_empty, utf8_result, view_text, single_byte, binary_label, binary_label_string,
};

verus! {

broadcast use vstd::utf8::group_utf8_lib;

/// A message that a client sends to the relay.
#[derive(Debug, Clone, PartialEq, Eq)]
pub enum ClientMessage {
    Text(String),
    Binary(Vec<u8>),
    Ping(Vec<u8>),
    Pong(Vec<u8>),
    Close(Option<CloseFrame>),
    Frame(Frame),
    CreateRoom,
    JoinRoom(String),
    LeaveRoom,
    Error(String),
}

/// A client message over sequences.
pub enum ClientMessageView {
    Text(Seq<char>),
    Binary(Seq<u8>),
    Ping(Seq<u8>),
    Pong(Seq<u8>),
    Close(Option<CloseFrameView>),
    Frame(FrameView),
    CreateRoom,
    JoinRoom(Seq<char>),
    LeaveRoom,
    Error(Seq<char>),
}

impl View for ClientMessage {
    type V = ClientMessageView;

    open spec fn view(&self) -> ClientMessageView {
        match self {
            ClientMessage::Text(s) => ClientMessageView::Text(s@),
            ClientMessage::Binary(d) => ClientMessageView::Binary(d@),
            ClientMessage::Ping(d) => ClientMessageView::Ping(d@),
            ClientMessage::Pong(d) => ClientMessageView::Pong(d@),
            ClientMessage::Close(c) => ClientMessageView::Close(close_view(*c)),
            ClientMessage::Frame(f) => ClientMessageView::Frame(f@),
            ClientMessage::CreateRoom => ClientMessageView::CreateRoom,
            ClientMessage::JoinRoom(s) => ClientMessageView::JoinRoom(s@),
            ClientMessage::LeaveRoom => ClientMessageView::LeaveRoom,
            ClientMessage::Error(s) => ClientMessageView::Error(s@),
        }
    }
}

/// The view of a decoding result.
pub open spec fn client_result_view(r: Result<ClientMessage, MessageError>) -> Result<
    ClientMessageView,
    MessageError,
> {
    match r {
        Ok(m) => Ok(m@),
        Err(e) => Err(e),
    }
}

/// The bytes of a client message on a stream or in a datagram: a tag, then for
/// a message with content its length as eight big-endian bytes and the content.
pub open spec fn client_encode(m: ClientMessageView) -> Seq<u8> {
    match m {
        ClientMessageView::Text(s) => len_prefixed(tag_byte(Tags::Text), encode_utf8(s)),
        ClientMessageView::Binary(d) => len_prefixed(tag_byte(Tags::Binary), d),
        ClientMessageView::Ping(d) => len_prefixed(tag_byte(Tags::Ping), d),
        ClientMessageView::Pong(d) => len_prefixed(tag_byte(Tags::Pong), d),
        ClientMessageView::Close(_) => seq![tag_byte(Tags::Close)],
        ClientMessageView::Frame(_) => seq![tag_byte(Tags::Frame)],
        ClientMessageView::CreateRoom => seq![tag_byte(Tags::CreateRoom)],
        ClientMessageView::JoinRoom(s) => len_prefixed(tag_byte(Tags::JoinRoom), encode_utf8(s)),
        ClientMessageView::LeaveRoom => seq![tag_byte(Tags::LeaveRoom)],
        ClientMessageView::Error(s) => len_prefixed(tag_byte(Tags::Error), encode_utf8(s)),
    }
}

/// The client message that bytes on a stream or in a datagram stand for, or
/// why they stand for none. Bytes after the announced content are ignored.
pub open spec fn client_decode(data: Seq<u8>) -> Result<ClientMessageView, MessageError> {
    if data.len() == 0 {
        Err(MessageError::EmptyData)
    } else if data.len() == 1 {
        let tag = data[0];
        if tag == tag_byte(Tags::CreateRoom) {
            Ok(ClientMessageView::CreateRoom)
        } else if tag == tag_byte(Tags::LeaveRoom) {
            Ok(ClientMessageView::LeaveRoom)
        } else if tag == tag_byte(Tags::Close) {
            Ok(ClientMessageView::Close(None))
        } else if tag == tag_byte(Tags::Frame) {
            Ok(ClientMessageView::Frame(empty_frame_view()))
        } else {
            Err(MessageError::InvalidTag(tag))
        }
    } else if data.len() < 9 || data.len() < 9 + announced_len(data) {
        Err(MessageError::InsufficientData)
    } else {
        let tag = data[0];
        let p = announced_payload(data);
        if tag == tag_byte(Tags::Text) {
            match utf8_result(p) {
                Ok(s) => Ok(ClientMessageView::Text(s)),
                Err(e) => Err(e),
            }
        } else if tag == tag_byte(Tags::Binary) {
            Ok(ClientMessageView::Binary(p))
        } else if tag == tag_byte(Tags::Ping) {
            Ok(ClientMessageView::Ping(p))
        } else if tag == tag_byte(Tags::Pong) {
            Ok(ClientMessageView::Pong(p))
        } else if tag == tag_byte(Tags::JoinRoom) {
            match utf8_result(p) {
                Ok(s) => Ok(ClientMessageView::JoinRoom(s)),
                Err(e) => Err(e),
            }
        } else if tag == tag_byte(Tags::Error) {
            match utf8_result(p) {
                Ok(s) => Ok(ClientMessageView::Error(s)),
                Err(e) => Err(e),
            }
        } else {
            Err(MessageError::InvalidTag(tag))
        }
    }
}

/// The WebSocket message that carries a client message: text, ping, pong,
/// close and raw frames as they are, the rest as a binary message that starts
/// with the tag and goes on with the content, with no length.
pub open spec fn client_to_ws(m: ClientMessageView) -> WsMessageView {
    match m {
        ClientMessageView::Text(s) => WsMessageView::Text(s),
        ClientMessageView::Ping(d) => WsMessageView::Ping(d),
        ClientMessageView::Pong(d) => WsMessageView::Pong(d),
        ClientMessageView::Close(c) => WsMessageView::Close(c),
        ClientMessageView::Frame(f) => WsMessageView::Frame(f),
        ClientMessageView::Binary(d) => WsMessageView::Binary(tagged(tag_byte(Tags::Binary), d)),
        ClientMessageView::CreateRoom => WsMessageView::Binary(seq![tag_byte(Tags::CreateRoom)]),
        ClientMessageView::JoinRoom(s) => WsMessageView::Binary(
            tagged(tag_byte(Tags::JoinRoom), encode_utf8(s)),
        ),
        ClientMessageView::LeaveRoom => WsMessageView::Binary(seq![tag_byte(Tags::LeaveRoom)]),
        ClientMessageView::Error(s) => WsMessageView::Binary(
            tagged(tag_byte(Tags::Error), encode_utf8(s)),
        ),
    }
}

/// The client message that a WebSocket message carries. A binary message is
/// read by its first byte; one with an unknown first byte stays binary data.
pub open spec fn client_from_ws(w: WsMessageView) -> ClientMessageView {
    match w {
        WsMessageView::Text(s) => ClientMessageView::Text(s),
        WsMessageView::Binary(d) => {
            if d.len() == 0 {
                ClientMessageView::Binary(Seq::empty())
            } else {
                let tag = d[0];
                let p = d.subrange(1, d.len() as int);
                if tag == tag_byte(Tags::JoinRoom) {
                    ClientMessageView::JoinRoom(utf8_or_empty(p))
                } else if tag == tag_byte(Tags::CreateRoom) {
                    ClientMessageView::CreateRoom
                } else if tag == tag_byte(Tags::LeaveRoom) {
                    ClientMessageView::LeaveRoom
                } else if tag == tag_byte(Tags::Error) {
                    ClientMessageView::Error(utf8_or_empty(p))
                } else if tag == tag_byte(Tags::Binary) {
                    ClientMessageView::Binary(p)
                } else {
                    ClientMessageView::Binary(d)
                }
            }
        },
        WsMessageView::Ping(d) => ClientMessageView::Ping(d),
        WsMessageView::Pong(d) => ClientMessageView::Pong(d),
        WsMessageView::Close(c) => ClientMessageView::Close(c),
        WsMessageView::Frame(f) => ClientMessageView::Frame(f),
    }
}

/// The length of a client message's content in bytes; a raw frame counts its header too.
pub open spec fn client_len(m: ClientMessageView) -> int {
    match m {
        ClientMessageView::Text(s) => encode_utf8(s).len() as int,
        ClientMessageView::Binary(d) => d.len() as int,
        ClientMessageView::Ping(d) => d.len() as int,
        ClientMessageView::Pong(d) => d.len() as int,
        ClientMessageView::Close(None) => 0,
        ClientMessageView::Close(Some(f)) => encode_utf8(f.reason).len() as int,
        ClientMessageView::Frame(f) => frame_len(f),
        _ => 0,
    }
}

/// A client message whose length fits in a `usize`.
pub open spec fn client_len_fits(m: ClientMessageView) -> bool {
    match m {
        ClientMessageView::Frame(f) => frame_len_fits(f),
        _ => true,
    }
}

/// The content of a client message as bytes.
pub open spec fn client_data(m: ClientMessageView) -> Seq<u8> {
    match m {
        ClientMessageView::Text(s) => encode_utf8(s),
        ClientMessageView::Binary(d) => d,
        ClientMessageView::Ping(d) => d,
        ClientMessageView::Pong(d) => d,
        ClientMessageView::Close(None) => Seq::empty(),
        ClientMessageView::Close(Some(f)) => encode_utf8(f.reason),
        ClientMessageView::Frame(f) => f.payload,
        ClientMessageView::JoinRoom(s) => encode_utf8(s),
        ClientMessageView::Error(s) => encode_utf8(s),
        _ => Seq::empty(),
    }
}

/// The content of a client message as text, as `into_text` gives it.
pub open spec fn client_into_text(m: ClientMessageView) -> Result<Seq<char>, MessageError> {
    match m {
        ClientMessageView::Text(s) => Ok(s),
        ClientMessageView::Binary(d) => utf8_result(d),
        ClientMessageView::Ping(d) => utf8_result(d),
        ClientMessageView::Pong(d) => utf8_result(d),
        ClientMessageView::Close(None) => Ok(Seq::empty()),
        ClientMessageView::Close(Some(f)) => Ok(f.reason),
        ClientMessageView::Frame(f) => utf8_result(f.payload),
        ClientMessageView::JoinRoom(s) => Ok(s),
        ClientMessageView::Error(s) => Ok(s),
        _ => Ok(Seq::empty()),
    }
}

/// The text of a client message, as `to_text` gives it: the content, or a
/// name for a message without content.
pub open spec fn client_to_text(m: ClientMessageView) -> Result<Seq<char>, MessageError> {
    match m {
        ClientMessageView::Text(s) => Ok(s),
        ClientMessageView::Binary(d) => utf8_result(d),
        ClientMessageView::Ping(d) => utf8_result(d),
        ClientMessageView::Pong(d) => utf8_result(d),
        ClientMessageView::Close(None) => Ok("Close"@),
        ClientMessageView::Close(Some(f)) => Ok(f.reason),
        ClientMessageView::Frame(f) => utf8_result(f.payload),
        ClientMessageView::CreateRoom => Ok("Create Room"@),
        ClientMessageView::JoinRoom(s) => Ok(s),
        ClientMessageView::LeaveRoom => Ok("Leave Room"@),
        ClientMessageView::Error(s) => Ok(s),
    }
}

/// Whether a text result and a slice result agree.
pub open spec fn text_matches(r: Result<&str, MessageError>, t: Result<Seq<char>, MessageError>) -> bool {
    match (r, t) {
        (Ok(s), Ok(u)) => s@ == u,
        (Err(e), Err(f)) => e == f,
        _ => false,
    }
}

/// Whether a text result and a string result agree.
pub open spec fn string_matches(r: Result<String, MessageError>, t: Result<Seq<char>, MessageError>) -> bool {
    match (r, t) {
        (Ok(s), Ok(u)) => s@ == u,
        (Err(e), Err(f)) => e == f,
        _ => false,
    }
}

impl ClientMessage {
    /// A text message.
    pub fn text(s: String) -> (m: ClientMessage)
        ensures
            m@ == ClientMessageView::Text(s@),
    {
        ClientMessage::Text(s)
    }

    /// A binary message.
    pub fn binary(b: Vec<u8>) -> (m: ClientMessage)
        ensures
            m@ == ClientMessageView::Binary(b@),
    {
        ClientMessage::Binary(b)
    }

    pub fn is_text(&self) -> (b: bool)
        ensures
            b == (self@ is Text),
    {
        matches!(self, ClientMessage::Text(_))
    }

    pub fn is_binary(&self) -> (b: bool)
        ensures
            b == (self@ is Binary),
    {
        matches!(self, ClientMessage::Binary(_))
    }

    pub fn is_ping(&self) -> (b: bool)
        ensures
            b == (self@ is Ping),
    {
        matches!(self, ClientMessage::Ping(_))
    }

    pub fn is_pong(&self) -> (b: bool)
        ensures
            b == (self@ is Pong),
    {
        matches!(self, ClientMessage::Pong(_))
    }

    pub fn is_close(&self) -> (b: bool)
        ensures
            b == (self@ is Close),
    {
        matches!(self, ClientMessage::Close(_))
    }

    /// The length of the content in bytes.
    pub fn len(&self) -> (n: usize)
        requires
            client_len_fits(self@),
        ensures
            n == client_len(self@),
    {
        match self {
            ClientMessage::Text(s) => string_bytes(s).len(),
            ClientMessage::Binary(d) => d.len(),
            ClientMessage::Ping(d) => d.len(),
            ClientMessage::Pong(d) => d.len(),
            ClientMessage::Close(None) => 0,
            ClientMessage::Close(Some(f)) => string_bytes(&f.reason).len(),
            ClientMessage::Frame(f) => f.len(),
            _ => 0,
        }
    }

    /// Whether the content is empty.
    pub fn is_empty(&self) -> (b: bool)
        requires
            client_len_fits(self@),
        ensures
            b == (client_len(self@) == 0),
    {
        self.len() == 0
    }

    /// The content as bytes.
    pub fn into_data(self) -> (d: Vec<u8>)
        ensures
            d@ == client_data(self@),
    {
        match self {
            ClientMessage::Text(s) => bytes_to_vec(string_bytes(&s)),
            ClientMessage::Binary(d) => d,
            ClientMessage::Ping(d) => d,
            ClientMessage::Pong(d) => d,
            ClientMessage::Close(None) => Vec::new(),
            ClientMessage::Close(Some(f)) => bytes_to_vec(string_bytes(&f.reason)),
            ClientMessage::Frame(f) => f.payload,
            ClientMessage::JoinRoom(s) => bytes_to_vec(string_bytes(&s)),
            ClientMessage::Error(s) => bytes_to_vec(string_bytes(&s)),
            _ => Vec::new(),
        }
    }

    /// The content as text.
    pub fn into_text(self) -> (r: Result<String, MessageError>)
        ensures
            string_matches(r, client_into_text(self@)),
    {
        match self {
            ClientMessage::Text(s) => Ok(s),
            ClientMessage::Binary(d) => decode_text(d.as_slice()),
            ClientMessage::Ping(d) => decode_text(d.as_slice()),
            ClientMessage::Pong(d) => decode_text(d.as_slice()),
            ClientMessage::Close(None) => Ok(String::new()),
            ClientMessage::Close(Some(f)) => Ok(f.reason),
            ClientMessage::Frame(f) => decode_text(f.payload.as_slice()),
            ClientMessage::JoinRoom(s) => Ok(s),
            ClientMessage::Error(s) => Ok(s),
            _ => Ok(String::new()),
        }
    }

    /// The text of the message: its content, or a name for one without content.
    pub fn to_text(&self) -> (r: Result<&str, MessageError>)
        ensures
            text_matches(r, client_to_text(self@)),
    {
        match self {
            ClientMessage::Text(s) => Ok(s.as_str()),
            ClientMessage::Binary(d) => view_text(d.as_slice()),
            ClientMessage::Ping(d) => view_text(d.as_slice()),
            ClientMessage::Pong(d) => view_text(d.as_slice()),
            ClientMessage::Close(None) => Ok("Close"),
            ClientMessage::Close(Some(f)) => Ok(f.reason.as_str()),
            ClientMessage::Frame(f) => view_text(f.payload.as_slice()),
            ClientMessage::CreateRoom => Ok("Create Room"),
            ClientMessage::JoinRoom(s) => Ok(s.as_str()),
            ClientMessage::LeaveRoom => Ok("Leave Room"),
            ClientMessage::Error(s) => Ok(s.as_str()),
        }
    }

    /// The bytes of the message on a stream or in a datagram.
    pub fn as_bytes(&self) -> (r: Vec<u8>)
        ensures
            r@ == client_encode(self@),
    {
        match self {
            ClientMessage::Text(s) => encode_len_prefixed(Tags::Text.as_u8(), string_bytes(s)),
            ClientMessage::Binary(d) => encode_len_prefixed(Tags::Binary.as_u8(), d.as_slice()),
            ClientMessage::Ping(d) => encode_len_prefixed(Tags::Ping.as_u8(), d.as_slice()),
            ClientMessage::Pong(d) => encode_len_prefixed(Tags::Pong.as_u8(), d.as_slice()),
            ClientMessage::Close(_) => single_byte(Tags::Close.as_u8()),
            ClientMessage::Frame(_) => single_byte(Tags::Frame.as_u8()),
            ClientMessage::CreateRoom => single_byte(Tags::CreateRoom.as_u8()),
            ClientMessage::JoinRoom(s) => encode_len_prefixed(Tags::JoinRoom.as_u8(), string_bytes(s)),
            ClientMessage::LeaveRoom => single_byte(Tags::LeaveRoom.as_u8()),
            ClientMessage::Error(s) => encode_len_prefixed(Tags::Error.as_u8(), string_bytes(s)),
        }
    }

    /// The bytes of the message on a stream or in a datagram.
    pub fn into_bytes(self) -> (r: Vec<u8>)
        ensures
            r@ == client_encode(self@),
    {
        self.as_bytes()
    }

    /// Reads a client message from the bytes of a stream frame or a datagram.
    pub fn try_from(data: &[u8]) -> (r: Result<ClientMessage, MessageError>)
        ensures
            client_result_view(r) == client_decode(data@),
    {
        if data.len() == 0 {
            return Err(MessageError::EmptyData);
        }
        let tag = data[0];
        if data.len() == 1 {
            if tag == Tags::CreateRoom.as_u8() {
                return Ok(ClientMessage::CreateRoom);
            } else if tag == Tags::LeaveRoom.as_u8() {
                return Ok(ClientMessage::LeaveRoom);
            } else if tag == Tags::Close.as_u8() {
                return Ok(ClientMessage::Close(None));
            } else if tag == Tags::Frame.as_u8() {
                return Ok(ClientMessage::Frame(Frame::empty()));
            } else {
                return Err(MessageError::InvalidTag(tag));
            }
        }
        if data.len() < 9 {
            return Err(MessageError::InsufficientData);
        }
        let len = u64_from_be(vstd::slice::slice_subrange(data, 1, 9));
        if len > (data.len() - 9) as u64 {
            return Err(MessageError::InsufficientData);
        }
        let end = 9 + len as usize;
        let payload = vstd::slice::slice_subrange(data, 9, end);
        assert(payload@ == announced_payload(data@));
        if tag == Tags::Text.as_u8() {
            match decode_text(payload) {
                Ok(s) => Ok(ClientMessage::Text(s)),
                Err(e) => Err(e),
            }
        } else if tag == Tags::Binary.as_u8() {
            Ok(ClientMessage::Binary(bytes_to_vec(payload)))
        } else if tag == Tags::Ping.as_u8() {
            Ok(ClientMessage::Ping(bytes_to_vec(payload)))
        } else if tag == Tags::Pong.as_u8() {
            Ok(ClientMessage::Pong(bytes_to_vec(payload)))
        } else if tag == Tags::JoinRoom.as_u8() {
            match decode_text(payload) {
                Ok(s) => Ok(ClientMessage::JoinRoom(s)),
                Err(e) => Err(e),
            }
        } else if tag == Tags::Error.as_u8() {
            match decode_text(payload) {
                Ok(s) => Ok(ClientMessage::Error(s)),
                Err(e) => Err(e),
            }
        } else {
            Err(MessageError::InvalidTag(tag))
        }
    }

    /// The client message that a WebSocket message carries.
    pub fn from(w: WsMessage) -> (m: ClientMessage)
        ensures
            m@ == client_from_ws(w@),
    {
        match w {
            WsMessage::Text(s) => ClientMessage::Text(s),
            WsMessage::Binary(d) => {
                if d.len() == 0 {
                    return ClientMessage::Binary(Vec::new());
                }
                let tag = d[0];
                let p = after_first(d.as_slice());
                if tag == Tags::JoinRoom.as_u8() {
                    ClientMessage::JoinRoom(decode_text_or_empty(p))
                } else if tag == Tags::CreateRoom.as_u8() {
                    ClientMessage::CreateRoom
                } else if tag == Tags::LeaveRoom.as_u8() {
                    ClientMessage::LeaveRoom
                } else if tag == Tags::Error.as_u8() {
                    ClientMessage::Error(decode_text_or_empty(p))
                } else if tag == Tags::Binary.as_u8() {
                    ClientMessage::Binary(bytes_to_vec(p))
                } else {
                    ClientMessage::Binary(d)
                }
            },
            WsMessage::Ping(d) => ClientMessage::Ping(d),
            WsMessage::Pong(d) => ClientMessage::Pong(d),
            WsMessage::Close(c) => ClientMessage::Close(c),
            WsMessage::Frame(f) => ClientMessage::Frame(f),
        }
    }

    /// The WebSocket message that carries this client message.
    pub fn into_ws(self) -> (w: WsMessage)
        ensures
            w@ == client_to_ws(self@),
    {
        match self {
            ClientMessage::Text(s) => WsMessage::Text(s),
            ClientMessage::Ping(d) => WsMessage::Ping(d),
            ClientMessage::Pong(d) => WsMessage::Pong(d),
            ClientMessage::Close(c) => WsMessage::Close(c),
            ClientMessage::Frame(f) => WsMessage::Frame(f),
            ClientMessage::Binary(d) => WsMessage::Binary(encode_tagged(Tags::Binary.as_u8(), d.as_slice())),
            ClientMessage::CreateRoom => WsMessage::Binary(single_byte(Tags::CreateRoom.as_u8())),
            ClientMessage::JoinRoom(s) => WsMessage::Binary(encode_tagged(Tags::JoinRoom.as_u8(), string_bytes(&s))),
            ClientMessage::LeaveRoom => WsMessage::Binary(single_byte(Tags::LeaveRoom.as_u8())),
            ClientMessage::Error(s) => WsMessage::Binary(encode_tagged(Tags::Error.as_u8(), string_bytes(&s))),
        }
    }
}

} // verus!

verus! {

/// The message that the stream form keeps of a client message: a close frame's
/// code and reason and a raw frame's content are not sent, only their tags.
pub open spec fn client_stream_form(m: ClientMessageView) -> ClientMessageView {
    match m {
        ClientMessageView::Close(_) => ClientMessageView::Close(None),
        ClientMessageView::Frame(_) => ClientMessageView::Frame(empty_frame_view()),
        _ => m,
    }
}

/// A client message whose content is short enough for its length to be written in eight bytes.
pub open spec fn client_encodable(m: ClientMessageView) -> bool {
    match m {
        ClientMessageView::Text(s) => encode_utf8(s).len() <= u64::MAX,
        ClientMessageView::Binary(d) => d.len() <= u64::MAX,
        ClientMessageView::Ping(d) => d.len() <= u64::MAX,
        ClientMessageView::Pong(d) => d.len() <= u64::MAX,
        ClientMessageView::JoinRoom(s) => encode_utf8(s).len() <= u64::MAX,
        ClientMessageView::Error(s) => encode_utf8(s).len() <= u64::MAX,
        _ => true,
    }
}

/// Reading back the bytes of a client message gives the message, but for the
/// content of a close frame or a raw frame, which the bytes do not carry.
pub proof fn lemma_client_stream_roundtrip(m: ClientMessageView)
    requires
        client_encodable(m),
    ensures
        client_decode(client_encode(m)) == Ok::<ClientMessageView, MessageError>(client_stream_form(m)),
{
    match m {
        ClientMessageView::Text(s) => {
            lemma_len_prefixed_parts(tag_byte(Tags::Text), encode_utf8(s));
            lemma_utf8_roundtrip(s);
        },
        ClientMessageView::Binary(d) => {
            lemma_len_prefixed_parts(tag_byte(Tags::Binary), d);
        },
        ClientMessageView::Ping(d) => {
            lemma_len_prefixed_parts(tag_byte(Tags::Ping), d);
        },
        ClientMessageView::Pong(d) => {
            lemma_len_prefixed_parts(tag_byte(Tags::Pong), d);
        },
        ClientMessageView::JoinRoom(s) => {
            lemma_len_prefixed_parts(tag_byte(Tags::JoinRoom), encode_utf8(s));
            lemma_utf8_roundtrip(s);
        },
        ClientMessageView::Error(s) => {
            lemma_len_prefixed_parts(tag_byte(Tags::Error), encode_utf8(s));
            lemma_utf8_roundtrip(s);
        },
        _ => {},
    }
}

/// Every client message but a close frame with a reason and a raw frame comes
/// back unchanged from its bytes.
pub proof fn lemma_client_stream_roundtrip_exact(m: ClientMessageView)
    requires
        client_encodable(m),
        !(m is Close && m->Close_0 is Some),
        !(m is Frame),
    ensures
        client_decode(client_encode(m)) == Ok::<ClientMessageView, MessageError>(m),
{
    lemma_client_stream_roundtrip(m);
}

/// Every client message comes back unchanged from the WebSocket message that carries it.
pub proof fn lemma_client_ws_roundtrip(m: ClientMessageView)
    ensures
        client_from_ws(client_to_ws(m)) == m,
{
    match m {
        ClientMessageView::Binary(d) => {
            let t = tagged(tag_byte(Tags::Binary), d);
            assert(t.subrange(1, t.len() as int) =~= d);
        },
        ClientMessageView::JoinRoom(s) => {
            let t = tagged(tag_byte(Tags::JoinRoom), encode_utf8(s));
            assert(t.subrange(1, t.len() as int) =~= encode_utf8(s));
            lemma_utf8_roundtrip(s);
        },
        ClientMessageView::Error(s) => {
            let t = tagged(tag_byte(Tags::Error), encode_utf8(s));
            assert(t.subrange(1, t.len() as int) =~= encode_utf8(s));
            lemma_utf8_roundtrip(s);
        },
        _ => {},
    }
}

} // verus!

verus! {

/// How a client message shows: its text, or its length where it has no text.
pub open spec fn client_display(m: ClientMessageView) -> Seq<char> {
    match client_to_text(m) {
        Ok(s) => s,
        Err(_) => binary_label(client_len(m) as nat),
    }
}

impl ClientMessage {
    /// How the message shows: its text, or its length where it has no text.
    pub fn to_string(&self) -> (r: String)
        requires
            client_len_fits(self@),
        ensures
            r@ == client_display(self@),
    {
        match self.to_text() {
            Ok(s) => s.to_owned(),
            Err(_) => binary_label_string(self.len()),
        }
    }
}

} // verus!

verus! {

impl ClientMessage {
    /// A copy of the message.
    pub fn duplicate(&self) -> (r: ClientMessage)
        ensures
            r@ == self@,
    {
        match self {
            ClientMessage::Text(s) => ClientMessage::Text(s.clone()),
            ClientMessage::Binary(d) => ClientMessage::Binary(crate::wire::copy_bytes(d)),
            ClientMessage::Ping(d) => ClientMessage::Ping(crate::wire::copy_bytes(d)),
            ClientMessage::Pong(d) => ClientMessage::Pong(crate::wire::copy_bytes(d)),
            ClientMessage::Close(c) => ClientMessage::Close(crate::message::ws::duplicate_close(c)),
            ClientMessage::Frame(f) => ClientMessage::Frame(f.duplicate()),
            ClientMessage::CreateRoom => ClientMessage::CreateRoom,
            ClientMessage::JoinRoom(s) => ClientMessage::JoinRoom(s.clone()),
            ClientMessage::LeaveRoom => ClientMessage::LeaveRoom,
            ClientMessage::Error(s) => ClientMessage::Error(s.clone()),
        }
    }
}

/// A client message goes over WebSocket as the same kind where WebSocket has
/// one, and comes back from it as that kind: text as text of the same
/// characters, ping and pong with the same data, a close with the same close
/// frame, a raw frame as itself; every other client message goes as binary
/// data that starts with its tag.
pub proof fn lemma_client_ws_kinds(m: ClientMessageView, w: WsMessageView)
    ensures
        m matches ClientMessageView::Text(s) ==> client_to_ws(m) == WsMessageView::Text(s),
        m matches ClientMessageView::Ping(d) ==> client_to_ws(m) == WsMessageView::Ping(d),
        m matches ClientMessageView::Pong(d) ==> client_to_ws(m) == WsMessageView::Pong(d),
        m matches ClientMessageView::Close(c) ==> client_to_ws(m) == WsMessageView::Close(c),
        m matches ClientMessageView::Frame(f) ==> client_to_ws(m) == WsMessageView::Frame(f),
        !(m is Text || m is Ping || m is Pong || m is Close || m is Frame) ==> (client_to_ws(
            m,
        ) matches WsMessageView::Binary(b) && b.len() >= 1),
        w matches WsMessageView::Text(s) ==> client_from_ws(w) == ClientMessageView::Text(s),
        w matches WsMessageView::Ping(d) ==> client_from_ws(w) == ClientMessageView::Ping(d),
        w matches WsMessageView::Pong(d) ==> client_from_ws(w) == ClientMessageView::Pong(d),
        w matches WsMessageView::Close(c) ==> client_from_ws(w) == ClientMessageView::Close(c),
        w matches WsMessageView::Frame(f) ==> client_from_ws(w) == ClientMessageView::Frame(f),
{
}

} // verus!
