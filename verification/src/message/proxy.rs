use vstd::prelude::*;
use vstd::utf8::*;

use crate::message::common::MessageError;
use crate::message::ws::{close_view, frame_len, frame_len_fits, CloseFrame, CloseFrameView, Frame, FrameView, WsMessage, WsMessageView};
use crate::wire::{binary_label, binary_label_string, bytes_to_vec, decode_text, string_bytes, tagged, utf8_result, view_text};

verus! {

broadcast use vstd::utf8::group_utf8_lib;

/// A message that a peer connection hands to its user: what the WebSocket
/// carried, or the news that the other peer left.
#[derive(Debug, Clone, PartialEq, Eq)]
pub enum Message {
    Text(String),
    Binary(Vec<u8>),
    Ping(Vec<u8>),
    Pong(Vec<u8>),
    Close(Option<CloseFrame>),
    Frame(Frame),
    PeerDisconnected,
}

/// A peer message over sequences.
pub enum MessageView {
    Text(Seq<char>),
    Binary(Seq<u8>),
    Ping(Seq<u8>),
    Pong(Seq<u8>),
    Close(Option<CloseFrameView>),
    Frame(FrameView),
    PeerDisconnected,
}

impl View for Message {
    type V = MessageView;

    open spec fn view(&self) -> MessageView {
        match self {
            Message::Text(s) => MessageView::Text(s@),
            Message::Binary(d) => MessageView::Binary(d@),
            Message::Ping(d) => MessageView::Ping(d@),
            Message::Pong(d) => MessageView::Pong(d@),
            Message::Close(c) => MessageView::Close(close_view(*c)),
            Message::Frame(f) => MessageView::Frame(f@),
            Message::PeerDisconnected => MessageView::PeerDisconnected,
        }
    }
}

/// The peer message that a WebSocket message is.
pub open spec fn message_from_ws(w: WsMessageView) -> MessageView {
    match w {
        WsMessageView::Text(s) => MessageView::Text(s),
        WsMessageView::Binary(d) => MessageView::Binary(d),
        WsMessageView::Ping(d) => MessageView::Ping(d),
        WsMessageView::Pong(d) => MessageView::Pong(d),
        WsMessageView::Close(c) => MessageView::Close(c),
        WsMessageView::Frame(f) => MessageView::Frame(f),
    }
}

/// The WebSocket message that a peer message is; the news that the peer left
/// is none.
pub open spec fn message_to_ws(m: MessageView) -> Option<WsMessageView> {
    match m {
        MessageView::Text(s) => Some(WsMessageView::Text(s)),
        MessageView::Binary(d) => Some(WsMessageView::Binary(d)),
        MessageView::Ping(d) => Some(WsMessageView::Ping(d)),
        MessageView::Pong(d) => Some(WsMessageView::Pong(d)),
        MessageView::Close(c) => Some(WsMessageView::Close(c)),
        MessageView::Frame(f) => Some(WsMessageView::Frame(f)),
        MessageView::PeerDisconnected => None,
    }
}

/// The text of the refusal to turn the news that the peer left into a
/// WebSocket message.
pub open spec fn peer_left_refusal() -> Seq<char> {
    "PeerLeft cannot be converted to tungstenite::Message"@
}

/// The length of a peer message's content in bytes; a raw frame counts its
/// header too.
pub open spec fn message_len(m: MessageView) -> int {
    match m {
        MessageView::Text(s) => encode_utf8(s).len() as int,
        MessageView::Binary(d) => d.len() as int,
        MessageView::Ping(d) => d.len() as int,
        MessageView::Pong(d) => d.len() as int,
        MessageView::Close(None) => 0,
        MessageView::Close(Some(f)) => encode_utf8(f.reason).len() as int,
        MessageView::Frame(f) => frame_len(f),
        MessageView::PeerDisconnected => 0,
    }
}

/// A peer message whose length fits in a `usize`.
pub open spec fn message_len_fits(m: MessageView) -> bool {
    match m {
        MessageView::Frame(f) => frame_len_fits(f),
        _ => true,
    }
}

/// The content of a peer message as bytes.
pub open spec fn message_data(m: MessageView) -> Seq<u8> {
    match m {
        MessageView::Text(s) => encode_utf8(s),
        MessageView::Binary(d) => d,
        MessageView::Ping(d) => d,
        MessageView::Pong(d) => d,
        MessageView::Close(None) => Seq::empty(),
        MessageView::Close(Some(f)) => encode_utf8(f.reason),
        MessageView::Frame(f) => f.payload,
        MessageView::PeerDisconnected => Seq::empty(),
    }
}

/// The content of a peer message as text, as `into_text` gives it.
pub open spec fn message_into_text(m: MessageView) -> Result<Seq<char>, MessageError> {
    match m {
        MessageView::Text(s) => Ok(s),
        MessageView::Binary(d) => utf8_result(d),
        MessageView::Ping(d) => utf8_result(d),
        MessageView::Pong(d) => utf8_result(d),
        MessageView::Close(None) => Ok(Seq::empty()),
        MessageView::Close(Some(f)) => Ok(f.reason),
        MessageView::Frame(f) => utf8_result(f.payload),
        MessageView::PeerDisconnected => Ok(Seq::empty()),
    }
}

/// The text of a peer message, as `to_text` gives it: the content, or a name
/// for a message without content.
pub open spec fn message_to_text(m: MessageView) -> Result<Seq<char>, MessageError> {
    match m {
        MessageView::Text(s) => Ok(s),
        MessageView::Binary(d) => utf8_result(d),
        MessageView::Ping(d) => utf8_result(d),
        MessageView::Pong(d) => utf8_result(d),
        MessageView::Close(None) => Ok("Close"@),
        MessageView::Close(Some(f)) => Ok(f.reason),
        MessageView::Frame(f) => utf8_result(f.payload),
        MessageView::PeerDisconnected => Ok("Peer Disconnected"@),
    }
}

/// How a peer message shows: its text, or its length where it has no text.
pub open spec fn message_display(m: MessageView) -> Seq<char> {
    match message_to_text(m) {
        Ok(s) => s,
        Err(_) => binary_label(message_len(m) as nat),
    }
}

/// The view of a conversion into a WebSocket message.
pub open spec fn ws_result_view(r: Result<WsMessage, &'static str>) -> Result<WsMessageView, Seq<char>> {
    match r {
        Ok(w) => Ok(w@),
        Err(e) => Err(e@),
    }
}

impl Message {
    /// A text message.
    pub fn text(s: String) -> (m: Message)
        ensures
            m@ == MessageView::Text(s@),
    {
        Message::Text(s)
    }

    /// A binary message.
    pub fn binary(b: Vec<u8>) -> (m: Message)
        ensures
            m@ == MessageView::Binary(b@),
    {
        Message::Binary(b)
    }

    pub fn is_text(&self) -> (b: bool)
        ensures
            b == (self@ is Text),
    {
        matches!(self, Message::Text(_))
    }

    pub fn is_binary(&self) -> (b: bool)
        ensures
            b == (self@ is Binary),
    {
        matches!(self, Message::Binary(_))
    }

    pub fn is_ping(&self) -> (b: bool)
        ensures
            b == (self@ is Ping),
    {
        matches!(self, Message::Ping(_))
    }

    pub fn is_pong(&self) -> (b: bool)
        ensures
            b == (self@ is Pong),
    {
        matches!(self, Message::Pong(_))
    }

    pub fn is_close(&self) -> (b: bool)
        ensures
            b == (self@ is Close),
    {
        matches!(self, Message::Close(_))
    }

    /// The length of the content in bytes.
    pub fn len(&self) -> (n: usize)
        requires
            message_len_fits(self@),
        ensures
            n == message_len(self@),
    {
        match self {
            Message::Text(s) => string_bytes(s).len(),
            Message::Binary(d) => d.len(),
            Message::Ping(d) => d.len(),
            Message::Pong(d) => d.len(),
            Message::Close(None) => 0,
            Message::Close(Some(f)) => string_bytes(&f.reason).len(),
            Message::Frame(f) => f.len(),
            Message::PeerDisconnected => 0,
        }
    }

    /// Whether the content is empty.
    pub fn is_empty(&self) -> (b: bool)
        requires
            message_len_fits(self@),
        ensures
            b == (message_len(self@) == 0),
    {
        self.len() == 0
    }

    /// The content as bytes.
    pub fn into_data(self) -> (d: Vec<u8>)
        ensures
            d@ == message_data(self@),
    {
        match self {
            Message::Text(s) => bytes_to_vec(string_bytes(&s)),
            Message::Binary(d) => d,
            Message::Ping(d) => d,
            Message::Pong(d) => d,
            Message::Close(None) => Vec::new(),
            Message::Close(Some(f)) => bytes_to_vec(string_bytes(&f.reason)),
            Message::Frame(f) => f.payload,
            Message::PeerDisconnected => Vec::new(),
        }
    }

    /// The content as text.
    pub fn into_text(self) -> (r: Result<String, MessageError>)
        ensures
            crate::message::client::string_matches(r, message_into_text(self@)),
    {
        match self {
            Message::Text(s) => Ok(s),
            Message::Binary(d) => decode_text(d.as_slice()),
            Message::Ping(d) => decode_text(d.as_slice()),
            Message::Pong(d) => decode_text(d.as_slice()),
            Message::Close(None) => Ok(String::new()),
            Message::Close(Some(f)) => Ok(f.reason),
            Message::Frame(f) => decode_text(f.payload.as_slice()),
            Message::PeerDisconnected => Ok(String::new()),
        }
    }

    /// The text of the message: its content, or a name for one without content.
    pub fn to_text(&self) -> (r: Result<&str, MessageError>)
        ensures
            crate::message::client::text_matches(r, message_to_text(self@)),
    {
        match self {
            Message::Text(s) => Ok(s.as_str()),
            Message::Binary(d) => view_text(d.as_slice()),
            Message::Ping(d) => view_text(d.as_slice()),
            Message::Pong(d) => view_text(d.as_slice()),
            Message::Close(None) => Ok("Close"),
            Message::Close(Some(f)) => Ok(f.reason.as_str()),
            Message::Frame(f) => view_text(f.payload.as_slice()),
            Message::PeerDisconnected => Ok("Peer Disconnected"),
        }
    }

    /// How the message shows: its text, or its length where it has no text.
    pub fn to_string(&self) -> (r: String)
        requires
            message_len_fits(self@),
        ensures
            r@ == message_display(self@),
    {
        match self.to_text() {
            Ok(s) => s.to_owned(),
            Err(_) => binary_label_string(self.len()),
        }
    }

    /// The peer message that a WebSocket message is.
    pub fn from(w: WsMessage) -> (m: Message)
        ensures
            m@ == message_from_ws(w@),
    {
        match w {
            WsMessage::Text(s) => Message::Text(s),
            WsMessage::Binary(d) => Message::Binary(d),
            WsMessage::Ping(d) => Message::Ping(d),
            WsMessage::Pong(d) => Message::Pong(d),
            WsMessage::Close(c) => Message::Close(c),
            WsMessage::Frame(f) => Message::Frame(f),
        }
    }

    /// The WebSocket message that this message is; the news that the peer
    /// left is refused.
    pub fn try_into_ws(self) -> (r: Result<WsMessage, &'static str>)
        ensures
            match message_to_ws(self@) {
                Some(w) => r matches Ok(x) && x@ == w,
                None => r matches Err(e) && e@ == peer_left_refusal(),
            },
    {
        match self {
            Message::Text(s) => Ok(WsMessage::Text(s)),
            Message::Binary(d) => Ok(WsMessage::Binary(d)),
            Message::Ping(d) => Ok(WsMessage::Ping(d)),
            Message::Pong(d) => Ok(WsMessage::Pong(d)),
            Message::Close(c) => Ok(WsMessage::Close(c)),
            Message::Frame(f) => Ok(WsMessage::Frame(f)),
            Message::PeerDisconnected => {
                let e = "PeerLeft cannot be converted to tungstenite::Message";
                proof {
                    reveal_strlit("PeerLeft cannot be converted to tungstenite::Message");
                }
                Err(e)
            },
        }
    }
}

/// Every WebSocket message comes back unchanged through a peer message.
pub proof fn lemma_message_ws_roundtrip(w: WsMessageView)
    ensures
        message_to_ws(message_from_ws(w)) == Some(w),
{
}

} // verus!

verus! {

/// How a message to the other peer travels over the relay's WebSocket.
pub enum Outgoing {
    /// As the JSON text of a text-protocol message.
    Json(crate::message::binary::ClientTextMessage),
    /// As the bytes of a binary message.
    Binary(Vec<u8>),
    /// As a close frame.
    Close(Option<CloseFrame>),
}

/// How a message to the other peer travels: text as a text-protocol data
/// message, binary data as a binary data message, a close frame as itself.
/// Any other message cannot be sent and is given back.
pub fn outgoing(msg: Message) -> (r: Result<Outgoing, Message>)
    ensures
        match msg@ {
            MessageView::Text(t) => r matches Ok(Outgoing::Json(
                crate::message::binary::ClientTextMessage::Data(s),
            )) && s@ == t,
            MessageView::Binary(d) => r matches Ok(Outgoing::Binary(b)) && b@ == tagged(
                crate::message::binary::DATA_TYPE_BYTE,
                d,
            ),
            MessageView::Close(c) => r matches Ok(Outgoing::Close(f)) && close_view(f) == c,
            _ => r matches Err(m) && m@ == msg@,
        },
{
    match msg {
        Message::Text(t) => Ok(Outgoing::Json(crate::message::binary::ClientTextMessage::Data(t))),
        Message::Binary(d) => {
            let m = crate::message::binary::ClientBinaryMessage::Data(d);
            Ok(Outgoing::Binary(crate::message::binary::BinaryMessageTrait::encode(&m)))
        },
        Message::Close(c) => Ok(Outgoing::Close(c)),
        m => Err(m),
    }
}

/// The peer message that a text-protocol message from the relay stands for:
/// data is text from the peer, and the peer's leaving is the news of it. Any
/// other message is unexpected and given back.
pub fn incoming_text(m: crate::message::binary::ServerTextMessage) -> (r: Result<
    Message,
    crate::message::binary::ServerTextMessage,
>)
    ensures
        match m {
            crate::message::binary::ServerTextMessage::Data(t) => r matches Ok(x) && x@
                == MessageView::Text(t@),
            crate::message::binary::ServerTextMessage::ClientLeft => r matches Ok(x) && x@
                is PeerDisconnected,
            _ => r == Err::<Message, crate::message::binary::ServerTextMessage>(m),
        },
{
    match m {
        crate::message::binary::ServerTextMessage::Data(t) => Ok(Message::Text(t)),
        crate::message::binary::ServerTextMessage::ClientLeft => Ok(Message::PeerDisconnected),
        other => Err(other),
    }
}

/// The peer message that a binary message from the relay carries, if its
/// bytes are a binary data message.
pub fn incoming_binary(bytes: &[u8]) -> (r: Option<Message>)
    ensures
        crate::message::binary::binary_valid(bytes@) ==> (r matches Some(x) && x@
            == MessageView::Binary(bytes@.subrange(1, bytes@.len() as int))),
        !crate::message::binary::binary_valid(bytes@) ==> r is None,
{
    match <crate::message::binary::ServerBinaryMessage as crate::message::binary::BinaryMessageTrait>::decode(bytes) {
        Ok(crate::message::binary::ServerBinaryMessage::Data(d)) => Some(Message::Binary(d)),
        Err(_) => None,
    }
}

} // verus!
