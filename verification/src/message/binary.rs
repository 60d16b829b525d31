use vstd::prelude::*;

use crate::error::ProxyServerError;
use crate::wire::{after_first, bytes_to_vec, encode_tagged, tagged};

verus! {

/// The kind of a binary message, by its first byte.
#[derive(Debug, Clone, Copy, PartialEq, Eq, Structural)]
pub enum BinaryMessageType {
    Data,
}

/// The byte of the data kind.
pub const DATA_TYPE_BYTE: u8 = 0;

/// Whether bytes start with a known kind.
pub open spec fn binary_valid(data: Seq<u8>) -> bool {
    data.len() > 0 && data[0] == DATA_TYPE_BYTE
}

/// The kind that bytes start with.
pub open spec fn binary_type(data: Seq<u8>) -> Option<BinaryMessageType> {
    if binary_valid(data) {
        Some(BinaryMessageType::Data)
    } else {
        None
    }
}

/// Why bytes are not a binary message: empty, or of an unknown kind.
pub open spec fn binary_decode_error(data: Seq<u8>) -> Seq<char> {
    if data.len() == 0 {
        "Empty binary message"@
    } else {
        "Unknown binary message type"@
    }
}

/// A message sent as a WebSocket binary message: a kind byte, then the data.
pub trait BinaryMessageTrait: Sized {
    /// The data that the message carries.
    spec fn data(&self) -> Seq<u8>;

    /// The kind byte followed by the data.
    fn encode(&self) -> (r: Vec<u8>)
        ensures
            r@ == tagged(DATA_TYPE_BYTE, self.data()),
    ;

    /// Reads a message from a kind byte and the data after it.
    fn decode(data: &[u8]) -> (r: Result<Self, ProxyServerError>)
        ensures
            match r {
                Ok(m) => binary_valid(data@) && m.data() == data@.subrange(1, data@.len() as int),
                Err(ProxyServerError::InvalidData(msg)) => !binary_valid(data@) && msg@
                    == binary_decode_error(data@),
                Err(_) => false,
            },
    ;

    /// Whether the bytes start with a known kind.
    fn is_valid(data: &[u8]) -> (b: bool)
        ensures
            b == binary_valid(data@),
    ;

    /// The kind that the bytes start with.
    fn get_type(data: &[u8]) -> (r: Option<BinaryMessageType>)
        ensures
            r == binary_type(data@),
    ;
}

/// The bytes after the kind byte, or why there are none.
fn split_data(data: &[u8]) -> (r: Result<Vec<u8>, ProxyServerError>)
    ensures
        match r {
            Ok(d) => binary_valid(data@) && d@ == data@.subrange(1, data@.len() as int),
            Err(ProxyServerError::InvalidData(msg)) => !binary_valid(data@) && msg@
                == binary_decode_error(data@),
            Err(_) => false,
        },
{
    if data.len() == 0 {
        return Err(ProxyServerError::InvalidData(String::from_str("Empty binary message")));
    }
    if data[0] == DATA_TYPE_BYTE {
        Ok(bytes_to_vec(after_first(data)))
    } else {
        Err(ProxyServerError::InvalidData(String::from_str("Unknown binary message type")))
    }
}

fn valid(data: &[u8]) -> (b: bool)
    ensures
        b == binary_valid(data@),
{
    data.len() > 0 && data[0] == DATA_TYPE_BYTE
}

fn kind(data: &[u8]) -> (r: Option<BinaryMessageType>)
    ensures
        r == binary_type(data@),
{
    if valid(data) {
        Some(BinaryMessageType::Data)
    } else {
        None
    }
}

/// Data that the relay sends to a client over a binary message.
#[derive(Debug, PartialEq, Eq)]
pub enum ServerBinaryMessage {
    Data(Vec<u8>),
}

/// Data that a client sends to the relay over a binary message.
#[derive(Debug, PartialEq, Eq)]
pub enum ClientBinaryMessage {
    Data(Vec<u8>),
}

impl BinaryMessageTrait for ClientBinaryMessage {
    open spec fn data(&self) -> Seq<u8> {
        match self {
            ClientBinaryMessage::Data(d) => d@,
        }
    }

    fn encode(&self) -> (r: Vec<u8>) {
        match self {
            ClientBinaryMessage::Data(d) => encode_tagged(DATA_TYPE_BYTE, d.as_slice()),
        }
    }

    fn decode(data: &[u8]) -> (r: Result<Self, ProxyServerError>) {
        match split_data(data) {
            Ok(d) => Ok(ClientBinaryMessage::Data(d)),
            Err(e) => Err(e),
        }
    }

    fn is_valid(data: &[u8]) -> (b: bool) {
        valid(data)
    }

    fn get_type(data: &[u8]) -> (r: Option<BinaryMessageType>) {
        kind(data)
    }
}

impl BinaryMessageTrait for ServerBinaryMessage {
    open spec fn data(&self) -> Seq<u8> {
        match self {
            ServerBinaryMessage::Data(d) => d@,
        }
    }

    fn encode(&self) -> (r: Vec<u8>) {
        match self {
            ServerBinaryMessage::Data(d) => encode_tagged(DATA_TYPE_BYTE, d.as_slice()),
        }
    }

    fn decode(data: &[u8]) -> (r: Result<Self, ProxyServerError>) {
        match split_data(data) {
            Ok(d) => Ok(ServerBinaryMessage::Data(d)),
            Err(e) => Err(e),
        }
    }

    fn is_valid(data: &[u8]) -> (b: bool) {
        valid(data)
    }

    fn get_type(data: &[u8]) -> (r: Option<BinaryMessageType>) {
        kind(data)
    }
}

/// Decoding the bytes of a binary message gives back its data.
pub proof fn lemma_binary_roundtrip(d: Seq<u8>)
    ensures
        binary_valid(tagged(DATA_TYPE_BYTE, d)),
        tagged(DATA_TYPE_BYTE, d).subrange(1, tagged(DATA_TYPE_BYTE, d).len() as int) == d,
{
    assert(tagged(DATA_TYPE_BYTE, d).subrange(1, tagged(DATA_TYPE_BYTE, d).len() as int) =~= d);
}

/// The messages of the text protocol between peers and the relay, and of the
/// central service. They travel as JSON.
#[derive(Debug)]
pub enum CentralMessage {
    CreateRoom,
    JoinRoom(String),
    LeaveRoom,
    Data(&'static [u8]),
    Disconnect(String),
}

/// A text-protocol message from a client.
#[derive(Debug, PartialEq, Eq)]
pub enum ClientTextMessage {
    CreateRoom,
    JoinRoom(String),
    LeaveRoom,
    Data(String),
}

/// A text-protocol message from the relay.
#[derive(Debug, PartialEq, Eq)]
pub enum ServerTextMessage {
    RoomCreated { room_id: String },
    ClientJoined,
    JoinedSuccessfully,
    ClientLeft,
    Error(String),
    Data(String),
}

} // verus!
