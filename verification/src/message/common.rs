use vstd::prelude::*;

verus! {

/// The tag byte that opens every frame of the binary protocol.
#[derive(Debug, Clone, Copy, PartialEq, Eq, Structural)]
pub enum Tags {
    RoomCreated,
    JoinedSuccessfully,
    ClientJoined,
    ClientLeft,
    ServerClosed,
    CreateRoom,
    JoinRoom,
    LeaveRoom,
    Error,
    Text,
    Binary,
    Ping,
    Pong,
    Close,
    Frame,
}

/// The byte that stands for each tag on the wire.
pub open spec fn tag_byte(t: Tags) -> u8 {
    match t {
        Tags::RoomCreated => 1,
        Tags::JoinedSuccessfully => 2,
        Tags::ClientJoined => 3,
        Tags::ClientLeft => 4,
        Tags::ServerClosed => 5,
        Tags::CreateRoom => 6,
        Tags::JoinRoom => 7,
        Tags::LeaveRoom => 8,
        Tags::Error => 9,
        Tags::Text => 10,
        Tags::Binary => 11,
        Tags::Ping => 12,
        Tags::Pong => 13,
        Tags::Close => 14,
        Tags::Frame => 15,
    }
}

impl Tags {
    /// The byte of this tag.
    pub fn as_u8(self) -> (b: u8)
        ensures
            b == tag_byte(self),
    {
        match self {
            Tags::RoomCreated => 1,
            Tags::JoinedSuccessfully => 2,
            Tags::ClientJoined => 3,
            Tags::ClientLeft => 4,
            Tags::ServerClosed => 5,
            Tags::CreateRoom => 6,
            Tags::JoinRoom => 7,
            Tags::LeaveRoom => 8,
            Tags::Error => 9,
            Tags::Text => 10,
            Tags::Binary => 11,
            Tags::Ping => 12,
            Tags::Pong => 13,
            Tags::Close => 14,
            Tags::Frame => 15,
        }
    }
}

} // verus!

verus! {

/// Why bytes could not be read as a message.
#[derive(Debug, Clone, Copy, PartialEq, Eq, Structural)]
pub enum MessageError {
    InvalidTag(u8),
    InvalidUtf8,
    EmptyData,
    InsufficientData,
}

} // verus!
