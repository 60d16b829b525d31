use vstd::prelude::*;

verus! {

/// How long a server waits to connect, in seconds.
pub const SERVER_CONNECTION_TIMEOUT_SEC: u64 = 10;

/// How long a client waits for another peer to join its room, in seconds.
pub const CLIENT_CONNECTION_WAIT_TIMEOUT_SEC: u64 = 120;

/// How long a peer waits for another peer to join, in seconds.
pub const PEER_CONNECTION_WAIT_TIMEOUT_SEC: u64 = 120;

/// How long a read of a frame's rest may take, in milliseconds.
pub const READ_TIMEOUT_MS: u64 = 1000;

/// How many failures in a row a connection tolerates before it is closed.
pub const MAX_ERRORS_ALLOWED: usize = 1;

/// The largest message that the relay accepts, in bytes.
pub const MAX_MESSAGE_SIZE: usize = 1024 * 512;

/// A room is full once it holds more than this many peers.
pub const MAX_NUM_CLIENTS_IN_ROOM: usize = 2;

/// No room is created once there are more than this many rooms.
pub const MAX_NUM_ROOMS: usize = 10;

/// The capacity of the channels between the actors and the handler.
pub const MPSC_CHANNEL_CAPACITY: usize = 100;

/// The capacity of the shutdown channel.
pub const SHUTDOWN_CHANNEL_CAPACITY: usize = 1;

/// The length of a room identifier, in characters.
pub const ROOM_ID_LEN: usize = 8;

} // verus!
