//! How a peer tells another where to meet it: a connection configuration,
//! shared as a base64 token of its serialized bytes.
use vstd::prelude::*;

use base64::Engine;

use crate::peer::PeerAddr;

verus! {

/// Whether peers connect to each other or meet in a room of a relay.
#[derive(Debug, Clone, Copy, PartialEq, Eq, Structural)]
pub enum ConnectionMethod {
    Direct,
    Proxy,
}

/// The transport that a connection runs over.
#[derive(Debug, Clone, Copy, PartialEq, Eq, Structural)]
pub enum ConnectionProtocol {
    Tcp,
    Udp,
    WebSocket,
}

/// Where and how to reach a peer.
#[derive(Debug, Clone, PartialEq, Eq)]
pub struct ConnectionConfig {
    pub method: ConnectionMethod,
    pub protocol: ConnectionProtocol,
    pub addr: PeerAddr,
    pub room_id: Option<String>,
}

/// A connection configuration over texts of characters.
pub struct ConnectionConfigView {
    pub method: ConnectionMethod,
    pub protocol: ConnectionProtocol,
    pub addr: PeerAddr,
    pub room_id: Option<Seq<char>>,
}

/// The characters of an optional text.
pub open spec fn opt_text(s: Option<String>) -> Option<Seq<char>> {
    match s {
        Some(t) => Some(t@),
        None => None,
    }
}

impl View for ConnectionConfig {
    type V = ConnectionConfigView;

    open spec fn view(&self) -> ConnectionConfigView {
        ConnectionConfigView {
            method: self.method,
            protocol: self.protocol,
            addr: self.addr,
            room_id: opt_text(self.room_id),
        }
    }
}

/// Why a token could not be made or used.
#[derive(Debug, Clone, Copy, PartialEq, Eq, Structural)]
pub enum TokenError {
    /// The token is not valid base64.
    BadEncoding,
    /// The token names another method or protocol, or no room.
    InvalidConfig,
    /// The connection has no relay or no room to name.
    NotConnected,
}

impl ConnectionConfig {
    /// A configuration of the given parts.
    pub fn new(
        method: ConnectionMethod,
        protocol: ConnectionProtocol,
        addr: PeerAddr,
        room_id: Option<String>,
    ) -> (c: ConnectionConfig)
        ensures
            c.method == method,
            c.protocol == protocol,
            c.addr == addr,
            c.room_id == room_id,
    {
        ConnectionConfig { method, protocol, addr, room_id }
    }
}

/// The standard base64 text (with padding) of some bytes.
pub uninterp spec fn base64_encoded(bytes: Seq<u8>) -> Seq<char>;

/// The bytes that a text is the standard base64 of, if it is one.
pub uninterp spec fn base64_decoded(text: Seq<char>) -> Option<Seq<u8>>;

#[verifier::external_type_specification]
#[verifier::external_body]
pub struct ExDecodeError(base64::DecodeError);

/// The bytes of a decoding that succeeded.
pub open spec fn decoded_bytes<E>(r: Result<Vec<u8>, E>) -> Seq<u8> {
    match r {
        Ok(v) => v@,
        Err(_) => Seq::empty(),
    }
}

/// A decoding of `text` gives back the bytes that `text` is the encoding of:
/// where `text` is the standard base64 of `b`, it succeeds with `b`.
pub open spec fn gives_back_encoded(text: Seq<char>, ok: bool, bytes: Seq<u8>) -> bool {
    forall|b: Seq<u8>| #[trigger] base64_encoded(b) == text ==> ok && bytes == b
}

/// `Engine::encode` of base64 with the `STANDARD` engine: the padded base64
/// text of the bytes. It panics only where the text's length overflows a
/// `usize`, which `requires` leaves out.
#[verifier::external_body]
fn base64_encode(bytes: &[u8]) -> (r: String)
    requires
        bytes@.len() / 3 * 4 + 4 <= usize::MAX,
    ensures
        r@ == base64_encoded(bytes@),
{
    base64::engine::general_purpose::STANDARD.encode(bytes)
}

/// `Engine::decode` of base64 with the `STANDARD` engine: the bytes that the
/// text is the canonical padded base64 of, or an error. Decoding the text that
/// `encode` made of some bytes gives those bytes back.
#[verifier::external_body]
fn base64_decode(text: &str) -> (r: Result<Vec<u8>, base64::DecodeError>)
    ensures
        r is Ok <==> base64_decoded(text@) is Some,
        r matches Ok(v) ==> base64_decoded(text@) == Some(v@),
        gives_back_encoded(text@, r is Ok, decoded_bytes(r)),
{
    base64::engine::general_purpose::STANDARD.decode(text)
}

/// The token that carries a configuration's serialized bytes.
pub fn encode_token(bin: &[u8]) -> (r: String)
    requires
        bin@.len() / 3 * 4 + 4 <= usize::MAX,
    ensures
        r@ == base64_encoded(bin@),
{
    base64_encode(bin)
}

/// The serialized bytes that a token carries, or `BadEncoding` where it is
/// not base64. A token that `encode_token` made gives back its bytes.
pub fn decode_token(token: &str) -> (r: Result<Vec<u8>, TokenError>)
    ensures
        match base64_decoded(token@) {
            Some(b) => r matches Ok(v) && v@ == b,
            None => r == Err::<Vec<u8>, TokenError>(TokenError::BadEncoding),
        },
        forall|b: Seq<u8>|
            #![trigger base64_encoded(b)]
            base64_encoded(b) == token@ ==> (r matches Ok(v) && v@ == b),
{
    match base64_decode(token) {
        Ok(v) => Ok(v),
        Err(_) => Err(TokenError::BadEncoding),
    }
}

/// The relay and room that a configuration names for a joiner that speaks
/// `protocol`: it must be a relay configuration of that protocol with a room.
pub open spec fn config_target(c: ConnectionConfigView, protocol: ConnectionProtocol) -> Result<
    (PeerAddr, Seq<char>),
    TokenError,
> {
    if c.protocol != protocol || c.method != ConnectionMethod::Proxy {
        Err(TokenError::InvalidConfig)
    } else {
        match c.room_id {
            Some(room) => Ok((c.addr, room)),
            None => Err(TokenError::InvalidConfig),
        }
    }
}

/// The view of a relay and room.
pub open spec fn target_view(r: Result<(PeerAddr, String), TokenError>) -> Result<
    (PeerAddr, Seq<char>),
    TokenError,
> {
    match r {
        Ok((a, s)) => Ok((a, s@)),
        Err(e) => Err(e),
    }
}

/// The relay and room that a configuration names, as `config_target` says.
pub fn proxy_target(cfg: ConnectionConfig, protocol: ConnectionProtocol) -> (r: Result<
    (PeerAddr, String),
    TokenError,
>)
    ensures
        target_view(r) == config_target(cfg@, protocol),
{
    if cfg.protocol != protocol || cfg.method != ConnectionMethod::Proxy {
        return Err(TokenError::InvalidConfig);
    }
    match cfg.room_id {
        Some(room) => Ok((cfg.addr, room)),
        None => Err(TokenError::InvalidConfig),
    }
}

/// The configuration that a connection in a room of a relay advertises, or
/// `NotConnected` where it has no relay or no room.
pub open spec fn advertised_config(
    server_addr: Option<PeerAddr>,
    room_id: Option<Seq<char>>,
    protocol: ConnectionProtocol,
) -> Result<ConnectionConfigView, TokenError> {
    match (server_addr, room_id) {
        (Some(a), Some(room)) => Ok(
            ConnectionConfigView {
                method: ConnectionMethod::Proxy,
                protocol,
                addr: a,
                room_id: Some(room),
            },
        ),
        _ => Err(TokenError::NotConnected),
    }
}

/// The view of a configuration result.
pub open spec fn config_result_view(r: Result<ConnectionConfig, TokenError>) -> Result<
    ConnectionConfigView,
    TokenError,
> {
    match r {
        Ok(c) => Ok(c@),
        Err(e) => Err(e),
    }
}

/// The configuration that a connection advertises, as `advertised_config`
/// says.
pub fn token_config(
    server_addr: Option<PeerAddr>,
    room_id: Option<String>,
    protocol: ConnectionProtocol,
) -> (r: Result<ConnectionConfig, TokenError>)
    ensures
        config_result_view(r) == advertised_config(server_addr, opt_text(room_id), protocol),
{
    match (server_addr, room_id) {
        (Some(a), Some(room)) => Ok(
            ConnectionConfig::new(ConnectionMethod::Proxy, protocol, a, Some(room)),
        ),
        _ => Err(TokenError::NotConnected),
    }
}

/// A joiner that speaks the same protocol reads back the relay and the room
/// that a connection advertises.
pub proof fn lemma_advertised_target(
    server_addr: PeerAddr,
    room_id: Seq<char>,
    protocol: ConnectionProtocol,
)
    ensures
        advertised_config(Some(server_addr), Some(room_id), protocol) matches Ok(c)
            && config_target(c, protocol) == Ok::<(PeerAddr, Seq<char>), TokenError>(
            (server_addr, room_id),
        ),
{
}

/// A joiner that speaks another protocol refuses what a connection advertises.
pub proof fn lemma_advertised_other_protocol(
    server_addr: PeerAddr,
    room_id: Seq<char>,
    protocol: ConnectionProtocol,
    other: ConnectionProtocol,
)
    requires
        other != protocol,
    ensures
        advertised_config(Some(server_addr), Some(room_id), protocol) matches Ok(c)
            && config_target(c, other) == Err::<(PeerAddr, Seq<char>), TokenError>(
            TokenError::InvalidConfig,
        ),
{
}

} // verus!
