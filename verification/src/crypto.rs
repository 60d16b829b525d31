//! End-to-end encryption between two peers over the relay: the plaintext
//! framing, the transport phase of a Noise session, and the three-message
//! handshake that sets it up.
use vstd::prelude::*;
use vstd::utf8::*;

use crate::message::client::{ClientMessage, ClientMessageView};
use crate::message::common::{tag_byte, Tags as MessageTags};
use crate::message::server::{ServerMessage, ServerMessageView};
use crate::wire::{after_first, bytes_to_vec, encode_tagged, string_bytes, string_from_utf8, tagged};

verus! {

broadcast use vstd::utf8::group_utf8_lib;

/// The Noise protocol that both peers speak.
pub const ALGO: &'static str = "Noise_XX_25519_ChaChaPoly_BLAKE2s";

/// The largest Noise message, and the size of the buffers that hold one.
pub const MAX_BUFFER_SIZE: usize = 65535;

/// The length of the authentication tag that encryption adds to a plaintext.
pub const TAG_LEN: usize = 16;

/// The kinds of message that may travel between peers, each with its number.
#[derive(Debug, Clone, Copy, PartialEq, Eq, Structural)]
pub enum Tags {
    Text,
    Binary,
    Ping,
    Pong,
    Close,
    Frame,
}

/// The byte that stands for a tag.
pub open spec fn tag_value(t: Tags) -> u8 {
    match t {
        Tags::Text => 0,
        Tags::Binary => 1,
        Tags::Ping => 2,
        Tags::Pong => 3,
        Tags::Close => 4,
        Tags::Frame => 5,
    }
}

impl Tags {
    /// The byte that stands for this tag.
    pub fn as_u8(self) -> (b: u8)
        ensures
            b == tag_value(self),
    {
        match self {
            Tags::Text => 0,
            Tags::Binary => 1,
            Tags::Ping => 2,
            Tags::Pong => 3,
            Tags::Close => 4,
            Tags::Frame => 5,
        }
    }
}

/// Why encryption, decryption or the handshake failed.
#[derive(Debug, Clone, Copy, PartialEq, Eq, Structural)]
pub enum CryptoError {
    InvalidState,
    FailedHandShake,
    Write,
    Read,
    Decrypt,
    Encrypt,
    Send,
    Timeout,
    InvalidMessageType,
}

/// The plaintext that carries a message under encryption: the relay
/// protocol's tag of its kind, then its text's UTF-8 bytes or its data. Other messages are sent as they
/// are and have none.
pub open spec fn sealed_plaintext(m: ClientMessageView) -> Option<Seq<u8>> {
    match m {
        ClientMessageView::Text(s) => Some(tagged(tag_byte(MessageTags::Text), encode_utf8(s))),
        ClientMessageView::Binary(d) => Some(tagged(tag_byte(MessageTags::Binary), d)),
        _ => None,
    }
}

/// The message that a decrypted plaintext carries, or `Decrypt` where it is
/// empty, starts with another byte, or holds text that is not UTF-8.
pub open spec fn opened_plaintext(p: Seq<u8>) -> Result<ServerMessageView, CryptoError> {
    if p.len() == 0 {
        Err(CryptoError::Decrypt)
    } else {
        let rest = p.subrange(1, p.len() as int);
        if p[0] == tag_byte(MessageTags::Text) {
            if valid_utf8(rest) {
                Ok(ServerMessageView::Text(decode_utf8(rest)))
            } else {
                Err(CryptoError::Decrypt)
            }
        } else if p[0] == tag_byte(MessageTags::Binary) {
            Ok(ServerMessageView::Binary(rest))
        } else {
            Err(CryptoError::Decrypt)
        }
    }
}

/// The view of a result that carries a server message.
pub open spec fn opened_view(r: Result<ServerMessage, CryptoError>) -> Result<ServerMessageView, CryptoError> {
    match r {
        Ok(m) => Ok(m@),
        Err(e) => Err(e),
    }
}

/// What the receiving peer reads of a message that the sender sealed: the same
/// text, or the same data.
pub open spec fn as_received(m: ClientMessageView) -> ServerMessageView {
    match m {
        ClientMessageView::Text(s) => ServerMessageView::Text(s),
        ClientMessageView::Binary(d) => ServerMessageView::Binary(d),
        _ => ServerMessageView::Binary(Seq::empty()),
    }
}

/// A sealed plaintext opens to the message that was sealed: text stays the
/// same text and data the same data.
pub proof fn lemma_plaintext_roundtrip(m: ClientMessageView)
    requires
        sealed_plaintext(m) is Some,
    ensures
        opened_plaintext(sealed_plaintext(m)->0) == Ok::<ServerMessageView, CryptoError>(as_received(m)),
{
    let p = sealed_plaintext(m)->0;
    match m {
        ClientMessageView::Text(s) => {
            assert(p.subrange(1, p.len() as int) =~= encode_utf8(s));
            encode_utf8_valid_utf8(s);
            encode_utf8_decode_utf8(s);
        },
        ClientMessageView::Binary(d) => {
            assert(p.subrange(1, p.len() as int) =~= d);
        },
        _ => {},
    }
}

/// The plaintext that carries a message under encryption, if it has one.
pub fn plaintext_of(msg: &ClientMessage) -> (r: Option<Vec<u8>>)
    ensures
        match (r, sealed_plaintext(msg@)) {
            (Some(v), Some(p)) => v@ == p,
            (None, None) => true,
            _ => false,
        },
{
    match msg {
        ClientMessage::Text(text) => Some(encode_tagged(MessageTags::Text.as_u8(), string_bytes(text))),
        ClientMessage::Binary(data) => Some(encode_tagged(MessageTags::Binary.as_u8(), data.as_slice())),
        _ => None,
    }
}

/// The message that a decrypted plaintext carries.
pub fn parse_decrypted_message(decrypted: &[u8]) -> (r: Result<ServerMessage, CryptoError>)
    ensures
        opened_view(r) == opened_plaintext(decrypted@),
{
    if decrypted.len() == 0 {
        return Err(CryptoError::Decrypt);
    }
    let tag = decrypted[0];
    let rest = after_first(decrypted);
    if tag == MessageTags::Text.as_u8() {
        match string_from_utf8(rest) {
            Some(text) => Ok(ServerMessage::text(text)),
            None => Err(CryptoError::Decrypt),
        }
    } else if tag == MessageTags::Binary.as_u8() {
        Ok(ServerMessage::binary(bytes_to_vec(rest)))
    } else {
        Err(CryptoError::Decrypt)
    }
}

} // verus!

verus! {

#[verifier::external_type_specification]
#[verifier::external_body]
pub struct ExSnowError(snow::Error);

#[verifier::external_type_specification]
#[verifier::external_body]
pub struct ExTransportState(snow::TransportState);

/// A Noise session in its transport phase, with a record of the messages it
/// encrypted and decrypted.
pub struct NoiseTransport {
    state: snow::TransportState,
    sealed: Ghost<Seq<(Seq<u8>, Seq<u8>)>>,
    opened: Ghost<Seq<(Seq<u8>, Seq<u8>)>>,
    sendable: Ghost<bool>,
    sending_nonce: Ghost<nat>,
}

impl NoiseTransport {
    /// Each plaintext that the session encrypted, with the ciphertext it
    /// wrote, in order.
    pub closed spec fn sealed(&self) -> Seq<(Seq<u8>, Seq<u8>)> {
        self.sealed@
    }

    /// Each ciphertext that the session decrypted, with the plaintext it
    /// wrote, in order.
    pub closed spec fn opened(&self) -> Seq<(Seq<u8>, Seq<u8>)> {
        self.opened@
    }

    /// Whether the session is known to hold its sending key and to be allowed
    /// to send: it is the outcome of a finished handshake of `ALGO`.
    pub closed spec fn sendable(&self) -> bool {
        self.sendable@
    }

    /// Whether the session is known to be able to encrypt: it may send and its
    /// sending nonce is not yet exhausted.
    pub open spec fn can_send(&self) -> bool {
        self.sendable() && self.sending_nonce() < u64::MAX
    }

    /// How many messages the session has encrypted since its handshake.
    pub closed spec fn sending_nonce(&self) -> nat {
        self.sending_nonce@
    }

    /// A session over a transport state, with nothing encrypted or decrypted
    /// through it yet. Of a state from elsewhere nothing more is known, so it
    /// is not known to be able to encrypt.
    pub fn new(state: snow::TransportState) -> (t: NoiseTransport)
        ensures
            t.sealed() == Seq::<(Seq<u8>, Seq<u8>)>::empty(),
            t.opened() == Seq::<(Seq<u8>, Seq<u8>)>::empty(),
            !t.can_send(),
    {
        NoiseTransport {
            state,
            sealed: Ghost(Seq::empty()),
            opened: Ghost(Seq::empty()),
            sendable: Ghost(false),
            sending_nonce: Ghost(0),
        }
    }
}

/// `TransportState::write_message` of snow: encrypts `payload` into the front
/// of `message`. It fails where the payload with its 16-byte tag is longer than
/// 65535 bytes or than `message`, and where it succeeds it has written the
/// payload's length plus 16 bytes, as the ciphers of snow's default resolver
/// do; the session's record then holds the payload and those bytes, and its
/// sending nonce has gone up by one. Otherwise it fails only for a responder
/// of a one-way pattern, a session without its key, or an exhausted nonce,
/// none of which holds of a session that can send. The ciphertext itself
/// depends on the session's keys and nonce; nothing is said of it.
#[verifier::external_body]
fn transport_write(noise: &mut NoiseTransport, payload: &[u8], message: &mut [u8]) -> (r: Result<
    usize,
    snow::Error,
>)
    ensures
        final(message)@.len() == old(message)@.len(),
        payload@.len() + TAG_LEN > MAX_BUFFER_SIZE || payload@.len() + TAG_LEN > old(
            message,
        )@.len() ==> r is Err,
        r matches Ok(n) ==> n == payload@.len() + TAG_LEN && final(noise).sealed() == old(
            noise,
        ).sealed().push((payload@, final(message)@.take(n as int))),
        r is Err ==> final(noise).sealed() == old(noise).sealed(),
        old(noise).sendable@ && old(noise).sending_nonce@ < u64::MAX && payload@.len() + TAG_LEN
            <= MAX_BUFFER_SIZE && payload@.len() + TAG_LEN <= old(message)@.len() ==> r is Ok,
        r is Ok ==> final(noise).sending_nonce@ == old(noise).sending_nonce@ + 1,
        r is Err ==> final(noise).sending_nonce@ == old(noise).sending_nonce@,
        final(noise).sendable@ == old(noise).sendable@,
        final(noise).opened() == old(noise).opened(),
{
    noise.state.write_message(payload, message)
}

/// `TransportState::read_message` of snow: decrypts `payload` into the front
/// of `message`. It fails where the payload is longer than 65535 bytes, shorter
/// than the 16-byte tag, or holds more plaintext than `message` has room for;
/// where it succeeds it has written the payload's length less 16 bytes, as the
/// ciphers of snow's default resolver do, and the session's record then holds
/// the payload and those bytes. Whether the payload authenticates, and the
/// plaintext, depend on the session's keys and nonce; nothing is said of them.
#[verifier::external_body]
fn transport_read(noise: &mut NoiseTransport, payload: &[u8], message: &mut [u8]) -> (r: Result<
    usize,
    snow::Error,
>)
    ensures
        final(message)@.len() == old(message)@.len(),
        payload@.len() > MAX_BUFFER_SIZE || payload@.len() < TAG_LEN || old(message)@.len()
            + TAG_LEN < payload@.len() ==> r is Err,
        r matches Ok(n) ==> n + TAG_LEN == payload@.len() && final(noise).opened() == old(
            noise,
        ).opened().push((payload@, final(message)@.take(n as int))),
        r is Err ==> final(noise).opened() == old(noise).opened(),
        final(noise).sealed() == old(noise).sealed(),
        final(noise).sendable@ == old(noise).sendable@,
        final(noise).sending_nonce@ == old(noise).sending_nonce@,
{
    noise.state.read_message(payload, message)
}

/// The message that carries the first `written` bytes of `buffer` once
/// encryption wrote them, or `Write` where it failed.
pub fn ciphertext_message(written: Option<usize>, buffer: &[u8]) -> (r: Result<
    ClientMessage,
    CryptoError,
>)
    requires
        written matches Some(n) ==> n <= buffer@.len(),
    ensures
        match written {
            Some(n) => r matches Ok(m) && m@ == ClientMessageView::Binary(buffer@.take(n as int)),
            None => r == Err::<ClientMessage, CryptoError>(CryptoError::Write),
        },
{
    match written {
        Some(n) => Ok(ClientMessage::binary(bytes_to_vec(vstd::slice::slice_subrange(buffer, 0, n)))),
        None => Err(CryptoError::Write),
    }
}

/// The message in the first `read` bytes of `buffer` once decryption wrote
/// them, or `Read` where it failed.
pub fn plaintext_message(read: Option<usize>, buffer: &[u8]) -> (r: Result<
    ServerMessage,
    CryptoError,
>)
    requires
        read matches Some(n) ==> n <= buffer@.len(),
    ensures
        match read {
            Some(n) => opened_view(r) == opened_plaintext(buffer@.take(n as int)),
            None => r == Err::<ServerMessage, CryptoError>(CryptoError::Read),
        },
{
    match read {
        Some(n) => {
            let plain = vstd::slice::slice_subrange(buffer, 0, n);
            assert(plain@ =~= buffer@.take(n as int));
            parse_decrypted_message(plain)
        },
        None => Err(CryptoError::Read),
    }
}


/// Encrypts a text or binary message for the peer: its plaintext is sealed
/// into `buffer` and sent as binary data. It succeeds where the plaintext with
/// its tag fits in `buffer` and in a Noise message and the session can send.
/// Other messages pass unchanged and leave the session as it was.
pub fn encrypt_message(msg: ClientMessage, noise: &mut NoiseTransport, buffer: &mut [u8]) -> (r:
    Result<ClientMessage, CryptoError>)
    ensures
        final(buffer)@.len() == old(buffer)@.len(),
        final(noise).opened() == old(noise).opened(),
        final(noise).sendable() == old(noise).sendable(),
        sealed_plaintext(msg@) is None ==> (r matches Ok(m) && m@ == msg@),
        sealed_plaintext(msg@) is None ==> final(buffer)@ == old(buffer)@,
        sealed_plaintext(msg@) is None ==> *final(noise) == *old(noise),
        sealed_plaintext(msg@) matches Some(p) ==> {
            &&& p.len() + TAG_LEN > MAX_BUFFER_SIZE || p.len() + TAG_LEN > old(buffer)@.len()
                ==> r == Err::<ClientMessage, CryptoError>(CryptoError::Write)
            &&& p.len() + TAG_LEN <= MAX_BUFFER_SIZE && p.len() + TAG_LEN <= old(buffer)@.len()
                && old(noise).can_send() ==> r is Ok
            &&& r is Ok ==> final(noise).sending_nonce() == old(noise).sending_nonce() + 1
            &&& r matches Ok(m) ==> m@ == ClientMessageView::Binary(
                final(buffer)@.take(p.len() + TAG_LEN),
            ) && final(noise).sealed() == old(noise).sealed().push(
                (p, final(buffer)@.take(p.len() + TAG_LEN)),
            )
            &&& r matches Err(e) ==> e == CryptoError::Write && final(noise).sealed() == old(
                noise,
            ).sealed()
        },
{
    match plaintext_of(&msg) {
        Some(data) => {
            let written = match transport_write(noise, data.as_slice(), buffer) {
                Ok(n) => Some(n),
                Err(_) => None,
            };
            ciphertext_message(written, buffer)
        },
        None => Ok(msg),
    }
}

/// Decrypts binary data from the peer and reads the message in its
/// plaintext. Other messages pass unchanged and leave the session as it was.
pub fn decrypt_message(msg: ServerMessage, noise: &mut NoiseTransport, buffer: &mut [u8]) -> (r:
    Result<ServerMessage, CryptoError>)
    ensures
        final(buffer)@.len() == old(buffer)@.len(),
        final(noise).sealed() == old(noise).sealed(),
        final(noise).sendable() == old(noise).sendable(),
        final(noise).sending_nonce() == old(noise).sending_nonce(),
        !(msg@ is Binary) ==> (r matches Ok(m) && m@ == msg@),
        !(msg@ is Binary) ==> final(buffer)@ == old(buffer)@,
        !(msg@ is Binary) ==> *final(noise) == *old(noise),
        msg@ matches ServerMessageView::Binary(d) ==> {
            &&& d.len() > MAX_BUFFER_SIZE || d.len() < TAG_LEN || old(buffer)@.len() + TAG_LEN
                < d.len() ==> r == Err::<ServerMessage, CryptoError>(CryptoError::Read)
            &&& r == Err::<ServerMessage, CryptoError>(CryptoError::Read) && final(noise).opened()
                == old(noise).opened() || d.len() >= TAG_LEN && final(noise).opened() == old(
                noise,
            ).opened().push((d, final(buffer)@.take(d.len() - TAG_LEN))) && opened_view(r)
                == opened_plaintext(final(buffer)@.take(d.len() - TAG_LEN))
        },
{
    match msg {
        ServerMessage::Binary(data) => {
            let read = match transport_read(noise, data.as_slice(), buffer) {
                Ok(n) => Some(n),
                Err(_) => None,
            };
            plaintext_message(read, buffer)
        },
        _ => Ok(msg),
    }
}

} // verus!

verus! {

#[verifier::external_type_specification]
#[verifier::external_body]
pub struct ExNoiseParams(snow::params::NoiseParams);

#[verifier::external_type_specification]
#[verifier::external_body]
pub struct ExBuilder<'a>(snow::Builder<'a>);

#[verifier::external_type_specification]
#[verifier::external_body]
pub struct ExKeypair(snow::Keypair);

#[verifier::external_type_specification]
#[verifier::external_body]
pub struct ExHandshakeState(snow::HandshakeState);

/// Noise parameters, with the protocol name they were read from.
struct NoiseProtocol {
    params: snow::params::NoiseParams,
    name: Ghost<Seq<char>>,
}

/// A key pair that snow generated, with the protocol whose Diffie-Hellman
/// function it belongs to and the bytes of its private half. Only
/// `generate_keypair` makes one.
struct NoiseKeypair {
    keypair: snow::Keypair,
    protocol: Ghost<Seq<char>>,
    private: Ghost<Seq<u8>>,
}

/// A Noise builder, with its protocol name, whether it has a static key, the
/// protocol that the key pair of that key belongs to, and the key's bytes.
struct NoiseBuilder<'a> {
    builder: snow::Builder<'a>,
    protocol: Ghost<Seq<char>>,
    keyed: Ghost<bool>,
    key_protocol: Ghost<Seq<char>>,
    key: Ghost<Seq<u8>>,
}

/// A Noise state in its handshake phase, with the protocol and the side it was
/// built for, whether it has a static key from a key pair generated for its
/// protocol and that key's bytes, each payload it wrote with the handshake
/// message that carried it, and the handshake messages it read, in order.
struct NoiseHandshake {
    state: snow::HandshakeState,
    protocol: Ghost<Seq<char>>,
    initiator: Ghost<bool>,
    keyed: Ghost<bool>,
    static_key: Ghost<Seq<u8>>,
    sent: Ghost<Seq<(Seq<u8>, Seq<u8>)>>,
    received: Ghost<Seq<Seq<u8>>>,
}

/// `NoiseParams::from_str` of snow: reads a protocol name, and the parameters
/// it gives are those of that name. It accepts `ALGO`; whether another name is
/// accepted is not said.
#[verifier::external_body]
fn noise_params(name: &str) -> (r: Result<NoiseProtocol, snow::Error>)
    ensures
        r matches Ok(p) ==> p.name@ == name@,
        name@ == ALGO@ ==> r is Ok,
{
    match name.parse() {
        Ok(params) => Ok(NoiseProtocol { params, name: Ghost(name@) }),
        Err(e) => Err(e),
    }
}

/// `Builder::new` of snow, with its default resolver: a builder for the
/// protocol, with no static key yet.
#[verifier::external_body]
fn noise_builder<'a>(params: NoiseProtocol) -> (r: NoiseBuilder<'a>)
    ensures
        r.protocol@ == params.name@,
        !r.keyed@,
{
    NoiseBuilder {
        builder: snow::Builder::new(params.params),
        protocol: Ghost(params.name@),
        keyed: Ghost(false),
        key_protocol: Ghost(Seq::empty()),
        key: Ghost(Seq::empty()),
    }
}

/// `Builder::generate_keypair` of snow: a fresh random key pair of the
/// builder's protocol, whose private half is as long as a private key of that
/// protocol's Diffie-Hellman function; its bytes are recorded with it. The
/// bytes are random, and whether the system's random source gives them is not
/// said.
#[verifier::external_body]
fn generate_keypair(builder: &NoiseBuilder) -> (r: Result<NoiseKeypair, snow::Error>)
    ensures
        r matches Ok(k) ==> k.protocol@ == builder.protocol@,
{
    match builder.builder.generate_keypair() {
        Ok(keypair) => {
            let private = Ghost(keypair.private@);
            Ok(NoiseKeypair { keypair, protocol: Ghost(builder.protocol@), private })
        },
        Err(e) => Err(e),
    }
}

/// `Builder::local_private_key` of snow, given the private half of a key pair:
/// the builder then has that static key. It fails only where the builder had
/// one already.
#[verifier::external_body]
fn with_local_private_key<'a>(builder: NoiseBuilder<'a>, keypair: &'a NoiseKeypair) -> (r: Result<
    NoiseBuilder<'a>,
    snow::Error,
>)
    ensures
        !builder.keyed@ ==> r is Ok,
        r matches Ok(b) ==> b.protocol@ == builder.protocol@,
        r matches Ok(b) ==> b.keyed@ && b.key_protocol@ == keypair.protocol@,
        r matches Ok(b) ==> b.key@ == keypair.private@,
{
    match builder.builder.local_private_key(&keypair.keypair.private) {
        Ok(b) => Ok(
            NoiseBuilder {
                builder: b,
                protocol: builder.protocol,
                keyed: Ghost(true),
                key_protocol: Ghost(keypair.protocol@),
                key: Ghost(keypair.private@),
            },
        ),
        Err(e) => Err(e),
    }
}

/// `Builder::build_initiator` of snow: a handshake state of the builder's
/// protocol and key for the side that sends the first message, which has
/// written and read nothing yet. Snow copies its static key into a private key
/// of the protocol's Diffie-Hellman function, so it is built here only with no
/// key or with the private half of a key pair generated for the same protocol,
/// which has that length and cannot make it panic. With the default resolver,
/// which has every part that `ALGO` names, and a static key, which is all that
/// the XX pattern asks of a side before its handshake, a state of `ALGO` is
/// built; whether one of another protocol is built is not said.
#[verifier::external_body]
fn build_initiator(builder: NoiseBuilder) -> (r: Result<NoiseHandshake, snow::Error>)
    requires
        builder.keyed@ ==> builder.key_protocol@ == builder.protocol@,
    ensures
        r matches Ok(h) ==> h.initiator@ && h.protocol@ == builder.protocol@,
        builder.protocol@ == ALGO@ && builder.keyed@ ==> r is Ok,
        r matches Ok(h) ==> h.keyed@ == builder.keyed@ && h.static_key@ == builder.key@,
        r matches Ok(h) ==> h.sent@.len() == 0 && h.received@.len() == 0,
{
    match builder.builder.build_initiator() {
        Ok(state) => Ok(
            NoiseHandshake {
                state,
                protocol: builder.protocol,
                initiator: Ghost(true),
                keyed: builder.keyed,
                static_key: builder.key,
                sent: Ghost(Seq::empty()),
                received: Ghost(Seq::empty()),
            },
        ),
        Err(e) => Err(e),
    }
}

/// `Builder::build_responder` of snow: a handshake state of the builder's
/// protocol and key for the side that receives the first message, which has
/// written and read nothing yet. Snow copies its static key into a private key
/// of the protocol's Diffie-Hellman function, so it is built here only with no
/// key or with the private half of a key pair generated for the same protocol,
/// which has that length and cannot make it panic. With the default resolver,
/// which has every part that `ALGO` names, and a static key, which is all that
/// the XX pattern asks of a side before its handshake, a state of `ALGO` is
/// built; whether one of another protocol is built is not said.
#[verifier::external_body]
fn build_responder(builder: NoiseBuilder) -> (r: Result<NoiseHandshake, snow::Error>)
    requires
        builder.keyed@ ==> builder.key_protocol@ == builder.protocol@,
    ensures
        r matches Ok(h) ==> !h.initiator@ && h.protocol@ == builder.protocol@,
        builder.protocol@ == ALGO@ && builder.keyed@ ==> r is Ok,
        r matches Ok(h) ==> h.keyed@ == builder.keyed@ && h.static_key@ == builder.key@,
        r matches Ok(h) ==> h.sent@.len() == 0 && h.received@.len() == 0,
{
    match builder.builder.build_responder() {
        Ok(state) => Ok(
            NoiseHandshake {
                state,
                protocol: builder.protocol,
                initiator: Ghost(false),
                keyed: builder.keyed,
                static_key: builder.key,
                sent: Ghost(Seq::empty()),
                received: Ghost(Seq::empty()),
            },
        ),
        Err(e) => Err(e),
    }
}

/// `HandshakeState::write_message` of snow: writes the next handshake message
/// into the front of `message`, which has room for the largest one, and gives
/// its length; the state's record then holds the payload with those bytes. The
/// bytes, and whether it is this side's turn, are not said.
#[verifier::external_body]
fn handshake_write(noise: &mut NoiseHandshake, payload: &[u8], message: &mut [u8]) -> (r: Result<
    usize,
    snow::Error,
>)
    requires
        old(message)@.len() == MAX_BUFFER_SIZE,
    ensures
        final(message)@.len() == old(message)@.len(),
        final(noise).protocol@ == old(noise).protocol@,
        final(noise).initiator@ == old(noise).initiator@,
        final(noise).keyed@ == old(noise).keyed@,
        final(noise).static_key@ == old(noise).static_key@,
        final(noise).received@ == old(noise).received@,
        r matches Ok(n) ==> n <= old(message)@.len() && final(noise).sent@ == old(noise).sent@.push(
            (payload@, final(message)@.take(n as int)),
        ),
        r is Err ==> final(noise).sent@ == old(noise).sent@,
{
    noise.state.write_message(payload, message)
}

/// `HandshakeState::read_message` of snow: reads the peer's next handshake
/// message and writes its payload into the front of `payload`; the state's
/// record then holds the message. It fails on a message longer than 65535
/// bytes; whether the message is accepted is not said.
#[verifier::external_body]
fn handshake_read(noise: &mut NoiseHandshake, message: &[u8], payload: &mut [u8]) -> (r: Result<
    usize,
    snow::Error,
>)
    ensures
        final(payload)@.len() == old(payload)@.len(),
        final(noise).protocol@ == old(noise).protocol@,
        final(noise).initiator@ == old(noise).initiator@,
        final(noise).keyed@ == old(noise).keyed@,
        final(noise).static_key@ == old(noise).static_key@,
        final(noise).sent@ == old(noise).sent@,
        message@.len() > MAX_BUFFER_SIZE ==> r is Err,
        r matches Ok(n) ==> n <= old(payload)@.len() && final(noise).received@ == old(
            noise,
        ).received@.push(message@),
        r is Err ==> final(noise).received@ == old(noise).received@,
{
    noise.state.read_message(message, payload)
}

/// `HandshakeState::into_transport_mode` of snow: a transport session that has
/// encrypted and decrypted nothing yet. It fails only where the handshake is
/// unfinished; one of `ALGO`, whose pattern has three messages, is finished once
/// three messages were written or read. A session of `ALGO` holds its keys and
/// may send on either side.
#[verifier::external_body]
fn into_transport(noise: NoiseHandshake) -> (r: Result<NoiseTransport, snow::Error>)
    ensures
        noise.protocol@ == ALGO@ && noise.sent@.len() + noise.received@.len() == 3 ==> r is Ok,
        r matches Ok(t) ==> t.sealed@.len() == 0 && t.opened@.len() == 0,
        r matches Ok(t) ==> t.sending_nonce@ == 0 && (noise.protocol@ == ALGO@ ==> t.sendable@),
{
    match noise.state.into_transport_mode() {
        Ok(state) => Ok(
            NoiseTransport {
                state,
                sealed: Ghost(Seq::empty()),
                opened: Ghost(Seq::empty()),
                sendable: Ghost(noise.protocol@ == ALGO@),
                sending_nonce: Ghost(0),
            },
        ),
        Err(e) => Err(e),
    }
}

/// A buffer of `n` zero bytes.
pub fn zeroed_buffer(n: usize) -> (r: Vec<u8>)
    ensures
        r@ == Seq::new(n as nat, |i: int| 0u8),
{
    let mut v: Vec<u8> = Vec::new();
    let mut i: usize = 0;
    while i < n
        invariant
            i <= n,
            v@ == Seq::new(i as nat, |j: int| 0u8),
        decreases n - i,
    {
        v.push(0u8);
        i = i + 1;
        assert(v@ =~= Seq::new(i as nat, |j: int| 0u8));
    }
    v
}

/// How many messages the handshake exchanges.
pub const HANDSHAKE_MESSAGES: u8 = 3;

/// What a side of the handshake does next.
#[derive(Debug, Clone, Copy, PartialEq, Eq, Structural)]
pub enum HandshakeStep {
    Send,
    Receive,
    Finish,
}

/// The step of a side after `exchanged` messages: the initiator sends the
/// first and the third message, the responder the second, and both finish
/// after the third.
pub open spec fn handshake_step(initiator: bool, exchanged: nat) -> HandshakeStep {
    if exchanged >= HANDSHAKE_MESSAGES {
        HandshakeStep::Finish
    } else if (exchanged % 2 == 0) == initiator {
        HandshakeStep::Send
    } else {
        HandshakeStep::Receive
    }
}

/// At every point of the handshake one side sends exactly when the other
/// receives, and both finish together after the third message.
pub proof fn lemma_handshake_sides_agree(exchanged: nat)
    ensures
        handshake_step(true, exchanged) == HandshakeStep::Send <==> handshake_step(false, exchanged)
            == HandshakeStep::Receive,
        handshake_step(true, exchanged) == HandshakeStep::Receive <==> handshake_step(
            false,
            exchanged,
        ) == HandshakeStep::Send,
        handshake_step(true, exchanged) == HandshakeStep::Finish <==> handshake_step(
            false,
            exchanged,
        ) == HandshakeStep::Finish,
        handshake_step(true, exchanged) == HandshakeStep::Finish <==> exchanged >= HANDSHAKE_MESSAGES,
{
}

/// What came of waiting for the peer's next handshake message.
pub enum HandshakeInput {
    Message(ServerMessage),
    Unreadable,
    Ended,
    TimedOut,
}

/// One side of a handshake in progress.
pub struct Handshake {
    noise: NoiseHandshake,
    initiator: bool,
    exchanged: u8,
    buffer: Vec<u8>,
}

impl Handshake {
    /// Whether the Noise state was built for the side that starts the
    /// handshake.
    pub closed spec fn role(&self) -> bool {
        self.noise.initiator@
    }

    /// The protocol name that the Noise state was built for.
    pub closed spec fn protocol(&self) -> Seq<char> {
        self.noise.protocol@
    }

    /// Whether the Noise state was given, as its static key, the private half
    /// of a key pair that snow generated for its protocol.
    pub closed spec fn keyed(&self) -> bool {
        self.noise.keyed@
    }

    /// The static key of the Noise state: the bytes of the private half of the
    /// key pair it was given.
    pub closed spec fn static_key(&self) -> Seq<u8> {
        self.noise.static_key@
    }

    /// Each payload that the Noise state wrote, with the handshake message that
    /// carried it, in order.
    pub closed spec fn sent(&self) -> Seq<(Seq<u8>, Seq<u8>)> {
        self.noise.sent@
    }

    /// The handshake messages that the Noise state read, in order.
    pub closed spec fn received(&self) -> Seq<Seq<u8>> {
        self.noise.received@
    }

    /// How many messages this side has sent or received.
    pub closed spec fn progress(&self) -> nat {
        self.exchanged as nat
    }

    /// The buffer holds the largest message, no more than three messages have
    /// passed, and each of them was written or read by the Noise state.
    pub closed spec fn wf(&self) -> bool {
        &&& self.buffer@.len() == MAX_BUFFER_SIZE
        &&& self.exchanged <= HANDSHAKE_MESSAGES
        &&& self.initiator == self.noise.initiator@
        &&& self.noise.sent@.len() + self.noise.received@.len() == self.exchanged
    }

    /// A side of a new handshake: a Noise state for `ALGO`, built for the given
    /// side with a fresh static key, the private half of a key pair that snow
    /// generated for `ALGO`, and that has written and read nothing. It fails
    /// with `InvalidState` where snow cannot make a key pair; the key's bytes
    /// are random, and whether the system gives them is not said.
    pub fn start(initiator: bool) -> (r: Result<Handshake, CryptoError>)
        ensures
            r matches Ok(h) ==> {
                &&& h.wf()
                &&& h.role() == initiator
                &&& h.protocol() == ALGO@
                &&& h.keyed()
                &&& h.sent() == Seq::<(Seq<u8>, Seq<u8>)>::empty()
                &&& h.received() == Seq::<Seq<u8>>::empty()
                &&& h.progress() == 0
            },
            r matches Err(e) ==> e == CryptoError::InvalidState,
    {
        let params = match noise_params(ALGO) {
            Ok(p) => p,
            Err(_) => return Err(CryptoError::FailedHandShake),
        };
        let generated = generate_keypair(&noise_builder(params));
        Self::with_generated_key(initiator, generated)
    }

    /// A side of a new handshake of `ALGO` whose static key is the private half
    /// of the key pair that key generation gave, or `InvalidState` where key
    /// generation failed.
    fn with_generated_key(initiator: bool, generated: Result<NoiseKeypair, snow::Error>) -> (r:
        Result<Handshake, CryptoError>)
        requires
            generated matches Ok(k) ==> k.protocol@ == ALGO@,
        ensures
            generated is Err ==> r == Err::<Handshake, CryptoError>(CryptoError::InvalidState),
            generated matches Ok(k) ==> r matches Ok(h) && {
                &&& h.wf()
                &&& h.role() == initiator
                &&& h.protocol() == ALGO@
                &&& h.keyed()
                &&& h.static_key() == k.private@
                &&& h.sent() == Seq::<(Seq<u8>, Seq<u8>)>::empty()
                &&& h.received() == Seq::<Seq<u8>>::empty()
                &&& h.progress() == 0
            },
    {
        let keypair = match generated {
            Ok(k) => k,
            Err(_) => return Err(CryptoError::InvalidState),
        };
        let params = match noise_params(ALGO) {
            Ok(p) => p,
            Err(_) => return Err(CryptoError::FailedHandShake),
        };
        let builder = match with_local_private_key(noise_builder(params), &keypair) {
            Ok(b) => b,
            Err(_) => return Err(CryptoError::FailedHandShake),
        };
        let built = if initiator {
            build_initiator(builder)
        } else {
            build_responder(builder)
        };
        match built {
            Ok(noise) => Ok(
                Handshake {
                    noise,
                    initiator,
                    exchanged: 0,
                    buffer: zeroed_buffer(MAX_BUFFER_SIZE),
                },
            ),
            Err(_) => Err(CryptoError::FailedHandShake),
        }
    }

    /// Whether this side starts the handshake.
    pub fn is_initiator(&self) -> (b: bool)
        requires
            self.wf(),
        ensures
            b == self.role(),
    {
        self.initiator
    }

    /// What this side does next.
    pub fn step(&self) -> (s: HandshakeStep)
        requires
            self.wf(),
        ensures
            s == handshake_step(self.role(), self.progress()),
    {
        if self.exchanged >= HANDSHAKE_MESSAGES {
            HandshakeStep::Finish
        } else if (self.exchanged % 2 == 0) == self.initiator {
            HandshakeStep::Send
        } else {
            HandshakeStep::Receive
        }
    }

    /// The next message to send to the peer: binary data that holds the bytes
    /// the Noise state wrote for an empty payload. It fails with `Write` where
    /// the Noise state cannot write it.
    pub fn outgoing(&mut self) -> (r: Result<ClientMessage, CryptoError>)
        requires
            old(self).wf(),
            handshake_step(old(self).role(), old(self).progress()) == HandshakeStep::Send,
        ensures
            final(self).wf(),
            final(self).role() == old(self).role(),
            final(self).protocol() == old(self).protocol(),
            final(self).keyed() == old(self).keyed(),
            final(self).static_key() == old(self).static_key(),
            final(self).received() == old(self).received(),
            r matches Ok(m) ==> m@ matches ClientMessageView::Binary(d) && final(self).sent() == old(
                self,
            ).sent().push((Seq::<u8>::empty(), d)) && final(self).progress() == old(self).progress()
                + 1,
            r matches Err(e) ==> e == CryptoError::Write && final(self).sent() == old(self).sent()
                && final(self).progress() == old(self).progress(),
    {
        let payload: [u8; 0] = [];
        assert(payload@ =~= Seq::<u8>::empty());
        let written = match handshake_write(&mut self.noise, &payload, self.buffer.as_mut_slice()) {
            Ok(n) => Some(n),
            Err(_) => None,
        };
        let r = ciphertext_message(written, self.buffer.as_slice());
        if r.is_ok() {
            self.exchanged = self.exchanged + 1;
        }
        r
    }

    /// Takes in what came of waiting for the peer's next message: a binary
    /// message is read into the Noise state. It fails with `Timeout` where the
    /// wait timed out, with `FailedHandShake` where the stream ended, with
    /// `InvalidMessageType` where the message could not be read or is not
    /// binary, and with `Read` where the Noise state refuses it.
    pub fn incoming(&mut self, input: HandshakeInput) -> (r: Result<(), CryptoError>)
        requires
            old(self).wf(),
            handshake_step(old(self).role(), old(self).progress()) == HandshakeStep::Receive,
        ensures
            final(self).wf(),
            final(self).role() == old(self).role(),
            final(self).protocol() == old(self).protocol(),
            final(self).keyed() == old(self).keyed(),
            final(self).static_key() == old(self).static_key(),
            final(self).sent() == old(self).sent(),
            r is Ok ==> final(self).progress() == old(self).progress() + 1,
            r is Err ==> final(self).progress() == old(self).progress() && final(self).received()
                == old(self).received(),
            match input {
                HandshakeInput::TimedOut => r == Err::<(), CryptoError>(CryptoError::Timeout),
                HandshakeInput::Ended => r == Err::<(), CryptoError>(CryptoError::FailedHandShake),
                HandshakeInput::Unreadable => r == Err::<(), CryptoError>(
                    CryptoError::InvalidMessageType,
                ),
                HandshakeInput::Message(m) => match m@ {
                    ServerMessageView::Binary(d) => (r is Ok && final(self).received() == old(
                        self,
                    ).received().push(d)) || r == Err::<(), CryptoError>(CryptoError::Read),
                    _ => r == Err::<(), CryptoError>(CryptoError::InvalidMessageType),
                },
            },
    {
        match input {
            HandshakeInput::TimedOut => Err(CryptoError::Timeout),
            HandshakeInput::Ended => Err(CryptoError::FailedHandShake),
            HandshakeInput::Unreadable => Err(CryptoError::InvalidMessageType),
            HandshakeInput::Message(ServerMessage::Binary(data)) => {
                match handshake_read(&mut self.noise, data.as_slice(), self.buffer.as_mut_slice()) {
                    Ok(_) => {
                        self.exchanged = self.exchanged + 1;
                        Ok(())
                    },
                    Err(_) => Err(CryptoError::Read),
                }
            },
            HandshakeInput::Message(_) => Err(CryptoError::InvalidMessageType),
        }
    }

    /// The transport session of the finished handshake, which has encrypted
    /// and decrypted nothing yet. A handshake of `ALGO` is finished after its
    /// three messages, so it turns into a session, which can send. It fails
    /// with `FailedHandShake` where the Noise state will not turn into one.
    pub fn finish(self) -> (r: Result<NoiseTransport, CryptoError>)
        requires
            self.wf(),
            handshake_step(self.role(), self.progress()) == HandshakeStep::Finish,
        ensures
            self.protocol() == ALGO@ ==> r is Ok,
            r matches Ok(t) ==> t.sealed() == Seq::<(Seq<u8>, Seq<u8>)>::empty() && t.opened()
                == Seq::<(Seq<u8>, Seq<u8>)>::empty(),
            r matches Ok(t) ==> t.sending_nonce() == 0 && (self.protocol() == ALGO@ ==> t.can_send()),
            r matches Err(e) ==> e == CryptoError::FailedHandShake,
    {
        match into_transport(self.noise) {
            Ok(t) => Ok(t),
            Err(_) => Err(CryptoError::FailedHandShake),
        }
    }
}

} // verus!
