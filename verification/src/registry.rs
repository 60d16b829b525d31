use vstd::prelude::*;
use vstd::pervasive::VecAdditionalExecFns;
use vstd::string::StrSliceExecFns;
use rand::distr::SampleString;

use crate::message::client::{ClientMessage, ClientMessageView};
use crate::message::server::{ServerMessage, ServerMessageView};
use crate::constant::{MAX_NUM_CLIENTS_IN_ROOM, MAX_NUM_ROOMS, ROOM_ID_LEN};
use crate::wire::{concat, decimal, decimal_string};
use crate::peer::PeerAddr;

verus! {

broadcast use {vstd::seq_lib::group_seq_properties, vstd::set::group_set_axioms};

/// Why a request of a peer was refused; the relay answers it with an error message.
#[derive(Debug, PartialEq, Eq)]
pub enum RoomError {
    /// There are too many rooms to create one more.
    NoRoomsLeft,
    /// The peer that asked for a room is already in this one.
    AlreadyInRoom(String),
    /// The peer that asked to join is already in a room.
    ClientAlreadyInRoom,
    /// There is no room with this identifier.
    NoSuchRoom(String),
    /// The room is full.
    RoomFull,
    /// The peer is in no room.
    NotInRoom,
    /// The peer was recorded in this room but the room does not hold it.
    NotFoundInRoom(String),
    /// The peer that sent data is in no room.
    NoRoomForPeer,
    /// The peer reported an error of its own, with this text.
    ClientReported(String),
    /// The peer sent a message that the relay does not handle.
    Unexpected(ClientMessage),
}

/// A refusal over sequences.
pub enum RoomErrorView {
    NoRoomsLeft,
    AlreadyInRoom(Seq<char>),
    ClientAlreadyInRoom,
    NoSuchRoom(Seq<char>),
    RoomFull,
    NotInRoom,
    NotFoundInRoom(Seq<char>),
    NoRoomForPeer,
    ClientReported(Seq<char>),
    Unexpected(ClientMessageView),
}

impl View for RoomError {
    type V = RoomErrorView;

    open spec fn view(&self) -> RoomErrorView {
        match self {
            RoomError::NoRoomsLeft => RoomErrorView::NoRoomsLeft,
            RoomError::AlreadyInRoom(s) => RoomErrorView::AlreadyInRoom(s@),
            RoomError::ClientAlreadyInRoom => RoomErrorView::ClientAlreadyInRoom,
            RoomError::NoSuchRoom(s) => RoomErrorView::NoSuchRoom(s@),
            RoomError::RoomFull => RoomErrorView::RoomFull,
            RoomError::NotInRoom => RoomErrorView::NotInRoom,
            RoomError::NotFoundInRoom(s) => RoomErrorView::NotFoundInRoom(s@),
            RoomError::NoRoomForPeer => RoomErrorView::NoRoomForPeer,
            RoomError::ClientReported(s) => RoomErrorView::ClientReported(s@),
            RoomError::Unexpected(m) => RoomErrorView::Unexpected(m@),
        }
    }
}

/// Messages to send, each with the peer it goes to.
pub open spec fn sends_view(v: Seq<(ServerMessage, PeerAddr)>) -> Seq<(ServerMessageView, PeerAddr)> {
    v.map_values(|s: (ServerMessage, PeerAddr)| (s.0@, s.1))
}

/// The view of what a handler gives: the messages to send, or the refusal.
pub open spec fn outcome_view(r: Result<Vec<(ServerMessage, PeerAddr)>, RoomError>) -> Result<
    Seq<(ServerMessageView, PeerAddr)>,
    RoomErrorView,
> {
    match r {
        Ok(v) => Ok(sends_view(v@)),
        Err(e) => Err(e@),
    }
}

/// The messages are one copy of `msg` for each peer of `to`, each peer once,
/// in any order.
pub open spec fn delivers(
    sends: Seq<(ServerMessageView, PeerAddr)>,
    msg: ServerMessageView,
    to: Set<PeerAddr>,
) -> bool {
    &&& sends.len() == to.len()
    &&& forall|i: int| 0 <= i < sends.len() ==> (#[trigger] sends[i]).0 == msg && to.contains(sends[i].1)
    &&& forall|i: int, j: int| 0 <= i < j < sends.len() ==> (#[trigger] sends[i]).1 != (#[trigger] sends[j]).1
}

/// The peers that messages go to, in order.
pub open spec fn recipients(v: Seq<(ServerMessage, PeerAddr)>) -> Seq<PeerAddr> {
    v.map_values(|s: (ServerMessage, PeerAddr)| s.1)
}

/// One copy of `msg` for each peer of `members` but `except`.
fn fan_out(members: &Vec<PeerAddr>, except: PeerAddr, msg: &ServerMessage) -> (r: Vec<(ServerMessage, PeerAddr)>)
    requires
        members@.no_duplicates(),
    ensures
        delivers(sends_view(r@), msg@, members@.to_set().remove(except)),
{
    let mut out: Vec<(ServerMessage, PeerAddr)> = Vec::new();
    let mut i: usize = 0;
    while i < members.len()
        invariant
            members@.no_duplicates(),
            i <= members@.len(),
            forall|k: int| 0 <= k < out@.len() ==> (#[trigger] out@[k]).0@ == msg@ && out@[k].1 != except,
            recipients(out@).no_duplicates(),
            recipients(out@).to_set() == members@.take(i as int).to_set().remove(except),
        decreases members@.len() - i,
    {
        let p = members[i];
        let ghost before = recipients(out@);
        assert(members@.take(i + 1) =~= members@.take(i as int).push(p));
        assert(members@.take(i + 1).to_set() =~= members@.take(i as int).to_set().insert(p));
        if p != except {
            assert(!before.contains(p)) by {
                if before.contains(p) {
                    assert(before.to_set().contains(p));
                    assert(members@.take(i as int).to_set().contains(p));
                    let j = choose|j: int| 0 <= j < i && members@.take(i as int)[j] == p;
                    assert(members@[j] == members@[i as int]);
                }
            }
            out.push((msg.duplicate(), p));
            assert(recipients(out@) =~= before.push(p));
            assert(before.push(p).to_set() =~= before.to_set().insert(p));
        } else {
            assert(recipients(out@) =~= before);
        }
        assert(recipients(out@).to_set() =~= members@.take(i + 1).to_set().remove(except));
        i += 1;
    }
    proof {
        assert(members@.take(members@.len() as int) =~= members@);
        recipients(out@).unique_seq_to_set();
        let sv = sends_view(out@);
        assert forall|a: int, b: int| 0 <= a < b < sv.len() implies (#[trigger] sv[a]).1 != (#[trigger] sv[b]).1 by {
            assert(recipients(out@)[a] == sv[a].1);
            assert(recipients(out@)[b] == sv[b].1);
        }
        assert forall|a: int| 0 <= a < sv.len() implies (#[trigger] sv[a]).0 == msg@ && members@.to_set().remove(except).contains(sv[a].1) by {
            assert(recipients(out@)[a] == sv[a].1);
            assert(recipients(out@).to_set().contains(sv[a].1));
        }
    }
    out
}

/// A copy of a list of peers.
fn copy_members(m: &Vec<PeerAddr>) -> (r: Vec<PeerAddr>)
    ensures
        r@ == m@,
{
    let mut r: Vec<PeerAddr> = Vec::new();
    let mut i: usize = 0;
    while i < m.len()
        invariant
            i <= m@.len(),
            r@ == m@.take(i as int),
        decreases m@.len() - i,
    {
        r.push(m[i]);
        i += 1;
        assert(r@ =~= m@.take(i as int));
    }
    assert(m@.take(m@.len() as int) =~= m@);
    r
}

/// Whether a list of peers holds this peer.
fn contains_peer(m: &Vec<PeerAddr>, p: PeerAddr) -> (b: bool)
    ensures
        b == m@.contains(p),
{
    let mut i: usize = 0;
    while i < m.len()
        invariant
            i <= m@.len(),
            forall|j: int| 0 <= j < i ==> m@[j] != p,
        decreases m@.len() - i,
    {
        if m[i] == p {
            return true;
        }
        i += 1;
    }
    false
}

/// The list of peers with this peer added, where it is not there yet.
fn with_peer(m: &Vec<PeerAddr>, p: PeerAddr) -> (r: Vec<PeerAddr>)
    requires
        m@.no_duplicates(),
    ensures
        r@.no_duplicates(),
        r@.to_set() == m@.to_set().insert(p),
{
    let mut r = copy_members(m);
    if !contains_peer(m, p) {
        r.push(p);
        assert(r@.to_set() =~= m@.to_set().insert(p));
    } else {
        assert(r@.to_set() =~= m@.to_set().insert(p));
    }
    r
}

/// The list of peers without this peer.
fn without_peer(m: &Vec<PeerAddr>, p: PeerAddr) -> (r: Vec<PeerAddr>)
    requires
        m@.no_duplicates(),
    ensures
        r@.no_duplicates(),
        r@.to_set() == m@.to_set().remove(p),
{
    let mut r: Vec<PeerAddr> = Vec::new();
    let mut i: usize = 0;
    while i < m.len()
        invariant
            m@.no_duplicates(),
            i <= m@.len(),
            r@.no_duplicates(),
            r@.to_set() == m@.take(i as int).to_set().remove(p),
        decreases m@.len() - i,
    {
        let q = m[i];
        let ghost before = r@;
        assert(m@.take(i + 1) =~= m@.take(i as int).push(q));
        assert(m@.take(i + 1).to_set() =~= m@.take(i as int).to_set().insert(q));
        if q != p {
            assert(!before.contains(q)) by {
                if before.contains(q) {
                    assert(before.to_set().contains(q));
                    assert(m@.take(i as int).to_set().contains(q));
                    let j = choose|j: int| 0 <= j < i && m@.take(i as int)[j] == q;
                    assert(m@[j] == m@[i as int]);
                }
            }
            r.push(q);
            assert(before.push(q).to_set() =~= before.to_set().insert(q));
        }
        assert(r@.to_set() =~= m@.take(i + 1).to_set().remove(p));
        i += 1;
    }
    assert(m@.take(m@.len() as int) =~= m@);
    r
}

/// The registry is the same.
pub open spec fn unchanged(a: RegistryView, b: RegistryView) -> bool {
    a.rooms == b.rooms && a.client2room == b.client2room
}

/// What forwarding `msg` from `addr` gives: a refusal where the peer is in no
/// room or its room is gone, else one copy for each other peer of its room.
pub open spec fn forward_post(
    v: RegistryView,
    addr: PeerAddr,
    msg: ServerMessageView,
    r: Result<Seq<(ServerMessageView, PeerAddr)>, RoomErrorView>,
) -> bool {
    if !v.client2room.contains_key(addr) {
        r == Err::<Seq<(ServerMessageView, PeerAddr)>, RoomErrorView>(RoomErrorView::NoRoomForPeer)
    } else if !v.rooms.contains_key(v.client2room[addr]) {
        r == Err::<Seq<(ServerMessageView, PeerAddr)>, RoomErrorView>(
            RoomErrorView::NoSuchRoom(v.client2room[addr]),
        )
    } else {
        r matches Ok(s) && delivers(s, msg, v.rooms[v.client2room[addr]].remove(addr))
    }
}

/// What a request of `addr` to join room `id` does: a refusal, with the
/// registry unchanged, where the peer is already in a room, the room does not
/// exist or it is full; else the peer is in the room and recorded there, it is
/// told that it joined, and every other peer of the room is told that a peer joined.
pub open spec fn join_post(
    old: RegistryView,
    new: RegistryView,
    addr: PeerAddr,
    id: Seq<char>,
    r: Result<Seq<(ServerMessageView, PeerAddr)>, RoomErrorView>,
) -> bool {
    if old.client2room.contains_key(addr) {
        &&& r == Err::<Seq<(ServerMessageView, PeerAddr)>, RoomErrorView>(
            RoomErrorView::ClientAlreadyInRoom,
        )
        &&& unchanged(old, new)
    } else if !old.rooms.contains_key(id) {
        &&& r == Err::<Seq<(ServerMessageView, PeerAddr)>, RoomErrorView>(
            RoomErrorView::NoSuchRoom(id),
        )
        &&& unchanged(old, new)
    } else if old.rooms[id].len() > MAX_NUM_CLIENTS_IN_ROOM {
        &&& r == Err::<Seq<(ServerMessageView, PeerAddr)>, RoomErrorView>(RoomErrorView::RoomFull)
        &&& unchanged(old, new)
    } else {
        &&& new.rooms == old.rooms.insert(id, old.rooms[id].insert(addr))
        &&& new.client2room == old.client2room.insert(addr, id)
        &&& r matches Ok(s) && s.len() >= 1 && s[0] == (ServerMessageView::JoinedSuccessfully, addr)
            && delivers(s.drop_first(), ServerMessageView::ClientJoined, old.rooms[id].remove(addr))
    }
}

/// An ASCII letter or digit.
pub open spec fn is_alphanumeric(c: char) -> bool {
    ('0' <= c <= '9') || ('A' <= c <= 'Z') || ('a' <= c <= 'z')
}

/// A room identifier as the relay makes them: eight ASCII letters or digits.
pub open spec fn is_room_id(id: Seq<char>) -> bool {
    id.len() == ROOM_ID_LEN && forall|i: int| 0 <= i < id.len() ==> is_alphanumeric(#[trigger] id[i])
}

/// `Alphanumeric.sample_string(&mut rand::rng(), len)` of rand: `len`
/// characters drawn at random, each an ASCII letter or digit.
#[verifier::external_body]
fn random_alphanumeric(len: usize) -> (s: String)
    ensures
        s@.len() == len,
        forall|i: int| 0 <= i < s@.len() ==> is_alphanumeric(#[trigger] s@[i]),
{
    rand::distr::Alphanumeric.sample_string(&mut rand::rng(), len)
}

/// Elements that occur once each in a sequence and all lie in a finite set are
/// no more than the set holds.
proof fn lemma_pigeonhole<T>(a: Seq<T>, b: Set<T>)
    requires
        a.no_duplicates(),
        b.finite(),
        forall|i: int| 0 <= i < a.len() ==> b.contains(#[trigger] a[i]),
    ensures
        a.len() <= b.len(),
{
    a.unique_seq_to_set();
    assert(a.to_set().subset_of(b));
    vstd::set_lib::lemma_len_subset(a.to_set(), b);
}

/// The two decimal digits of a number from ten to ninety-nine.
proof fn lemma_two_digits(k: nat)
    requires
        10 <= k <= 99,
    ensures
        decimal(k).len() == 2,
        decimal(k)[0] == (('0' as u8) + k / 10) as char,
        decimal(k)[1] == (('0' as u8) + k % 10) as char,
        is_alphanumeric(decimal(k)[0]),
        is_alphanumeric(decimal(k)[1]),
{
    assert(k / 10 < 10);
    assert(decimal(k / 10) == seq![(('0' as u8) + k / 10) as char]);
}

/// The fallback identifier number `k`: the first six characters of `base`
/// followed by the two digits of `10 + k`.
spec fn fallback_id(base: Seq<char>, k: nat) -> Seq<char> {
    base.subrange(0, 6) + decimal(10 + k)
}

proof fn lemma_fallback_ids(base: Seq<char>, k: nat, j: nat)
    requires
        is_room_id(base),
        k <= 10,
        j <= 10,
    ensures
        is_room_id(fallback_id(base, k)),
        k != j ==> fallback_id(base, k) != fallback_id(base, j),
{
    lemma_two_digits(10 + k);
    lemma_two_digits(10 + j);
    let a = fallback_id(base, k);
    let b = fallback_id(base, j);
    assert forall|i: int| 0 <= i < a.len() implies is_alphanumeric(#[trigger] a[i]) by {
        if i < 6 {
            assert(a[i] == base[i]);
        }
    }
    if k != j {
        assert(a[6] == decimal(10 + k)[0]);
        assert(b[6] == decimal(10 + j)[0]);
        assert(a[7] == decimal(10 + k)[1]);
        assert(b[7] == decimal(10 + j)[1]);
        assert((10 + k) / 10 != (10 + j) / 10 || (10 + k) % 10 != (10 + j) % 10);
        if a == b {
            assert(a[6] == b[6] && a[7] == b[7]);
        }
    }
}

/// What a request of `addr` to leave its room does: a refusal where it is in
/// no room; else it is no longer recorded in a room, and where its room is
/// gone or does not hold it a refusal names the room; else it leaves the room,
/// every peer left in it is told that a peer left, and a room left empty is removed.
pub open spec fn leave_post(
    old: RegistryView,
    new: RegistryView,
    addr: PeerAddr,
    r: Result<Seq<(ServerMessageView, PeerAddr)>, RoomErrorView>,
) -> bool {
    if !old.client2room.contains_key(addr) {
        &&& r == Err::<Seq<(ServerMessageView, PeerAddr)>, RoomErrorView>(RoomErrorView::NotInRoom)
        &&& unchanged(old, new)
    } else {
        let id = old.client2room[addr];
        &&& new.client2room == old.client2room.remove(addr)
        &&& if !old.rooms.contains_key(id) {
            &&& r == Err::<Seq<(ServerMessageView, PeerAddr)>, RoomErrorView>(
                RoomErrorView::NoSuchRoom(id),
            )
            &&& new.rooms == old.rooms
        } else if !old.rooms[id].contains(addr) {
            &&& r == Err::<Seq<(ServerMessageView, PeerAddr)>, RoomErrorView>(
                RoomErrorView::NotFoundInRoom(id),
            )
            &&& new.rooms == old.rooms
        } else {
            let rest = old.rooms[id].remove(addr);
            &&& r matches Ok(s) && delivers(s, ServerMessageView::ClientLeft, rest)
            &&& new.rooms == if rest.len() == 0 {
                old.rooms.remove(id)
            } else {
                old.rooms.insert(id, rest)
            }
        }
    }
}

/// What opening room `id` for `addr` does: a refusal, with the registry
/// unchanged, where there are too many rooms or the peer is already in one;
/// else the room holds the peer alone, the peer is recorded in it and told its identifier.
pub open spec fn open_post(
    old: RegistryView,
    new: RegistryView,
    addr: PeerAddr,
    id: Seq<char>,
    r: Result<Seq<(ServerMessageView, PeerAddr)>, RoomErrorView>,
) -> bool {
    if old.rooms.len() > MAX_NUM_ROOMS {
        &&& r == Err::<Seq<(ServerMessageView, PeerAddr)>, RoomErrorView>(RoomErrorView::NoRoomsLeft)
        &&& unchanged(old, new)
    } else if old.client2room.contains_key(addr) {
        &&& r == Err::<Seq<(ServerMessageView, PeerAddr)>, RoomErrorView>(
            RoomErrorView::AlreadyInRoom(old.client2room[addr]),
        )
        &&& unchanged(old, new)
    } else {
        &&& new.rooms == old.rooms.insert(id, Set::empty().insert(addr))
        &&& new.client2room == old.client2room.insert(addr, id)
        &&& r matches Ok(s) && s.len() == 1 && s[0] == (ServerMessageView::RoomCreated(id), addr)
    }
}

/// What a request of `addr` for a new room does: as opening a room, under an
/// identifier of eight letters or digits that no room had.
pub open spec fn create_post(
    old: RegistryView,
    new: RegistryView,
    addr: PeerAddr,
    r: Result<Seq<(ServerMessageView, PeerAddr)>, RoomErrorView>,
) -> bool {
    if old.rooms.len() > MAX_NUM_ROOMS || old.client2room.contains_key(addr) {
        open_post(old, new, addr, Seq::empty(), r)
    } else {
        &&& r matches Ok(s)
        &&& s.len() == 1
        &&& s[0].0 matches ServerMessageView::RoomCreated(id)
        &&& is_room_id(id)
        &&& !old.rooms.contains_key(id)
        &&& open_post(old, new, addr, id, r)
    }
}

/// What the relay does with a message of `addr`: text and binary data go to
/// the other peers of its room, requests for rooms are handled, a close
/// leaves the room, a ping is answered with a pong, an error of the peer is
/// sent back to it, and any other message is refused as unexpected.
pub open spec fn process_post(
    old: RegistryView,
    new: RegistryView,
    addr: PeerAddr,
    m: ClientMessageView,
    r: Result<Seq<(ServerMessageView, PeerAddr)>, RoomErrorView>,
) -> bool {
    match m {
        ClientMessageView::Text(s) => unchanged(old, new) && forward_post(
            old,
            addr,
            ServerMessageView::Text(s),
            r,
        ),
        ClientMessageView::Binary(d) => unchanged(old, new) && forward_post(
            old,
            addr,
            ServerMessageView::Binary(d),
            r,
        ),
        ClientMessageView::CreateRoom => create_post(old, new, addr, r),
        ClientMessageView::JoinRoom(id) => join_post(old, new, addr, id, r),
        ClientMessageView::LeaveRoom => leave_post(old, new, addr, r),
        ClientMessageView::Close(_) => leave_post(old, new, addr, r),
        ClientMessageView::Ping(d) => unchanged(old, new) && (r matches Ok(s) && s.len() == 1
            && s[0] == (ServerMessageView::Pong(d), addr)),
        ClientMessageView::Error(e) => unchanged(old, new) && r == Err::<
            Seq<(ServerMessageView, PeerAddr)>,
            RoomErrorView,
        >(RoomErrorView::ClientReported(e)),
        _ => unchanged(old, new) && r == Err::<Seq<(ServerMessageView, PeerAddr)>, RoomErrorView>(
            RoomErrorView::Unexpected(m),
        ),
    }
}

/// The text of the error message that answers a refusal; `peer` is how the
/// peer's address shows, `shown` how an unexpected message shows.
pub open spec fn room_error_text(e: RoomErrorView, peer: Seq<char>, shown: Seq<char>) -> Seq<char> {
    match e {
        RoomErrorView::NoRoomsLeft => "No available rooms left"@,
        RoomErrorView::AlreadyInRoom(id) => "Peer is already in a room "@ + id,
        RoomErrorView::ClientAlreadyInRoom => "Client is already in a room"@,
        RoomErrorView::NoSuchRoom(id) => "No room with room_id="@ + id + " exists"@,
        RoomErrorView::RoomFull => "The room is full"@,
        RoomErrorView::NotInRoom => "Peer is not in a room"@,
        RoomErrorView::NotFoundInRoom(id) => "Peer "@ + peer + " not found in room "@ + id,
        RoomErrorView::NoRoomForPeer => "No room found for peer "@ + peer,
        RoomErrorView::ClientReported(t) => t,
        RoomErrorView::Unexpected(_) => "Received unexpected message: "@ + shown,
    }
}

impl RoomError {
    /// The text of the error message that answers this refusal; `peer` is how
    /// the peer's address shows, `shown` how an unexpected message shows.
    pub fn text(&self, peer: &str, shown: &str) -> (t: String)
        ensures
            t@ == room_error_text(self@, peer@, shown@),
    {
        match self {
            RoomError::NoRoomsLeft => String::from_str("No available rooms left"),
            RoomError::AlreadyInRoom(id) => concat(String::from_str("Peer is already in a room "), id.as_str()),
            RoomError::ClientAlreadyInRoom => String::from_str("Client is already in a room"),
            RoomError::NoSuchRoom(id) => concat(
                concat(String::from_str("No room with room_id="), id.as_str()),
                " exists",
            ),
            RoomError::RoomFull => String::from_str("The room is full"),
            RoomError::NotInRoom => String::from_str("Peer is not in a room"),
            RoomError::NotFoundInRoom(id) => concat(
                concat(concat(String::from_str("Peer "), peer), " not found in room "),
                id.as_str(),
            ),
            RoomError::NoRoomForPeer => concat(String::from_str("No room found for peer "), peer),
            RoomError::ClientReported(t) => t.clone(),
            RoomError::Unexpected(_) => concat(String::from_str("Received unexpected message: "), shown),
        }
    }
}

/// Every peer recorded in a room is in that room, and every peer of a room is
/// recorded in it.
pub open spec fn consistent(v: RegistryView) -> bool {
    &&& forall|p: PeerAddr| #[trigger] v.client2room.contains_key(p) ==> v.rooms.contains_key(v.client2room[p])
        && v.rooms[v.client2room[p]].contains(p)
    &&& forall|k: Seq<char>, p: PeerAddr| #[trigger] v.rooms.contains_key(k) && #[trigger] v.rooms[k].contains(p)
        ==> v.client2room.contains_key(p) && v.client2room[p] == k
}

/// A room: its identifier and the peers in it, each once.
pub struct Room {
    id: String,
    members: Vec<PeerAddr>,
}

/// The room a peer is in.
struct Assignment {
    peer: PeerAddr,
    room_id: String,
}

/// The rooms by identifier, each with the set of its peers, and the room of
/// each peer that is in one.
pub struct RegistryView {
    pub rooms: Map<Seq<char>, Set<PeerAddr>>,
    pub client2room: Map<PeerAddr, Seq<char>>,
}

/// The rooms of the relay and the room of each peer.
pub struct RoomRegistry {
    rooms: Vec<Room>,
    assignments: Vec<Assignment>,
    rooms_map: Ghost<Map<Seq<char>, Set<PeerAddr>>>,
    assign_map: Ghost<Map<PeerAddr, Seq<char>>>,
}

impl View for RoomRegistry {
    type V = RegistryView;

    closed spec fn view(&self) -> RegistryView {
        RegistryView { rooms: self.rooms_map@, client2room: self.assign_map@ }
    }
}

/// The identifiers of rooms, in order.
spec fn ids_of(rooms: Seq<Room>) -> Seq<Seq<char>> {
    rooms.map_values(|r: Room| r.id@)
}

/// The peers of assignments, in order.
spec fn peers_of(a: Seq<Assignment>) -> Seq<PeerAddr> {
    a.map_values(|x: Assignment| x.peer)
}

impl RoomRegistry {
    /// The registry's lists agree with its view: identifiers and peers occur
    /// once, and every room holds each of its peers once.
    pub closed spec fn wf(&self) -> bool {
        &&& ids_of(self.rooms@).no_duplicates()
        &&& self.rooms_map@.dom() == ids_of(self.rooms@).to_set()
        &&& forall|i: int|
            0 <= i < self.rooms@.len() ==> (#[trigger] self.rooms@[i]).members@.no_duplicates()
                && self.rooms_map@[self.rooms@[i].id@] == self.rooms@[i].members@.to_set()
        &&& peers_of(self.assignments@).no_duplicates()
        &&& self.assign_map@.dom() == peers_of(self.assignments@).to_set()
        &&& forall|i: int|
            0 <= i < self.assignments@.len() ==> self.assign_map@[(
            #[trigger] self.assignments@[i]).peer] == self.assignments@[i].room_id@
    }

    proof fn lemma_counts(&self)
        requires
            self.wf(),
        ensures
            self@.rooms.dom().finite(),
            self@.rooms.len() == self.rooms@.len(),
            self@.client2room.dom().finite(),
            self@.client2room.len() == self.assignments@.len(),
            forall|k: Seq<char>| #[trigger] self@.rooms.contains_key(k) ==> self@.rooms[k].finite(),
    {
        ids_of(self.rooms@).unique_seq_to_set();
        peers_of(self.assignments@).unique_seq_to_set();
        assert forall|k: Seq<char>| #[trigger] self@.rooms.contains_key(k) implies self@.rooms[k].finite() by {
            assert(ids_of(self.rooms@).contains(k));
            let i = choose|i: int| 0 <= i < ids_of(self.rooms@).len() && ids_of(self.rooms@)[i] == k;
            assert(self.rooms@[i].id@ == k);
            assert(self@.rooms[k] == self.rooms@[i].members@.to_set());
        }
    }

    /// An empty registry.
    pub fn new() -> (r: RoomRegistry)
        ensures
            r.wf(),
            r@.rooms == Map::<Seq<char>, Set<PeerAddr>>::empty(),
            r@.client2room == Map::<PeerAddr, Seq<char>>::empty(),
    {
        let r = RoomRegistry {
            rooms: Vec::new(),
            assignments: Vec::new(),
            rooms_map: Ghost(Map::empty()),
            assign_map: Ghost(Map::empty()),
        };
        assert(ids_of(r.rooms@) =~= Seq::empty());
        assert(peers_of(r.assignments@) =~= Seq::empty());
        assert(r.rooms_map@.dom() =~= ids_of(r.rooms@).to_set());
        assert(r.assign_map@.dom() =~= peers_of(r.assignments@).to_set());
        r
    }

    /// The position of the room with this identifier, if there is one.
    fn find_room(&self, id: &String) -> (r: Option<usize>)
        requires
            self.wf(),
        ensures
            match r {
                Some(i) => i < self.rooms@.len() && self.rooms@[i as int].id@ == id@
                    && self@.rooms.contains_key(id@)
                    && self@.rooms[id@] == self.rooms@[i as int].members@.to_set()
                    && self.rooms@[i as int].members@.no_duplicates(),
                None => !self@.rooms.contains_key(id@),
            },
    {
        let mut i: usize = 0;
        while i < self.rooms.len()
            invariant
                self.wf(),
                i <= self.rooms@.len(),
                forall|j: int| 0 <= j < i ==> self.rooms@[j].id@ != id@,
            decreases self.rooms@.len() - i,
        {
            if self.rooms[i].id == *id {
                proof {
                    assert(ids_of(self.rooms@)[i as int] == id@);
                    assert(ids_of(self.rooms@).to_set().contains(id@));
                }
                return Some(i);
            }
            i += 1;
        }
        proof {
            if self@.rooms.contains_key(id@) {
                assert(ids_of(self.rooms@).contains(id@));
                let j = choose|j: int| 0 <= j < ids_of(self.rooms@).len() && ids_of(self.rooms@)[j] == id@;
                assert(self.rooms@[j].id@ == id@);
            }
        }
        None
    }

    /// The position of the assignment of this peer, if there is one.
    fn find_assignment(&self, peer: PeerAddr) -> (r: Option<usize>)
        requires
            self.wf(),
        ensures
            match r {
                Some(i) => i < self.assignments@.len() && self.assignments@[i as int].peer == peer
                    && self@.client2room.contains_key(peer)
                    && self@.client2room[peer] == self.assignments@[i as int].room_id@,
                None => !self@.client2room.contains_key(peer),
            },
    {
        let mut i: usize = 0;
        while i < self.assignments.len()
            invariant
                self.wf(),
                i <= self.assignments@.len(),
                forall|j: int| 0 <= j < i ==> self.assignments@[j].peer != peer,
            decreases self.assignments@.len() - i,
        {
            if self.assignments[i].peer == peer {
                proof {
                    assert(peers_of(self.assignments@)[i as int] == peer);
                    assert(peers_of(self.assignments@).to_set().contains(peer));
                }
                return Some(i);
            }
            i += 1;
        }
        proof {
            if self@.client2room.contains_key(peer) {
                assert(peers_of(self.assignments@).contains(peer));
                let j = choose|j: int| 0 <= j < peers_of(self.assignments@).len() && peers_of(self.assignments@)[j] == peer;
                assert(self.assignments@[j].peer == peer);
            }
        }
        None
    }

    /// Puts a room with these peers under this identifier, in place of any
    /// room that had it.
    fn set_room(&mut self, id: String, members: Vec<PeerAddr>)
        requires
            old(self).wf(),
            members@.no_duplicates(),
        ensures
            final(self).wf(),
            final(self)@.rooms == old(self)@.rooms.insert(id@, members@.to_set()),
            final(self)@.client2room == old(self)@.client2room,
    {
        let ghost old_ids = ids_of(self.rooms@);
        let ghost key = id@;
        let ghost set = members@.to_set();
        match self.find_room(&id) {
            Some(i) => {
                assert(old_ids[i as int] == key);
                self.rooms.set(i, Room { id, members });
                proof {
                    self.rooms_map@ = self.rooms_map@.insert(key, set);
                    assert(ids_of(self.rooms@) =~= old_ids);
                    assert forall|j: int| 0 <= j < self.rooms@.len() implies (#[trigger] self.rooms@[j]).members@.no_duplicates()
                        && self.rooms_map@[self.rooms@[j].id@] == self.rooms@[j].members@.to_set() by {
                        if j != i {
                            assert(old_ids[j] != old_ids[i as int]);
                        }
                    }
                    assert(self.rooms_map@.dom() =~= ids_of(self.rooms@).to_set());
                }
            },
            None => {
                self.rooms.push(Room { id, members });
                proof {
                    self.rooms_map@ = self.rooms_map@.insert(key, set);
                    assert(ids_of(self.rooms@) =~= old_ids.push(key));
                    assert(!old_ids.contains(key));
                    assert forall|k: Seq<char>| #[trigger] ids_of(self.rooms@).contains(k) <==> old_ids.contains(k) || k == key by {
                        if old_ids.contains(k) {
                            let j = choose|j: int| 0 <= j < old_ids.len() && old_ids[j] == k;
                            assert(ids_of(self.rooms@)[j] == k);
                        }
                        if k == key {
                            assert(ids_of(self.rooms@)[old_ids.len() as int] == k);
                        }
                    }
                    assert forall|j: int| 0 <= j < self.rooms@.len() implies (#[trigger] self.rooms@[j]).members@.no_duplicates()
                        && self.rooms_map@[self.rooms@[j].id@] == self.rooms@[j].members@.to_set() by {
                        if j < old_ids.len() {
                            assert(old_ids[j] != key);
                        }
                    }
                    assert(self.rooms_map@.dom() =~= ids_of(self.rooms@).to_set());
                }
            },
        }
    }

    /// Removes the room at this position.
    fn remove_room_at(&mut self, i: usize)
        requires
            old(self).wf(),
            i < old(self).rooms@.len(),
        ensures
            final(self).wf(),
            final(self)@.rooms == old(self)@.rooms.remove(old(self).rooms@[i as int].id@),
            final(self)@.client2room == old(self)@.client2room,
    {
        let ghost old_ids = ids_of(self.rooms@);
        let ghost old_rooms = self.rooms@;
        let ghost key = self.rooms@[i as int].id@;
        let _ = self.rooms.remove(i);
        proof {
            self.rooms_map@ = self.rooms_map@.remove(key);
            assert(ids_of(self.rooms@) =~= old_ids.remove(i as int));
            assert forall|j: int| 0 <= j < self.rooms@.len() implies (#[trigger] self.rooms@[j]).members@.no_duplicates()
                && self.rooms_map@[self.rooms@[j].id@] == self.rooms@[j].members@.to_set() by {
                if j < i {
                    assert(self.rooms@[j] == old_rooms[j]);
                    assert(old_ids[j] != old_ids[i as int]);
                } else {
                    assert(self.rooms@[j] == old_rooms[j + 1]);
                    assert(old_ids[j + 1] != old_ids[i as int]);
                }
            }
            assert forall|k: Seq<char>| #[trigger] ids_of(self.rooms@).contains(k) <==> old_ids.contains(k) && k != key by {
                if old_ids.contains(k) && k != key {
                    let j = choose|j: int| 0 <= j < old_ids.len() && old_ids[j] == k;
                    if j < i {
                        assert(ids_of(self.rooms@)[j] == k);
                    } else {
                        assert(ids_of(self.rooms@)[j - 1] == k);
                    }
                }
                if ids_of(self.rooms@).contains(k) {
                    let j = choose|j: int| 0 <= j < ids_of(self.rooms@).len() && ids_of(self.rooms@)[j] == k;
                    if j < i {
                        assert(old_ids[j] == k);
                        assert(old_ids[j] != old_ids[i as int]);
                    } else {
                        assert(old_ids[j + 1] == k);
                        assert(old_ids[j + 1] != old_ids[i as int]);
                    }
                }
            }
            assert(self.rooms_map@.dom() =~= ids_of(self.rooms@).to_set());
        }
    }

    /// Records that this peer is in the room with this identifier, in place of
    /// any room it was recorded in.
    fn set_assignment(&mut self, peer: PeerAddr, room_id: String)
        requires
            old(self).wf(),
        ensures
            final(self).wf(),
            final(self)@.client2room == old(self)@.client2room.insert(peer, room_id@),
            final(self)@.rooms == old(self)@.rooms,
    {
        let ghost old_peers = peers_of(self.assignments@);
        let ghost key = room_id@;
        match self.find_assignment(peer) {
            Some(i) => {
                assert(old_peers[i as int] == peer);
                self.assignments.set(i, Assignment { peer, room_id });
                proof {
                    self.assign_map@ = self.assign_map@.insert(peer, key);
                    assert(peers_of(self.assignments@) =~= old_peers);
                    assert forall|j: int| 0 <= j < self.assignments@.len() implies self.assign_map@[(
                        #[trigger] self.assignments@[j]).peer] == self.assignments@[j].room_id@ by {
                        if j != i {
                            assert(old_peers[j] != old_peers[i as int]);
                        }
                    }
                    assert(self.assign_map@.dom() =~= peers_of(self.assignments@).to_set());
                }
            },
            None => {
                self.assignments.push(Assignment { peer, room_id });
                proof {
                    self.assign_map@ = self.assign_map@.insert(peer, key);
                    assert(peers_of(self.assignments@) =~= old_peers.push(peer));
                    assert(!old_peers.contains(peer));
                    assert forall|k: PeerAddr| #[trigger] peers_of(self.assignments@).contains(k) <==> old_peers.contains(k) || k == peer by {
                        if old_peers.contains(k) {
                            let j = choose|j: int| 0 <= j < old_peers.len() && old_peers[j] == k;
                            assert(peers_of(self.assignments@)[j] == k);
                        }
                        if k == peer {
                            assert(peers_of(self.assignments@)[old_peers.len() as int] == k);
                        }
                    }
                    assert forall|j: int| 0 <= j < self.assignments@.len() implies self.assign_map@[(
                        #[trigger] self.assignments@[j]).peer] == self.assignments@[j].room_id@ by {
                        if j < old_peers.len() {
                            assert(old_peers[j] != peer);
                        }
                    }
                    assert(self.assign_map@.dom() =~= peers_of(self.assignments@).to_set());
                }
            },
        }
    }

    /// Forgets the room of this peer, and gives the identifier it had.
    fn remove_assignment(&mut self, peer: PeerAddr) -> (r: Option<String>)
        requires
            old(self).wf(),
        ensures
            final(self).wf(),
            final(self)@.client2room == old(self)@.client2room.remove(peer),
            final(self)@.rooms == old(self)@.rooms,
            match r {
                Some(id) => old(self)@.client2room.contains_key(peer) && id@ == old(self)@.client2room[peer],
                None => !old(self)@.client2room.contains_key(peer)
                    && final(self)@.client2room == old(self)@.client2room,
            },
    {
        match self.find_assignment(peer) {
            None => {
                proof {
                    assert(self.assign_map@.remove(peer) =~= self.assign_map@);
                }
                None
            },
            Some(i) => {
                let ghost old_peers = peers_of(self.assignments@);
                let ghost old_a = self.assignments@;
                assert(self.assign_map@[self.assignments@[i as int].peer] == self.assignments@[i as int].room_id@);
                assert(old_peers[i as int] == peer);
                let a = self.assignments.remove(i);
                proof {
                    assert(a == old_a[i as int]);
                    self.assign_map@ = self.assign_map@.remove(peer);
                    assert(peers_of(self.assignments@) =~= old_peers.remove(i as int));
                    assert forall|j: int| 0 <= j < self.assignments@.len() implies self.assign_map@[(
                        #[trigger] self.assignments@[j]).peer] == self.assignments@[j].room_id@ by {
                        if j < i {
                            assert(self.assignments@[j] == old_a[j]);
                            assert(old_peers[j] != old_peers[i as int]);
                        } else {
                            assert(self.assignments@[j] == old_a[j + 1]);
                            assert(old_peers[j + 1] != old_peers[i as int]);
                        }
                    }
                    assert forall|k: PeerAddr| #[trigger] peers_of(self.assignments@).contains(k) <==> old_peers.contains(k) && k != peer by {
                        if old_peers.contains(k) && k != peer {
                            let j = choose|j: int| 0 <= j < old_peers.len() && old_peers[j] == k;
                            if j < i {
                                assert(peers_of(self.assignments@)[j] == k);
                            } else {
                                assert(peers_of(self.assignments@)[j - 1] == k);
                            }
                        }
                        if peers_of(self.assignments@).contains(k) {
                            let j = choose|j: int| 0 <= j < peers_of(self.assignments@).len() && peers_of(self.assignments@)[j] == k;
                            if j < i {
                                assert(old_peers[j] == k);
                                assert(old_peers[j] != old_peers[i as int]);
                            } else {
                                assert(old_peers[j + 1] == k);
                                assert(old_peers[j + 1] != old_peers[i as int]);
                            }
                        }
                    }
                    assert(self.assign_map@.dom() =~= peers_of(self.assignments@).to_set());
                }
                Some(a.room_id)
            },
        }
    }

    /// The messages that forward `msg` from `addr` to the other peers of its room.
    fn forward(&self, addr: PeerAddr, msg: &ServerMessage) -> (r: Result<Vec<(ServerMessage, PeerAddr)>, RoomError>)
        requires
            self.wf(),
        ensures
            forward_post(self@, addr, msg@, outcome_view(r)),
    {
        let i = match self.find_assignment(addr) {
            None => return Err(RoomError::NoRoomForPeer),
            Some(i) => i,
        };
        let room_id = &self.assignments[i].room_id;
        assert(self@.client2room[addr] == room_id@);
        let k = match self.find_room(room_id) {
            None => return Err(RoomError::NoSuchRoom(room_id.clone())),
            Some(k) => k,
        };
        assert(self@.rooms[room_id@] == self.rooms@[k as int].members@.to_set());
        Ok(fan_out(&self.rooms[k].members, addr, msg))
    }

    /// Forwards binary data from `addr` to every other peer of its room.
    pub fn handle_binary_data(&self, addr: PeerAddr, data: Vec<u8>) -> (r: Result<
        Vec<(ServerMessage, PeerAddr)>,
        RoomError,
    >)
        requires
            self.wf(),
        ensures
            forward_post(self@, addr, ServerMessageView::Binary(data@), outcome_view(r)),
    {
        self.forward(addr, &ServerMessage::binary(data))
    }

    /// Forwards text from `addr` to every other peer of its room.
    pub fn handle_text_data(&self, addr: PeerAddr, data: String) -> (r: Result<
        Vec<(ServerMessage, PeerAddr)>,
        RoomError,
    >)
        requires
            self.wf(),
        ensures
            forward_post(self@, addr, ServerMessageView::Text(data@), outcome_view(r)),
    {
        self.forward(addr, &ServerMessage::text(data))
    }

    /// Lets `addr` join the room `room_id`.
    pub fn handle_join_room(&mut self, addr: PeerAddr, room_id: String) -> (r: Result<
        Vec<(ServerMessage, PeerAddr)>,
        RoomError,
    >)
        requires
            old(self).wf(),
        ensures
            final(self).wf(),
            join_post(old(self)@, final(self)@, addr, room_id@, outcome_view(r)),
    {
        if self.find_assignment(addr).is_some() {
            return Err(RoomError::ClientAlreadyInRoom);
        }
        let k = match self.find_room(&room_id) {
            None => return Err(RoomError::NoSuchRoom(room_id)),
            Some(k) => k,
        };
        proof {
            self.rooms@[k as int].members@.unique_seq_to_set();
        }
        if self.rooms[k].members.len() > MAX_NUM_CLIENTS_IN_ROOM {
            return Err(RoomError::RoomFull);
        }
        let ghost old_view = self@;
        let members = with_peer(&self.rooms[k].members, addr);
        assert(members@.to_set() == old_view.rooms[room_id@].insert(addr));
        let mut rest = fan_out(&members, addr, &ServerMessage::ClientJoined);
        self.set_room(room_id.clone(), members);
        self.set_assignment(addr, room_id);
        let mut out: Vec<(ServerMessage, PeerAddr)> = Vec::new();
        out.push((ServerMessage::JoinedSuccessfully, addr));
        let ghost rest_view = sends_view(rest@);
        out.append(&mut rest);
        proof {
            assert(sends_view(out@).drop_first() =~= rest_view);
            assert(old_view.rooms[room_id@].insert(addr).remove(addr) =~= old_view.rooms[room_id@].remove(addr));
        }
        Ok(out)
    }

    /// A room identifier that no room has: drawn at random, and where the
    /// draws keep hitting rooms, made from the last draw by changing its last
    /// two characters until it is free.
    fn fresh_room_id(&self) -> (id: String)
        requires
            self.wf(),
            self@.rooms.len() <= MAX_NUM_ROOMS,
        ensures
            is_room_id(id@),
            !self@.rooms.contains_key(id@),
    {
        let mut base = random_alphanumeric(ROOM_ID_LEN);
        let mut attempt: usize = 0;
        while attempt < 16
            invariant
                self.wf(),
                is_room_id(base@),
            decreases 16 - attempt,
        {
            if self.find_room(&base).is_none() {
                return base;
            }
            base = random_alphanumeric(ROOM_ID_LEN);
            attempt += 1;
        }
        let ghost mut tried: Seq<Seq<char>> = Seq::empty();
        let mut k: usize = 0;
        while k <= 10
            invariant
                self.wf(),
                is_room_id(base@),
                self@.rooms.len() <= MAX_NUM_ROOMS,
                k <= 11,
                tried.len() == k,
                forall|j: int| 0 <= j < k ==> #[trigger] tried[j] == fallback_id(base@, j as nat),
                forall|j: int| 0 <= j < k ==> self@.rooms.contains_key(#[trigger] tried[j]),
            decreases 11 - k,
        {
            let prefix = base.as_str().substring_char(0, 6);
            let candidate = concat(String::from_str(prefix), decimal_string(10 + k).as_str());
            assert(candidate@ == fallback_id(base@, k as nat));
            proof {
                lemma_fallback_ids(base@, k as nat, k as nat);
            }
            if self.find_room(&candidate).is_none() {
                return candidate;
            }
            proof {
                tried = tried.push(candidate@);
            }
            k += 1;
        }
        proof {
            self.lemma_counts();
            assert forall|a: int, b: int| 0 <= a < tried.len() && 0 <= b < tried.len() && a != b implies tried[a] != tried[b] by {
                lemma_fallback_ids(base@, a as nat, b as nat);
            }
            assert forall|i: int| 0 <= i < tried.len() implies self@.rooms.dom().contains(#[trigger] tried[i]) by {}
            lemma_pigeonhole(tried, self@.rooms.dom());
            assert(false);
        }
        base
    }

    /// Takes `addr` out of its room.
    pub fn handle_leave_room(&mut self, addr: PeerAddr) -> (r: Result<
        Vec<(ServerMessage, PeerAddr)>,
        RoomError,
    >)
        requires
            old(self).wf(),
        ensures
            final(self).wf(),
            leave_post(old(self)@, final(self)@, addr, outcome_view(r)),
    {
        let room_id = match self.remove_assignment(addr) {
            None => return Err(RoomError::NotInRoom),
            Some(id) => id,
        };
        let k = match self.find_room(&room_id) {
            None => return Err(RoomError::NoSuchRoom(room_id)),
            Some(k) => k,
        };
        if !contains_peer(&self.rooms[k].members, addr) {
            return Err(RoomError::NotFoundInRoom(room_id));
        }
        let ghost old_set = self@.rooms[room_id@];
        let rest = without_peer(&self.rooms[k].members, addr);
        assert(rest@.to_set().remove(addr) =~= rest@.to_set());
        let out = fan_out(&rest, addr, &ServerMessage::ClientLeft);
        proof {
            rest@.unique_seq_to_set();
        }
        if rest.len() == 0 {
            self.remove_room_at(k);
        } else {
            self.set_room(room_id, rest);
        }
        Ok(out)
    }

    /// Opens room `room_id` for `addr`, in place of any room with that identifier.
    pub fn open_room(&mut self, addr: PeerAddr, room_id: String) -> (r: Result<
        Vec<(ServerMessage, PeerAddr)>,
        RoomError,
    >)
        requires
            old(self).wf(),
        ensures
            final(self).wf(),
            open_post(old(self)@, final(self)@, addr, room_id@, outcome_view(r)),
    {
        proof {
            self.lemma_counts();
        }
        if self.rooms.len() > MAX_NUM_ROOMS {
            return Err(RoomError::NoRoomsLeft);
        }
        match self.find_assignment(addr) {
            Some(i) => {
                return Err(RoomError::AlreadyInRoom(self.assignments[i].room_id.clone()));
            },
            None => {},
        }
        let mut members: Vec<PeerAddr> = Vec::new();
        members.push(addr);
        assert(members@.to_set() =~= Set::empty().insert(addr));
        self.set_room(room_id.clone(), members);
        self.set_assignment(addr, room_id.clone());
        let mut out: Vec<(ServerMessage, PeerAddr)> = Vec::new();
        out.push((ServerMessage::RoomCreated(room_id), addr));
        Ok(out)
    }

    /// Opens a new room for `addr` under a fresh identifier.
    pub fn handle_create_room(&mut self, addr: PeerAddr) -> (r: Result<
        Vec<(ServerMessage, PeerAddr)>,
        RoomError,
    >)
        requires
            old(self).wf(),
        ensures
            final(self).wf(),
            create_post(old(self)@, final(self)@, addr, outcome_view(r)),
    {
        proof {
            self.lemma_counts();
        }
        if self.rooms.len() > MAX_NUM_ROOMS || self.find_assignment(addr).is_some() {
            return self.open_room(addr, String::new());
        }
        let id = self.fresh_room_id();
        self.open_room(addr, id)
    }

    /// Handles a message of `addr`.
    pub fn process_message(&mut self, addr: PeerAddr, msg: ClientMessage) -> (r: Result<
        Vec<(ServerMessage, PeerAddr)>,
        RoomError,
    >)
        requires
            old(self).wf(),
        ensures
            final(self).wf(),
            process_post(old(self)@, final(self)@, addr, msg@, outcome_view(r)),
    {
        match msg {
            ClientMessage::Text(s) => self.handle_text_data(addr, s),
            ClientMessage::Binary(d) => self.handle_binary_data(addr, d),
            ClientMessage::CreateRoom => self.handle_create_room(addr),
            ClientMessage::JoinRoom(id) => self.handle_join_room(addr, id),
            ClientMessage::LeaveRoom => self.handle_leave_room(addr),
            ClientMessage::Close(_) => self.handle_leave_room(addr),
            ClientMessage::Ping(d) => {
                let mut out: Vec<(ServerMessage, PeerAddr)> = Vec::new();
                out.push((ServerMessage::Pong(d), addr));
                Ok(out)
            },
            ClientMessage::Error(e) => Err(RoomError::ClientReported(e)),
            other => Err(RoomError::Unexpected(other)),
        }
    }

    /// One message telling each peer recorded in a room that the relay is closing.
    pub fn close_server(&self) -> (r: Vec<(ServerMessage, PeerAddr)>)
        requires
            self.wf(),
        ensures
            delivers(sends_view(r@), ServerMessageView::ServerClosed, self@.client2room.dom()),
    {
        let mut out: Vec<(ServerMessage, PeerAddr)> = Vec::new();
        let mut i: usize = 0;
        while i < self.assignments.len()
            invariant
                self.wf(),
                i <= self.assignments@.len(),
                recipients(out@) == peers_of(self.assignments@).take(i as int),
                forall|k: int| 0 <= k < out@.len() ==> (#[trigger] out@[k]).0@ == ServerMessageView::ServerClosed,
            decreases self.assignments@.len() - i,
        {
            let ghost before = recipients(out@);
            out.push((ServerMessage::ServerClosed, self.assignments[i].peer));
            assert(recipients(out@) =~= before.push(self.assignments@[i as int].peer));
            assert(peers_of(self.assignments@).take(i + 1) =~= peers_of(self.assignments@).take(i as int).push(self.assignments@[i as int].peer));
            i += 1;
        }
        proof {
            assert(peers_of(self.assignments@).take(i as int) =~= peers_of(self.assignments@));
            peers_of(self.assignments@).unique_seq_to_set();
            let sv = sends_view(out@);
            assert forall|a: int, b: int| 0 <= a < b < sv.len() implies (#[trigger] sv[a]).1 != (#[trigger] sv[b]).1 by {
                assert(recipients(out@)[a] == sv[a].1);
                assert(recipients(out@)[b] == sv[b].1);
            }
            assert forall|a: int| 0 <= a < sv.len() implies (#[trigger] sv[a]).0 == ServerMessageView::ServerClosed
                && self@.client2room.dom().contains(sv[a].1) by {
                assert(recipients(out@)[a] == sv[a].1);
                assert(peers_of(self.assignments@).contains(sv[a].1));
            }
        }
        out
    }

    /// Handles the end of a connection: the peer of a connection leaves its
    /// room; where the connection carries many peers, all of them are told
    /// that the relay is closing.
    pub fn on_shutdown(&mut self, addr: Option<PeerAddr>) -> (r: Result<
        Vec<(ServerMessage, PeerAddr)>,
        RoomError,
    >)
        requires
            old(self).wf(),
        ensures
            final(self).wf(),
            match addr {
                Some(a) => leave_post(old(self)@, final(self)@, a, outcome_view(r)),
                None => unchanged(old(self)@, final(self)@) && (r matches Ok(s) && delivers(
                    s@.map_values(|x: (ServerMessage, PeerAddr)| (x.0@, x.1)),
                    ServerMessageView::ServerClosed,
                    old(self)@.client2room.dom(),
                )),
            },
    {
        match addr {
            Some(a) => self.handle_leave_room(a),
            None => Ok(self.close_server()),
        }
    }

    /// Puts a room with these peers under this identifier, in place of any
    /// room that had it; a peer listed twice is in the room once.
    pub fn insert_room(&mut self, id: String, members: Vec<PeerAddr>)
        requires
            old(self).wf(),
        ensures
            final(self).wf(),
            final(self)@.rooms == old(self)@.rooms.insert(id@, members@.to_set()),
            final(self)@.client2room == old(self)@.client2room,
    {
        let mut unique: Vec<PeerAddr> = Vec::new();
        let mut i: usize = 0;
        while i < members.len()
            invariant
                i <= members@.len(),
                unique@.no_duplicates(),
                unique@.to_set() == members@.take(i as int).to_set(),
            decreases members@.len() - i,
        {
            assert(members@.take(i + 1) =~= members@.take(i as int).push(members@[i as int]));
            assert(members@.take(i + 1).to_set() =~= members@.take(i as int).to_set().insert(members@[i as int]));
            unique = with_peer(&unique, members[i]);
            i += 1;
        }
        assert(members@.take(members@.len() as int) =~= members@);
        self.set_room(id, unique);
    }

    /// Records that this peer is in the room with this identifier.
    pub fn assign(&mut self, peer: PeerAddr, room_id: String)
        requires
            old(self).wf(),
        ensures
            final(self).wf(),
            final(self)@.client2room == old(self)@.client2room.insert(peer, room_id@),
            final(self)@.rooms == old(self)@.rooms,
    {
        self.set_assignment(peer, room_id);
    }

    /// The number of rooms.
    pub fn room_count(&self) -> (n: usize)
        requires
            self.wf(),
        ensures
            n == self@.rooms.len(),
    {
        proof {
            self.lemma_counts();
        }
        self.rooms.len()
    }

    /// The number of peers recorded in a room.
    pub fn client_count(&self) -> (n: usize)
        requires
            self.wf(),
        ensures
            n == self@.client2room.len(),
    {
        proof {
            self.lemma_counts();
        }
        self.assignments.len()
    }

    /// The identifier of the room that this peer is recorded in.
    pub fn room_of(&self, peer: PeerAddr) -> (r: Option<String>)
        requires
            self.wf(),
        ensures
            match r {
                Some(id) => self@.client2room.contains_key(peer) && id@ == self@.client2room[peer],
                None => !self@.client2room.contains_key(peer),
            },
    {
        match self.find_assignment(peer) {
            Some(i) => Some(self.assignments[i].room_id.clone()),
            None => None,
        }
    }

    /// Whether there is a room with this identifier.
    pub fn has_room(&self, id: &String) -> (b: bool)
        requires
            self.wf(),
        ensures
            b == self@.rooms.contains_key(id@),
    {
        self.find_room(id).is_some()
    }

    /// The number of peers in the room with this identifier.
    pub fn room_len(&self, id: &String) -> (r: Option<usize>)
        requires
            self.wf(),
        ensures
            match r {
                Some(n) => self@.rooms.contains_key(id@) && n == self@.rooms[id@].len(),
                None => !self@.rooms.contains_key(id@),
            },
    {
        match self.find_room(id) {
            Some(k) => {
                proof {
                    self.rooms@[k as int].members@.unique_seq_to_set();
                }
                Some(self.rooms[k].members.len())
            },
            None => None,
        }
    }

    /// Whether the room with this identifier holds this peer.
    pub fn is_member(&self, id: &String, peer: PeerAddr) -> (b: bool)
        requires
            self.wf(),
        ensures
            b == (self@.rooms.contains_key(id@) && self@.rooms[id@].contains(peer)),
    {
        match self.find_room(id) {
            Some(k) => contains_peer(&self.rooms[k].members, peer),
            None => false,
        }
    }

    /// One message to each peer of each room telling it that the relay is
    /// closing; a peer in two rooms gets two.
    pub fn close_all_rooms(&self) -> (r: Vec<(ServerMessage, PeerAddr)>)
        requires
            self.wf(),
        ensures
            forall|i: int| 0 <= i < r@.len() ==> (#[trigger] r@[i]).0@ == ServerMessageView::ServerClosed
                && exists|k: Seq<char>| #[trigger] self@.rooms.contains_key(k) && self@.rooms[k].contains(r@[i].1),
            forall|k: Seq<char>, p: PeerAddr| #[trigger] self@.rooms.contains_key(k) && #[trigger] self@.rooms[k].contains(p)
                ==> exists|i: int| 0 <= i < r@.len() && (#[trigger] r@[i]).1 == p,
            consistent(self@) ==> recipients(r@).no_duplicates(),
    {
        let mut out: Vec<(ServerMessage, PeerAddr)> = Vec::new();
        let mut i: usize = 0;
        while i < self.rooms.len()
            invariant
                self.wf(),
                i <= self.rooms@.len(),
                forall|x: int| 0 <= x < out@.len() ==> (#[trigger] out@[x]).0@ == ServerMessageView::ServerClosed
                    && exists|j: int| 0 <= j < i && #[trigger] self.rooms@[j].members@.contains(out@[x].1),
                forall|j: int, q: PeerAddr| 0 <= j < i && #[trigger] self.rooms@[j].members@.contains(q)
                    ==> exists|x: int| 0 <= x < out@.len() && (#[trigger] out@[x]).1 == q,
                consistent(self@) ==> recipients(out@).no_duplicates(),
            decreases self.rooms@.len() - i,
        {
            let members = &self.rooms[i].members;
            let mut m: usize = 0;
            let ghost start = out@.len();
            while m < members.len()
                invariant
                    self.wf(),
                    i < self.rooms@.len(),
                    members == &self.rooms@[i as int].members,
                    m <= members@.len(),
                    start <= out@.len(),
                    forall|x: int| 0 <= x < start ==> (#[trigger] out@[x]).0@ == ServerMessageView::ServerClosed
                        && exists|j: int| 0 <= j < i && #[trigger] self.rooms@[j].members@.contains(out@[x].1),
                    forall|x: int| start <= x < out@.len() ==> (#[trigger] out@[x]).0@ == ServerMessageView::ServerClosed
                        && out@[x].1 == members@[x - start],
                    out@.len() == start + m,
                    forall|j: int, q: PeerAddr| 0 <= j < i && #[trigger] self.rooms@[j].members@.contains(q)
                        ==> exists|x: int| 0 <= x < out@.len() && (#[trigger] out@[x]).1 == q,
                    consistent(self@) ==> recipients(out@).no_duplicates(),
                decreases members@.len() - m,
            {
                let q = members[m];
                let ghost before = recipients(out@);
                proof {
                    if consistent(self@) {
                        assert(!before.contains(q)) by {
                            if before.contains(q) {
                                let x = choose|x: int| 0 <= x < before.len() && before[x] == q;
                                assert(out@[x].1 == q);
                                let ki = self.rooms@[i as int].id@;
                                assert(ids_of(self.rooms@)[i as int] == ki);
                                assert(self@.rooms[ki] == members@.to_set());
                                assert(members@.to_set().contains(q));
                                assert(self@.rooms.contains_key(ki));
                                assert(self@.rooms[ki].contains(q));
                                assert(self@.client2room[q] == ki);
                                if x < start {
                                    let j = choose|j: int| 0 <= j < i && #[trigger] self.rooms@[j].members@.contains(out@[x].1);
                                    let kj = self.rooms@[j].id@;
                                    assert(ids_of(self.rooms@)[j] == kj);
                                    assert(self@.rooms[kj] == self.rooms@[j].members@.to_set());
                                    assert(self@.rooms.contains_key(kj));
                                    assert(self@.rooms[kj].contains(q));
                                    assert(self@.client2room[q] == kj);
                                    assert(ids_of(self.rooms@)[j] != ids_of(self.rooms@)[i as int]);
                                } else {
                                    assert(members@[x - start] == members@[m as int]);
                                    assert(self.rooms@[i as int].members@.no_duplicates());
                                }
                            }
                        }
                    }
                }
                let ghost old_out = out@;
                out.push((ServerMessage::ServerClosed, q));
                proof {
                    assert(recipients(out@) =~= before.push(q));
                    assert forall|j: int, p: PeerAddr| 0 <= j < i && #[trigger] self.rooms@[j].members@.contains(p)
                        implies exists|x: int| 0 <= x < out@.len() && (#[trigger] out@[x]).1 == p by {
                        let x = choose|x: int| 0 <= x < old_out.len() && (#[trigger] old_out[x]).1 == p;
                        assert(out@[x] == old_out[x]);
                    }
                }
                m += 1;
            }
            proof {
                assert forall|x: int| 0 <= x < out@.len() implies (#[trigger] out@[x]).0@ == ServerMessageView::ServerClosed
                    && exists|j: int| 0 <= j < i + 1 && #[trigger] self.rooms@[j].members@.contains(out@[x].1) by {
                    if x >= start {
                        assert(self.rooms@[i as int].members@.contains(out@[x].1));
                    } else {
                        let j = choose|j: int| 0 <= j < i && #[trigger] self.rooms@[j].members@.contains(out@[x].1);
                        assert(self.rooms@[j].members@.contains(out@[x].1));
                    }
                }
                assert forall|j: int, q: PeerAddr| 0 <= j < i + 1 && #[trigger] self.rooms@[j].members@.contains(q)
                    implies exists|x: int| 0 <= x < out@.len() && (#[trigger] out@[x]).1 == q by {
                    if j == i {
                        let y = choose|y: int| 0 <= y < members@.len() && members@[y] == q;
                        assert(out@[start + y].1 == q);
                    }
                }
            }
            i += 1;
        }
        proof {
            assert forall|x: int| 0 <= x < out@.len() implies (#[trigger] out@[x]).0@ == ServerMessageView::ServerClosed
                && exists|k: Seq<char>| #[trigger] self@.rooms.contains_key(k) && self@.rooms[k].contains(out@[x].1) by {
                let j = choose|j: int| 0 <= j < i && #[trigger] self.rooms@[j].members@.contains(out@[x].1);
                let kj = self.rooms@[j].id@;
                assert(ids_of(self.rooms@)[j] == kj);
                assert(self@.rooms.contains_key(kj));
                assert(self@.rooms[kj] == self.rooms@[j].members@.to_set());
            }
            assert forall|k: Seq<char>, p: PeerAddr| #[trigger] self@.rooms.contains_key(k) && #[trigger] self@.rooms[k].contains(p)
                implies exists|x: int| 0 <= x < out@.len() && (#[trigger] out@[x]).1 == p by {
                assert(ids_of(self.rooms@).to_set().contains(k));
                let j = choose|j: int| 0 <= j < ids_of(self.rooms@).len() && ids_of(self.rooms@)[j] == k;
                assert(self.rooms@[j].id@ == k);
                assert(self@.rooms[k] == self.rooms@[j].members@.to_set());
                assert(self.rooms@[j].members@.contains(p));
            }
        }
        out
    }
}

} // verus!

verus! {

/// The rooms and their peers are finite, as those of every registry are.
pub open spec fn finite_view(v: RegistryView) -> bool {
    &&& v.rooms.dom().finite()
    &&& v.client2room.dom().finite()
    &&& forall|k: Seq<char>| #[trigger] v.rooms.contains_key(k) ==> v.rooms[k].finite()
}

impl RoomRegistry {
    /// The view of a registry is finite.
    pub proof fn lemma_finite(&self)
        requires
            self.wf(),
        ensures
            finite_view(self@),
    {
        self.lemma_counts();
    }
}

/// Every room holds at most this many peers.
pub open spec fn rooms_within_capacity(v: RegistryView) -> bool {
    forall|k: Seq<char>| #[trigger] v.rooms.contains_key(k) ==> v.rooms[k].len() <= MAX_NUM_CLIENTS_IN_ROOM + 1
}

/// Creating a room under a fresh identifier keeps every peer recorded in the
/// room that holds it.
pub proof fn lemma_create_keeps_consistent(
    old: RegistryView,
    new: RegistryView,
    addr: PeerAddr,
    r: Result<Seq<(ServerMessageView, PeerAddr)>, RoomErrorView>,
)
    requires
        consistent(old),
        create_post(old, new, addr, r),
    ensures
        consistent(new),
{
    if old.rooms.len() > MAX_NUM_ROOMS || old.client2room.contains_key(addr) {
    } else {
        let s = r->Ok_0;
        let id = s[0].0->RoomCreated_0;
        assert forall|p: PeerAddr| #[trigger] new.client2room.contains_key(p) implies new.rooms.contains_key(
            new.client2room[p],
        ) && new.rooms[new.client2room[p]].contains(p) by {
            if p != addr {
                assert(old.client2room.contains_key(p));
                assert(old.rooms.contains_key(old.client2room[p]));
                assert(old.client2room[p] != id);
            }
        }
        assert forall|k: Seq<char>, p: PeerAddr| #[trigger] new.rooms.contains_key(k) && #[trigger] new.rooms[k].contains(p)
            implies new.client2room.contains_key(p) && new.client2room[p] == k by {
            if k != id {
                assert(old.rooms.contains_key(k) && old.rooms[k].contains(p));
                if p == addr {
                    assert(old.client2room.contains_key(addr));
                }
            }
        }
    }
}

/// Joining a room keeps every peer recorded in the room that holds it.
pub proof fn lemma_join_keeps_consistent(
    old: RegistryView,
    new: RegistryView,
    addr: PeerAddr,
    id: Seq<char>,
    r: Result<Seq<(ServerMessageView, PeerAddr)>, RoomErrorView>,
)
    requires
        consistent(old),
        join_post(old, new, addr, id, r),
    ensures
        consistent(new),
{
    if old.client2room.contains_key(addr) || !old.rooms.contains_key(id) || old.rooms[id].len()
        > MAX_NUM_CLIENTS_IN_ROOM {
    } else {
        assert forall|p: PeerAddr| #[trigger] new.client2room.contains_key(p) implies new.rooms.contains_key(
            new.client2room[p],
        ) && new.rooms[new.client2room[p]].contains(p) by {
            if p != addr {
                assert(old.client2room.contains_key(p));
                assert(old.rooms.contains_key(old.client2room[p]));
            }
        }
        assert forall|k: Seq<char>, p: PeerAddr| #[trigger] new.rooms.contains_key(k) && #[trigger] new.rooms[k].contains(p)
            implies new.client2room.contains_key(p) && new.client2room[p] == k by {
            if p != addr {
                assert(old.rooms.contains_key(k) && old.rooms[k].contains(p));
            } else if k != id {
                assert(old.rooms.contains_key(k) && old.rooms[k].contains(addr));
            }
        }
    }
}

/// Leaving a room keeps every peer recorded in the room that holds it.
pub proof fn lemma_leave_keeps_consistent(
    old: RegistryView,
    new: RegistryView,
    addr: PeerAddr,
    r: Result<Seq<(ServerMessageView, PeerAddr)>, RoomErrorView>,
)
    requires
        finite_view(old),
        consistent(old),
        leave_post(old, new, addr, r),
    ensures
        consistent(new),
{
    if old.client2room.contains_key(addr) {
        let id = old.client2room[addr];
        assert(old.rooms.contains_key(id) && old.rooms[id].contains(addr));
        let rest = old.rooms[id].remove(addr);
        assert forall|p: PeerAddr| #[trigger] new.client2room.contains_key(p) implies new.rooms.contains_key(
            new.client2room[p],
        ) && new.rooms[new.client2room[p]].contains(p) by {
            assert(p != addr);
            assert(old.client2room.contains_key(p));
            let k = old.client2room[p];
            assert(old.rooms.contains_key(k) && old.rooms[k].contains(p));
            if k == id {
                assert(rest.contains(p));
                assert(rest.finite());
                assert(rest.len() != 0);
            }
        }
        assert forall|k: Seq<char>, p: PeerAddr| #[trigger] new.rooms.contains_key(k) && #[trigger] new.rooms[k].contains(p)
            implies new.client2room.contains_key(p) && new.client2room[p] == k by {
            if k == id {
                assert(rest.contains(p));
                assert(old.rooms[id].contains(p));
            } else {
                assert(old.rooms.contains_key(k) && old.rooms[k].contains(p));
            }
            if p == addr {
                assert(old.client2room[addr] == k);
            }
        }
    }
}

/// Whatever message the relay handles, every peer stays recorded in the room
/// that holds it and every peer of a room stays recorded in it.
pub proof fn lemma_process_keeps_consistent(
    old: RegistryView,
    new: RegistryView,
    addr: PeerAddr,
    m: ClientMessageView,
    r: Result<Seq<(ServerMessageView, PeerAddr)>, RoomErrorView>,
)
    requires
        finite_view(old),
        consistent(old),
        process_post(old, new, addr, m, r),
    ensures
        consistent(new),
{
    match m {
        ClientMessageView::CreateRoom => lemma_create_keeps_consistent(old, new, addr, r),
        ClientMessageView::JoinRoom(id) => lemma_join_keeps_consistent(old, new, addr, id, r),
        ClientMessageView::LeaveRoom => lemma_leave_keeps_consistent(old, new, addr, r),
        ClientMessageView::Close(_) => lemma_leave_keeps_consistent(old, new, addr, r),
        _ => {},
    }
}

/// Whatever message the relay handles, there are never more than one room
/// over the limit, and no room holds more than one peer over its limit.
pub proof fn lemma_process_keeps_limits(
    old: RegistryView,
    new: RegistryView,
    addr: PeerAddr,
    m: ClientMessageView,
    r: Result<Seq<(ServerMessageView, PeerAddr)>, RoomErrorView>,
)
    requires
        finite_view(old),
        old.rooms.len() <= MAX_NUM_ROOMS + 1,
        rooms_within_capacity(old),
        process_post(old, new, addr, m, r),
    ensures
        new.rooms.len() <= MAX_NUM_ROOMS + 1,
        rooms_within_capacity(new),
{
    match m {
        ClientMessageView::CreateRoom => {
            if !(old.rooms.len() > MAX_NUM_ROOMS || old.client2room.contains_key(addr)) {
                let id = r->Ok_0[0].0->RoomCreated_0;
                assert(new.rooms.dom() =~= old.rooms.dom().insert(id));
                assert forall|k: Seq<char>| #[trigger] new.rooms.contains_key(k) implies new.rooms[k].len()
                    <= MAX_NUM_CLIENTS_IN_ROOM + 1 by {
                    if k == id {
                        assert(new.rooms[k] =~= Set::empty().insert(addr));
                    }
                }
            }
        },
        ClientMessageView::JoinRoom(id) => {
            if !(old.client2room.contains_key(addr) || !old.rooms.contains_key(id) || old.rooms[id].len()
                > MAX_NUM_CLIENTS_IN_ROOM) {
                assert(new.rooms.dom() =~= old.rooms.dom());
            }
        },
        ClientMessageView::LeaveRoom | ClientMessageView::Close(_) => {
            if old.client2room.contains_key(addr) {
                let id = old.client2room[addr];
                if old.rooms.contains_key(id) && old.rooms[id].contains(addr) {
                    let rest = old.rooms[id].remove(addr);
                    if rest.len() == 0 {
                        assert(new.rooms.dom() =~= old.rooms.dom().remove(id));
                    } else {
                        assert(new.rooms.dom() =~= old.rooms.dom());
                    }
                }
            }
        },
        _ => {},
    }
}

/// A peer that joins a room it was not in and then leaves it leaves the
/// registry as it found it, and the peers of the room are told that it left.
pub proof fn lemma_join_then_leave(
    a: RegistryView,
    b: RegistryView,
    c: RegistryView,
    addr: PeerAddr,
    id: Seq<char>,
    r1: Result<Seq<(ServerMessageView, PeerAddr)>, RoomErrorView>,
    r2: Result<Seq<(ServerMessageView, PeerAddr)>, RoomErrorView>,
)
    requires
        finite_view(a),
        join_post(a, b, addr, id, r1),
        r1 is Ok,
        leave_post(b, c, addr, r2),
        !a.rooms[id].contains(addr),
        a.rooms[id].len() > 0,
    ensures
        unchanged(a, c),
        r2 matches Ok(s) && delivers(s, ServerMessageView::ClientLeft, a.rooms[id]),
{
    assert(a.rooms[id].insert(addr).remove(addr) =~= a.rooms[id]);
    assert(c.rooms =~= a.rooms);
    assert(c.client2room =~= a.client2room);
}

/// A peer that opens a room and then leaves it leaves the registry as it
/// found it; nobody is told.
pub proof fn lemma_create_then_leave(
    a: RegistryView,
    b: RegistryView,
    c: RegistryView,
    addr: PeerAddr,
    r1: Result<Seq<(ServerMessageView, PeerAddr)>, RoomErrorView>,
    r2: Result<Seq<(ServerMessageView, PeerAddr)>, RoomErrorView>,
)
    requires
        create_post(a, b, addr, r1),
        r1 is Ok,
        leave_post(b, c, addr, r2),
    ensures
        unchanged(a, c),
        r2 matches Ok(s) && s.len() == 0,
{
    let id = r1->Ok_0[0].0->RoomCreated_0;
    assert(Set::<PeerAddr>::empty().insert(addr).remove(addr) =~= Set::empty());
    assert(c.rooms =~= a.rooms);
    assert(c.client2room =~= a.client2room);
}

/// Forwarded data never goes back to the peer that sent it, and every other
/// peer of its room gets it once.
pub proof fn lemma_forward_skips_sender(
    v: RegistryView,
    addr: PeerAddr,
    msg: ServerMessageView,
    r: Result<Seq<(ServerMessageView, PeerAddr)>, RoomErrorView>,
)
    requires
        forward_post(v, addr, msg, r),
        r is Ok,
    ensures
        forall|i: int| 0 <= i < r->Ok_0.len() ==> (#[trigger] r->Ok_0[i]).1 != addr && r->Ok_0[i].0 == msg,
{
}

/// Data that a peer in a room sends reaches the other peers of its room as it
/// was sent: every copy of a text message is text of the same characters, and
/// every copy of binary data is binary data of the same bytes, one copy for
/// each other peer of the room and none back to the sender; the rooms do not
/// change.
pub proof fn lemma_data_forwarded_as_sent(
    old: RegistryView,
    new: RegistryView,
    addr: PeerAddr,
    m: ClientMessageView,
    r: Result<Seq<(ServerMessageView, PeerAddr)>, RoomErrorView>,
)
    requires
        process_post(old, new, addr, m, r),
        m is Text || m is Binary,
        old.client2room.contains_key(addr),
        old.rooms.contains_key(old.client2room[addr]),
    ensures
        old.rooms == new.rooms && old.client2room == new.client2room,
        r is Ok,
        r->Ok_0.len() == old.rooms[old.client2room[addr]].remove(addr).len(),
        forall|i: int|
            0 <= i < r->Ok_0.len() ==> (#[trigger] r->Ok_0[i]).1 != addr
                && old.rooms[old.client2room[addr]].contains(r->Ok_0[i].1),
        m matches ClientMessageView::Text(s) ==> forall|i: int|
            0 <= i < r->Ok_0.len() ==> (#[trigger] r->Ok_0[i]).0 == ServerMessageView::Text(s),
        m matches ClientMessageView::Binary(d) ==> forall|i: int|
            0 <= i < r->Ok_0.len() ==> (#[trigger] r->Ok_0[i]).0 == ServerMessageView::Binary(d),
{
}

} // verus!
