use vstd::prelude::*;

use crate::constant::{MAX_ERRORS_ALLOWED, MAX_MESSAGE_SIZE};
use crate::error::ProxyServerError;
use crate::message::client::{
    client_decode, client_from_ws, ClientMessage, ClientMessageView,
};
use crate::message::ws::{ws_len, ws_len_fits, WsMessage, WsMessageView};
use crate::peer::PeerAddr;

verus! {

/// What the relay does with bytes that arrived from a peer.
#[derive(Debug, PartialEq, Eq)]
pub enum Inbound {
    /// Hand this message to the handler.
    Deliver(ClientMessage),
    /// Hand this notice to the handler instead; where there is an error, the
    /// arrival counts as a failure of the connection.
    Reject { notice: ClientMessage, error: Option<ProxyServerError> },
    /// Hand nothing on; the arrival counts as a failure of the connection.
    Fail(ProxyServerError),
    /// Nothing to hand on.
    Ignore,
}

/// The notice that stands for a message over the size limit.
pub open spec fn too_large_notice() -> ClientMessageView {
    ClientMessageView::Error("Message too large"@)
}

/// The notice that stands for bytes that are no message.
pub open spec fn invalid_notice() -> ClientMessageView {
    ClientMessageView::Error("Invalid message"@)
}

/// What a stream or datagram connection does with bytes that arrived: over
/// the size limit they become a notice that the message is too large; bytes
/// that are no message become a notice that the message is invalid (on a
/// datagram socket that counts as a failure); else the message is handed on.
pub open spec fn inbound_post(data: Seq<u8>, datagram: bool, r: Inbound) -> bool {
    if data.len() > MAX_MESSAGE_SIZE {
        r matches Inbound::Reject { notice, error } && notice@ == too_large_notice() && error is None
    } else {
        match client_decode(data) {
            Ok(m) => r matches Inbound::Deliver(x) && x@ == m,
            Err(_) => r matches Inbound::Reject { notice, error } && notice@ == invalid_notice() && if datagram {
                error matches Some(ProxyServerError::InvalidData(t)) && t@ == "Received invalid message"@
            } else {
                error is None
            },
        }
    }
}

/// What a connection does with bytes that arrived from a peer.
pub fn bytes_inbound(data: &[u8], datagram: bool) -> (r: Inbound)
    ensures
        inbound_post(data@, datagram, r),
{
    if data.len() > MAX_MESSAGE_SIZE {
        return Inbound::Reject {
            notice: ClientMessage::Error(String::from_str("Message too large")),
            error: None,
        };
    }
    match ClientMessage::try_from(data) {
        Ok(m) => Inbound::Deliver(m),
        Err(_) => {
            let error = if datagram {
                Some(ProxyServerError::InvalidData(String::from_str("Received invalid message")))
            } else {
                None
            };
            Inbound::Reject { notice: ClientMessage::Error(String::from_str("Invalid message")), error }
        },
    }
}

/// What a WebSocket connection does with a message that arrived: where its
/// content is over the size limit it becomes a notice that the message is too
/// large; pings and pongs are dropped; a raw frame is a failure, as an
/// unsupported message; text, binary and close messages are handed on as the
/// client messages they carry.
pub open spec fn ws_inbound_post(w: WsMessageView, r: Inbound) -> bool {
    if ws_len(w) > MAX_MESSAGE_SIZE {
        r matches Inbound::Reject { notice, error } && notice@ == too_large_notice() && error is None
    } else {
        match w {
            WsMessageView::Ping(_) | WsMessageView::Pong(_) => r is Ignore,
            WsMessageView::Frame(_) => r matches Inbound::Fail(ProxyServerError::InvalidData(t))
                && t@ == "Unsupported message type"@,
            _ => r matches Inbound::Deliver(x) && x@ == client_from_ws(w),
        }
    }
}

/// What a WebSocket connection does with a message that arrived from a peer.
pub fn ws_inbound(w: WsMessage) -> (r: Inbound)
    requires
        ws_len_fits(w@),
    ensures
        ws_inbound_post(w@, r),
{
    if w.len() > MAX_MESSAGE_SIZE {
        return Inbound::Reject {
            notice: ClientMessage::Error(String::from_str("Message too large")),
            error: None,
        };
    }
    match w {
        WsMessage::Ping(_) | WsMessage::Pong(_) => Inbound::Ignore,
        WsMessage::Frame(_) => Inbound::Fail(
            ProxyServerError::InvalidData(String::from_str("Unsupported message type")),
        ),
        other => Inbound::Deliver(ClientMessage::from(other)),
    }
}

/// Of the WebSocket messages within the size limit, the relay drops only pings
/// and pongs: a close is handed to the handler as the client's close with the
/// same close frame, text and binary messages are handed on as what they
/// carry, and only a raw frame is a failure.
pub proof fn lemma_ws_inbound_drops_only_control(w: WsMessageView, r: Inbound)
    requires
        ws_inbound_post(w, r),
        ws_len(w) <= MAX_MESSAGE_SIZE,
    ensures
        r is Ignore <==> (w is Ping || w is Pong),
        w matches WsMessageView::Close(c) ==> (r matches Inbound::Deliver(x) && x@
            == ClientMessageView::Close(c)),
        w matches WsMessageView::Text(s) ==> (r matches Inbound::Deliver(x) && x@
            == ClientMessageView::Text(s)),
        r is Fail <==> w is Frame,
        !(r is Reject),
{
}

/// The failures in a row of one connection.
pub struct ErrorCounter {
    count: usize,
}

impl ErrorCounter {
    /// The number of failures in a row.
    pub closed spec fn count(&self) -> nat {
        self.count as nat
    }

    /// No failure yet.
    pub fn new() -> (c: ErrorCounter)
        ensures
            c.count() == 0,
    {
        ErrorCounter { count: 0 }
    }

    /// A success ends the run of failures.
    pub fn record_success(&mut self)
        ensures
            final(self).count() == 0,
    {
        self.count = 0;
    }

    /// Counts a failure, and says whether the connection has reached the limit
    /// and is to be closed.
    pub fn record_failure(&mut self) -> (stop: bool)
        ensures
            final(self).count() == if old(self).count() < usize::MAX {
                old(self).count() + 1
            } else {
                old(self).count()
            },
            stop == (final(self).count() >= MAX_ERRORS_ALLOWED),
    {
        self.count = self.count.saturating_add(1);
        self.count >= MAX_ERRORS_ALLOWED
    }

    /// The number of failures in a row.
    pub fn get(&self) -> (n: usize)
        ensures
            n == self.count(),
    {
        self.count
    }
}

/// What a transport actor does after it handled one message.
#[derive(Debug, Clone, Copy, PartialEq, Eq, Structural)]
pub enum ActorStep {
    /// Go on with the next message.
    Continue,
    /// Hand a request to leave the room to the handler, tell the other actors
    /// of the connection to shut down, and stop.
    LeaveAndStop,
    /// Tell the other actors of the connection to shut down, and stop.
    Stop,
}

/// A count after one more failure, where it stops at the largest `usize`.
pub open spec fn one_more(n: nat) -> nat {
    if n < usize::MAX {
        n + 1
    } else {
        n
    }
}

/// With the limit of failures at one, the first failure of a connection
/// stops it: whatever the count, one more reaches the limit.
pub proof fn lemma_first_failure_stops(n: nat)
    ensures
        one_more(n) >= MAX_ERRORS_ALLOWED,
{
}

impl ErrorCounter {
    /// The step of the actor that reads from a connection, once it handled
    /// what arrived: a success ends the run of failures and it goes on; a
    /// failure is counted, and where that reaches the limit the peer leaves
    /// its room and the connection shuts down.
    pub fn after_receive(&mut self, ok: bool) -> (s: ActorStep)
        ensures
            ok ==> final(self).count() == 0 && s == ActorStep::Continue,
            !ok ==> final(self).count() == one_more(old(self).count()),
            !ok ==> s == if one_more(old(self).count()) >= MAX_ERRORS_ALLOWED {
                ActorStep::LeaveAndStop
            } else {
                ActorStep::Continue
            },
    {
        if ok {
            self.record_success();
            ActorStep::Continue
        } else if self.record_failure() {
            ActorStep::LeaveAndStop
        } else {
            ActorStep::Continue
        }
    }

    /// The step of the actor that writes to a connection, once it tried to
    /// send a message: a success ends the run of failures and it goes on; a
    /// failure is counted, and where that reaches the limit the connection
    /// shuts down.
    pub fn after_send(&mut self, ok: bool) -> (s: ActorStep)
        ensures
            ok ==> final(self).count() == 0 && s == ActorStep::Continue,
            !ok ==> final(self).count() == one_more(old(self).count()),
            !ok ==> s == if one_more(old(self).count()) >= MAX_ERRORS_ALLOWED {
                ActorStep::Stop
            } else {
                ActorStep::Continue
            },
    {
        if ok {
            self.record_success();
            ActorStep::Continue
        } else if self.record_failure() {
            ActorStep::Stop
        } else {
            ActorStep::Continue
        }
    }
}

/// The failures in a row of each peer of a datagram socket.
pub struct ClientErrorCounters {
    entries: Vec<(PeerAddr, usize)>,
}

/// The peers of counter entries, in order.
spec fn counted_peers(e: Seq<(PeerAddr, usize)>) -> Seq<PeerAddr> {
    e.map_values(|x: (PeerAddr, usize)| x.0)
}

impl ClientErrorCounters {
    /// Each peer has one entry.
    pub closed spec fn wf(&self) -> bool {
        counted_peers(self.entries@).no_duplicates()
    }

    /// The count of each peer that has one.
    pub closed spec fn counts(&self) -> Map<PeerAddr, nat> {
        Map::new(
            |p: PeerAddr| counted_peers(self.entries@).contains(p),
            |p: PeerAddr|
                self.entries@[counted_peers(self.entries@).index_of(p)].1 as nat,
        )
    }

    /// No peer has a count.
    pub fn new() -> (c: ClientErrorCounters)
        ensures
            c.wf(),
            c.counts() == Map::<PeerAddr, nat>::empty(),
    {
        let c = ClientErrorCounters { entries: Vec::new() };
        assert(c.counts() =~= Map::<PeerAddr, nat>::empty());
        c
    }

    fn find(&self, peer: PeerAddr) -> (r: Option<usize>)
        requires
            self.wf(),
        ensures
            match r {
                Some(i) => i < self.entries@.len() && self.entries@[i as int].0 == peer
                    && self.counts().contains_key(peer) && self.counts()[peer]
                    == self.entries@[i as int].1,
                None => !self.counts().contains_key(peer),
            },
    {
        let mut i: usize = 0;
        while i < self.entries.len()
            invariant
                self.wf(),
                i <= self.entries@.len(),
                forall|j: int| 0 <= j < i ==> self.entries@[j].0 != peer,
            decreases self.entries@.len() - i,
        {
            if self.entries[i].0 == peer {
                proof {
                    let ps = counted_peers(self.entries@);
                    assert(ps[i as int] == peer);
                    assert(ps.contains(peer));
                    assert(ps.index_of(peer) == i) by {
                        let k = ps.index_of(peer);
                        assert(ps[k] == peer);
                        if k != i {
                            assert(ps[k] != ps[i as int]);
                        }
                    }
                }
                return Some(i);
            }
            i += 1;
        }
        proof {
            if counted_peers(self.entries@).contains(peer) {
                let j = choose|j: int| 0 <= j < counted_peers(self.entries@).len() && counted_peers(self.entries@)[j] == peer;
                assert(self.entries@[j].0 == peer);
            }
        }
        None
    }

    /// The count of a peer, zero where it has none.
    pub fn get(&self, peer: PeerAddr) -> (n: usize)
        requires
            self.wf(),
        ensures
            n == if self.counts().contains_key(peer) {
                self.counts()[peer]
            } else {
                0
            },
    {
        match self.find(peer) {
            Some(i) => self.entries[i].1,
            None => 0,
        }
    }

    /// Sets the count of a peer.
    fn set(&mut self, peer: PeerAddr, n: usize)
        requires
            old(self).wf(),
        ensures
            final(self).wf(),
            final(self).counts() == old(self).counts().insert(peer, n as nat),
    {
        let ghost old_e = self.entries@;
        match self.find(peer) {
            Some(i) => {
                let _ = self.entries.remove(i);
                self.entries.insert(i, (peer, n));
                proof {
                    assert(self.entries@ =~= old_e.update(i as int, (peer, n)));
                    assert(counted_peers(self.entries@) =~= counted_peers(old_e));
                    let ps = counted_peers(self.entries@);
                    assert forall|p: PeerAddr| ps.contains(p) implies self.entries@[ps.index_of(p)].1
                        == (if p == peer { n } else { old_e[ps.index_of(p)].1 }) by {
                        let k = ps.index_of(p);
                        assert(ps[k] == p);
                        if p == peer {
                            assert(ps[i as int] == peer);
                            if k != i {
                                assert(ps[k] != ps[i as int]);
                            }
                        } else {
                            assert(k != i);
                        }
                    }
                    assert(self.counts() =~= old(self).counts().insert(peer, n as nat));
                }
            },
            None => {
                self.entries.push((peer, n));
                proof {
                    let ps0 = counted_peers(old_e);
                    let ps = counted_peers(self.entries@);
                    assert(ps =~= ps0.push(peer));
                    assert(!ps0.contains(peer));
                    assert forall|p: PeerAddr| ps.contains(p) <==> ps0.contains(p) || p == peer by {
                        if ps0.contains(p) {
                            let j = choose|j: int| 0 <= j < ps0.len() && ps0[j] == p;
                            assert(ps[j] == p);
                        }
                        if p == peer {
                            assert(ps[ps0.len() as int] == p);
                        }
                        if ps.contains(p) && p != peer {
                            let j = choose|j: int| 0 <= j < ps.len() && ps[j] == p;
                            assert(j < ps0.len());
                            assert(ps0[j] == p);
                        }
                    }
                    assert forall|p: PeerAddr| ps.contains(p) implies self.entries@[ps.index_of(p)].1
                        == (if p == peer { n } else { old_e[ps0.index_of(p)].1 }) by {
                        let k = ps.index_of(p);
                        assert(ps[k] == p);
                        if p == peer {
                            if k != ps0.len() {
                                assert(ps0[k] == peer);
                            }
                        } else {
                            let k0 = ps0.index_of(p);
                            assert(ps0[k0] == p);
                            assert(ps[k0] == p);
                            if k != k0 {
                                assert(ps[k] != ps[k0]);
                            }
                        }
                    }
                    assert(self.counts() =~= old(self).counts().insert(peer, n as nat));
                }
            },
        }
    }

    /// Removes the count of a peer.
    fn clear(&mut self, peer: PeerAddr)
        requires
            old(self).wf(),
        ensures
            final(self).wf(),
            final(self).counts() == old(self).counts().remove(peer),
    {
        match self.find(peer) {
            None => {
                assert(self.counts() =~= self.counts().remove(peer));
            },
            Some(i) => {
                let ghost old_e = self.entries@;
                let ghost ps0 = counted_peers(old_e);
                let _ = self.entries.remove(i);
                proof {
                    let ps = counted_peers(self.entries@);
                    assert(ps =~= ps0.remove(i as int));
                    assert(ps0[i as int] == peer);
                    assert forall|p: PeerAddr| ps.contains(p) <==> ps0.contains(p) && p != peer by {
                        if ps0.contains(p) && p != peer {
                            let j = choose|j: int| 0 <= j < ps0.len() && ps0[j] == p;
                            if j < i {
                                assert(ps[j] == p);
                            } else {
                                assert(j != i);
                                assert(ps[j - 1] == p);
                            }
                        }
                        if ps.contains(p) {
                            let j = choose|j: int| 0 <= j < ps.len() && ps[j] == p;
                            if j < i {
                                assert(ps0[j] == p);
                                assert(ps0[j] != ps0[i as int]);
                            } else {
                                assert(ps0[j + 1] == p);
                                assert(ps0[j + 1] != ps0[i as int]);
                            }
                        }
                    }
                    assert forall|p: PeerAddr| ps.contains(p) implies self.entries@[ps.index_of(p)].1
                        == old_e[ps0.index_of(p)].1 by {
                        let k = ps.index_of(p);
                        let k0 = ps0.index_of(p);
                        assert(ps[k] == p);
                        assert(ps0[k0] == p);
                        if k < i {
                            assert(ps0[k] == p);
                            if k != k0 {
                                assert(ps0[k] != ps0[k0]);
                            }
                        } else {
                            assert(ps0[k + 1] == p);
                            if k + 1 != k0 {
                                assert(ps0[k + 1] != ps0[k0]);
                            }
                        }
                    }
                    assert(self.counts() =~= old(self).counts().remove(peer));
                }
            },
        }
    }

    /// A message from a peer arrived whole: its count is zero.
    pub fn record_success(&mut self, peer: PeerAddr)
        requires
            old(self).wf(),
        ensures
            final(self).wf(),
            final(self).counts() == old(self).counts().insert(peer, 0),
    {
        self.set(peer, 0);
    }

    /// A sending to a peer failed: its count goes up by one.
    pub fn record_send_failure(&mut self, peer: PeerAddr)
        requires
            old(self).wf(),
        ensures
            final(self).wf(),
            final(self).counts() == old(self).counts().insert(peer, bumped(old(self).counts(), peer)),
    {
        let n = self.get(peer);
        self.set(peer, n.saturating_add(1));
    }

    /// A datagram from a peer was no message: its count goes up by one, and
    /// where that reaches the limit its count is dropped and the peer is to be
    /// told and taken out of its room, which the result says.
    pub fn record_failure(&mut self, peer: PeerAddr) -> (limit_reached: bool)
        requires
            old(self).wf(),
        ensures
            final(self).wf(),
            limit_reached == (bumped(old(self).counts(), peer) >= MAX_ERRORS_ALLOWED),
            limit_reached ==> final(self).counts() == old(self).counts().remove(peer),
            !limit_reached ==> final(self).counts() == old(self).counts().insert(peer, bumped(old(self).counts(), peer)),
    {
        let n = self.get(peer).saturating_add(1);
        if n >= MAX_ERRORS_ALLOWED {
            self.clear(peer);
            true
        } else {
            self.set(peer, n);
            false
        }
    }
}

/// A peer's count after one more failure, where it stops at the largest `usize`.
pub open spec fn bumped(counts: Map<PeerAddr, nat>, peer: PeerAddr) -> nat {
    let n = if counts.contains_key(peer) {
        counts[peer]
    } else {
        0
    };
    if n < usize::MAX {
        n + 1
    } else {
        n
    }
}

/// The notices that a peer whose datagrams keep failing is handed on with: an
/// invalid-message error, then a request to leave its room.
pub fn farewell_notices() -> (r: Vec<ClientMessage>)
    ensures
        r@.len() == 2,
        r@[0]@ == invalid_notice(),
        r@[1]@ == ClientMessageView::LeaveRoom,
{
    let mut v: Vec<ClientMessage> = Vec::new();
    v.push(ClientMessage::Error(String::from_str("Invalid message")));
    v.push(ClientMessage::LeaveRoom);
    v
}

} // verus!
