//! A session: the links that belong together, the policy that picks one of
//! them for each packet sent, and the queue in which the packets received
//! on all of them wait for the consumer.

use crate::codec::{reading, Decoded, Reading};
use crate::connection::{Connection, LinkError, LinkState, Policy};
use crate::packet::{frame, ConnectionPacket, Packet};
use crate::selection::{is_choice, none_eligible, select_link};
use crate::token::{alphanumeric_text, sample_alphanumeric, TOKEN_LEN};
use std::collections::VecDeque;
use vstd::prelude::*;

verus! {

/// Number of received packets that a session holds for its consumer; while
/// the queue is full, the links take no further frame.
pub const INBOUND_CAPACITY: usize = 64;

/// Why a session could not do what was asked.
#[derive(Clone, Copy, Debug, PartialEq, Eq, Structural)]
pub enum SessionError {
    /// No link of the session may be chosen for sending.
    NoAvailableLink,
    /// The session has been closed.
    SessionClosed,
    /// The session has no link of that number.
    UnknownLink,
    /// The session has a link of that number already.
    DuplicateLink,
    /// The link is closed: a session takes up live links only.
    LinkClosed,
    /// The packet is over the protocol's bound, or the bytes received are
    /// no frame of the protocol.
    ProtocolViolation,
    /// The peer has closed the connection of that link.
    ConnectionClosed,
    /// The handshake of the link is not done.
    HandshakeIncomplete,
}

/// What became of the bytes received on a link.
#[derive(Clone, Copy, Debug, PartialEq, Eq, Structural)]
pub enum Intake {
    /// A frame was taken from the front of the bytes and its packet queued;
    /// the number says how many bytes the frame took.
    Queued(usize),
    /// The frame at the front is not complete; at least this many bytes
    /// are missing. Nothing was taken.
    Incomplete(usize),
    /// A frame is there, but the queue is full. Nothing was taken.
    Backlogged,
}

/// A frame to write, and the link to write it on.
#[derive(Debug, PartialEq, Eq)]
pub struct Outbound {
    pub link_id: u32,
    pub frame: Vec<u8>,
}

/// A received packet with the number of the link that it came on.
pub type Tagged = (u32, Packet);

/// A session as the contracts see it.
pub struct SessionState {
    pub id: u32,
    pub token: Seq<char>,
    /// The active set, in the order in which the links were taken up.
    pub links: Seq<Connection>,
    /// The packets received and not yet consumed, the oldest first.
    pub inbound: Seq<Tagged>,
    /// The place after the link chosen last: the round of equals starts here.
    pub cursor: nat,
    pub policy: Policy,
    pub closed: bool,
}

impl SessionState {
    /// The session has a link with number `id`.
    pub open spec fn has_link(self, id: u32) -> bool {
        exists|i: int| 0 <= i < self.links.len() && #[trigger] self.links[i].id == id
    }

    /// The place of the link with number `id` in the active set.
    pub open spec fn place_of(self, id: u32) -> int {
        choose|i: int| 0 <= i < self.links.len() && #[trigger] self.links[i].id == id
    }

    /// No two links share a number, no link of the active set is closed, a
    /// closed session has no links, and the queue is within its capacity.
    pub open spec fn wf(self) -> bool {
        &&& forall|i: int, j: int|
            0 <= i < j < self.links.len() ==> #[trigger] self.links[i].id
                != #[trigger] self.links[j].id
        &&& forall|i: int| 0 <= i < self.links.len() ==> !(#[trigger] self.links[i]).is_closed()
        &&& self.closed ==> self.links.len() == 0
        &&& self.inbound.len() <= INBOUND_CAPACITY
    }

    /// What taking up `link` answers: a closed session takes up nothing, a
    /// closed link is not taken up, nor one whose number is in use.
    pub open spec fn add_result(self, link: Connection) -> Result<(), SessionError> {
        if self.closed {
            Err(SessionError::SessionClosed)
        } else if link.is_closed() {
            Err(SessionError::LinkClosed)
        } else if self.has_link(link.id) {
            Err(SessionError::DuplicateLink)
        } else {
            Ok(())
        }
    }

    /// The session with `link` added at the end of its active set.
    pub open spec fn with_link(self, link: Connection) -> SessionState {
        SessionState { links: self.links.push(link), ..self }
    }

    /// The session once the link at place `k` has become `link`: a link
    /// that has closed leaves the active set, the others keep their order.
    /// With its last link the session dies, and a dead session is closed.
    pub open spec fn with_link_at(self, k: int, link: Connection) -> SessionState {
        if link.is_closed() {
            SessionState {
                links: self.links.remove(k),
                closed: self.closed || self.links.len() == 1,
                ..self
            }
        } else {
            SessionState { links: self.links.update(k, link), ..self }
        }
    }

    /// The session after a write on link `id` went well.
    pub open spec fn after_success(self, id: u32) -> SessionState {
        if self.has_link(id) {
            let k = self.place_of(id);
            self.with_link_at(k, self.links[k].after_success(self.policy))
        } else {
            self
        }
    }

    /// The session after a read or a write on link `id` failed.
    pub open spec fn after_failure(self, id: u32, fatal: bool) -> SessionState {
        if self.has_link(id) {
            let k = self.place_of(id);
            self.with_link_at(k, self.links[k].after_failure(fatal, self.policy))
        } else {
            self
        }
    }

    /// The session after the handshake of link `id` is done.
    pub open spec fn after_mark_ready(self, id: u32) -> SessionState {
        if self.has_link(id) {
            let k = self.place_of(id);
            self.with_link_at(k, self.links[k].after_mark_ready())
        } else {
            self
        }
    }

    /// The session after a tick of the clock has passed over its links.
    pub open spec fn after_tick(self) -> SessionState {
        SessionState {
            links: self.links.map_values(|c: Connection| c.after_tick(self.policy)),
            ..self
        }
    }

    /// The queue has no room for another packet.
    pub open spec fn backlogged(self) -> bool {
        self.inbound.len() >= INBOUND_CAPACITY
    }

    /// What `intake` answers for the bytes received on link `id`.
    pub open spec fn intake_result(self, id: u32, bytes: Seq<u8>, ended: bool) -> Result<
        Intake,
        SessionError,
    > {
        if !self.has_link(id) {
            Err(SessionError::UnknownLink)
        } else {
            match reading(bytes, ended) {
                Ok(Reading::Frame(_, taken)) => if self.backlogged() {
                    Ok(Intake::Backlogged)
                } else {
                    Ok(Intake::Queued(taken as usize))
                },
                Ok(Reading::Incomplete(missing)) => Ok(Intake::Incomplete(missing as usize)),
                Err(crate::codec::CodecError::ProtocolViolation) => Err(
                    SessionError::ProtocolViolation,
                ),
                Err(crate::codec::CodecError::ConnectionClosed) => Err(
                    SessionError::ConnectionClosed,
                ),
            }
        }
    }

    /// The session after `intake` of the bytes received on link `id`: a
    /// whole frame is queued with the link's number and counts as a success
    /// of the link, unless the queue is full; a broken frame and the end of
    /// the stream close the link.
    pub open spec fn after_intake(self, id: u32, bytes: Seq<u8>, ended: bool) -> SessionState {
        if !self.has_link(id) {
            self
        } else {
            let k = self.place_of(id);
            match reading(bytes, ended) {
                Ok(Reading::Frame(p, _)) => if self.backlogged() {
                    self
                } else {
                    SessionState {
                        inbound: self.inbound.push((id, p)),
                        ..self.with_link_at(k, self.links[k].after_success(self.policy))
                    }
                },
                Ok(Reading::Incomplete(_)) => self,
                Err(_) => self.with_link_at(k, self.links[k].after_failure(true, self.policy)),
            }
        }
    }

    /// What `receive` answers: the oldest packet of the queue; nothing
    /// while the queue is empty; and the end once the session is closed and
    /// the queue has been emptied.
    pub open spec fn receive_result(self) -> Result<Option<Tagged>, SessionError> {
        if self.inbound.len() > 0 {
            Ok(Some(self.inbound[0]))
        } else if self.closed {
            Err(SessionError::SessionClosed)
        } else {
            Ok(None)
        }
    }

    /// The session after `receive`.
    pub open spec fn after_receive(self) -> SessionState {
        if self.inbound.len() > 0 {
            SessionState { inbound: self.inbound.drop_first(), ..self }
        } else {
            self
        }
    }

    /// The session after `close`: it has no links, and what is queued stays
    /// for the consumer.
    pub open spec fn after_close(self) -> SessionState {
        SessionState { links: Seq::empty(), closed: true, ..self }
    }

    /// The numbers of the links, in the order of the active set.
    pub open spec fn link_ids(self) -> Seq<u32> {
        self.links.map_values(|c: Connection| c.id)
    }

    /// The place that the policy chooses for the next packet.
    pub open spec fn chosen(self) -> int {
        choose|k: int| is_choice(self.links, self.cursor, self.policy, k)
    }

    /// What `send` answers for a packet: the error where no link may be
    /// chosen or the packet is over the protocol's bound, else the number of
    /// the chosen link with the frame to write on it.
    pub open spec fn send_result(self, p: Packet) -> Result<(u32, Seq<u8>), SessionError> {
        if none_eligible(self.links, self.policy) {
            Err(SessionError::NoAvailableLink)
        } else if p.payload.len() > crate::packet::MAX_PAYLOAD_LEN {
            Err(SessionError::ProtocolViolation)
        } else {
            Ok((self.links[self.chosen()].id, frame(p)))
        }
    }

    /// The session after `send`: where a link was chosen, the next round of
    /// equals starts behind it.
    pub open spec fn after_send(self, p: Packet) -> SessionState {
        if self.send_result(p) is Ok {
            SessionState { cursor: (self.chosen() + 1) as nat, ..self }
        } else {
            self
        }
    }

    /// A session lives while it has a link.
    pub open spec fn alive(self) -> bool {
        self.links.len() > 0
    }
}

/// Finds the first link with number `id`.
pub fn find_link(links: &Vec<Connection>, id: u32) -> (place: Option<usize>)
    ensures
        place matches Some(k) ==> k < links@.len() && links@[k as int].id == id && forall|j: int|
            0 <= j < k ==> (#[trigger] links@[j]).id != id,
        place is None ==> forall|j: int| 0 <= j < links@.len() ==> (#[trigger] links@[j]).id != id,
{
    let mut i: usize = 0;
    while i < links.len()
        invariant
            i <= links@.len(),
            forall|j: int| 0 <= j < i ==> (#[trigger] links@[j]).id != id,
        decreases links@.len() - i,
    {
        if links[i].id == id {
            return Some(i);
        }
        i += 1;
    }
    None
}

/// In a well-formed session the link with a given number stands at one
/// place only.
pub proof fn lemma_place_of(s: SessionState, k: int)
    requires
        s.wf(),
        0 <= k < s.links.len(),
    ensures
        s.has_link(s.links[k].id),
        s.place_of(s.links[k].id) == k,
{
    let id = s.links[k].id;
    assert(s.links[k].id == id);
    let j = s.place_of(id);
    assert(0 <= j < s.links.len() && s.links[j].id == id);
    if j < k {
        assert(s.links[j].id != s.links[k].id);
    } else if k < j {
        assert(s.links[k].id != s.links[j].id);
    }
}

/// Replacing a link by a later state of itself keeps the session well-formed.
pub proof fn lemma_with_link_at(s: SessionState, k: int, link: Connection)
    requires
        s.wf(),
        0 <= k < s.links.len(),
        link.id == s.links[k].id,
    ensures
        s.with_link_at(k, link).wf(),
{
    let t = s.with_link_at(k, link);
    if link.is_closed() {
        assert(t.links.len() == s.links.len() - 1);
        assert forall|i: int| 0 <= i < t.links.len() implies t.links[i] == s.links[if i < k {
            i
        } else {
            i + 1
        }] by {}
        assert forall|i: int, j: int| 0 <= i < j < t.links.len() implies #[trigger] t.links[i].id
            != #[trigger] t.links[j].id by {
            let a = if i < k {
                i
            } else {
                i + 1
            };
            let b = if j < k {
                j
            } else {
                j + 1
            };
            assert(t.links[i] == s.links[a]);
            assert(t.links[j] == s.links[b]);
            assert(s.links[a].id != s.links[b].id);
        }
        assert forall|i: int| 0 <= i < t.links.len() implies !(
        #[trigger] t.links[i]).is_closed() by {
            let a = if i < k {
                i
            } else {
                i + 1
            };
            assert(t.links[i] == s.links[a]);
            assert(!s.links[a].is_closed());
        }
    } else {
        assert forall|i: int, j: int| 0 <= i < j < t.links.len() implies #[trigger] t.links[i].id
            != #[trigger] t.links[j].id by {
            assert(t.links[i].id == s.links[i].id);
            assert(t.links[j].id == s.links[j].id);
            assert(s.links[i].id != s.links[j].id);
        }
        assert forall|i: int| 0 <= i < t.links.len() implies !(
        #[trigger] t.links[i]).is_closed() by {
            if i != k {
                assert(t.links[i] == s.links[i]);
                assert(!s.links[i].is_closed());
            }
        }
    }
}

/// A session: a group of links under one token.
pub struct Session {
    id: u32,
    token: String,
    connections: Vec<Connection>,
    inbound: VecDeque<(u32, ConnectionPacket)>,
    lb_index: usize,
    policy: Policy,
    closed: bool,
}

impl View for Session {
    type V = SessionState;

    closed spec fn view(&self) -> SessionState {
        SessionState {
            id: self.id,
            token: self.token@,
            links: self.connections@,
            inbound: self.inbound@.map_values(|e: (u32, ConnectionPacket)| (e.0, e.1@)),
            cursor: self.lb_index as nat,
            policy: self.policy,
            closed: self.closed,
        }
    }
}

impl Session {
    #[verifier::type_invariant]
    pub open spec fn inv(&self) -> bool {
        self@.wf()
    }

    /// A session without links, under the given number, token and policy.
    pub fn with_token(id: u32, token: String, policy: Policy) -> (session: Session)
        ensures
            session@ == (SessionState {
                id,
                token: token@,
                links: Seq::empty(),
                inbound: Seq::empty(),
                cursor: 0,
                policy,
                closed: false,
            }),
    {
        let session = Session {
            id,
            token,
            connections: Vec::new(),
            inbound: VecDeque::new(),
            lb_index: 0,
            policy,
            closed: false,
        };
        assert(session@.inbound =~= Seq::empty());
        session
    }

    /// A session without links under a token drawn at random: 24 letters
    /// and digits. It has the standard policy.
    pub fn new(id: u32) -> (session: Session)
        ensures
            alphanumeric_text(session@.token, TOKEN_LEN as nat),
            session@ == (SessionState {
                id,
                token: session@.token,
                links: Seq::empty(),
                inbound: Seq::empty(),
                cursor: 0,
                policy: Policy::standard(),
                closed: false,
            }),
    {
        Session::with_token(id, sample_alphanumeric(TOKEN_LEN), Policy::standard())
    }

    /// Takes up a link whose handshake is done or under way. The link may
    /// be chosen for sending once it is marked ready.
    pub fn add_connection(&mut self, connection: Connection) -> (result: Result<(), SessionError>)
        ensures
            result == old(self)@.add_result(connection),
            final(self)@ == if result is Ok {
                old(self)@.with_link(connection)
            } else {
                old(self)@
            },
    {
        proof {
            use_type_invariant(&*self);
        }
        if self.closed {
            return Err(SessionError::SessionClosed);
        }
        if connection.state == LinkState::Closed {
            return Err(SessionError::LinkClosed);
        }
        if find_link(&self.connections, connection.id).is_some() {
            return Err(SessionError::DuplicateLink);
        }
        let mut links: Vec<Connection> = Vec::new();
        std::mem::swap(&mut links, &mut self.connections);
        links.push(connection);
        self.connections = links;
        Ok(())
    }

    /// Puts a later state of the link at place `k` in its place; a link that
    /// has closed leaves the active set.
    fn put_link(&mut self, k: usize, link: Connection)
        requires
            k < old(self)@.links.len(),
            link.id == old(self)@.links[k as int].id,
        ensures
            final(self)@ == old(self)@.with_link_at(k as int, link),
    {
        proof {
            use_type_invariant(&*self);
            lemma_with_link_at(self@, k as int, link);
        }
        let ghost before = self@;
        let mut links: Vec<Connection> = Vec::new();
        std::mem::swap(&mut links, &mut self.connections);
        if link.state == LinkState::Closed {
            links.remove(k);
        } else {
            links.set(k, link);
        }
        assert(links@ == before.with_link_at(k as int, link).links);
        if links.len() == 0 {
            self.closed = true;
        }
        self.connections = links;
    }

    /// Counts a write on link `link_id` that went well.
    pub fn record_success(&mut self, link_id: u32) -> (result: Result<(), SessionError>)
        ensures
            result is Ok <==> old(self)@.has_link(link_id),
            result is Err ==> result == Err::<(), SessionError>(SessionError::UnknownLink),
            final(self)@ == old(self)@.after_success(link_id),
    {
        proof {
            use_type_invariant(&*self);
        }
        match find_link(&self.connections, link_id) {
            Some(k) => {
                proof {
                    lemma_place_of(self@, k as int);
                }
                let mut link = self.connections[k];
                link.record_success(&self.policy);
                self.put_link(k, link);
                Ok(())
            },
            None => Err(SessionError::UnknownLink),
        }
    }

    /// Counts a read or a write on link `link_id` that failed; `fatal`
    /// where trying again is of no use. Says whether the failure closed the
    /// link; a link that has closed is no longer in the active set.
    pub fn record_failure(&mut self, link_id: u32, fatal: bool) -> (result: Result<
        bool,
        SessionError,
    >)
        ensures
            result is Ok <==> old(self)@.has_link(link_id),
            result is Err ==> result == Err::<bool, SessionError>(SessionError::UnknownLink),
            result matches Ok(closed_now) ==> closed_now == old(self)@.links[old(self)@.place_of(
                link_id,
            )].after_failure(fatal, old(self)@.policy).is_closed(),
            final(self)@ == old(self)@.after_failure(link_id, fatal),
    {
        proof {
            use_type_invariant(&*self);
        }
        match find_link(&self.connections, link_id) {
            Some(k) => {
                proof {
                    lemma_place_of(self@, k as int);
                }
                let mut link = self.connections[k];
                let closed_now = link.record_failure(fatal, &self.policy);
                self.put_link(k, link);
                Ok(closed_now)
            },
            None => Err(SessionError::UnknownLink),
        }
    }

    /// Marks the handshake of link `link_id` as done, so that the link may
    /// be chosen for sending. Says whether the link was in its handshake.
    pub fn mark_ready(&mut self, link_id: u32) -> (result: Result<bool, SessionError>)
        ensures
            result is Ok <==> old(self)@.has_link(link_id),
            result is Err ==> result == Err::<bool, SessionError>(SessionError::UnknownLink),
            result matches Ok(done) ==> done == (old(self)@.links[old(self)@.place_of(
                link_id,
            )].state == LinkState::Handshaking),
            final(self)@ == old(self)@.after_mark_ready(link_id),
    {
        proof {
            use_type_invariant(&*self);
        }
        match find_link(&self.connections, link_id) {
            Some(k) => {
                proof {
                    lemma_place_of(self@, k as int);
                }
                let mut link = self.connections[k];
                let done = link.mark_ready();
                self.put_link(k, link);
                Ok(done)
            },
            None => Err(SessionError::UnknownLink),
        }
    }

    /// Lets a tick of the clock pass over every link: where the policy has
    /// a decay, the penalties shrink and degraded links come back.
    pub fn tick(&mut self)
        ensures
            final(self)@ == old(self)@.after_tick(),
    {
        proof {
            use_type_invariant(&*self);
        }
        let ghost before = self@;
        let mut links: Vec<Connection> = Vec::new();
        std::mem::swap(&mut links, &mut self.connections);
        let mut i: usize = 0;
        while i < links.len()
            invariant
                i <= links@.len(),
                links@.len() == before.links.len(),
                forall|j: int| 0 <= j < i ==> links@[j] == before.links[j].after_tick(self.policy),
                forall|j: int| i <= j < links@.len() ==> links@[j] == before.links[j],
            decreases links@.len() - i,
        {
            let mut link = links[i];
            link.tick(&self.policy);
            links.set(i, link);
            i += 1;
        }
        assert(links@ =~= before.after_tick().links);
        self.connections = links;
    }

    /// Chooses the link for a packet and gives the frame to write on it.
    /// The link with the lowest penalty is chosen among those that are
    /// ready and not over the exclusion threshold; links of equal penalty
    /// take turns. The outcome of the write is to be reported with
    /// `record_success` or `record_failure`.
    pub fn send(&mut self, packet: &ConnectionPacket) -> (result: Result<Outbound, SessionError>)
        ensures
            match result {
                Ok(out) => old(self)@.send_result(packet@) == Ok::<(u32, Seq<u8>), SessionError>(
                    (out.link_id, out.frame@),
                ),
                Err(e) => old(self)@.send_result(packet@) == Err::<(u32, Seq<u8>), SessionError>(
                    e,
                ),
            },
            result is Ok ==> is_choice(
                old(self)@.links,
                old(self)@.cursor,
                old(self)@.policy,
                old(self)@.chosen(),
            ),
            final(self)@ == old(self)@.after_send(packet@),
    {
        proof {
            use_type_invariant(&*self);
        }
        let k = match select_link(&self.connections, self.lb_index, &self.policy) {
            Some(k) => k,
            None => {
                return Err(SessionError::NoAvailableLink);
            },
        };
        proof {
            crate::selection::lemma_choice_is_unique(
                self@.links,
                self@.cursor,
                self@.policy,
                k as int,
                self@.chosen(),
            );
            assert(crate::selection::eligible_at(self@.links, self@.policy, k as int));
        }
        let frame = match crate::codec::encode(packet) {
            Ok(frame) => frame,
            Err(_) => {
                return Err(SessionError::ProtocolViolation);
            },
        };
        assert(k < self.connections.len());
        let link_id = self.connections[k].id;
        self.lb_index = k + 1;
        Ok(Outbound { link_id, frame })
    }

    /// Takes one frame from the bytes that link `link_id` has received and
    /// that no earlier call has taken, and queues its packet for the
    /// consumer; `end_of_stream` says that the peer has closed its side.
    pub fn intake(&mut self, link_id: u32, buffer: &[u8], end_of_stream: bool) -> (result: Result<
        Intake,
        SessionError,
    >)
        ensures
            result == old(self)@.intake_result(link_id, buffer@, end_of_stream),
            final(self)@ == old(self)@.after_intake(link_id, buffer@, end_of_stream),
    {
        proof {
            use_type_invariant(&*self);
        }
        let k = match find_link(&self.connections, link_id) {
            Some(k) => k,
            None => {
                return Err(SessionError::UnknownLink);
            },
        };
        proof {
            lemma_place_of(self@, k as int);
        }
        let full = self.inbound.len() >= INBOUND_CAPACITY;
        if full {
            match crate::codec::decode(buffer, end_of_stream) {
                Ok(Decoded::Frame(_, _)) => {
                    return Ok(Intake::Backlogged);
                },
                _ => {},
            }
        }
        let mut link = self.connections[k];
        match link.read(buffer, end_of_stream, &self.policy) {
            Ok(Decoded::Frame(packet, taken)) => {
                let ghost before = self@;
                let mut queue: VecDeque<(u32, ConnectionPacket)> = VecDeque::new();
                std::mem::swap(&mut queue, &mut self.inbound);
                queue.push_back((link_id, packet));
                assert(queue@.map_values(|e: (u32, ConnectionPacket)| (e.0, e.1@))
                    =~= before.inbound.push((link_id, packet@)));
                assert(self@.inbound =~= Seq::<Tagged>::empty());
                self.inbound = queue;
                self.put_link(k, link);
                Ok(Intake::Queued(taken))
            },
            Ok(Decoded::Incomplete(missing)) => Ok(Intake::Incomplete(missing)),
            Err(LinkError::ConnectionClosed) => {
                self.put_link(k, link);
                Err(SessionError::ConnectionClosed)
            },
            Err(_) => {
                self.put_link(k, link);
                Err(SessionError::ProtocolViolation)
            },
        }
    }

    /// Hands the consumer the oldest packet of the queue with the number of
    /// the link it came on. `Ok(None)` says that nothing waits at present;
    /// `SessionClosed` that the session is closed and nothing is left.
    pub fn receive(&mut self) -> (result: Result<Option<(u32, ConnectionPacket)>, SessionError>)
        ensures
            match result {
                Ok(Some(tagged)) => old(self)@.receive_result() == Ok::<
                    Option<Tagged>,
                    SessionError,
                >(Some((tagged.0, tagged.1@))),
                Ok(None) => old(self)@.receive_result() == Ok::<Option<Tagged>, SessionError>(
                    None,
                ),
                Err(e) => old(self)@.receive_result() == Err::<Option<Tagged>, SessionError>(e),
            },
            final(self)@ == old(self)@.after_receive(),
    {
        proof {
            use_type_invariant(&*self);
        }
        let ghost before = self@;
        let mut queue: VecDeque<(u32, ConnectionPacket)> = VecDeque::new();
        std::mem::swap(&mut queue, &mut self.inbound);
        assert(self@.inbound =~= Seq::<Tagged>::empty());
        let front = queue.pop_front();
        assert(queue@.map_values(|e: (u32, ConnectionPacket)| (e.0, e.1@))
            =~= before.after_receive().inbound);
        self.inbound = queue;
        match front {
            Some(tagged) => Ok(Some(tagged)),
            None => if self.closed {
                Err(SessionError::SessionClosed)
            } else {
                Ok(None)
            },
        }
    }

    /// Closes every link and the session itself, and gives the numbers of
    /// the links that were closed, so that their transports can be shut.
    /// From now on no link is taken up and nothing is sent; the consumer
    /// still gets what is queued, and then `SessionClosed`.
    pub fn close(&mut self) -> (closed_links: Vec<u32>)
        ensures
            closed_links@ == old(self)@.link_ids(),
            final(self)@ == old(self)@.after_close(),
    {
        proof {
            use_type_invariant(&*self);
        }
        let mut links: Vec<Connection> = Vec::new();
        std::mem::swap(&mut links, &mut self.connections);
        self.closed = true;
        let mut ids: Vec<u32> = Vec::new();
        let mut i: usize = 0;
        while i < links.len()
            invariant
                i <= links@.len(),
                ids@ == links@.subrange(0, i as int).map_values(|c: Connection| c.id),
            decreases links@.len() - i,
        {
            ids.push(links[i].id);
            assert(links@.subrange(0, i + 1).map_values(|c: Connection| c.id) =~= links@.subrange(
                0,
                i as int,
            ).map_values(|c: Connection| c.id).push(links@[i as int].id));
            i += 1;
        }
        assert(links@.subrange(0, i as int) =~= links@);
        ids
    }

    /// The links of the active set, in the order in which they were taken up.
    pub fn links(&self) -> (links: Vec<Connection>)
        ensures
            links@ == self@.links,
    {
        let mut links: Vec<Connection> = Vec::new();
        let mut i: usize = 0;
        while i < self.connections.len()
            invariant
                i <= self.connections@.len(),
                links@ == self.connections@.subrange(0, i as int),
            decreases self.connections@.len() - i,
        {
            links.push(self.connections[i]);
            assert(self.connections@.subrange(0, i + 1) =~= self.connections@.subrange(
                0,
                i as int,
            ).push(self.connections@[i as int]));
            i += 1;
        }
        assert(self.connections@.subrange(0, i as int) =~= self.connections@);
        links
    }

    /// The number of the session.
    pub fn id(&self) -> (id: u32)
        ensures
            id == self@.id,
    {
        self.id
    }

    /// The token by which a new link joins this session.
    pub fn retreive_token(&self) -> (token: String)
        ensures
            token@ == self@.token,
    {
        self.token.clone()
    }

    /// The number of links in the active set.
    pub fn link_count(&self) -> (n: usize)
        ensures
            n == self@.links.len(),
    {
        self.connections.len()
    }

    /// Whether the session has a link left.
    pub fn is_alive(&self) -> (alive: bool)
        ensures
            alive == self@.alive(),
    {
        self.connections.len() > 0
    }

    /// Whether the session has been closed.
    pub fn is_closed(&self) -> (closed: bool)
        ensures
            closed == self@.closed,
    {
        self.closed
    }
}

/// A link that a failure closes is in the active set no longer; the other
/// links stay, in their order.
pub proof fn lemma_closed_link_leaves(s: SessionState, id: u32, fatal: bool)
    requires
        s.wf(),
        s.has_link(id),
        s.links[s.place_of(id)].after_failure(fatal, s.policy).is_closed(),
    ensures
        !s.after_failure(id, fatal).has_link(id),
        s.after_failure(id, fatal).links == s.links.remove(s.place_of(id)),
        s.after_failure(id, fatal).links.len() == s.links.len() - 1,
        s.after_failure(id, fatal).wf(),
{
    let k = s.place_of(id);
    let t = s.after_failure(id, fatal);
    lemma_with_link_at(s, k, s.links[k].after_failure(fatal, s.policy));
    assert forall|i: int| 0 <= i < t.links.len() implies (#[trigger] t.links[i]).id != id by {
        let a = if i < k {
            i
        } else {
            i + 1
        };
        assert(t.links[i] == s.links[a]);
        if a < k {
            assert(s.links[a].id != s.links[k].id);
        } else {
            assert(s.links[k].id != s.links[a].id);
        }
    }
}

/// Every change that the accounting of a link makes keeps the session
/// well-formed.
pub proof fn lemma_accounting_keeps_wf(s: SessionState, id: u32, fatal: bool)
    requires
        s.wf(),
    ensures
        s.after_success(id).wf(),
        s.after_failure(id, fatal).wf(),
        s.after_mark_ready(id).wf(),
{
    if s.has_link(id) {
        let k = s.place_of(id);
        lemma_with_link_at(s, k, s.links[k].after_success(s.policy));
        lemma_with_link_at(s, k, s.links[k].after_failure(fatal, s.policy));
        lemma_with_link_at(s, k, s.links[k].after_mark_ready());
    }
}

/// A session in which no link is ready sends nothing: a session without
/// links, and so a closed one, answers every packet with `NoAvailableLink`.
pub proof fn lemma_no_ready_link_no_send(s: SessionState, p: Packet)
    requires
        forall|i: int| 0 <= i < s.links.len() ==> (#[trigger] s.links[i]).state != LinkState::Ready,
    ensures
        s.send_result(p) == Err::<(u32, Seq<u8>), SessionError>(SessionError::NoAvailableLink),
        s.after_send(p) == s,
{
    assert forall|j: int| !#[trigger] crate::selection::eligible_at(s.links, s.policy, j) by {
        if 0 <= j < s.links.len() {
            assert(s.links[j].state != LinkState::Ready);
        }
    }
}

/// Where a packet is sent, the chosen link is ready and its penalty is not
/// over the exclusion threshold, no link that may be chosen has a lower
/// penalty, and the next round starts behind the chosen link.
pub proof fn lemma_send_takes_lowest_penalty(s: SessionState, p: Packet, j: int)
    requires
        s.send_result(p) is Ok,
        crate::selection::eligible_at(s.links, s.policy, j),
    ensures
        is_choice(s.links, s.cursor, s.policy, s.chosen()),
        s.links[s.chosen()].state == LinkState::Ready,
        s.links[s.chosen()].penalty <= s.policy.exclusion_threshold,
        s.links[s.chosen()].penalty <= s.links[j].penalty,
        s.send_result(p)->Ok_0.0 == s.links[s.chosen()].id,
        s.after_send(p).cursor == s.chosen() + 1,
{
    crate::selection::lemma_choice_exists(s.links, s.cursor, s.policy);
}

/// What one session sends, another receives: the frame that `send` gives
/// for a packet, taken in by a session on one of its links while its queue
/// has room, is taken whole, and puts that packet at the end of the queue
/// under the number of the link.
pub proof fn lemma_sent_packet_arrives(
    sender: SessionState,
    receiver: SessionState,
    p: Packet,
    on: u32,
    ended: bool,
)
    requires
        sender.send_result(p) is Ok,
        receiver.has_link(on),
        !receiver.backlogged(),
    ensures
        receiver.intake_result(on, sender.send_result(p)->Ok_0.1, ended) == Ok::<
            Intake,
            SessionError,
        >(Intake::Queued(frame(p).len() as usize)),
        receiver.after_intake(on, sender.send_result(p)->Ok_0.1, ended).inbound
            == receiver.inbound.push((on, p)),
{
    crate::codec::lemma_round_trip(p, Seq::empty(), ended);
    assert(frame(p) + Seq::<u8>::empty() =~= frame(p));
}

/// One step in the life of the queue.
pub enum QueueStep {
    /// Link `id` has received `bytes`.
    Intake { id: u32, bytes: Seq<u8>, ended: bool },
    /// The consumer asks for a packet.
    Receive,
}

impl SessionState {
    /// The session after one step.
    pub open spec fn after_step(self, step: QueueStep) -> SessionState {
        match step {
            QueueStep::Intake { id, bytes, ended } => self.after_intake(id, bytes, ended),
            QueueStep::Receive => self.after_receive(),
        }
    }

    /// The session after a run of steps, the first of them first.
    pub open spec fn after_steps(self, steps: Seq<QueueStep>) -> SessionState
        decreases steps.len(),
    {
        if steps.len() == 0 {
            self
        } else {
            self.after_step(steps[0]).after_steps(steps.drop_first())
        }
    }

    /// The packets that one step queues.
    pub open spec fn queued_by(self, step: QueueStep) -> Seq<Tagged> {
        match step {
            QueueStep::Intake { id, bytes, ended } => match self.intake_result(id, bytes, ended) {
                Ok(Intake::Queued(_)) => seq![(id, reading(bytes, ended)->Ok_0->Frame_0)],
                _ => Seq::empty(),
            },
            QueueStep::Receive => Seq::empty(),
        }
    }

    /// The packets that one step hands to the consumer.
    pub open spec fn consumed_by(self, step: QueueStep) -> Seq<Tagged> {
        match step {
            QueueStep::Intake { .. } => Seq::empty(),
            QueueStep::Receive => match self.receive_result() {
                Ok(Some(tagged)) => seq![tagged],
                _ => Seq::empty(),
            },
        }
    }

    /// The packets that a run of steps queues, in the order of their arrival.
    pub open spec fn queued(self, steps: Seq<QueueStep>) -> Seq<Tagged>
        decreases steps.len(),
    {
        if steps.len() == 0 {
            Seq::empty()
        } else {
            self.queued_by(steps[0]) + self.after_step(steps[0]).queued(steps.drop_first())
        }
    }

    /// The packets that a run of steps hands to the consumer, in the order
    /// in which it gets them.
    pub open spec fn consumed(self, steps: Seq<QueueStep>) -> Seq<Tagged>
        decreases steps.len(),
    {
        if steps.len() == 0 {
            Seq::empty()
        } else {
            self.consumed_by(steps[0]) + self.after_step(steps[0]).consumed(steps.drop_first())
        }
    }
}

/// Says of a packet whether it came on link `id`.
pub open spec fn came_on(id: u32) -> spec_fn(Tagged) -> bool {
    |t: Tagged| t.0 == id
}

/// The packets among `packets` that came on link `id`, in their order.
pub open spec fn from_link(packets: Seq<Tagged>, id: u32) -> Seq<Tagged> {
    packets.filter(came_on(id))
}

/// The queue loses nothing, doubles nothing and keeps the order of
/// arrival: over any run of intakes and receives, what the consumer has got
/// followed by what still waits is what waited at the start followed by
/// what was queued since.
pub proof fn lemma_queue_is_fifo(s: SessionState, steps: Seq<QueueStep>)
    requires
        s.wf(),
    ensures
        s.consumed(steps) + s.after_steps(steps).inbound == s.inbound + s.queued(steps),
        s.after_steps(steps).wf(),
    decreases steps.len(),
{
    if steps.len() == 0 {
        assert(s.consumed(steps) + s.inbound =~= s.inbound + s.queued(steps));
    } else {
        let t = s.after_step(steps[0]);
        lemma_step_keeps_wf(s, steps[0]);
        lemma_queue_is_fifo(t, steps.drop_first());
        let rest = steps.drop_first();
        assert(s.consumed_by(steps[0]) + t.inbound =~= s.inbound + s.queued_by(steps[0]));
        assert(s.consumed(steps) + s.after_steps(steps).inbound =~= s.consumed_by(steps[0]) + (
        t.consumed(rest) + t.after_steps(rest).inbound));
        assert(s.inbound + s.queued(steps) =~= (s.inbound + s.queued_by(steps[0])) + t.queued(
            rest,
        ));
        assert(s.consumed_by(steps[0]) + (t.inbound + t.queued(rest)) =~= (s.consumed_by(steps[0])
            + t.inbound) + t.queued(rest));
    }
}

/// The packets of each link reach the consumer in the order in which the
/// link received them: what the consumer has got from a link followed by
/// what still waits from it is what waited from it at the start followed by
/// what was queued from it since.
pub proof fn lemma_link_order_is_kept(s: SessionState, steps: Seq<QueueStep>, id: u32)
    requires
        s.wf(),
    ensures
        from_link(s.consumed(steps), id) + from_link(s.after_steps(steps).inbound, id)
            == from_link(s.inbound, id) + from_link(s.queued(steps), id),
{
    lemma_queue_is_fifo(s, steps);
    let pred = came_on(id);
    Seq::filter_distributes_over_add(s.consumed(steps), s.after_steps(steps).inbound, pred);
    Seq::filter_distributes_over_add(s.inbound, s.queued(steps), pred);
}

/// A step of the queue keeps the session well-formed.
pub proof fn lemma_step_keeps_wf(s: SessionState, step: QueueStep)
    requires
        s.wf(),
    ensures
        s.after_step(step).wf(),
{
    match step {
        QueueStep::Intake { id, bytes, ended } => {
            if s.has_link(id) {
                let k = s.place_of(id);
                lemma_with_link_at(s, k, s.links[k].after_success(s.policy));
                lemma_with_link_at(s, k, s.links[k].after_failure(true, s.policy));
            }
        },
        QueueStep::Receive => {},
    }
}

} // verus!
