//! The server's side of the handshake.

use crate::handshake::{
    check_greeting, greeting, greeting_payload, greeting_verdict, HandshakeError, HandshakeEvent,
    HandshakeState, Happening, Introduction, IntroductionResult, Role,
};
use crate::packet::{ConnectionPacket, Packet, PacketType, MAX_PAYLOAD_LEN};
use crate::registry::{RegistryState, SessionRegistry};
use crate::session::SessionState;
use crate::token::{alphanumeric_text, sample_alphanumeric, TOKEN_LEN};
use vstd::prelude::*;
use vstd::slice::slice_to_vec;
use vstd::utf8::{decode_utf8, encode_utf8, valid_utf8};

verus! {

/// What the server is to do after a step of its handshake.
#[derive(Debug, PartialEq, Eq)]
pub enum ServerStep {
    /// Send these packets in their order, then await the next packet or,
    /// where the link has its session, report that they are sent.
    Send(Vec<ConnectionPacket>),
    /// Await the next packet.
    Wait,
    /// The handshake is done: the link may carry packets.
    Done,
    /// The handshake has failed: close the link.
    Failed(HandshakeError),
}

/// A step as the contracts see it.
pub enum ServerAction {
    Send(Seq<Packet>),
    Wait,
    Done,
    Failed(HandshakeError),
}

impl View for ServerStep {
    type V = ServerAction;

    open spec fn view(&self) -> ServerAction {
        match self {
            ServerStep::Send(packets) => ServerAction::Send(
                packets@.map_values(|p: ConnectionPacket| p@),
            ),
            ServerStep::Wait => ServerAction::Wait,
            ServerStep::Done => ServerAction::Done,
            ServerStep::Failed(e) => ServerAction::Failed(*e),
        }
    }
}

/// The word that transmission may begin.
pub open spec fn ready_packet() -> Packet {
    Packet { kind: PacketType::ReadyForTransmission, payload: encode_utf8("AllVu Ready"@) }
}

/// The packet that tells the client the token of its fresh session.
pub open spec fn token_packet(token: Seq<char>) -> Packet {
    Packet { kind: PacketType::NewSession, payload: encode_utf8(token) }
}

/// The request that a packet carries, or why it carries none: the packet
/// is of another kind than the two requests, or its payload is no text.
pub open spec fn request_of(p: Packet) -> Result<Introduction, HandshakeError> {
    if !valid_utf8(p.payload) {
        Err(HandshakeError::ProtocolViolation)
    } else if p.kind == PacketType::NewSession {
        Ok(Introduction::NewSession(decode_utf8(p.payload)))
    } else if p.kind == PacketType::ExistingSession {
        Ok(Introduction::ExistingSession(decode_utf8(p.payload)))
    } else {
        Err(HandshakeError::ProtocolViolation)
    }
}

/// Reads the request for a session that a packet carries.
pub fn read_request(packet: &ConnectionPacket) -> (request: Result<
    IntroductionResult,
    HandshakeError,
>)
    ensures
        match request {
            Ok(r) => request_of(packet@) == Ok::<Introduction, HandshakeError>(r@),
            Err(e) => request_of(packet@) == Err::<Introduction, HandshakeError>(e),
        },
{
    let text = match packet.to_string() {
        Ok(text) => text,
        Err(_) => {
            return Err(HandshakeError::ProtocolViolation);
        },
    };
    match packet.packet_type {
        PacketType::NewSession => Ok(IntroductionResult::NewSession(String::from_str(text))),
        PacketType::ExistingSession => Ok(
            IntroductionResult::ExistingSession(String::from_str(text)),
        ),
        _ => Err(HandshakeError::ProtocolViolation),
    }
}

/// The server's handshake as the contracts see it.
pub struct ServerProgress {
    pub state: HandshakeState,
    /// The version of this side.
    pub version: Seq<char>,
    /// The number of the link that the handshake is for.
    pub link_id: u32,
    /// The token of the session that the link belongs to, once it has one.
    pub token: Option<Seq<char>>,
    /// The session of the link was made for this link.
    pub made_session: bool,
}

impl ServerProgress {
    /// The handshake after it has failed for `reason`.
    pub open spec fn failed(self, reason: HandshakeError) -> ServerProgress {
        ServerProgress { state: HandshakeState::Failed(reason), ..self }
    }

    /// What a state that no packet can change tells the server to do.
    pub open spec fn standing(self) -> ServerAction {
        match self.state {
            HandshakeState::Ready => ServerAction::Done,
            HandshakeState::Failed(e) => ServerAction::Failed(e),
            _ => ServerAction::Wait,
        }
    }

    /// The reason for which a request ends the handshake, if it does. A
    /// fresh session is refused where the registry cannot make it under
    /// the token `fresh`; an existing one where the registry does not let
    /// the link join.
    pub open spec fn refusal(
        self,
        request: Introduction,
        r: RegistryState,
        fresh: Seq<char>,
    ) -> Option<HandshakeError> {
        match request {
            Introduction::NewSession(_) => if encode_utf8(fresh).len() > MAX_PAYLOAD_LEN
                || r.create_result(fresh) is Err {
                Some(HandshakeError::SessionUnavailable)
            } else {
                None
            },
            Introduction::ExistingSession(token) => match r.join_result(token, self.link_id) {
                Err(e) => Some(e),
                Ok(_) => None,
            },
        }
    }

    /// The reason for which packet `p` ends the handshake, if it does.
    pub open spec fn objection(
        self,
        p: Packet,
        r: RegistryState,
        fresh: Seq<char>,
    ) -> Option<HandshakeError> {
        match self.state {
            HandshakeState::Start => if p.kind != PacketType::InitialGreet {
                Some(HandshakeError::ProtocolViolation)
            } else {
                match greeting_verdict(p.payload, Role::Client, self.version) {
                    Err(e) => Some(e),
                    Ok(_) => if greeting(Role::Server, self.version).len() > MAX_PAYLOAD_LEN {
                        Some(HandshakeError::ProtocolViolation)
                    } else {
                        None
                    },
                }
            },
            HandshakeState::VersionChecked => match request_of(p) {
                Err(e) => Some(e),
                Ok(request) => self.refusal(request, r, fresh),
            },
            HandshakeState::Ready => None,
            HandshakeState::Failed(_) => None,
            _ => Some(HandshakeError::ProtocolViolation),
        }
    }

    /// The handshake after packet `p` has come from the client.
    pub open spec fn after_packet(
        self,
        p: Packet,
        r: RegistryState,
        fresh: Seq<char>,
    ) -> ServerProgress {
        match self.objection(p, r, fresh) {
            Some(e) => self.failed(e),
            None => match self.state {
                HandshakeState::Start => ServerProgress {
                    state: HandshakeState::VersionChecked,
                    ..self
                },
                HandshakeState::VersionChecked => ServerProgress {
                    state: HandshakeState::SessionResolved,
                    token: Some(
                        match request_of(p)->Ok_0 {
                            Introduction::NewSession(_) => fresh,
                            Introduction::ExistingSession(token) => token,
                        },
                    ),
                    made_session: request_of(p)->Ok_0 is NewSession,
                    ..self
                },
                _ => self,
            },
        }
    }

    /// The registry after packet `p` has come from the client: a request
    /// that is granted makes a session for the link or binds the link to
    /// the session it asked for; nothing else changes the registry.
    pub open spec fn registry_after_packet(
        self,
        p: Packet,
        r: RegistryState,
        fresh: Seq<char>,
    ) -> RegistryState {
        if self.state == HandshakeState::VersionChecked && self.objection(p, r, fresh) is None {
            match request_of(p)->Ok_0 {
                Introduction::NewSession(_) => r.after_create(fresh, self.link_id),
                Introduction::ExistingSession(token) => r.after_join(token, self.link_id),
            }
        } else {
            r
        }
    }

    /// What the server is to do after packet `p` has come from the client:
    /// to answer a greeting with its own; to answer a request that is
    /// granted with the token, where the session is fresh, and with the
    /// word that transmission may begin.
    pub open spec fn packet_action(
        self,
        p: Packet,
        r: RegistryState,
        fresh: Seq<char>,
    ) -> ServerAction {
        match self.objection(p, r, fresh) {
            Some(e) => ServerAction::Failed(e),
            None => match self.state {
                HandshakeState::Start => ServerAction::Send(
                    seq![
                        Packet {
                            kind: PacketType::InitialGreet,
                            payload: greeting(Role::Server, self.version),
                        },
                    ],
                ),
                HandshakeState::VersionChecked => match request_of(p)->Ok_0 {
                    Introduction::NewSession(_) => ServerAction::Send(
                        seq![token_packet(fresh), ready_packet()],
                    ),
                    Introduction::ExistingSession(_) => ServerAction::Send(seq![ready_packet()]),
                },
                _ => self.standing(),
            },
        }
    }

    /// The handshake after the server has given it up for `reason`: a
    /// handshake that has come to its end stays as it is.
    pub open spec fn after_abort(self, reason: HandshakeError) -> ServerProgress {
        if self.state.is_terminal() {
            self
        } else {
            self.failed(reason)
        }
    }

    /// The link has its session, and the session still has the link.
    pub open spec fn bound(self, r: RegistryState) -> bool {
        &&& self.state == HandshakeState::SessionResolved
        &&& self.token matches Some(token)
        &&& r.has(token)
        &&& r.sessions[r.place_of(token)].has_link(self.link_id)
    }

    /// The registry once the session of the link has become `session`.
    pub open spec fn registry_with(self, r: RegistryState, session: SessionState) -> RegistryState {
        RegistryState { sessions: r.sessions.update(r.place_of(self.token->0), session), ..r }
    }

    /// The handshake after the word that transmission may begin has been
    /// written: it is done, unless the session has lost the link meanwhile.
    pub open spec fn after_sent(self, r: RegistryState) -> ServerProgress {
        if self.state != HandshakeState::SessionResolved {
            self
        } else if self.bound(r) {
            ServerProgress { state: HandshakeState::Ready, ..self }
        } else {
            self.failed(HandshakeError::ConnectionClosed)
        }
    }

    /// The registry after the word that transmission may begin has been
    /// written: the link is marked ready in its session.
    pub open spec fn registry_after_sent(self, r: RegistryState) -> RegistryState {
        if self.bound(r) {
            self.registry_with(
                r,
                r.sessions[r.place_of(self.token->0)].after_mark_ready(self.link_id),
            )
        } else {
            r
        }
    }

    /// The registry after the server has given the handshake up: a link
    /// that had its session already is closed and leaves it.
    pub open spec fn registry_after_abort(self, r: RegistryState) -> RegistryState {
        if self.bound(r) {
            self.registry_with(
                r,
                r.sessions[r.place_of(self.token->0)].after_failure(self.link_id, true),
            )
        } else {
            r
        }
    }

    /// The handshake after an event.
    pub open spec fn after_event(
        self,
        event: Happening,
        r: RegistryState,
        fresh: Seq<char>,
    ) -> ServerProgress {
        match event {
            Happening::Begin => self,
            Happening::Received(p) => self.after_packet(p, r, fresh),
            Happening::Sent => self.after_sent(r),
            Happening::TimedOut => self.after_abort(HandshakeError::Timeout),
            Happening::Closed => self.after_abort(HandshakeError::ConnectionClosed),
        }
    }

    /// The registry after an event.
    pub open spec fn registry_after_event(
        self,
        event: Happening,
        r: RegistryState,
        fresh: Seq<char>,
    ) -> RegistryState {
        match event {
            Happening::Begin => r,
            Happening::Received(p) => self.registry_after_packet(p, r, fresh),
            Happening::Sent => self.registry_after_sent(r),
            Happening::TimedOut => self.registry_after_abort(r),
            Happening::Closed => self.registry_after_abort(r),
        }
    }

    /// What the server is to do after an event.
    pub open spec fn event_action(
        self,
        event: Happening,
        r: RegistryState,
        fresh: Seq<char>,
    ) -> ServerAction {
        match event {
            Happening::Received(p) => self.packet_action(p, r, fresh),
            _ => self.after_event(event, r, fresh).standing(),
        }
    }
}

/// A handshake that has come to its end stays there: no event changes it
/// or the registry, and each step says again how it ended.
pub proof fn lemma_server_end_is_final(
    progress: ServerProgress,
    event: Happening,
    r: RegistryState,
    fresh: Seq<char>,
)
    requires
        progress.state.is_terminal(),
    ensures
        progress.after_event(event, r, fresh) == progress,
        progress.registry_after_event(event, r, fresh) == r,
        progress.event_action(event, r, fresh) == progress.standing(),
{
}

/// A handshake that fails on a packet leaves the registry as it was: a
/// link that is refused joins no session and makes none.
pub proof fn lemma_refused_link_changes_nothing(
    progress: ServerProgress,
    p: Packet,
    r: RegistryState,
    fresh: Seq<char>,
)
    requires
        progress.after_packet(p, r, fresh).state is Failed,
    ensures
        progress.registry_after_packet(p, r, fresh) == r,
{
}

/// The handshake of one link, as the server runs it.
pub struct ServerHandshake {
    state: HandshakeState,
    version: String,
    link_id: u32,
    token: Option<String>,
    made_session: bool,
}

impl View for ServerHandshake {
    type V = ServerProgress;

    closed spec fn view(&self) -> ServerProgress {
        ServerProgress {
            state: self.state,
            version: self.version@,
            link_id: self.link_id,
            token: match self.token {
                Some(t) => Some(t@),
                None => None,
            },
            made_session: self.made_session,
        }
    }
}

/// Makes the word that transmission may begin.
fn make_ready_packet() -> (packet: ConnectionPacket)
    ensures
        packet@ == ready_packet(),
{
    ConnectionPacket {
        packet_type: PacketType::ReadyForTransmission,
        packet_data: slice_to_vec("AllVu Ready".as_bytes()),
    }
}

impl ServerHandshake {
    /// A handshake that has not begun, for the link `link_id` of a server
    /// of the given version.
    pub fn new(version: String, link_id: u32) -> (handshake: ServerHandshake)
        ensures
            handshake@ == (ServerProgress {
                state: HandshakeState::Start,
                version: version@,
                link_id,
                token: None,
                made_session: false,
            }),
    {
        ServerHandshake {
            state: HandshakeState::Start,
            version,
            link_id,
            token: None,
            made_session: false,
        }
    }

    /// Where the handshake stands.
    pub fn state(&self) -> (state: HandshakeState)
        ensures
            state == self@.state,
    {
        self.state
    }

    /// The token of the session that the link belongs to, once it has one.
    pub fn token(&self) -> (token: Option<String>)
        ensures
            token is Some <==> self@.token is Some,
            token matches Some(t) ==> t@ == self@.token->0,
    {
        match &self.token {
            Some(t) => Some(t.clone()),
            None => None,
        }
    }

    /// Whether the session of the link was made for this link, and not
    /// joined by it.
    pub fn made_session(&self) -> (made: bool)
        ensures
            made == self@.made_session,
    {
        self.made_session
    }

    /// Ends the handshake with `reason`.
    fn fail(&mut self, reason: HandshakeError) -> (step: ServerStep)
        ensures
            final(self)@ == old(self)@.failed(reason),
            step@ == ServerAction::Failed(reason),
    {
        self.state = HandshakeState::Failed(reason);
        ServerStep::Failed(reason)
    }

    /// Takes a packet that has come from the client; `fresh_token` is the
    /// token that a fresh session gets, should the packet ask for one. The
    /// client's greeting is answered with the server's. A request for a
    /// fresh session makes one in the registry, with this link as its
    /// first; a request for an existing session binds this link to it, or
    /// fails where no live session goes by the token. A packet that has no
    /// place at its point of the exchange ends the handshake badly.
    pub fn on_packet(
        &mut self,
        packet: &ConnectionPacket,
        registry: &mut SessionRegistry,
        fresh_token: String,
    ) -> (step: ServerStep)
        ensures
            final(self)@ == old(self)@.after_packet(packet@, old(registry)@, fresh_token@),
            final(registry)@ == old(self)@.registry_after_packet(
                packet@,
                old(registry)@,
                fresh_token@,
            ),
            step@ == old(self)@.packet_action(packet@, old(registry)@, fresh_token@),
            final(registry)@.wf(),
    {
        registry.well_formed();
        match self.state {
            HandshakeState::Start => {
                if packet.packet_type != PacketType::InitialGreet {
                    return self.fail(HandshakeError::ProtocolViolation);
                }
                match check_greeting(
                    packet.packet_data.as_slice(),
                    Role::Client,
                    self.version.as_str(),
                ) {
                    Err(e) => self.fail(e),
                    Ok(_) => match ConnectionPacket::new(
                        PacketType::InitialGreet,
                        greeting_payload(Role::Server, self.version.as_str()),
                    ) {
                        None => self.fail(HandshakeError::ProtocolViolation),
                        Some(reply) => {
                            self.state = HandshakeState::VersionChecked;
                            let mut replies: Vec<ConnectionPacket> = Vec::new();
                            replies.push(reply);
                            assert(replies@.map_values(|p: ConnectionPacket| p@) =~= seq![reply@]);
                            ServerStep::Send(replies)
                        },
                    },
                }
            },
            HandshakeState::VersionChecked => {
                match read_request(packet) {
                    Err(e) => self.fail(e),
                    Ok(IntroductionResult::NewSession(_)) => {
                        let announce = match ConnectionPacket::new(
                            PacketType::NewSession,
                            slice_to_vec(fresh_token.as_str().as_bytes()),
                        ) {
                            Some(announce) => announce,
                            None => {
                                return self.fail(HandshakeError::SessionUnavailable);
                            },
                        };
                        match registry.create_with_token(fresh_token.clone(), self.link_id) {
                            Err(_) => self.fail(HandshakeError::SessionUnavailable),
                            Ok(_) => {
                                self.token = Some(fresh_token);
                                self.made_session = true;
                                self.state = HandshakeState::SessionResolved;
                                let ready = make_ready_packet();
                                let mut replies: Vec<ConnectionPacket> = Vec::new();
                                replies.push(announce);
                                replies.push(ready);
                                assert(replies@.map_values(|p: ConnectionPacket| p@)
                                    =~= seq![announce@, ready@]);
                                ServerStep::Send(replies)
                            },
                        }
                    },
                    Ok(IntroductionResult::ExistingSession(token)) => {
                        match registry.join(token.as_str(), self.link_id) {
                            Err(e) => self.fail(e),
                            Ok(_) => {
                                self.token = Some(token);
                                self.made_session = false;
                                self.state = HandshakeState::SessionResolved;
                                let ready = make_ready_packet();
                                let mut replies: Vec<ConnectionPacket> = Vec::new();
                                replies.push(ready);
                                assert(replies@.map_values(|p: ConnectionPacket| p@)
                                    =~= seq![ready@]);
                                ServerStep::Send(replies)
                            },
                        }
                    },
                }
            },
            HandshakeState::Ready => ServerStep::Done,
            HandshakeState::Failed(e) => ServerStep::Failed(e),
            _ => self.fail(HandshakeError::ProtocolViolation),
        }
    }

    /// What a state that no packet can change tells the server to do.
    fn standing_step(&self) -> (step: ServerStep)
        ensures
            step@ == self@.standing(),
    {
        match self.state {
            HandshakeState::Ready => ServerStep::Done,
            HandshakeState::Failed(e) => ServerStep::Failed(e),
            _ => ServerStep::Wait,
        }
    }

    /// Takes note that the word that transmission may begin has been
    /// written: the link is marked ready in its session and the handshake
    /// is done. Where the session has lost the link meanwhile, the
    /// handshake has failed.
    pub fn ready_sent(&mut self, registry: &mut SessionRegistry)
        ensures
            final(self)@ == old(self)@.after_sent(old(registry)@),
            final(registry)@ == old(self)@.registry_after_sent(old(registry)@),
            final(registry)@.wf(),
    {
        registry.well_formed();
        if self.state != HandshakeState::SessionResolved {
            return ;
        }
        let ghost r = registry@;
        let marked = match &self.token {
            None => false,
            Some(token) => {
                proof {
                    let k = r.place_of(token@);
                    if r.has(token@) {
                        assert(r.sessions.update(k, r.sessions[k]) =~= r.sessions);
                    }
                }
                match registry.get_mut(token.as_str()) {
                    None => false,
                    Some(session) => session.mark_ready(self.link_id).is_ok(),
                }
            },
        };
        if marked {
            self.state = HandshakeState::Ready;
        } else {
            self.state = HandshakeState::Failed(HandshakeError::ConnectionClosed);
        }
    }

    /// Gives the handshake up: the peer took too long, or the connection
    /// ended. A link that had its session already is closed and leaves it.
    /// A handshake that has come to its end stays as it is.
    pub fn abort(&mut self, reason: HandshakeError, registry: &mut SessionRegistry)
        ensures
            final(self)@ == old(self)@.after_abort(reason),
            final(registry)@ == old(self)@.registry_after_abort(old(registry)@),
            final(registry)@.wf(),
    {
        registry.well_formed();
        let ghost r = registry@;
        match self.state {
            HandshakeState::Ready => {},
            HandshakeState::Failed(_) => {},
            HandshakeState::SessionResolved => {
                match &self.token {
                    None => {},
                    Some(token) => {
                        proof {
                            let k = r.place_of(token@);
                            if r.has(token@) {
                                assert(r.sessions.update(k, r.sessions[k]) =~= r.sessions);
                            }
                        }
                        match registry.get_mut(token.as_str()) {
                            None => {},
                            Some(session) => {
                                let _ = session.record_failure(self.link_id, true);
                            },
                        }
                    },
                }
                self.state = HandshakeState::Failed(reason);
            },
            _ => {
                self.state = HandshakeState::Failed(reason);
            },
        }
    }
}

/// Takes the handshake of a server's link one step further: from where the
/// handshake stands and what has happened to what the server is to do
/// next. A request for a fresh session is given a token drawn at random:
/// which token is drawn is not known beforehand, and whatever it is, the
/// step is the one that `on_packet` takes with it. No other step depends
/// on a token, and none is drawn for it.
pub fn introduce_connection(
    handshake: &mut ServerHandshake,
    registry: &mut SessionRegistry,
    event: &HandshakeEvent,
) -> (step: ServerStep)
    ensures
        exists|fresh: Seq<char>|
            alphanumeric_text(fresh, TOKEN_LEN as nat) && final(handshake)@ == old(
                handshake,
            )@.after_event(event@, old(registry)@, fresh) && final(registry)@ == old(
                handshake,
            )@.registry_after_event(event@, old(registry)@, fresh) && step@ == old(
                handshake,
            )@.event_action(event@, old(registry)@, fresh),
        final(registry)@.wf(),
{
    let ghost before = handshake@;
    let ghost r = registry@;
    let ghost spare = Seq::new(TOKEN_LEN as nat, |i: int| 'a');
    assert(alphanumeric_text(spare, TOKEN_LEN as nat));
    match event {
        HandshakeEvent::Begin => {
            registry.well_formed();
            handshake.standing_step()
        },
        HandshakeEvent::Received(packet) => {
            if handshake.state == HandshakeState::VersionChecked && packet.packet_type
                == PacketType::NewSession {
                let fresh = sample_alphanumeric(TOKEN_LEN);
                let ghost drawn = fresh@;
                let step = handshake.on_packet(packet, registry, fresh);
                assert(alphanumeric_text(drawn, TOKEN_LEN as nat) && handshake@
                    == before.after_event(event@, r, drawn) && registry@
                    == before.registry_after_event(event@, r, drawn) && step@
                    == before.event_action(event@, r, drawn));
                step
            } else {
                let unused = String::new();
                assert(before.after_event(event@, r, unused@) == before.after_event(
                    event@,
                    r,
                    spare,
                ));
                assert(before.registry_after_event(event@, r, unused@)
                    == before.registry_after_event(event@, r, spare));
                assert(before.event_action(event@, r, unused@) == before.event_action(
                    event@,
                    r,
                    spare,
                ));
                handshake.on_packet(packet, registry, unused)
            }
        },
        HandshakeEvent::Sent => {
            handshake.ready_sent(registry);
            handshake.standing_step()
        },
        HandshakeEvent::TimedOut => {
            handshake.abort(HandshakeError::Timeout, registry);
            handshake.standing_step()
        },
        HandshakeEvent::Closed => {
            handshake.abort(HandshakeError::ConnectionClosed, registry);
            handshake.standing_step()
        },
    }
}

} // verus!
