//! The client's side of the handshake, and the client's session.

use crate::handshake::{
    check_greeting, greeting, greeting_payload, greeting_verdict, HandshakeError, HandshakeEvent,
    HandshakeState, Happening, Introduction, IntroductionResult, Role,
};
use crate::connection::Connection;
use crate::packet::{ConnectionPacket, Packet, PacketType, MAX_PAYLOAD_LEN};
use crate::session::{Outbound, Session, SessionError, SessionState};
use vstd::prelude::*;
use vstd::utf8::{decode_utf8, valid_utf8};

verus! {

/// What the client is to do after a step of its handshake.
#[derive(Debug, PartialEq, Eq)]
pub enum ClientStep {
    /// Send this packet, then await the next one.
    Send(ConnectionPacket),
    /// Await the next packet.
    Wait,
    /// The handshake is done: the link may carry packets.
    Done,
    /// The handshake has failed: close the link.
    Failed(HandshakeError),
}

/// A step as the contracts see it.
pub enum ClientAction {
    Send(Packet),
    Wait,
    Done,
    Failed(HandshakeError),
}

impl View for ClientStep {
    type V = ClientAction;

    open spec fn view(&self) -> ClientAction {
        match self {
            ClientStep::Send(packet) => ClientAction::Send(packet@),
            ClientStep::Wait => ClientAction::Wait,
            ClientStep::Done => ClientAction::Done,
            ClientStep::Failed(e) => ClientAction::Failed(*e),
        }
    }
}

/// The client's handshake as the contracts see it.
pub struct ClientProgress {
    pub state: HandshakeState,
    /// The version of this side.
    pub version: Seq<char>,
    /// What the client asks of the server.
    pub request: Introduction,
    /// The token of the session, once the client knows it.
    pub token: Option<Seq<char>>,
}

impl ClientProgress {
    /// The handshake after it has failed for `reason`.
    pub open spec fn failed(self, reason: HandshakeError) -> ClientProgress {
        ClientProgress { state: HandshakeState::Failed(reason), ..self }
    }

    /// What the step that follows a state which nothing can change says.
    pub open spec fn standing(self) -> ClientAction {
        match self.state {
            HandshakeState::Ready => ClientAction::Done,
            HandshakeState::Failed(e) => ClientAction::Failed(e),
            _ => ClientAction::Wait,
        }
    }

    /// The handshake after `start`.
    pub open spec fn after_start(self) -> ClientProgress {
        if self.state != HandshakeState::Start {
            self
        } else if greeting(Role::Client, self.version).len() > MAX_PAYLOAD_LEN {
            self.failed(HandshakeError::ProtocolViolation)
        } else {
            ClientProgress { state: HandshakeState::GreetSent, ..self }
        }
    }

    /// What `start` tells the client to do: to send its greeting, if the
    /// handshake has not begun yet.
    pub open spec fn start_action(self) -> ClientAction {
        if self.state != HandshakeState::Start {
            self.standing()
        } else if greeting(Role::Client, self.version).len() > MAX_PAYLOAD_LEN {
            ClientAction::Failed(HandshakeError::ProtocolViolation)
        } else {
            ClientAction::Send(
                Packet {
                    kind: PacketType::InitialGreet,
                    payload: greeting(Role::Client, self.version),
                },
            )
        }
    }

    /// The reason for which packet `p` ends the handshake, if it does.
    pub open spec fn objection(self, p: Packet) -> Option<HandshakeError> {
        match self.state {
            HandshakeState::Start => Some(HandshakeError::ProtocolViolation),
            HandshakeState::GreetSent => if p.kind != PacketType::InitialGreet {
                Some(HandshakeError::ProtocolViolation)
            } else {
                match greeting_verdict(p.payload, Role::Server, self.version) {
                    Err(e) => Some(e),
                    Ok(_) => if self.request.packet().payload.len() > MAX_PAYLOAD_LEN {
                        Some(HandshakeError::ProtocolViolation)
                    } else {
                        None
                    },
                }
            },
            HandshakeState::VersionChecked => if p.kind != PacketType::NewSession || !valid_utf8(
                p.payload,
            ) {
                Some(HandshakeError::ProtocolViolation)
            } else {
                None
            },
            HandshakeState::SessionResolved => if p.kind != PacketType::ReadyForTransmission {
                Some(HandshakeError::ProtocolViolation)
            } else {
                None
            },
            HandshakeState::Ready => None,
            HandshakeState::Failed(_) => None,
        }
    }

    /// The handshake after packet `p` has come from the server.
    pub open spec fn after_packet(self, p: Packet) -> ClientProgress {
        match self.objection(p) {
            Some(e) => self.failed(e),
            None => match self.state {
                HandshakeState::GreetSent => match self.request {
                    Introduction::NewSession(_) => ClientProgress {
                        state: HandshakeState::VersionChecked,
                        ..self
                    },
                    Introduction::ExistingSession(token) => ClientProgress {
                        state: HandshakeState::SessionResolved,
                        token: Some(token),
                        ..self
                    },
                },
                HandshakeState::VersionChecked => ClientProgress {
                    state: HandshakeState::SessionResolved,
                    token: Some(decode_utf8(p.payload)),
                    ..self
                },
                HandshakeState::SessionResolved => ClientProgress {
                    state: HandshakeState::Ready,
                    ..self
                },
                _ => self,
            },
        }
    }

    /// What the client is to do after packet `p` has come from the server.
    pub open spec fn packet_action(self, p: Packet) -> ClientAction {
        match self.objection(p) {
            Some(e) => ClientAction::Failed(e),
            None => match self.state {
                HandshakeState::GreetSent => ClientAction::Send(self.request.packet()),
                HandshakeState::VersionChecked => ClientAction::Wait,
                HandshakeState::SessionResolved => ClientAction::Done,
                _ => self.standing(),
            },
        }
    }

    /// The handshake after the client has given it up for `reason`: a
    /// handshake that has come to its end stays as it is.
    pub open spec fn after_abort(self, reason: HandshakeError) -> ClientProgress {
        if self.state.is_terminal() {
            self
        } else {
            self.failed(reason)
        }
    }

    /// The handshake after an event.
    pub open spec fn after_event(self, event: Happening) -> ClientProgress {
        match event {
            Happening::Begin => self.after_start(),
            Happening::Received(p) => self.after_packet(p),
            Happening::Sent => self,
            Happening::TimedOut => self.after_abort(HandshakeError::Timeout),
            Happening::Closed => self.after_abort(HandshakeError::ConnectionClosed),
        }
    }

    /// What the client is to do after an event.
    pub open spec fn event_action(self, event: Happening) -> ClientAction {
        match event {
            Happening::Begin => self.start_action(),
            Happening::Received(p) => self.packet_action(p),
            _ => self.after_event(event).standing(),
        }
    }
}

/// A handshake that has come to its end stays there: no event changes it,
/// and each step says again how it ended.
pub proof fn lemma_client_end_is_final(progress: ClientProgress, event: Happening)
    requires
        progress.state.is_terminal(),
    ensures
        progress.after_event(event) == progress,
        progress.event_action(event) == progress.standing(),
        progress.event_action(event) == if progress.state == HandshakeState::Ready {
            ClientAction::Done
        } else {
            ClientAction::Failed(progress.state->Failed_0)
        },
{
}

/// The client's handshake ends well only by the word that transmission may
/// begin, which it takes only once the link has its session.
pub proof fn lemma_client_ready_only_after_resolution(progress: ClientProgress, event: Happening)
    requires
        progress.state != HandshakeState::Ready,
        progress.after_event(event).state == HandshakeState::Ready,
    ensures
        progress.state == HandshakeState::SessionResolved,
        event matches Happening::Received(p) && p.kind == PacketType::ReadyForTransmission,
        progress.after_event(event).token == progress.token,
{
}

/// The handshake of one link, as the client runs it.
pub struct ClientHandshake {
    state: HandshakeState,
    version: String,
    request: IntroductionResult,
    token: Option<String>,
}

impl View for ClientHandshake {
    type V = ClientProgress;

    closed spec fn view(&self) -> ClientProgress {
        ClientProgress {
            state: self.state,
            version: self.version@,
            request: self.request@,
            token: match self.token {
                Some(t) => Some(t@),
                None => None,
            },
        }
    }
}

impl ClientHandshake {
    /// A handshake that has not begun, for a client of the given version
    /// that asks for the given session.
    pub fn new(version: String, request: IntroductionResult) -> (handshake: ClientHandshake)
        ensures
            handshake@ == (ClientProgress {
                state: HandshakeState::Start,
                version: version@,
                request: request@,
                token: None,
            }),
    {
        ClientHandshake { state: HandshakeState::Start, version, request, token: None }
    }

    /// Where the handshake stands.
    pub fn state(&self) -> (state: HandshakeState)
        ensures
            state == self@.state,
    {
        self.state
    }

    /// The token of the session, once the client knows it.
    pub fn token(&self) -> (token: Option<String>)
        ensures
            token is Some <==> self@.token is Some,
            token matches Some(t) ==> t@ == self@.token->0,
    {
        match &self.token {
            Some(t) => Some(t.clone()),
            None => None,
        }
    }

    /// What a state that nothing can change tells the client to do.
    fn standing_step(&self) -> (step: ClientStep)
        ensures
            step@ == self@.standing(),
    {
        match self.state {
            HandshakeState::Ready => ClientStep::Done,
            HandshakeState::Failed(e) => ClientStep::Failed(e),
            _ => ClientStep::Wait,
        }
    }

    /// Begins the handshake: the client is to send its greeting.
    pub fn start(&mut self) -> (step: ClientStep)
        ensures
            final(self)@ == old(self)@.after_start(),
            step@ == old(self)@.start_action(),
    {
        if self.state != HandshakeState::Start {
            return self.standing_step();
        }
        let payload = greeting_payload(Role::Client, self.version.as_str());
        match ConnectionPacket::new(PacketType::InitialGreet, payload) {
            Some(packet) => {
                self.state = HandshakeState::GreetSent;
                ClientStep::Send(packet)
            },
            None => {
                self.state = HandshakeState::Failed(HandshakeError::ProtocolViolation);
                ClientStep::Failed(HandshakeError::ProtocolViolation)
            },
        }
    }

    /// Ends the handshake with `reason`.
    fn fail(&mut self, reason: HandshakeError) -> (step: ClientStep)
        ensures
            final(self)@ == old(self)@.failed(reason),
            step@ == ClientAction::Failed(reason),
    {
        self.state = HandshakeState::Failed(reason);
        ClientStep::Failed(reason)
    }

    /// Takes a packet that has come from the server. The server's greeting
    /// is answered with the request for a session; the token of a fresh
    /// session is kept; the word that transmission may begin ends the
    /// handshake. A packet that has no place at its point of the exchange
    /// ends it badly.
    pub fn on_packet(&mut self, packet: &ConnectionPacket) -> (step: ClientStep)
        ensures
            final(self)@ == old(self)@.after_packet(packet@),
            step@ == old(self)@.packet_action(packet@),
    {
        match self.state {
            HandshakeState::Start => self.fail(HandshakeError::ProtocolViolation),
            HandshakeState::GreetSent => {
                if packet.packet_type != PacketType::InitialGreet {
                    return self.fail(HandshakeError::ProtocolViolation);
                }
                match check_greeting(
                    packet.packet_data.as_slice(),
                    Role::Server,
                    self.version.as_str(),
                ) {
                    Err(e) => self.fail(e),
                    Ok(_) => match self.request.to_packet() {
                        None => self.fail(HandshakeError::ProtocolViolation),
                        Some(request) => {
                            match &self.request {
                                IntroductionResult::NewSession(_) => {
                                    self.state = HandshakeState::VersionChecked;
                                },
                                IntroductionResult::ExistingSession(token) => {
                                    self.token = Some(token.clone());
                                    self.state = HandshakeState::SessionResolved;
                                },
                            }
                            ClientStep::Send(request)
                        },
                    },
                }
            },
            HandshakeState::VersionChecked => {
                if packet.packet_type != PacketType::NewSession {
                    return self.fail(HandshakeError::ProtocolViolation);
                }
                match packet.to_string() {
                    Err(_) => self.fail(HandshakeError::ProtocolViolation),
                    Ok(text) => {
                        self.token = Some(String::from_str(text));
                        self.state = HandshakeState::SessionResolved;
                        ClientStep::Wait
                    },
                }
            },
            HandshakeState::SessionResolved => {
                if packet.packet_type != PacketType::ReadyForTransmission {
                    return self.fail(HandshakeError::ProtocolViolation);
                }
                self.state = HandshakeState::Ready;
                ClientStep::Done
            },
            HandshakeState::Ready => ClientStep::Done,
            HandshakeState::Failed(e) => ClientStep::Failed(e),
        }
    }

    /// Gives the handshake up: the peer took too long, or the connection
    /// ended. A handshake that has come to its end stays as it is.
    pub fn abort(&mut self, reason: HandshakeError)
        ensures
            final(self)@ == old(self)@.after_abort(reason),
    {
        match self.state {
            HandshakeState::Ready => {},
            HandshakeState::Failed(_) => {},
            _ => {
                self.state = HandshakeState::Failed(reason);
            },
        }
    }
}

/// Takes the handshake of a client's link one step further: from where
/// the handshake stands and what has happened to what the client is to do
/// next. The link is bound to its session when the step says `Done`.
pub fn introduce_connection(handshake: &mut ClientHandshake, event: &HandshakeEvent) -> (step:
    ClientStep)
    ensures
        final(handshake)@ == old(handshake)@.after_event(event@),
        step@ == old(handshake)@.event_action(event@),
{
    match event {
        HandshakeEvent::Begin => handshake.start(),
        HandshakeEvent::Received(packet) => handshake.on_packet(packet),
        HandshakeEvent::Sent => handshake.standing_step(),
        HandshakeEvent::TimedOut => {
            handshake.abort(HandshakeError::Timeout);
            handshake.standing_step()
        },
        HandshakeEvent::Closed => {
            handshake.abort(HandshakeError::ConnectionClosed);
            handshake.standing_step()
        },
    }
}

/// The client's session: the links that the client has opened, one for
/// each of its network interfaces, and the token by which further links
/// join the session that the first one was given.
pub struct ClientSession {
    session: Session,
    credential: String,
    token: Option<String>,
}

impl ClientSession {
    /// The session of the links.
    pub closed spec fn session(&self) -> SessionState {
        self.session@
    }

    /// The credential that the client presents for a fresh session.
    pub closed spec fn credential(&self) -> Seq<char> {
        self.credential@
    }

    /// The token that the server has given, once it has.
    pub closed spec fn token(&self) -> Option<Seq<char>> {
        match self.token {
            Some(t) => Some(t@),
            None => None,
        }
    }

    /// What the next link is to ask of the server: a fresh session while
    /// the client has no token, and afterwards the session of that token.
    pub open spec fn request(&self) -> Introduction {
        match self.token() {
            Some(token) => Introduction::ExistingSession(token),
            None => Introduction::NewSession(self.credential()),
        }
    }

    /// What `adopt` answers: a link is taken up only when its handshake is
    /// done, and then as the session takes up any link.
    pub open spec fn adopt_result(&self, handshake: ClientProgress, link: Connection) -> Result<
        (),
        SessionError,
    > {
        if handshake.state != HandshakeState::Ready {
            Err(SessionError::HandshakeIncomplete)
        } else {
            self.session().add_result(link.after_mark_ready())
        }
    }

    /// A client's session around `session`, which has no token from the
    /// server yet; `credential` is what the client presents for a fresh
    /// session.
    pub fn new(session: Session, credential: String) -> (client: ClientSession)
        ensures
            client.session() == session@,
            client.credential() == credential@,
            client.token() is None,
    {
        ClientSession { session, credential, token: None }
    }

    /// What the next link is to ask of the server.
    pub fn next_request(&self) -> (request: IntroductionResult)
        ensures
            request@ == self.request(),
    {
        match &self.token {
            Some(token) => IntroductionResult::ExistingSession(token.clone()),
            None => IntroductionResult::NewSession(self.credential.clone()),
        }
    }

    /// Keeps the token that the server has given to the first link. A
    /// token that comes later changes nothing; the answer says whether the
    /// token was kept.
    pub fn remember_token(&mut self, token: String) -> (kept: bool)
        ensures
            kept == old(self).token() is None,
            final(self).token() == if kept {
                Some(token@)
            } else {
                old(self).token()
            },
            final(self).session() == old(self).session(),
            final(self).credential() == old(self).credential(),
    {
        if self.token.is_none() {
            self.token = Some(token);
            true
        } else {
            false
        }
    }

    /// Takes up a link whose handshake is done.
    pub fn add_connection(&mut self, connection: Connection) -> (result: Result<(), SessionError>)
        ensures
            result == old(self).session().add_result(connection),
            final(self).session() == if result is Ok {
                old(self).session().with_link(connection)
            } else {
                old(self).session()
            },
            final(self).token() == old(self).token(),
            final(self).credential() == old(self).credential(),
    {
        self.session.add_connection(connection)
    }

    /// Takes up the link of a handshake that is done: the token that the
    /// handshake has brought is kept, unless the client has one already,
    /// and the link joins the session, marked ready.
    pub fn adopt(&mut self, handshake: &ClientHandshake, link: Connection) -> (result: Result<
        (),
        SessionError,
    >)
        ensures
            result == old(self).adopt_result(handshake@, link),
            final(self).session() == if result is Ok {
                old(self).session().with_link(link.after_mark_ready())
            } else {
                old(self).session()
            },
            final(self).token() == if result is Ok && old(self).token() is None {
                handshake@.token
            } else {
                old(self).token()
            },
            final(self).credential() == old(self).credential(),
    {
        if handshake.state != HandshakeState::Ready {
            return Err(SessionError::HandshakeIncomplete);
        }
        let mut link = link;
        link.mark_ready();
        match self.session.add_connection(link) {
            Ok(_) => {
                if self.token.is_none() {
                    self.token = handshake.token();
                }
                Ok(())
            },
            Err(e) => Err(e),
        }
    }

    /// Chooses the link for a packet and gives the frame to write on it.
    pub fn send(&mut self, packet: &ConnectionPacket) -> (result: Result<Outbound, SessionError>)
        ensures
            match result {
                Ok(out) => old(self).session().send_result(packet@) == Ok::<
                    (u32, Seq<u8>),
                    SessionError,
                >((out.link_id, out.frame@)),
                Err(e) => old(self).session().send_result(packet@) == Err::<
                    (u32, Seq<u8>),
                    SessionError,
                >(e),
            },
            final(self).session() == old(self).session().after_send(packet@),
            final(self).token() == old(self).token(),
            final(self).credential() == old(self).credential(),
    {
        self.session.send(packet)
    }

    /// The session of the links, to receive on and to account for the
    /// links.
    pub fn session_mut(&mut self) -> (session: &mut Session)
        ensures
            session@ == old(self).session(),
            final(self).session() == final(session)@,
            final(self).credential() == old(self).credential(),
            final(self).token() == old(self).token(),
    {
        &mut self.session
    }
}

} // verus!
