//! What both sides of the handshake share: the greeting, the states that a
//! handshake passes through, and the ways in which it fails.

use crate::packet::{ConnectionPacket, Packet, PacketType, MAX_PAYLOAD_LEN};
use crate::text::same_bytes;
use vstd::prelude::*;
use vstd::slice::slice_to_vec;
use vstd::utf8::{encode_utf8, encode_utf8_decode_utf8};

verus! {

/// The two sides of a link.
#[derive(Clone, Copy, Debug, PartialEq, Eq, Structural)]
pub enum Role {
    Client,
    Server,
}

/// Why a handshake failed. Each of these is the end of the link, and of
/// the link only.
#[derive(Clone, Copy, Debug, PartialEq, Eq, Structural)]
pub enum HandshakeError {
    /// A packet of a kind that has no place at this point of the exchange,
    /// or one whose payload cannot be read.
    ProtocolViolation,
    /// The peer did not greet as the other side of this protocol.
    PeerIdentityMismatch,
    /// The peer is of another version.
    VersionMismatch,
    /// No live session goes by the token that the client presented.
    UnknownSession,
    /// The session has a link of that number already.
    DuplicateLink,
    /// The server could not make a session.
    SessionUnavailable,
    /// The peer took too long over a step.
    Timeout,
    /// The connection ended before the handshake did.
    ConnectionClosed,
}

/// Where a handshake stands. A client passes through all of these states
/// in their order. A server takes the client's greeting and checks it in
/// one step, and so passes from `Start` to `VersionChecked` at once.
#[derive(Clone, Copy, Debug, PartialEq, Eq, Structural)]
pub enum HandshakeState {
    /// Nothing has been sent or received.
    Start,
    /// The client has sent its greeting and awaits the server's.
    GreetSent,
    /// The greetings have matched; the request for a session is under way.
    VersionChecked,
    /// The link has its session; the word that transmission may begin is
    /// still to come.
    SessionResolved,
    /// The link is bound to its session and may carry packets.
    Ready,
    /// The handshake has failed, for the reason given.
    Failed(HandshakeError),
}

/// What a client asks for once the greetings have matched.
#[derive(Debug, PartialEq, Eq)]
pub enum IntroductionResult {
    /// A fresh session; the text is the client's credential.
    NewSession(String),
    /// An existing session; the text is the token that names it.
    ExistingSession(String),
}

/// A client's request as the contracts see it.
pub enum Introduction {
    NewSession(Seq<char>),
    ExistingSession(Seq<char>),
}

impl View for IntroductionResult {
    type V = Introduction;

    open spec fn view(&self) -> Introduction {
        match self {
            IntroductionResult::NewSession(credential) => Introduction::NewSession(credential@),
            IntroductionResult::ExistingSession(token) => Introduction::ExistingSession(token@),
        }
    }
}

impl Introduction {
    /// The packet that carries the request to the server.
    pub open spec fn packet(self) -> Packet {
        match self {
            Introduction::NewSession(credential) => Packet {
                kind: PacketType::NewSession,
                payload: encode_utf8(credential),
            },
            Introduction::ExistingSession(token) => Packet {
                kind: PacketType::ExistingSession,
                payload: encode_utf8(token),
            },
        }
    }
}

impl IntroductionResult {
    /// The packet that carries the request to the server, unless the text
    /// is over the protocol's bound.
    pub fn to_packet(&self) -> (packet: Option<ConnectionPacket>)
        ensures
            packet is Some <==> self@.packet().payload.len() <= MAX_PAYLOAD_LEN,
            packet matches Some(p) ==> p@ == self@.packet(),
    {
        match self {
            IntroductionResult::NewSession(credential) => ConnectionPacket::new(
                PacketType::NewSession,
                slice_to_vec(credential.as_str().as_bytes()),
            ),
            IntroductionResult::ExistingSession(token) => ConnectionPacket::new(
                PacketType::ExistingSession,
                slice_to_vec(token.as_str().as_bytes()),
            ),
        }
    }
}

/// What can happen to a link while its handshake runs.
#[derive(Debug, PartialEq, Eq)]
pub enum HandshakeEvent {
    /// The transport is open: the handshake may begin.
    Begin,
    /// A packet has come from the peer.
    Received(ConnectionPacket),
    /// The packets of the last step have been written.
    Sent,
    /// The peer took too long over a step.
    TimedOut,
    /// The connection has ended.
    Closed,
}

/// An event as the contracts see it.
pub enum Happening {
    Begin,
    Received(Packet),
    Sent,
    TimedOut,
    Closed,
}

impl View for HandshakeEvent {
    type V = Happening;

    open spec fn view(&self) -> Happening {
        match self {
            HandshakeEvent::Begin => Happening::Begin,
            HandshakeEvent::Received(packet) => Happening::Received(packet@),
            HandshakeEvent::Sent => Happening::Sent,
            HandshakeEvent::TimedOut => Happening::TimedOut,
            HandshakeEvent::Closed => Happening::Closed,
        }
    }
}

impl HandshakeState {
    /// The handshake has come to its end, well or badly.
    pub open spec fn is_terminal(self) -> bool {
        self == HandshakeState::Ready || self is Failed
    }
}

/// The text in front of the version in the greeting of `role`: the name of
/// the protocol and the name of the role, each followed by a hyphen.
pub open spec fn greeting_prefix(role: Role) -> Seq<char> {
    match role {
        Role::Client => "ALLVU-CLIENT-"@,
        Role::Server => "ALLVU-SERVER-"@,
    }
}

/// The greeting that a peer of the given role and version sends.
pub open spec fn greeting(role: Role, version: Seq<char>) -> Seq<u8> {
    encode_utf8(greeting_prefix(role)) + encode_utf8(version)
}

/// `prefix` is the beginning of `bytes`.
pub open spec fn begins_with(bytes: Seq<u8>, prefix: Seq<u8>) -> bool {
    prefix.len() <= bytes.len() && bytes.subrange(0, prefix.len() as int) == prefix
}

/// How the greeting of a peer is judged by one who expects a peer of role
/// `from` and is itself of version `version`: the peer is the wrong one
/// unless its greeting begins with the prefix of its role, and of the wrong
/// version unless what follows is this side's version, byte for byte.
pub open spec fn greeting_verdict(payload: Seq<u8>, from: Role, version: Seq<char>) -> Result<
    (),
    HandshakeError,
> {
    let prefix = encode_utf8(greeting_prefix(from));
    if !begins_with(payload, prefix) {
        Err(HandshakeError::PeerIdentityMismatch)
    } else if payload.subrange(prefix.len() as int, payload.len() as int) != encode_utf8(version) {
        Err(HandshakeError::VersionMismatch)
    } else {
        Ok(())
    }
}

/// A greeting is accepted exactly when it is the greeting that a peer of
/// the expected role and of this side's version sends.
pub proof fn lemma_greeting_accepted(payload: Seq<u8>, from: Role, version: Seq<char>)
    ensures
        greeting_verdict(payload, from, version) is Ok <==> payload == greeting(from, version),
{
    let prefix = encode_utf8(greeting_prefix(from));
    if payload == greeting(from, version) {
        assert(payload.subrange(0, prefix.len() as int) =~= prefix);
        assert(payload.subrange(prefix.len() as int, payload.len() as int) =~= encode_utf8(
            version,
        ));
    }
    if greeting_verdict(payload, from, version) is Ok {
        assert(payload =~= payload.subrange(0, prefix.len() as int) + payload.subrange(
            prefix.len() as int,
            payload.len() as int,
        ));
    }
}

/// Between two peers of the right roles the versions decide: the greeting
/// of a peer of version `theirs` is accepted by one of version `ours` if
/// the two versions are the same text, and is a version mismatch if they
/// are not.
pub proof fn lemma_versions_decide(from: Role, theirs: Seq<char>, ours: Seq<char>)
    ensures
        greeting_verdict(greeting(from, theirs), from, ours) == if theirs == ours {
            Ok::<(), HandshakeError>(())
        } else {
            Err::<(), HandshakeError>(HandshakeError::VersionMismatch)
        },
{
    let prefix = encode_utf8(greeting_prefix(from));
    let payload = greeting(from, theirs);
    assert(payload.subrange(0, prefix.len() as int) =~= prefix);
    assert(payload.subrange(prefix.len() as int, payload.len() as int) =~= encode_utf8(theirs));
    encode_utf8_decode_utf8(theirs);
    encode_utf8_decode_utf8(ours);
}

/// The bytes of the text in front of the version.
fn prefix_bytes(role: Role) -> (bytes: &'static [u8])
    ensures
        bytes@ == encode_utf8(greeting_prefix(role)),
{
    match role {
        Role::Client => "ALLVU-CLIENT-".as_bytes(),
        Role::Server => "ALLVU-SERVER-".as_bytes(),
    }
}

/// The payload of the greeting that this side sends.
pub fn greeting_payload(role: Role, version: &str) -> (payload: Vec<u8>)
    ensures
        payload@ == greeting(role, version@),
{
    let mut payload = slice_to_vec(prefix_bytes(role));
    payload.extend_from_slice(version.as_bytes());
    assert(payload@ =~= greeting(role, version@));
    payload
}

/// Judges the greeting that a peer has sent.
pub fn check_greeting(payload: &[u8], from: Role, version: &str) -> (verdict: Result<
    (),
    HandshakeError,
>)
    ensures
        verdict == greeting_verdict(payload@, from, version@),
{
    let prefix = prefix_bytes(from);
    if payload.len() < prefix.len() {
        return Err(HandshakeError::PeerIdentityMismatch);
    }
    let head = vstd::slice::slice_subrange(payload, 0, prefix.len());
    if !same_bytes(head, prefix) {
        return Err(HandshakeError::PeerIdentityMismatch);
    }
    let rest = vstd::slice::slice_subrange(payload, prefix.len(), payload.len());
    if !same_bytes(rest, version.as_bytes()) {
        return Err(HandshakeError::VersionMismatch);
    }
    Ok(())
}

} // verus!
