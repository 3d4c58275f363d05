//! One link of a session: its state, its health score, and what each
//! outcome of reading and writing does to them.

use crate::codec::{decode, encode, reading, CodecError, Decoded, Reading};
use crate::packet::{frame, ConnectionPacket};
use vstd::prelude::*;

verus! {

/// Where a link stands in its life.
#[derive(Clone, Copy, Debug, PartialEq, Eq, Structural)]
pub enum LinkState {
    /// The transport is being opened.
    Connecting,
    /// The handshake is under way.
    Handshaking,
    /// The link carries packets and may be chosen for sending.
    Ready,
    /// The link has failed of late and is passed over when sending.
    Degraded,
    /// The link is gone for good.
    Closed,
}

/// The numbers that govern how failures are held against a link.
#[derive(Clone, Copy, Debug, PartialEq, Eq, Structural)]
pub struct Policy {
    /// A link whose penalty is above this is passed over when sending.
    pub exclusion_threshold: u32,
    /// A link with more failures in a row than this is closed.
    pub max_consecutive_failures: u32,
    /// What one success takes off the penalty; `u32::MAX` clears it.
    pub success_credit: u32,
    /// What each tick of the clock takes off the penalty; with 0 here only
    /// successes count.
    pub idle_decay: u32,
}

impl Policy {
    /// The policy used where none is given: a link is passed over above a
    /// penalty of 8, closed at the sixth failure in a row, a success takes 1
    /// off its penalty, and the passing of time takes nothing off it.
    pub open spec fn standard_values() -> Policy {
        Policy {
            exclusion_threshold: 8,
            max_consecutive_failures: 5,
            success_credit: 1,
            idle_decay: 0,
        }
    }

    /// The policy used where none is given.
    #[verifier::when_used_as_spec(standard_values)]
    pub fn standard() -> (policy: Policy)
        ensures
            policy == Policy::standard_values(),
    {
        Policy {
            exclusion_threshold: 8,
            max_consecutive_failures: 5,
            success_credit: 1,
            idle_decay: 0,
        }
    }
}

/// Why a link could not read or write.
#[derive(Clone, Copy, Debug, PartialEq, Eq, Structural)]
pub enum LinkError {
    /// The bytes received are no frame of the protocol, or the packet to
    /// send is over the protocol's bound.
    ProtocolViolation,
    /// The peer has closed the connection.
    ConnectionClosed,
    /// The link is closed: nothing is read or written on it any more.
    LinkClosed,
}

/// The ways in which a read or a write on a transport fails.
#[derive(Clone, Copy, Debug, PartialEq, Eq, Structural)]
pub enum IoFailure {
    /// The operation took too long.
    TimedOut,
    /// The operation was interrupted before it had done anything.
    Interrupted,
    /// The transport cannot take or give anything at present.
    WouldBlock,
    /// Anything else: the transport is broken.
    Broken,
}

impl IoFailure {
    /// Trying again is of no use: only a timeout, an interruption and a
    /// transport that is busy pass by themselves.
    pub open spec fn fatal(self) -> bool {
        self == IoFailure::Broken
    }

    /// Whether trying again is of no use.
    pub fn is_fatal(self) -> (fatal: bool)
        ensures
            fatal == self.fatal(),
    {
        match self {
            IoFailure::Broken => true,
            _ => false,
        }
    }
}

/// What can happen to a link.
pub enum LinkEvent {
    /// The handshake begins.
    BeginHandshake,
    /// The handshake is done.
    MarkReady,
    /// A read or a write went well.
    Success,
    /// A read or a write failed; `fatal` where trying again is of no use.
    Failure { fatal: bool },
    /// The clock has ticked.
    Tick,
    /// The link is closed by its owner.
    Close,
}

/// One link of a session.
#[derive(Clone, Copy, Debug, PartialEq, Eq, Structural)]
pub struct Connection {
    /// The number by which the session knows this link.
    pub id: u32,
    /// The health score: it grows with each failure and shrinks with each success.
    pub penalty: u32,
    /// Failures since the last success.
    pub failures: u32,
    /// Where the link stands in its life.
    pub state: LinkState,
}

impl Connection {
    pub open spec fn is_closed(self) -> bool {
        self.state == LinkState::Closed
    }

    /// The handshake is over and the link is not closed.
    pub open spec fn is_established(self) -> bool {
        self.state == LinkState::Ready || self.state == LinkState::Degraded
    }

    /// The link may be chosen for sending.
    pub open spec fn eligible(self, policy: Policy) -> bool {
        self.state == LinkState::Ready && self.penalty <= policy.exclusion_threshold
    }

    /// The link after a read or a write that went well.
    pub open spec fn after_success(self, policy: Policy) -> Connection {
        let penalty = if self.penalty <= policy.success_credit {
            0u32
        } else {
            (self.penalty - policy.success_credit) as u32
        };
        if self.is_closed() {
            self
        } else {
            Connection {
                id: self.id,
                penalty,
                failures: 0,
                state: if !self.is_established() {
                    self.state
                } else if penalty <= policy.exclusion_threshold {
                    LinkState::Ready
                } else {
                    LinkState::Degraded
                },
            }
        }
    }

    /// The link after a read or a write that failed.
    pub open spec fn after_failure(self, fatal: bool, policy: Policy) -> Connection {
        let failures = if self.failures == u32::MAX {
            u32::MAX
        } else {
            (self.failures + 1) as u32
        };
        if self.is_closed() {
            self
        } else {
            Connection {
                id: self.id,
                penalty: if self.penalty == u32::MAX {
                    u32::MAX
                } else {
                    (self.penalty + 1) as u32
                },
                failures,
                state: if fatal || !self.is_established() || failures
                    > policy.max_consecutive_failures {
                    LinkState::Closed
                } else {
                    LinkState::Degraded
                },
            }
        }
    }

    /// The link after a tick of the clock: the policy's decay is taken off
    /// its penalty, and where there is such a decay, a degraded link whose
    /// penalty is no longer over the threshold is given another try. The
    /// count of failures stays, so that a link which fails again goes on
    /// towards its closing.
    pub open spec fn after_tick(self, policy: Policy) -> Connection {
        let penalty = if self.penalty <= policy.idle_decay {
            0u32
        } else {
            (self.penalty - policy.idle_decay) as u32
        };
        if self.is_closed() {
            self
        } else {
            Connection {
                penalty,
                state: if self.state == LinkState::Degraded && policy.idle_decay > 0 && penalty
                    <= policy.exclusion_threshold {
                    LinkState::Ready
                } else {
                    self.state
                },
                ..self
            }
        }
    }

    /// The link once the handshake has begun: only a link that is
    /// `Connecting` enters it.
    pub open spec fn after_begin_handshake(self) -> Connection {
        if self.state == LinkState::Connecting {
            Connection { state: LinkState::Handshaking, ..self }
        } else {
            self
        }
    }

    /// The link once the handshake is done: only a link that is
    /// `Handshaking` becomes `Ready`.
    pub open spec fn after_mark_ready(self) -> Connection {
        if self.state == LinkState::Handshaking {
            Connection { state: LinkState::Ready, ..self }
        } else {
            self
        }
    }

    /// The link once its owner has closed it.
    pub open spec fn after_close(self) -> Connection {
        Connection { state: LinkState::Closed, ..self }
    }

    /// The link after one event.
    pub open spec fn after(self, event: LinkEvent, policy: Policy) -> Connection {
        match event {
            LinkEvent::BeginHandshake => self.after_begin_handshake(),
            LinkEvent::MarkReady => self.after_mark_ready(),
            LinkEvent::Success => self.after_success(policy),
            LinkEvent::Failure { fatal } => self.after_failure(fatal, policy),
            LinkEvent::Tick => self.after_tick(policy),
            LinkEvent::Close => self.after_close(),
        }
    }

    /// The link after a run of events, the first of them first.
    pub open spec fn after_all(self, events: Seq<LinkEvent>, policy: Policy) -> Connection
        decreases events.len(),
    {
        if events.len() == 0 {
            self
        } else {
            self.after(events[0], policy).after_all(events.drop_first(), policy)
        }
    }

    /// How often a run of events takes the link from open to closed.
    pub open spec fn closings(self, events: Seq<LinkEvent>, policy: Policy) -> nat
        decreases events.len(),
    {
        if events.len() == 0 {
            0
        } else {
            let next = self.after(events[0], policy);
            let now: nat = if !self.is_closed() && next.is_closed() {
                1
            } else {
                0
            };
            now + next.closings(events.drop_first(), policy)
        }
    }

    /// A link over a transport that is being opened.
    pub fn new(id: u32) -> (link: Connection)
        ensures
            link == (Connection { id, penalty: 0, failures: 0, state: LinkState::Connecting }),
    {
        Connection { id, penalty: 0, failures: 0, state: LinkState::Connecting }
    }

    /// Enters the handshake, from `Connecting` only; says whether it did.
    pub fn begin_handshake(&mut self) -> (entered: bool)
        ensures
            *final(self) == old(self).after_begin_handshake(),
            entered == (old(self).state == LinkState::Connecting),
    {
        if self.state == LinkState::Connecting {
            self.state = LinkState::Handshaking;
            true
        } else {
            false
        }
    }

    /// Ends the handshake, from `Handshaking` only; says whether it did.
    pub fn mark_ready(&mut self) -> (done: bool)
        ensures
            *final(self) == old(self).after_mark_ready(),
            done == (old(self).state == LinkState::Handshaking),
    {
        if self.state == LinkState::Handshaking {
            self.state = LinkState::Ready;
            true
        } else {
            false
        }
    }

    /// Counts a read or a write that went well.
    pub fn record_success(&mut self, policy: &Policy)
        ensures
            *final(self) == old(self).after_success(*policy),
    {
        if self.state == LinkState::Closed {
            return ;
        }
        self.failures = 0;
        self.penalty = self.penalty.saturating_sub(policy.success_credit);
        if self.state == LinkState::Ready || self.state == LinkState::Degraded {
            if self.penalty <= policy.exclusion_threshold {
                self.state = LinkState::Ready;
            } else {
                self.state = LinkState::Degraded;
            }
        }
    }

    /// Lets a tick of the clock pass over the link.
    pub fn tick(&mut self, policy: &Policy)
        ensures
            *final(self) == old(self).after_tick(*policy),
    {
        if self.state == LinkState::Closed {
            return ;
        }
        self.penalty = self.penalty.saturating_sub(policy.idle_decay);
        if self.state == LinkState::Degraded && policy.idle_decay > 0 && self.penalty
            <= policy.exclusion_threshold {
            self.state = LinkState::Ready;
        }
    }

    /// Counts a read or a write that failed, and says whether this failure
    /// closed the link.
    pub fn record_failure(&mut self, fatal: bool, policy: &Policy) -> (closed_now: bool)
        ensures
            *final(self) == old(self).after_failure(fatal, *policy),
            closed_now == (!old(self).is_closed() && final(self).is_closed()),
    {
        if self.state == LinkState::Closed {
            return false;
        }
        let established = self.state == LinkState::Ready || self.state == LinkState::Degraded;
        self.penalty = self.penalty.saturating_add(1);
        self.failures = self.failures.saturating_add(1);
        if fatal || !established || self.failures > policy.max_consecutive_failures {
            self.state = LinkState::Closed;
            true
        } else {
            self.state = LinkState::Degraded;
            false
        }
    }

    /// The link after a read of the bytes received so far.
    pub open spec fn after_read(self, bytes: Seq<u8>, ended: bool, policy: Policy) -> Connection {
        if self.is_closed() {
            self
        } else {
            match reading(bytes, ended) {
                Ok(Reading::Frame(_, _)) => self.after_success(policy),
                Ok(Reading::Incomplete(_)) => self,
                Err(_) => self.after_failure(true, policy),
            }
        }
    }

    /// What a read of the bytes received so far returns.
    pub open spec fn read_result(self, bytes: Seq<u8>, ended: bool) -> Result<Reading, LinkError> {
        if self.is_closed() {
            Err(LinkError::LinkClosed)
        } else {
            match reading(bytes, ended) {
                Ok(r) => Ok(r),
                Err(CodecError::ProtocolViolation) => Err(LinkError::ProtocolViolation),
                Err(CodecError::ConnectionClosed) => Err(LinkError::ConnectionClosed),
            }
        }
    }

    /// Reads one frame from the bytes that the transport has delivered and
    /// that no earlier read has taken; `end_of_stream` says that the peer
    /// has closed its side. A whole frame counts as a success. A broken
    /// frame and the end of the stream count as a failure that closes the
    /// link. A closed link reads nothing.
    pub fn read(&mut self, buffer: &[u8], end_of_stream: bool, policy: &Policy) -> (result: Result<
        Decoded,
        LinkError,
    >)
        ensures
            *final(self) == old(self).after_read(buffer@, end_of_stream, *policy),
            match result {
                Ok(decoded) => old(self).read_result(buffer@, end_of_stream) == Ok::<
                    Reading,
                    LinkError,
                >(decoded@),
                Err(e) => old(self).read_result(buffer@, end_of_stream) == Err::<
                    Reading,
                    LinkError,
                >(e),
            },
            result matches Ok(Decoded::Frame(packet, _)) ==> packet.valid(),
    {
        if self.state == LinkState::Closed {
            return Err(LinkError::LinkClosed);
        }
        match decode(buffer, end_of_stream) {
            Ok(Decoded::Frame(packet, taken)) => {
                self.record_success(policy);
                Ok(Decoded::Frame(packet, taken))
            },
            Ok(Decoded::Incomplete(missing)) => Ok(Decoded::Incomplete(missing)),
            Err(CodecError::ProtocolViolation) => {
                self.record_failure(true, policy);
                Err(LinkError::ProtocolViolation)
            },
            Err(CodecError::ConnectionClosed) => {
                self.record_failure(true, policy);
                Err(LinkError::ConnectionClosed)
            },
        }
    }

    /// Gives the bytes to put on the transport for a packet. A closed link
    /// writes nothing, and a packet over the protocol's bound is refused.
    pub fn write(&self, packet: &ConnectionPacket) -> (result: Result<Vec<u8>, LinkError>)
        ensures
            self.is_closed() ==> result == Err::<Vec<u8>, LinkError>(LinkError::LinkClosed),
            !self.is_closed() && !packet.valid() ==> result == Err::<Vec<u8>, LinkError>(
                LinkError::ProtocolViolation,
            ),
            !self.is_closed() && packet.valid() ==> result is Ok && result->Ok_0@ == frame(
                packet@,
            ),
    {
        if self.state == LinkState::Closed {
            return Err(LinkError::LinkClosed);
        }
        match encode(packet) {
            Ok(bytes) => Ok(bytes),
            Err(_) => Err(LinkError::ProtocolViolation),
        }
    }

    /// Closes the link, and says whether it was open before.
    pub fn close(&mut self) -> (closed_now: bool)
        ensures
            *final(self) == old(self).after_close(),
            closed_now == !old(self).is_closed(),
    {
        let was_open = self.state != LinkState::Closed;
        self.state = LinkState::Closed;
        was_open
    }
}

/// A run of `n` failures, none of them fatal.
pub open spec fn failures_in_a_row(n: nat) -> Seq<LinkEvent> {
    Seq::new(n, |i: int| LinkEvent::Failure { fatal: false })
}

/// A closed link stays as it is, whatever happens to it.
pub proof fn lemma_closed_is_final(link: Connection, events: Seq<LinkEvent>, policy: Policy)
    requires
        link.is_closed(),
    ensures
        link.after_all(events, policy) == link,
        link.closings(events, policy) == 0,
    decreases events.len(),
{
    if events.len() > 0 {
        assert(link.after(events[0], policy) == link);
        lemma_closed_is_final(link, events.drop_first(), policy);
    }
}

/// Over any run of events a link goes from open to closed at most once:
/// once if it starts open and ends closed, and never otherwise.
pub proof fn lemma_closes_once(link: Connection, events: Seq<LinkEvent>, policy: Policy)
    ensures
        link.closings(events, policy) == if !link.is_closed() && link.after_all(
            events,
            policy,
        ).is_closed() {
            1nat
        } else {
            0nat
        },
        link.after_all(events, policy).id == link.id,
    decreases events.len(),
{
    if events.len() > 0 {
        let next = link.after(events[0], policy);
        if next.is_closed() {
            lemma_closed_is_final(next, events.drop_first(), policy);
        }
        lemma_closes_once(next, events.drop_first(), policy);
    }
}

/// An established link with no failure behind it, after `n` failures in a
/// row of which none is fatal, is closed if and only if `n` is over the
/// policy's bound; until then it is degraded, and each failure has added
/// one to its penalty.
pub proof fn lemma_failures_in_a_row(link: Connection, n: nat, policy: Policy)
    requires
        link.is_established(),
        link.failures == 0,
        0 < n <= u32::MAX,
    ensures
        link.after_all(failures_in_a_row(n), policy).is_closed() <==> n
            > policy.max_consecutive_failures,
        n <= policy.max_consecutive_failures ==> link.after_all(failures_in_a_row(n), policy)
            == (Connection {
            id: link.id,
            penalty: if link.penalty + n > u32::MAX {
                u32::MAX
            } else {
                (link.penalty + n) as u32
            },
            failures: n as u32,
            state: LinkState::Degraded,
        }),
{
    lemma_failures_from(link, n, policy);
}

proof fn lemma_failures_from(link: Connection, n: nat, policy: Policy)
    requires
        link.is_established(),
        link.failures + n <= u32::MAX,
        link.failures <= policy.max_consecutive_failures,
    ensures
        link.after_all(failures_in_a_row(n), policy).is_closed() <==> link.failures + n
            > policy.max_consecutive_failures,
        n > 0 && link.failures + n <= policy.max_consecutive_failures ==> link.after_all(
            failures_in_a_row(n),
            policy,
        ) == (Connection {
            id: link.id,
            penalty: if link.penalty + n > u32::MAX {
                u32::MAX
            } else {
                (link.penalty + n) as u32
            },
            failures: (link.failures + n) as u32,
            state: LinkState::Degraded,
        }),
    decreases n,
{
    let events = failures_in_a_row(n);
    if n > 0 {
        let next = link.after(events[0], policy);
        assert(events.drop_first() =~= failures_in_a_row((n - 1) as nat));
        assert(next == link.after_failure(false, policy));
        if next.is_closed() {
            lemma_closed_is_final(next, events.drop_first(), policy);
        } else {
            lemma_failures_from(next, (n - 1) as nat, policy);
        }
    }
}

} // verus!
