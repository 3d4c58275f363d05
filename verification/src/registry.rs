//! The server's registry: the sessions that a link may join, each under
//! its token.

use crate::connection::{Connection, LinkState, Policy};
use crate::handshake::HandshakeError;
use crate::session::{Session, SessionState};
use crate::text::same_text;
use crate::token::{alphanumeric_text, sample_alphanumeric, TOKEN_LEN};
use vstd::prelude::*;

verus! {

/// Why the registry could not make a session.
#[derive(Clone, Copy, Debug, PartialEq, Eq, Structural)]
pub enum RegistryError {
    /// A session goes by that token already.
    TokenInUse,
    /// The registry has given out every session number.
    OutOfIds,
}

/// The registry as the contracts see it: the tokens, and under each token
/// its session.
pub struct RegistryState {
    pub tokens: Seq<Seq<char>>,
    pub sessions: Seq<SessionState>,
    /// The number that the next session gets.
    pub next_id: u32,
    /// The policy that each new session gets.
    pub policy: Policy,
}

/// A link that has just been bound to a session: it has no failure behind
/// it, and it may not be chosen for sending until it is marked ready.
pub open spec fn fresh_link(id: u32) -> Connection {
    Connection { id, penalty: 0, failures: 0, state: LinkState::Handshaking }
}

impl RegistryState {
    /// Some session goes by `token`.
    pub open spec fn has(self, token: Seq<char>) -> bool {
        exists|k: int| 0 <= k < self.tokens.len() && #[trigger] self.tokens[k] == token
    }

    /// The place of the session that goes by `token`.
    pub open spec fn place_of(self, token: Seq<char>) -> int {
        choose|k: int| 0 <= k < self.tokens.len() && #[trigger] self.tokens[k] == token
    }

    /// A live session goes by `token`: a session that has lost its last
    /// link or has been closed is dead, and its token opens nothing.
    pub open spec fn live(self, token: Seq<char>) -> bool {
        self.has(token) && !self.sessions[self.place_of(token)].closed
    }

    /// Each token has its session, and no two sessions share a token.
    pub open spec fn wf(self) -> bool {
        &&& self.tokens.len() == self.sessions.len()
        &&& forall|i: int, j: int|
            0 <= i < j < self.tokens.len() ==> #[trigger] self.tokens[i]
                != #[trigger] self.tokens[j]
    }

    /// What `create_with_token` answers: the number of the new session,
    /// unless the token is in use or the numbers have run out.
    pub open spec fn create_result(self, token: Seq<char>) -> Result<u32, RegistryError> {
        if self.has(token) {
            Err(RegistryError::TokenInUse)
        } else if self.next_id == u32::MAX {
            Err(RegistryError::OutOfIds)
        } else {
            Ok(self.next_id)
        }
    }

    /// The session that `create_with_token` makes: it has the next number,
    /// the given token, the registry's policy, and the link that asked for
    /// it as its only link.
    pub open spec fn created(self, token: Seq<char>, link_id: u32) -> SessionState {
        SessionState {
            id: self.next_id,
            token,
            links: seq![fresh_link(link_id)],
            inbound: Seq::empty(),
            cursor: 0,
            policy: self.policy,
            closed: false,
        }
    }

    /// The registry after `create_with_token`.
    pub open spec fn after_create(self, token: Seq<char>, link_id: u32) -> RegistryState {
        if self.create_result(token) is Ok {
            RegistryState {
                tokens: self.tokens.push(token),
                sessions: self.sessions.push(self.created(token, link_id)),
                next_id: (self.next_id + 1) as u32,
                ..self
            }
        } else {
            self
        }
    }

    /// What `join` answers: the number of the session that the link has
    /// joined, unless no live session goes by the token or the session has
    /// a link of that number already.
    pub open spec fn join_result(self, token: Seq<char>, link_id: u32) -> Result<
        u32,
        HandshakeError,
    > {
        if !self.live(token) {
            Err(HandshakeError::UnknownSession)
        } else if self.sessions[self.place_of(token)].has_link(link_id) {
            Err(HandshakeError::DuplicateLink)
        } else {
            Ok(self.sessions[self.place_of(token)].id)
        }
    }

    /// The registry after `join`: the session of the token has one link
    /// more, and nothing else has changed.
    pub open spec fn after_join(self, token: Seq<char>, link_id: u32) -> RegistryState {
        if self.join_result(token, link_id) is Ok {
            let k = self.place_of(token);
            RegistryState {
                sessions: self.sessions.update(k, self.sessions[k].with_link(fresh_link(link_id))),
                ..self
            }
        } else {
            self
        }
    }

    /// The registry after a tick of the clock has passed over the links of
    /// every session.
    pub open spec fn after_tick(self) -> RegistryState {
        RegistryState {
            sessions: self.sessions.map_values(|s: SessionState| s.after_tick()),
            ..self
        }
    }

    /// The numbers of the links of the session that goes by `token`.
    pub open spec fn links_of(self, token: Seq<char>) -> Seq<u32> {
        self.sessions[self.place_of(token)].link_ids()
    }

    /// The registry after the session of `token` has been taken out.
    pub open spec fn after_remove(self, token: Seq<char>) -> RegistryState {
        if self.has(token) {
            let k = self.place_of(token);
            RegistryState {
                tokens: self.tokens.remove(k),
                sessions: self.sessions.remove(k),
                ..self
            }
        } else {
            self
        }
    }
}

/// In a well-formed registry a token stands at one place only.
pub proof fn lemma_token_place(r: RegistryState, k: int)
    requires
        r.wf(),
        0 <= k < r.tokens.len(),
    ensures
        r.has(r.tokens[k]),
        r.place_of(r.tokens[k]) == k,
{
    let token = r.tokens[k];
    assert(r.tokens[k] == token);
    let j = r.place_of(token);
    if j < k {
        assert(r.tokens[j] != r.tokens[k]);
    } else if k < j {
        assert(r.tokens[k] != r.tokens[j]);
    }
}

/// Finds the place of `token` among `tokens`.
fn find_token(tokens: &Vec<String>, token: &str) -> (place: Option<usize>)
    ensures
        place matches Some(k) ==> k < tokens@.len() && tokens@[k as int]@ == token@,
        place is None ==> forall|j: int|
            0 <= j < tokens@.len() ==> (#[trigger] tokens@[j])@ != token@,
{
    let mut i: usize = 0;
    while i < tokens.len()
        invariant
            i <= tokens@.len(),
            forall|j: int| 0 <= j < i ==> (#[trigger] tokens@[j])@ != token@,
        decreases tokens@.len() - i,
    {
        if same_text(tokens[i].as_str(), token) {
            return Some(i);
        }
        i += 1;
    }
    None
}

/// The tokens, and at the place of each token its session.
struct Shelf {
    tokens: Vec<String>,
    sessions: Vec<Session>,
}

impl Shelf {
    spec fn tokens(self) -> Seq<Seq<char>> {
        self.tokens@.map_values(|t: String| t@)
    }

    spec fn sessions(self) -> Seq<SessionState> {
        self.sessions@.map_values(|s: Session| s@)
    }

    fn empty() -> (shelf: Shelf)
        ensures
            shelf.tokens@.len() == 0,
            shelf.sessions@.len() == 0,
    {
        Shelf { tokens: Vec::new(), sessions: Vec::new() }
    }
}

/// The registry of the server's sessions.
pub struct SessionRegistry {
    shelf: Shelf,
    next_id: u32,
    policy: Policy,
}

impl View for SessionRegistry {
    type V = RegistryState;

    closed spec fn view(&self) -> RegistryState {
        RegistryState {
            tokens: self.shelf.tokens(),
            sessions: self.shelf.sessions(),
            next_id: self.next_id,
            policy: self.policy,
        }
    }
}

impl SessionRegistry {
    #[verifier::type_invariant]
    closed spec fn inv(&self) -> bool {
        &&& self.shelf.tokens@.len() == self.shelf.sessions@.len()
        &&& forall|i: int, j: int|
            0 <= i < j < self.shelf.tokens@.len() ==> (#[trigger] self.shelf.tokens@[i])@
                != (#[trigger] self.shelf.tokens@[j])@
    }

    /// An empty registry whose sessions will be numbered from 1 and will
    /// have the given policy.
    pub fn new(policy: Policy) -> (registry: SessionRegistry)
        ensures
            registry@ == (RegistryState {
                tokens: Seq::empty(),
                sessions: Seq::empty(),
                next_id: 1,
                policy,
            }),
            registry@.wf(),
    {
        SessionRegistry::numbered_from(1, policy)
    }

    /// An empty registry whose sessions will be numbered from `first_id`
    /// and will have the given policy.
    pub fn numbered_from(first_id: u32, policy: Policy) -> (registry: SessionRegistry)
        ensures
            registry@ == (RegistryState {
                tokens: Seq::empty(),
                sessions: Seq::empty(),
                next_id: first_id,
                policy,
            }),
            registry@.wf(),
    {
        let registry = SessionRegistry { shelf: Shelf::empty(), next_id: first_id, policy };
        assert(registry@.tokens =~= Seq::empty());
        assert(registry@.sessions =~= Seq::empty());
        registry
    }

    /// A registry is well-formed at all times. A caller that needs this in
    /// a proof of its own learns it here; the call does nothing when the
    /// program runs.
    pub fn well_formed(&self)
        ensures
            self@.wf(),
    {
        proof {
            use_type_invariant(self);
        }
    }

    /// The number of sessions in the registry, the dead ones among them.
    pub fn len(&self) -> (n: usize)
        ensures
            n == self@.sessions.len(),
            self@.wf(),
    {
        proof {
            use_type_invariant(self);
        }
        self.shelf.sessions.len()
    }

    /// Where the session of `token` stands, if there is one.
    fn place(&self, token: &str) -> (place: Option<usize>)
        ensures
            self@.wf(),
            place is Some <==> self@.has(token@),
            place matches Some(k) ==> k == self@.place_of(token@) && k < self.shelf.sessions@.len(),
    {
        proof {
            use_type_invariant(self);
        }
        let place = find_token(&self.shelf.tokens, token);
        proof {
            match place {
                Some(k) => {
                    assert(self@.tokens[k as int] == token@);
                    lemma_token_place(self@, k as int);
                },
                None => {
                    assert forall|j: int|
                        0 <= j < self@.tokens.len() implies #[trigger] self@.tokens[j]
                        != token@ by {
                        assert(self.shelf.tokens@[j]@ != token@);
                    }
                },
            }
        }
        place
    }

    /// Whether a session, live or dead, goes by `token`.
    pub fn contains(&self, token: &str) -> (found: bool)
        ensures
            found == self@.has(token@),
            self@.wf(),
    {
        self.place(token).is_some()
    }

    /// The session that goes by `token`.
    pub fn get(&self, token: &str) -> (session: Option<&Session>)
        ensures
            session is Some <==> self@.has(token@),
            session matches Some(s) ==> s@ == self@.sessions[self@.place_of(token@)],
            self@.wf(),
    {
        match self.place(token) {
            Some(k) => Some(&self.shelf.sessions[k]),
            None => None,
        }
    }

    /// The session that goes by `token`, to send and receive on and to
    /// account for its links.
    pub fn get_mut(&mut self, token: &str) -> (session: Option<&mut Session>)
        ensures
            session is Some <==> old(self)@.has(token@),
            session matches Some(s) ==> s@ == old(self)@.sessions[old(self)@.place_of(token@)]
                && final(self)@ == (RegistryState {
                sessions: old(self)@.sessions.update(old(self)@.place_of(token@), final(s)@),
                ..old(self)@
            }),
            session is None ==> final(self)@ == old(self)@,
            old(self)@.wf(),
            final(self)@.wf(),
    {
        proof {
            use_type_invariant(&*self);
        }
        match self.place(token) {
            Some(k) => self.session_at(k),
            None => None,
        }
    }

    /// Makes a session under `token` for the link `link_id` that has asked
    /// for one, and gives the number of the session.
    pub fn create_with_token(&mut self, token: String, link_id: u32) -> (result: Result<
        u32,
        RegistryError,
    >)
        ensures
            result == old(self)@.create_result(token@),
            final(self)@ == old(self)@.after_create(token@, link_id),
            old(self)@.wf(),
            final(self)@.wf(),
    {
        proof {
            use_type_invariant(&*self);
        }
        if self.place(token.as_str()).is_some() {
            return Err(RegistryError::TokenInUse);
        }
        if self.next_id == u32::MAX {
            return Err(RegistryError::OutOfIds);
        }
        let id = self.next_id;
        let ghost before = self@;
        let mut session = Session::with_token(id, token.clone(), self.policy);
        let link = Connection {
            id: link_id,
            penalty: 0,
            failures: 0,
            state: LinkState::Handshaking,
        };
        let added = session.add_connection(link);
        assert(added is Ok);
        assert(session@ == before.created(token@, link_id)) by {
            assert(session@.links =~= seq![fresh_link(link_id)]);
        }
        let mut shelf = Shelf::empty();
        std::mem::swap(&mut shelf, &mut self.shelf);
        shelf.tokens.push(token);
        shelf.sessions.push(session);
        assert(shelf.tokens() =~= before.tokens.push(token@));
        assert(shelf.sessions() =~= before.sessions.push(session@));
        assert forall|i: int, j: int| 0 <= i < j < shelf.tokens@.len() implies (
        #[trigger] shelf.tokens@[i])@ != (#[trigger] shelf.tokens@[j])@ by {
            if j == shelf.tokens@.len() - 1 {
                assert(before.tokens[i] == shelf.tokens@[i]@);
            }
        }
        self.shelf = shelf;
        self.next_id = id + 1;
        Ok(id)
    }

    /// Makes a session for the link `link_id` that has asked for one, under
    /// a token drawn at random, and gives the token. Which token is drawn
    /// is not known beforehand: whatever it is, the registry does with it
    /// what `create_with_token` does.
    pub fn create_session(&mut self, link_id: u32) -> (result: Result<String, RegistryError>)
        ensures
            exists|token: Seq<char>|
                alphanumeric_text(token, TOKEN_LEN as nat) && final(self)@ == old(
                    self,
                )@.after_create(token, link_id) && (match result {
                    Ok(t) => t@ == token && old(self)@.create_result(token) is Ok,
                    Err(e) => old(self)@.create_result(token) == Err::<u32, RegistryError>(e),
                }),
            final(self)@.wf(),
    {
        let token = sample_alphanumeric(TOKEN_LEN);
        let ghost before = self@;
        match self.create_with_token(token.clone(), link_id) {
            Ok(_) => {
                assert(alphanumeric_text(token@, TOKEN_LEN as nat) && self@ == before.after_create(
                    token@,
                    link_id,
                ) && before.create_result(token@) is Ok);
                Ok(token)
            },
            Err(e) => {
                assert(alphanumeric_text(token@, TOKEN_LEN as nat) && self@ == before.after_create(
                    token@,
                    link_id,
                ) && before.create_result(token@) == Err::<u32, RegistryError>(e));
                Err(e)
            },
        }
    }

    /// Binds the link `link_id` to the live session that goes by `token`,
    /// and gives the number of that session.
    pub fn join(&mut self, token: &str, link_id: u32) -> (result: Result<u32, HandshakeError>)
        ensures
            result == old(self)@.join_result(token@, link_id),
            final(self)@ == old(self)@.after_join(token@, link_id),
            old(self)@.wf(),
            final(self)@.wf(),
    {
        let ghost before = self@;
        proof {
            use_type_invariant(&*self);
            let k = before.place_of(token@);
            if before.has(token@) {
                assert(before.sessions.update(k, before.sessions[k]) =~= before.sessions);
            }
        }
        let session = match self.get_mut(token) {
            Some(session) => session,
            None => {
                return Err(HandshakeError::UnknownSession);
            },
        };
        if session.is_closed() {
            return Err(HandshakeError::UnknownSession);
        }
        let link = Connection {
            id: link_id,
            penalty: 0,
            failures: 0,
            state: LinkState::Handshaking,
        };
        let id = session.id();
        match session.add_connection(link) {
            Ok(_) => Ok(id),
            Err(_) => Err(HandshakeError::DuplicateLink),
        }
    }

    /// Whether a live session goes by `token`.
    pub fn is_live(&self, token: &str) -> (live: bool)
        ensures
            live == self@.live(token@),
            self@.wf(),
    {
        match self.get(token) {
            Some(session) => !session.is_closed(),
            None => false,
        }
    }

    /// Takes the session that goes by `token` out of the registry and hands
    /// it to the caller: the place of a session that has died is cleared
    /// in this way. The other sessions keep their order.
    pub fn remove(&mut self, token: &str) -> (session: Option<Session>)
        ensures
            session is Some <==> old(self)@.has(token@),
            session matches Some(s) ==> s@ == old(self)@.sessions[old(self)@.place_of(token@)],
            final(self)@ == old(self)@.after_remove(token@),
            old(self)@.wf(),
            final(self)@.wf(),
    {
        proof {
            use_type_invariant(&*self);
        }
        let k = match self.place(token) {
            Some(k) => k,
            None => {
                return None;
            },
        };
        let ghost before = self@;
        let mut shelf = Shelf::empty();
        std::mem::swap(&mut shelf, &mut self.shelf);
        let ghost tokens = shelf.tokens@;
        shelf.tokens.remove(k);
        let session = shelf.sessions.remove(k);
        assert(shelf.tokens() =~= before.tokens.remove(k as int));
        assert(shelf.sessions() =~= before.sessions.remove(k as int));
        assert forall|i: int, j: int| 0 <= i < j < shelf.tokens@.len() implies (
        #[trigger] shelf.tokens@[i])@ != (#[trigger] shelf.tokens@[j])@ by {
            let a = if i < k {
                i
            } else {
                i + 1
            };
            let b = if j < k {
                j
            } else {
                j + 1
            };
            assert(shelf.tokens@[i] == tokens[a]);
            assert(shelf.tokens@[j] == tokens[b]);
            assert(tokens[a]@ != tokens[b]@);
        }
        self.shelf = shelf;
        assert(self@.wf()) by {
            assert forall|i: int, j: int|
                0 <= i < j < self@.tokens.len() implies #[trigger] self@.tokens[i]
                != #[trigger] self@.tokens[j] by {
                assert(self.shelf.tokens@[i]@ != self.shelf.tokens@[j]@);
            }
        }
        Some(session)
    }

    /// Lets a tick of the clock pass over the links of every session.
    pub fn tick(&mut self)
        ensures
            final(self)@ == old(self)@.after_tick(),
            final(self)@.wf(),
    {
        proof {
            use_type_invariant(&*self);
        }
        let ghost before = self@;
        let n = self.shelf.sessions.len();
        let mut i: usize = 0;
        while i < n
            invariant
                i <= n,
                n == before.sessions.len(),
                self@.tokens == before.tokens,
                self@.next_id == before.next_id,
                self@.policy == before.policy,
                self@.sessions.len() == n,
                before.wf(),
                forall|j: int| 0 <= j < i ==> self@.sessions[j] == before.sessions[j].after_tick(),
                forall|j: int| i <= j < n ==> self@.sessions[j] == before.sessions[j],
            decreases n - i,
        {
            proof {
                use_type_invariant(&*self);
            }
            match self.session_at(i) {
                Some(session) => session.tick(),
                None => {},
            }
            i += 1;
        }
        assert(self@.sessions =~= before.after_tick().sessions);
    }

    /// The session at place `k`.
    fn session_at(&mut self, k: usize) -> (session: Option<&mut Session>)
        ensures
            session is Some <==> k < old(self)@.sessions.len(),
            session matches Some(s) ==> s@ == old(self)@.sessions[k as int] && final(self)@
                == (RegistryState {
                sessions: old(self)@.sessions.update(k as int, final(s)@),
                ..old(self)@
            }),
            session is None ==> final(self)@ == old(self)@,
    {
        proof {
            use_type_invariant(&*self);
        }
        if k < self.shelf.sessions.len() {
            proof {
                let sessions = self.shelf.sessions@;
                assert forall|s: Session| #![trigger sessions.update(k as int, s)]
                    sessions.update(k as int, s).map_values(|s: Session| s@)
                        == sessions.map_values(|s: Session| s@).update(k as int, s@) by {
                    assert(sessions.update(k as int, s).map_values(|s: Session| s@)
                        =~= sessions.map_values(|s: Session| s@).update(k as int, s@));
                }
            }
            Some(&mut self.shelf.sessions[k])
        } else {
            None
        }
    }

    /// Closes the session that goes by `token` and takes it out of the
    /// registry. The caller gets the session, which still holds what its
    /// consumer has not taken, and the numbers of the links that were
    /// closed, so that their transports can be shut.
    pub fn close_session(&mut self, token: &str) -> (closed: Option<(Session, Vec<u32>)>)
        ensures
            closed is Some <==> old(self)@.has(token@),
            closed matches Some((session, links)) ==> session@ == old(self)@.sessions[old(
                self,
            )@.place_of(token@)].after_close() && links@ == old(self)@.links_of(token@),
            final(self)@ == old(self)@.after_remove(token@),
            final(self)@.wf(),
    {
        match self.remove(token) {
            Some(session) => {
                let mut session = session;
                let links = session.close();
                Some((session, links))
            },
            None => None,
        }
    }
}

/// A token that no live session goes by opens nothing: the link is
/// refused with `UnknownSession`, and the registry stays as it is.
pub proof fn lemma_unknown_token_is_refused(r: RegistryState, token: Seq<char>, link_id: u32)
    requires
        !r.live(token),
    ensures
        r.join_result(token, link_id) == Err::<u32, HandshakeError>(HandshakeError::UnknownSession),
        r.after_join(token, link_id) == r,
{
}

/// A link that presents the token of a live session is bound to that
/// session, unless the session has a link of the same number: the session
/// then has one link more, the new one at the end, and the other sessions
/// are as they were.
pub proof fn lemma_join_adds_a_link(r: RegistryState, token: Seq<char>, link_id: u32)
    requires
        r.wf(),
        r.live(token),
        !r.sessions[r.place_of(token)].has_link(link_id),
    ensures
        r.join_result(token, link_id) == Ok::<u32, HandshakeError>(
            r.sessions[r.place_of(token)].id,
        ),
        r.after_join(token, link_id).wf(),
        r.after_join(token, link_id).live(token),
        r.after_join(token, link_id).place_of(token) == r.place_of(token),
        r.after_join(token, link_id).sessions[r.place_of(token)].links == r.sessions[r.place_of(
            token,
        )].links.push(fresh_link(link_id)),
        r.after_join(token, link_id).sessions[r.place_of(token)].links.len()
            == r.sessions[r.place_of(token)].links.len() + 1,
        forall|k: int|
            0 <= k < r.sessions.len() && k != r.place_of(token) ==> r.after_join(
                token,
                link_id,
            ).sessions[k] == r.sessions[k],
{
}

/// The token under which a session was made opens that session to a
/// further link: after `create_with_token` has succeeded for one link, a
/// second link that presents the token joins the session, which then has
/// both links.
pub proof fn lemma_created_session_can_be_joined(
    r: RegistryState,
    token: Seq<char>,
    first: u32,
    second: u32,
)
    requires
        r.wf(),
        r.create_result(token) is Ok,
        first != second,
    ensures
        r.after_create(token, first).wf(),
        r.after_create(token, first).live(token),
        r.after_create(token, first).join_result(token, second) == Ok::<u32, HandshakeError>(
            r.create_result(token)->Ok_0,
        ),
        r.after_create(token, first).after_join(token, second).sessions.last().links
            == seq![fresh_link(first), fresh_link(second)],
{
    let r1 = r.after_create(token, first);
    let n = r.tokens.len() as int;
    assert(r1.tokens[n] == token);
    assert forall|i: int, j: int| 0 <= i < j < r1.tokens.len() implies #[trigger] r1.tokens[i]
        != #[trigger] r1.tokens[j] by {
        if j == n {
            assert(r.tokens[i] == r1.tokens[i]);
        }
    }
    lemma_token_place(r1, n);
    let s = r1.sessions[n];
    assert(!s.has_link(second)) by {
        assert forall|i: int| 0 <= i < s.links.len() implies (#[trigger] s.links[i]).id
            != second by {}
    }
    assert(s.with_link(fresh_link(second)).links =~= seq![fresh_link(first), fresh_link(second)]);
}

} // verus!
