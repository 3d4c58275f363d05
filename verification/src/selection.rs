//! Path selection: which link of a session carries the next packet.

use crate::connection::{Connection, Policy};
use vstd::prelude::*;

verus! {

/// How long link `i` has to wait for its turn when the round starts at
/// `cursor`: the links take turns in the order of their places, and the
/// round wraps at the end.
pub open spec fn turn(i: int, cursor: nat, len: nat) -> int
    recommends
        0 <= i < len,
{
    let start = (cursor % len) as int;
    if i >= start {
        i - start
    } else {
        i + len - start
    }
}

/// The link at place `i` may be chosen for sending.
pub open spec fn eligible_at(links: Seq<Connection>, policy: Policy, i: int) -> bool {
    0 <= i < links.len() && links[i].eligible(policy)
}

/// Link `a` is to be chosen before link `b`: its penalty is lower, or the
/// penalties are equal and its turn comes no later.
pub open spec fn precedes(links: Seq<Connection>, cursor: nat, a: int, b: int) -> bool {
    links[a].penalty < links[b].penalty || (links[a].penalty == links[b].penalty && turn(
        a,
        cursor,
        links.len(),
    ) <= turn(b, cursor, links.len()))
}

/// Place `k` is the one that the policy chooses: the link there may be
/// chosen, no link that may be chosen has a lower penalty, and among those
/// with the same penalty its turn comes first.
pub open spec fn is_choice(links: Seq<Connection>, cursor: nat, policy: Policy, k: int) -> bool {
    &&& eligible_at(links, policy, k)
    &&& forall|j: int| #[trigger] eligible_at(links, policy, j) ==> precedes(links, cursor, k, j)
}

/// No link may be chosen.
pub open spec fn none_eligible(links: Seq<Connection>, policy: Policy) -> bool {
    forall|j: int| !#[trigger] eligible_at(links, policy, j)
}

/// The policy never chooses two places at once.
pub proof fn lemma_choice_is_unique(
    links: Seq<Connection>,
    cursor: nat,
    policy: Policy,
    a: int,
    b: int,
)
    requires
        is_choice(links, cursor, policy, a),
        is_choice(links, cursor, policy, b),
    ensures
        a == b,
{
    assert(eligible_at(links, policy, a));
    assert(eligible_at(links, policy, b));
    assert(precedes(links, cursor, a, b));
    assert(precedes(links, cursor, b, a));
}

/// Where some link may be chosen, the policy chooses one.
pub proof fn lemma_choice_exists(links: Seq<Connection>, cursor: nat, policy: Policy)
    requires
        !none_eligible(links, policy),
    ensures
        exists|k: int| is_choice(links, cursor, policy, k),
{
    let k = choice_among(links, cursor, policy, links.len() as int);
    lemma_choice_among(links, cursor, policy, links.len() as int);
    assert(k is Some) by {
        let j = choose|j: int| eligible_at(links, policy, j);
        assert(eligible_at(links, policy, j));
    }
    assert(is_choice(links, cursor, policy, k->0)) by {
        assert forall|j: int| #[trigger] eligible_at(links, policy, j) implies precedes(
            links,
            cursor,
            k->0,
            j,
        ) by {}
    }
}

/// The place chosen among the first `n` links, if any of them may be chosen.
pub open spec fn choice_among(
    links: Seq<Connection>,
    cursor: nat,
    policy: Policy,
    n: int,
) -> Option<int>
    decreases n,
{
    if n <= 0 {
        None
    } else {
        let before = choice_among(links, cursor, policy, n - 1);
        if !eligible_at(links, policy, n - 1) {
            before
        } else {
            match before {
                Some(b) => if precedes(links, cursor, b, n - 1) {
                    Some(b)
                } else {
                    Some(n - 1)
                },
                None => Some(n - 1),
            }
        }
    }
}

/// `choice_among` is the choice of the policy among the first `n` links.
pub proof fn lemma_choice_among(links: Seq<Connection>, cursor: nat, policy: Policy, n: int)
    requires
        0 <= n <= links.len(),
    ensures
        match choice_among(links, cursor, policy, n) {
            Some(k) => 0 <= k < n && eligible_at(links, policy, k) && forall|j: int|
                j < n && #[trigger] eligible_at(links, policy, j) ==> precedes(
                    links,
                    cursor,
                    k,
                    j,
                ),
            None => forall|j: int| j < n ==> !#[trigger] eligible_at(links, policy, j),
        },
    decreases n,
{
    if n > 0 {
        lemma_choice_among(links, cursor, policy, n - 1);
    }
}

/// Chooses the link that carries the next packet: the one with the lowest
/// penalty among those that are ready and not over the exclusion
/// threshold; among equals, the one whose turn comes first after `cursor`.
pub fn select_link(links: &Vec<Connection>, cursor: usize, policy: &Policy) -> (chosen: Option<
    usize,
>)
    ensures
        chosen is None <==> none_eligible(links@, *policy),
        chosen matches Some(k) ==> is_choice(links@, cursor as nat, *policy, k as int),
{
    let len = links.len();
    if len == 0 {
        return None;
    }
    let start = cursor % len;
    let mut best: Option<usize> = None;
    let mut best_turn: usize = 0;
    let mut i: usize = 0;
    while i < len
        invariant
            0 <= i <= len,
            len == links@.len(),
            len > 0,
            start == cursor % len,
            best matches Some(b) ==> b < i && best_turn == turn(
                b as int,
                cursor as nat,
                len as nat,
            ),
            match best {
                Some(b) => choice_among(links@, cursor as nat, *policy, i as int) == Some(
                    b as int,
                ),
                None => choice_among(links@, cursor as nat, *policy, i as int) is None,
            },
        decreases len - i,
    {
        let link = links[i];
        if link.state == crate::connection::LinkState::Ready && link.penalty
            <= policy.exclusion_threshold {
            let my_turn = if i >= start {
                i - start
            } else {
                i + (len - start)
            };
            let better = match best {
                Some(b) => !(links[b].penalty < link.penalty || (links[b].penalty == link.penalty
                    && best_turn <= my_turn)),
                None => true,
            };
            if better {
                best = Some(i);
                best_turn = my_turn;
            }
        }
        i += 1;
    }
    proof {
        lemma_choice_among(links@, cursor as nat, *policy, len as int);
        if let Some(b) = best {
            assert forall|j: int| #[trigger]
                eligible_at(links@, *policy, j) implies precedes(
                links@,
                cursor as nat,
                b as int,
                j,
            ) by {}
        }
    }
    best
}

} // verus!
