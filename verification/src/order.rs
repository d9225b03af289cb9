//! The order of the votes: what can depend on it, and what cannot.

use vstd::prelude::*;
use crate::account::AccountId;
use crate::laws::{
    law_resolution_decided_by_stakes, law_run_well_formed, law_well_formed_preserved, run,
};
use crate::model::{Action, EngineState};
use crate::proposal::{joined, lemma_joined_no_duplicates, ProposalState};

verus! {

/// Two lists name the same accounts.
pub open spec fn same_accounts(xs: Seq<AccountId>, ys: Seq<AccountId>) -> bool {
    forall|a: AccountId| xs.contains(a) <==> ys.contains(a)
}

/// Two proposal records that differ at most in the order in which their
/// voters are listed.
pub open spec fn alike(p: ProposalState, q: ProposalState) -> bool {
    &&& p.title == q.title
    &&& p.description == q.description
    &&& p.creator == q.creator
    &&& p.supporter_count == q.supporter_count
    &&& p.supporter_count_against == q.supporter_count_against
    &&& p.closed == q.closed
    &&& p.result == q.result
    &&& p.deadline == q.deadline
    &&& p.referendum_index == q.referendum_index
    &&& same_accounts(p.for_voters, q.for_voters)
    &&& same_accounts(p.against_voters, q.against_voters)
}

/// Two states of the engine that differ at most in the order in which the
/// voters of each proposal are listed: they have the same configuration, the
/// same stakes and, proposal by proposal, the same records but for that
/// order.
pub open spec fn equivalent(s: EngineState, t: EngineState) -> bool {
    &&& s.stakes == t.stakes
    &&& s.min_deposit == t.min_deposit
    &&& s.voting_period == t.voting_period
    &&& s.owner == t.owner
    &&& s.supported_assets == t.supported_assets
    &&& s.proposals.len() == t.proposals.len()
    &&& forall|i: int|
        0 <= i < s.proposals.len() ==> alike(#[trigger] s.proposals[i], #[trigger] t.proposals[i])
}

/// The resolution looks at the stakes and at who voted, not at the order of
/// the votes: two well-formed states that differ at most in the order of
/// their voter lists hold the same totals for every proposal, decide it
/// alike, refuse the same attempts to close it, and close it with the same
/// result and the same referendum reference.
pub proof fn law_resolution_ignores_order(
    s: EngineState,
    t: EngineState,
    proposal_id: u32,
    caller: AccountId,
    referendum: Option<u32>,
)
    requires
        s.wf(),
        t.wf(),
        equivalent(s, t),
        s.has(proposal_id),
    ensures
        s.total(proposal_id, true) == t.total(proposal_id, true),
        s.total(proposal_id, false) == t.total(proposal_id, false),
        s.decision(proposal_id) == t.decision(proposal_id),
        s.close_refusal(proposal_id, caller, referendum) == t.close_refusal(
            proposal_id,
            caller,
            referendum,
        ),
        s.closed(proposal_id, referendum).proposals[proposal_id as int].result == t.closed(
            proposal_id,
            referendum,
        ).proposals[proposal_id as int].result,
        s.closed(proposal_id, referendum).proposals[proposal_id as int].referendum_index
            == t.closed(proposal_id, referendum).proposals[proposal_id as int].referendum_index,
        equivalent(s.closed(proposal_id, referendum), t.closed(proposal_id, referendum)),
{
    assert(alike(s.proposals[proposal_id as int], t.proposals[proposal_id as int]));
    law_resolution_decided_by_stakes(s, t, proposal_id);
    let s2 = s.closed(proposal_id, referendum);
    let t2 = t.closed(proposal_id, referendum);
    assert forall|i: int| 0 <= i < s2.proposals.len() implies alike(
        #[trigger] s2.proposals[i],
        #[trigger] t2.proposals[i],
    ) by {
        assert(alike(s.proposals[i], t.proposals[i]));
    }
}

/// Joining a list in either order of two accounts lists the same accounts.
proof fn lemma_joined_twice(voters: Seq<AccountId>, a: AccountId, b: AccountId)
    requires
        voters.no_duplicates(),
    ensures
        same_accounts(joined(joined(voters, a), b), joined(joined(voters, b), a)),
{
    let ab = joined(joined(voters, a), b);
    let ba = joined(joined(voters, b), a);
    lemma_joined_no_duplicates(voters, a);
    lemma_joined_no_duplicates(voters, b);
    lemma_joined_no_duplicates(joined(voters, a), b);
    lemma_joined_no_duplicates(joined(voters, b), a);
    assert forall|c: AccountId| ab.contains(c) <==> ba.contains(c) by {
        assert(ab.contains(c) <==> (c == b || joined(voters, a).contains(c)));
        assert(joined(voters, a).contains(c) <==> (c == a || voters.contains(c)));
        assert(ba.contains(c) <==> (c == a || joined(voters, b).contains(c)));
        assert(joined(voters, b).contains(c) <==> (c == b || voters.contains(c)));
    }
}

/// Votes commute: whether a vote is accepted does not depend on the votes
/// cast before it, and two votes, accepted or not, lead to the same stakes,
/// the same counts and the same voters in either order, so that the
/// resolution of every proposal is the same. Only the order in which the
/// voters are listed can differ.
pub proof fn law_votes_commute(s: EngineState, first: Action, second: Action)
    requires
        s.wf(),
        first is Vote,
        second is Vote,
    ensures
        s.apply(first).refusal(second) == s.refusal(second),
        s.apply(second).refusal(first) == s.refusal(first),
        equivalent(s.apply(first).apply(second), s.apply(second).apply(first)),
        forall|proposal_id: u32|
            s.has(proposal_id) ==> #[trigger] s.apply(first).apply(second).decision(proposal_id)
                == s.apply(second).apply(first).decision(proposal_id),
{
    let a = s.apply(first).apply(second);
    let b = s.apply(second).apply(first);
    law_well_formed_preserved(s, first);
    law_well_formed_preserved(s, second);
    law_well_formed_preserved(s.apply(first), second);
    law_well_formed_preserved(s.apply(second), first);
    assert(s.apply(first).refusal(second) == s.refusal(second));
    assert(s.apply(second).refusal(first) == s.refusal(first));
    assert(a.stakes =~= b.stakes);
    assert(a.proposals.len() == b.proposals.len());
    assert forall|i: int| 0 <= i < a.proposals.len() implies alike(
        #[trigger] a.proposals[i],
        #[trigger] b.proposals[i],
    ) by {
        let p = s.proposals[i];
        assert(p.wf());
        if s.refusal(first) is None && s.refusal(second) is None {
            if first->Vote_proposal_id == i && second->Vote_proposal_id == i {
                lemma_joined_twice(p.for_voters, first->Vote_caller, second->Vote_caller);
                lemma_joined_twice(p.against_voters, first->Vote_caller, second->Vote_caller);
            }
        }
    }
    assert(equivalent(a, b));
    assert forall|proposal_id: u32| s.has(proposal_id) implies #[trigger] a.decision(proposal_id)
        == b.decision(proposal_id) by {
        law_resolution_ignores_order(a, b, proposal_id, s.owner, None);
    }
}

/// Being equivalent is symmetric and transitive.
proof fn lemma_equivalent_relation(s: EngineState, t: EngineState, u: EngineState)
    ensures
        equivalent(s, s),
        equivalent(s, t) ==> equivalent(t, s),
        equivalent(s, t) && equivalent(t, u) ==> equivalent(s, u),
{
    if equivalent(s, t) {
        assert forall|i: int| 0 <= i < t.proposals.len() implies alike(
            #[trigger] t.proposals[i],
            #[trigger] s.proposals[i],
        ) by {
            assert(alike(s.proposals[i], t.proposals[i]));
        }
        if equivalent(t, u) {
            assert forall|i: int| 0 <= i < s.proposals.len() implies alike(
                #[trigger] s.proposals[i],
                #[trigger] u.proposals[i],
            ) by {
                assert(alike(s.proposals[i], t.proposals[i]));
                assert(alike(t.proposals[i], u.proposals[i]));
            }
        }
    }
}

/// Equivalent states behave alike: they refuse the same actions, and an
/// action leads from them to equivalent states.
pub proof fn law_equivalent_states_behave_alike(s: EngineState, t: EngineState, action: Action)
    requires
        s.wf(),
        t.wf(),
        equivalent(s, t),
    ensures
        s.refusal(action) == t.refusal(action),
        equivalent(s.apply(action), t.apply(action)),
{
    match action {
        Action::Submit { .. } => {
            assert(s.refusal(action) == t.refusal(action));
            let a = s.apply(action);
            let b = t.apply(action);
            assert forall|i: int| 0 <= i < a.proposals.len() implies alike(
                #[trigger] a.proposals[i],
                #[trigger] b.proposals[i],
            ) by {
                if i < s.proposals.len() {
                    assert(alike(s.proposals[i], t.proposals[i]));
                }
            }
        },
        Action::Vote { proposal_id, caller, in_favor, .. } => {
            if s.has(proposal_id) {
                assert(alike(s.proposals[proposal_id as int], t.proposals[proposal_id as int]));
            }
            assert(s.refusal(action) == t.refusal(action));
            let a = s.apply(action);
            let b = t.apply(action);
            assert forall|i: int| 0 <= i < a.proposals.len() implies alike(
                #[trigger] a.proposals[i],
                #[trigger] b.proposals[i],
            ) by {
                let p = s.proposals[i];
                let q = t.proposals[i];
                assert(alike(p, q));
                assert(p.wf() && q.wf());
                lemma_joined_no_duplicates(p.for_voters, caller);
                lemma_joined_no_duplicates(q.for_voters, caller);
                lemma_joined_no_duplicates(p.against_voters, caller);
                lemma_joined_no_duplicates(q.against_voters, caller);
                assert(same_accounts(joined(p.for_voters, caller), joined(q.for_voters, caller))) by {
                    assert forall|c: AccountId|
                        joined(p.for_voters, caller).contains(c) <==> joined(
                            q.for_voters,
                            caller,
                        ).contains(c) by {
                        assert(p.for_voters.contains(c) <==> q.for_voters.contains(c));
                    }
                }
                assert(same_accounts(
                    joined(p.against_voters, caller),
                    joined(q.against_voters, caller),
                )) by {
                    assert forall|c: AccountId|
                        joined(p.against_voters, caller).contains(c) <==> joined(
                            q.against_voters,
                            caller,
                        ).contains(c) by {
                        assert(p.against_voters.contains(c) <==> q.against_voters.contains(c));
                    }
                }
            }
        },
        Action::Close { proposal_id, caller, referendum } => {
            if s.has(proposal_id) {
                assert(alike(s.proposals[proposal_id as int], t.proposals[proposal_id as int]));
                law_resolution_ignores_order(s, t, proposal_id, caller, referendum);
            }
        },
        Action::Cancel { proposal_id, .. } => {
            if s.has(proposal_id) {
                assert(alike(s.proposals[proposal_id as int], t.proposals[proposal_id as int]));
            }
            assert(s.refusal(action) == t.refusal(action));
            let a = s.apply(action);
            let b = t.apply(action);
            assert forall|i: int| 0 <= i < a.proposals.len() implies alike(
                #[trigger] a.proposals[i],
                #[trigger] b.proposals[i],
            ) by {
                assert(alike(s.proposals[i], t.proposals[i]));
            }
        },
    }
}

/// In a series of votes, one vote may be taken out and cast last instead.
proof fn lemma_vote_moved_last(s: EngineState, votes: Seq<Action>, i: int)
    requires
        s.wf(),
        forall|k: int| 0 <= k < votes.len() ==> (#[trigger] votes[k]) is Vote,
        0 <= i < votes.len(),
    ensures
        equivalent(run(s, votes), run(s, votes.remove(i).push(votes[i]))),
    decreases votes.len(),
{
    let moved = votes.remove(i).push(votes[i]);
    if i == votes.len() - 1 {
        assert(moved == votes);
        lemma_equivalent_relation(run(s, votes), run(s, votes), run(s, votes));
    } else {
        let front = votes.drop_last();
        let last = votes.last();
        let vote = votes[i];
        let others = front.remove(i);
        let base = run(s, others);
        // By induction, the vote may be cast last among the earlier ones.
        lemma_vote_moved_last(s, front, i);
        assert(front[i] == vote);
        assert(others.push(vote).drop_last() == others);
        assert(run(s, others.push(vote)) == base.apply(vote));
        law_run_well_formed(s, front);
        law_run_well_formed(s, others);
        law_well_formed_preserved(base, vote);
        law_well_formed_preserved(base, last);
        law_equivalent_states_behave_alike(run(s, front), base.apply(vote), last);
        // The vote and the last one may change places.
        law_votes_commute(base, vote, last);
        assert(moved.drop_last() == others.push(last));
        assert(moved.last() == vote);
        assert(others.push(last).drop_last() == others);
        assert(run(s, others.push(last)) == base.apply(last));
        assert(run(s, moved) == base.apply(last).apply(vote));
        lemma_equivalent_relation(
            run(s, votes),
            base.apply(vote).apply(last),
            base.apply(last).apply(vote),
        );
    }
}

/// The order of the votes does not matter: two series of votes that hold the
/// same votes, each as often, lead to the same stakes, counts and voters, and
/// so to the same totals and the same decision for every proposal; closing a
/// proposal after either series is refused alike, or gives the same result
/// and the same referendum reference. Only the order in which the voters are
/// listed can differ.
pub proof fn law_order_of_votes_is_immaterial(
    s: EngineState,
    votes: Seq<Action>,
    shuffled: Seq<Action>,
)
    requires
        s.wf(),
        forall|k: int| 0 <= k < votes.len() ==> (#[trigger] votes[k]) is Vote,
        votes.to_multiset() == shuffled.to_multiset(),
    ensures
        equivalent(run(s, votes), run(s, shuffled)),
        forall|proposal_id: u32|
            run(s, votes).has(proposal_id) ==> {
                &&& run(s, votes).total(proposal_id, true) == run(s, shuffled).total(
                    proposal_id,
                    true,
                )
                &&& run(s, votes).total(proposal_id, false) == run(s, shuffled).total(
                    proposal_id,
                    false,
                )
                &&& #[trigger] run(s, votes).decision(proposal_id) == run(s, shuffled).decision(
                    proposal_id,
                )
            },
        forall|proposal_id: u32, caller: AccountId, referendum: Option<u32>|
            run(s, votes).has(proposal_id) ==> {
                &&& #[trigger] run(s, votes).close_refusal(proposal_id, caller, referendum) == run(
                    s,
                    shuffled,
                ).close_refusal(proposal_id, caller, referendum)
                &&& run(s, votes).closed(proposal_id, referendum).proposals[proposal_id as int].result
                    == run(s, shuffled).closed(
                    proposal_id,
                    referendum,
                ).proposals[proposal_id as int].result
                &&& run(s, votes).closed(
                    proposal_id,
                    referendum,
                ).proposals[proposal_id as int].referendum_index == run(s, shuffled).closed(
                    proposal_id,
                    referendum,
                ).proposals[proposal_id as int].referendum_index
            },
    decreases votes.len(),
{
    votes.to_multiset_ensures();
    shuffled.to_multiset_ensures();
    if votes.len() == 0 {
        assert(shuffled.len() == 0);
        lemma_equivalent_relation(s, s, s);
    } else {
        let vote = votes.last();
        let front = votes.drop_last();
        assert(votes.contains(vote));
        assert(votes.to_multiset().count(vote) > 0);
        assert(shuffled.to_multiset().count(vote) > 0);
        assert(shuffled.contains(vote));
        let j = choose|j: int| 0 <= j < shuffled.len() && shuffled[j] == vote;
        let rest = shuffled.remove(j);
        assert(front == votes.remove(votes.len() - 1));
        assert(front.to_multiset() == rest.to_multiset());
        assert forall|k: int| 0 <= k < shuffled.len() implies (#[trigger] shuffled[k]) is Vote by {
            assert(shuffled.contains(shuffled[k]));
            assert(shuffled.to_multiset().count(shuffled[k]) > 0);
            assert(votes.to_multiset().count(shuffled[k]) > 0);
            assert(votes.contains(shuffled[k]));
        }
        law_order_of_votes_is_immaterial(s, front, rest);
        law_run_well_formed(s, front);
        law_run_well_formed(s, rest);
        law_equivalent_states_behave_alike(run(s, front), run(s, rest), vote);
        assert(rest.push(vote).drop_last() == rest);
        assert(run(s, rest.push(vote)) == run(s, rest).apply(vote));
        lemma_vote_moved_last(s, shuffled, j);
        lemma_equivalent_relation(run(s, shuffled), run(s, rest.push(vote)), run(s, votes));
        lemma_equivalent_relation(run(s, votes), run(s, rest.push(vote)), run(s, shuffled));
    }
    law_run_well_formed(s, votes);
    law_run_well_formed(s, shuffled);
    assert forall|proposal_id: u32| run(s, votes).has(proposal_id) implies {
        &&& run(s, votes).total(proposal_id, true) == run(s, shuffled).total(proposal_id, true)
        &&& run(s, votes).total(proposal_id, false) == run(s, shuffled).total(proposal_id, false)
        &&& #[trigger] run(s, votes).decision(proposal_id) == run(s, shuffled).decision(
            proposal_id,
        )
    } by {
        law_resolution_ignores_order(run(s, votes), run(s, shuffled), proposal_id, s.owner, None);
    }
    assert forall|proposal_id: u32, caller: AccountId, referendum: Option<u32>|
        run(s, votes).has(proposal_id) implies {
        &&& #[trigger] run(s, votes).close_refusal(proposal_id, caller, referendum) == run(
            s,
            shuffled,
        ).close_refusal(proposal_id, caller, referendum)
        &&& run(s, votes).closed(proposal_id, referendum).proposals[proposal_id as int].result
            == run(s, shuffled).closed(proposal_id, referendum).proposals[proposal_id as int].result
        &&& run(s, votes).closed(proposal_id, referendum).proposals[proposal_id as int].referendum_index
            == run(s, shuffled).closed(
            proposal_id,
            referendum,
        ).proposals[proposal_id as int].referendum_index
    } by {
        law_resolution_ignores_order(
            run(s, votes),
            run(s, shuffled),
            proposal_id,
            caller,
            referendum,
        );
    }
}

} // verus!
