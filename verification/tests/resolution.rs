use governance_tracker::account::AccountId;
use governance_tracker::error::Error;
use governance_tracker::events::{ProposalCancelled, ProposalClosed};
use governance_tracker::guard::authorized;
use governance_tracker::proposal::Outcome;
use governance_tracker::wide::{resolve, Sum};
use governance_tracker::tracker::GovernanceTracker;

const OWNER: u8 = 1;
const CREATOR: u8 = 2;
const ALICE: u8 = 3;
const BOB: u8 = 4;
const CAROL: u8 = 5;

fn account(byte: u8) -> AccountId {
    AccountId::new([byte; 32])
}

/// Minimum deposit 100, voting period 50, assets 7 and 8; one proposal,
/// submitted at block 1000.
fn engine_with_proposal() -> GovernanceTracker {
    let mut g = GovernanceTracker::new(100, 50, account(OWNER), vec![7, 8]);
    g.submit_proposal(String::from("roads"), String::from("build them"), 100, account(CREATOR), 1000)
        .unwrap();
    g
}

fn sum(amounts: &[u128]) -> Sum {
    let mut sum = Sum::zero();
    for amount in amounts {
        sum = sum.plus(*amount);
    }
    sum
}

#[test]
fn resolve_compares_exactly() {
    assert_eq!(resolve(&sum(&[]), &sum(&[])), Outcome::Indecision);
    assert_eq!(resolve(&sum(&[1]), &sum(&[])), Outcome::InFavor);
    assert_eq!(resolve(&sum(&[]), &sum(&[1])), Outcome::Against);
    assert_eq!(resolve(&sum(&[u128::MAX]), &sum(&[u128::MAX])), Outcome::Indecision);
    assert_eq!(resolve(&sum(&[u128::MAX]), &sum(&[u128::MAX - 1])), Outcome::InFavor);
    assert_eq!(resolve(&sum(&[u128::MAX - 1]), &sum(&[u128::MAX])), Outcome::Against);
}

#[test]
fn resolve_compares_sums_beyond_the_largest_amount() {
    // Two to the 128th against the largest amount.
    assert_eq!(resolve(&sum(&[u128::MAX, 1]), &sum(&[u128::MAX])), Outcome::InFavor);
    assert_eq!(resolve(&sum(&[u128::MAX]), &sum(&[1, u128::MAX])), Outcome::Against);
    // The same sum, added up in two ways.
    assert_eq!(resolve(&sum(&[u128::MAX, 5]), &sum(&[3, 2, u128::MAX])), Outcome::Indecision);
    // A small rest does not outweigh having gone past once more.
    assert_eq!(resolve(&sum(&[u128::MAX, u128::MAX, 2]), &sum(&[u128::MAX, u128::MAX - 1])), Outcome::InFavor);
    assert_eq!(resolve(&sum(&[u128::MAX, u128::MAX - 1]), &sum(&[u128::MAX, u128::MAX, 2])), Outcome::Against);
}

#[test]
fn sums_keep_what_goes_past_the_largest_amount() {
    let small = sum(&[7, 8]);
    assert_eq!((small.high, small.low), (0, 15));
    assert_eq!(small.amount(), Some(15));
    assert_eq!(sum(&[u128::MAX]).amount(), Some(u128::MAX));
    let large = sum(&[u128::MAX, 1]);
    assert_eq!((large.high, large.low), (1, 0));
    assert_eq!(large.amount(), None);
    let larger = sum(&[u128::MAX, u128::MAX, u128::MAX]);
    assert_eq!((larger.high, larger.low), (2, u128::MAX - 2));
    let both = large.plus_sum(&larger);
    assert_eq!((both.high, both.low), (3, u128::MAX - 2));
    let carried = larger.plus_sum(&sum(&[5]));
    assert_eq!((carried.high, carried.low), (3, 2));
    assert!(both.exceeds(&carried));
    assert!(!carried.exceeds(&both));
    assert!(!both.exceeds(&both));
    assert!(carried.exceeds(&larger));
}

#[test]
fn authorized_are_creator_and_owner_only() {
    assert!(authorized(&account(CREATOR), &account(CREATOR), &account(OWNER)));
    assert!(authorized(&account(OWNER), &account(CREATOR), &account(OWNER)));
    assert!(!authorized(&account(ALICE), &account(CREATOR), &account(OWNER)));
}

#[test]
fn equal_stakes_close_in_indecision() {
    let mut g = engine_with_proposal();
    assert!(g.vote_for(0, 7, 500, account(CREATOR), 1001).is_ok());
    assert!(g.vote_against(0, 7, 500, account(ALICE), 1002).is_ok());
    assert_eq!(g.tally(0), Some((500, 500)));
    let closed = g.close_vote(0, account(CREATOR), Some(77));
    assert_eq!(
        closed,
        Ok(ProposalClosed { proposal_id: 0, result: Outcome::Indecision, referendum_index: None })
    );
    let p = g.get_proposal(0).unwrap();
    assert!(p.closed);
    assert_eq!(p.result, Outcome::Indecision);
    assert_eq!(p.referendum_index, None);
}

#[test]
fn the_deposit_of_a_submission_is_no_stake() {
    let mut g = engine_with_proposal();
    assert_eq!(g.tally(0), Some((0, 0)));
    assert!(g.vote_against(0, 7, 100, account(ALICE), 1002).is_ok());
    assert_eq!(g.tally(0), Some((0, 100)));
    assert_eq!(g.pending_outcome(0, account(CREATOR)), Ok(Outcome::Against));
}

#[test]
fn submission_and_one_vote_against_with_nothing_staked_is_a_tie() {
    let mut g = GovernanceTracker::new(0, 50, account(OWNER), vec![7]);
    g.submit_proposal(String::from("t"), String::from("d"), 0, account(CREATOR), 1000).unwrap();
    assert!(g.vote_against(0, 7, 0, account(ALICE), 1001).is_ok());
    let closed = g.close_vote(0, account(CREATOR), None).unwrap();
    assert_eq!(closed.result, Outcome::Indecision);
    assert_eq!(closed.referendum_index, None);
}

#[test]
fn proposal_without_votes_closes_in_indecision() {
    let mut g = engine_with_proposal();
    let closed = g.close_vote(0, account(OWNER), None).unwrap();
    assert_eq!(closed.result, Outcome::Indecision);
    assert_eq!(closed.referendum_index, None);
}

#[test]
fn more_stake_for_closes_in_favor_with_a_referendum() {
    let mut g = engine_with_proposal();
    assert!(g.vote_for(0, 7, 501, account(ALICE), 1001).is_ok());
    assert!(g.vote_against(0, 7, 500, account(BOB), 1002).is_ok());
    assert_eq!(g.pending_outcome(0, account(CREATOR)), Ok(Outcome::InFavor));
    let closed = g.close_vote(0, account(CREATOR), Some(42));
    assert_eq!(
        closed,
        Ok(ProposalClosed { proposal_id: 0, result: Outcome::InFavor, referendum_index: Some(42) })
    );
    let p = g.get_proposal(0).unwrap();
    assert!(p.closed);
    assert_eq!(p.result, Outcome::InFavor);
    assert_eq!(p.referendum_index, Some(42));

    let before = g.clone();
    assert_eq!(g.cancel_proposal(0, account(CREATOR)), Err(Error::AlreadyClosed));
    assert_eq!(g.cancel_proposal(0, account(OWNER)), Err(Error::AlreadyClosed));
    assert_eq!(g, before);
}

#[test]
fn more_stake_against_closes_against_without_a_referendum() {
    let mut g = engine_with_proposal();
    assert!(g.vote_for(0, 7, 500, account(ALICE), 1001).is_ok());
    assert!(g.vote_against(0, 7, 501, account(BOB), 1002).is_ok());
    let closed = g.close_vote(0, account(OWNER), Some(42));
    assert_eq!(
        closed,
        Ok(ProposalClosed { proposal_id: 0, result: Outcome::Against, referendum_index: None })
    );
    assert_eq!(g.get_proposal(0).unwrap().referendum_index, None);
}

#[test]
fn stake_decides_not_the_number_of_votes() {
    let mut g = engine_with_proposal();
    assert!(g.vote_for(0, 7, 100, account(ALICE), 1001).is_ok());
    assert!(g.vote_for(0, 7, 100, account(BOB), 1001).is_ok());
    assert!(g.vote_for(0, 8, 100, account(CAROL), 1001).is_ok());
    assert!(g.vote_against(0, 8, 301, account(CREATOR), 1001).is_ok());
    assert_eq!(g.tally(0), Some((300, 301)));
    assert_eq!(g.close_vote(0, account(OWNER), None).unwrap().result, Outcome::Against);
}

#[test]
fn tally_adds_over_assets_and_voters() {
    let mut g = engine_with_proposal();
    assert!(g.vote_for(0, 7, 100, account(ALICE), 1001).is_ok());
    assert!(g.vote_for(0, 8, 200, account(ALICE), 1001).is_ok());
    assert!(g.vote_for(0, 7, 400, account(BOB), 1001).is_ok());
    assert!(g.vote_for(0, 7, 800, account(ALICE), 1001).is_ok());
    assert!(g.vote_against(0, 8, 1600, account(ALICE), 1001).is_ok());
    assert!(g.vote_against(0, 7, 3200, account(CAROL), 1001).is_ok());
    assert_eq!(g.tally(0), Some((1500, 4800)));
    assert_eq!(g.tally(1), None);
}

#[test]
fn tally_counts_stakes_of_its_own_proposal_only() {
    let mut g = engine_with_proposal();
    g.submit_proposal(String::from("parks"), String::from("y"), 100, account(ALICE), 1000).unwrap();
    assert!(g.vote_for(0, 7, 100, account(ALICE), 1001).is_ok());
    assert!(g.vote_against(1, 7, 900, account(ALICE), 1001).is_ok());
    assert_eq!(g.tally(0), Some((100, 0)));
    assert_eq!(g.tally(1), Some((0, 900)));
}

#[test]
fn tally_of_too_much_is_none() {
    let mut g = engine_with_proposal();
    assert!(g.vote_for(0, 7, u128::MAX, account(ALICE), 1001).is_ok());
    assert_eq!(g.tally(0), Some((u128::MAX, 0)));
    assert!(g.vote_for(0, 8, 100, account(BOB), 1001).is_ok());
    assert_eq!(g.tally(0), None);
}

#[test]
fn close_in_favor_without_a_referendum_fails_and_changes_nothing() {
    let mut g = engine_with_proposal();
    assert!(g.vote_for(0, 7, 501, account(ALICE), 1001).is_ok());
    let before = g.clone();
    assert_eq!(g.close_vote(0, account(CREATOR), None), Err(Error::ReferendumSubmissionFailed));
    assert_eq!(g, before);
    assert!(!g.get_proposal(0).unwrap().closed);
    // The proposal is still open: it takes votes and can be closed later.
    assert!(g.vote_against(0, 7, 100, account(BOB), 1002).is_ok());
    assert_eq!(g.close_vote(0, account(CREATOR), Some(9)).unwrap().referendum_index, Some(9));
}

#[test]
fn close_is_for_creator_and_owner_only() {
    let mut g = engine_with_proposal();
    let before = g.clone();
    assert_eq!(g.close_vote(0, account(ALICE), Some(1)), Err(Error::NotCreator));
    assert_eq!(g.pending_outcome(0, account(ALICE)), Err(Error::NotCreator));
    assert_eq!(g.cancel_proposal(0, account(ALICE)), Err(Error::NotCreator));
    assert_eq!(g, before);
    assert!(g.close_vote(0, account(OWNER), None).is_ok());

    let mut g = engine_with_proposal();
    assert!(g.close_vote(0, account(CREATOR), None).is_ok());
}

#[test]
fn close_of_an_unknown_proposal_is_refused() {
    let mut g = engine_with_proposal();
    let before = g.clone();
    assert_eq!(g.close_vote(1, account(OWNER), Some(1)), Err(Error::ProposalNotFound));
    assert_eq!(g.pending_outcome(1, account(OWNER)), Err(Error::ProposalNotFound));
    assert_eq!(g.cancel_proposal(1, account(OWNER)), Err(Error::ProposalNotFound));
    assert_eq!(g, before);
}

#[test]
fn close_happens_once() {
    let mut g = engine_with_proposal();
    assert!(g.vote_against(0, 7, 100, account(BOB), 1002).is_ok());
    assert!(g.close_vote(0, account(CREATOR), None).is_ok());
    let before = g.clone();
    assert_eq!(g.close_vote(0, account(CREATOR), Some(5)), Err(Error::AlreadyClosed));
    assert_eq!(g.close_vote(0, account(ALICE), Some(5)), Err(Error::AlreadyClosed));
    assert_eq!(g.pending_outcome(0, account(CREATOR)), Err(Error::AlreadyClosed));
    assert_eq!(g, before);
    assert_eq!(g.get_proposal(0).unwrap().result, Outcome::Against);
}

#[test]
fn nothing_changes_a_closed_proposal() {
    let mut g = engine_with_proposal();
    assert!(g.vote_for(0, 7, 300, account(ALICE), 1001).is_ok());
    assert!(g.vote_against(0, 8, 200, account(BOB), 1001).is_ok());
    assert!(g.close_vote(0, account(CREATOR), Some(3)).is_ok());
    let record = g.get_proposal(0);
    let stakes_alice = g.get_voter_stakes(0, account(ALICE), 7);
    let stakes_bob = g.get_voter_stakes(0, account(BOB), 8);

    assert_eq!(g.vote_for(0, 7, 300, account(ALICE), 1001), Err(Error::ProposalClosed));
    assert_eq!(g.vote_against(0, 7, 300, account(CAROL), 1001), Err(Error::ProposalClosed));
    assert_eq!(g.close_vote(0, account(OWNER), Some(8)), Err(Error::AlreadyClosed));
    assert_eq!(g.cancel_proposal(0, account(OWNER)), Err(Error::AlreadyClosed));
    g.submit_proposal(String::from("parks"), String::from("y"), 100, account(ALICE), 1000).unwrap();
    assert!(g.vote_for(1, 7, 300, account(ALICE), 1001).is_ok());
    assert!(g.cancel_proposal(1, account(ALICE)).is_ok());

    assert_eq!(g.get_proposal(0), record);
    assert_eq!(g.get_voter_stakes(0, account(ALICE), 7), stakes_alice);
    assert_eq!(g.get_voter_stakes(0, account(BOB), 8), stakes_bob);
    assert_eq!(g.get_voter_stakes(0, account(CAROL), 7), (0, 0));
}

#[test]
fn cancel_closes_without_a_decision() {
    let mut g = engine_with_proposal();
    assert!(g.vote_for(0, 7, 300, account(ALICE), 1001).is_ok());
    assert_eq!(g.cancel_proposal(0, account(CREATOR)), Ok(ProposalCancelled { proposal_id: 0 }));
    let p = g.get_proposal(0).unwrap();
    assert!(p.closed);
    assert_eq!(p.result, Outcome::Unresolved);
    assert_eq!(p.referendum_index, None);
    assert_eq!(p.supporter_count, 1);
    assert_eq!(p.for_voters, vec![account(ALICE)]);
    assert_eq!(g.get_voter_stakes(0, account(ALICE), 7), (300, 0));
    assert_eq!(g.close_vote(0, account(CREATOR), Some(1)), Err(Error::AlreadyClosed));
}

#[test]
fn the_owner_may_cancel() {
    let mut g = engine_with_proposal();
    assert_eq!(g.cancel_proposal(0, account(OWNER)), Ok(ProposalCancelled { proposal_id: 0 }));
    assert!(g.get_proposal(0).unwrap().closed);
}

#[test]
fn close_may_come_before_the_deadline_and_after() {
    let mut g = engine_with_proposal();
    assert!(g.close_vote(0, account(CREATOR), None).is_ok());
    let mut g = engine_with_proposal();
    assert!(g.vote_for(0, 7, 100, account(ALICE), 1050).is_ok());
    assert_eq!(g.close_vote(0, account(CREATOR), Some(0)).unwrap().referendum_index, Some(0));
}

#[test]
fn the_order_of_the_votes_does_not_matter() {
    let votes: [(u8, u32, u128, bool); 5] =
        [(ALICE, 7, 100, true), (BOB, 8, 250, false), (ALICE, 8, 120, true), (CAROL, 7, 400, false), (BOB, 7, 700, true)];
    let mut forward = engine_with_proposal();
    for (who, asset, deposit, in_favor) in votes.iter() {
        if *in_favor {
            assert!(forward.vote_for(0, *asset, *deposit, account(*who), 1001).is_ok());
        } else {
            assert!(forward.vote_against(0, *asset, *deposit, account(*who), 1001).is_ok());
        }
    }
    let mut backward = engine_with_proposal();
    for (who, asset, deposit, in_favor) in votes.iter().rev() {
        if *in_favor {
            assert!(backward.vote_for(0, *asset, *deposit, account(*who), 1001).is_ok());
        } else {
            assert!(backward.vote_against(0, *asset, *deposit, account(*who), 1001).is_ok());
        }
    }
    assert_eq!(forward.tally(0), Some((920, 650)));
    assert_eq!(backward.tally(0), Some((920, 650)));
    assert_eq!(forward.get_voters(0).0, vec![account(ALICE), account(BOB)]);
    assert_eq!(backward.get_voters(0).0, vec![account(BOB), account(ALICE)]);
    for who in [ALICE, BOB, CAROL] {
        for asset in [7, 8] {
            assert_eq!(
                forward.get_voter_stakes(0, account(who), asset),
                backward.get_voter_stakes(0, account(who), asset)
            );
        }
    }
    assert_eq!(
        forward.close_vote(0, account(OWNER), Some(1)),
        backward.close_vote(0, account(OWNER), Some(1))
    );
    assert_eq!(forward.get_proposal(0).unwrap().result, Outcome::InFavor);
}

#[test]
fn totals_beyond_the_largest_amount_still_decide() {
    let mut g = engine_with_proposal();
    assert!(g.vote_for(0, 7, u128::MAX, account(ALICE), 1001).is_ok());
    assert!(g.vote_for(0, 8, 200, account(ALICE), 1001).is_ok());
    assert!(g.vote_against(0, 7, u128::MAX, account(BOB), 1001).is_ok());
    assert!(g.vote_against(0, 8, 100, account(BOB), 1001).is_ok());
    assert_eq!(g.tally(0), None);
    assert_eq!(g.pending_outcome(0, account(CREATOR)), Ok(Outcome::InFavor));
    assert!(g.vote_against(0, 8, 100, account(CAROL), 1001).is_ok());
    assert_eq!(g.pending_outcome(0, account(CREATOR)), Ok(Outcome::Indecision));
    assert!(g.vote_against(0, 7, 100, account(CAROL), 1001).is_ok());
    let closed = g.close_vote(0, account(CREATOR), Some(4)).unwrap();
    assert_eq!(closed.result, Outcome::Against);
    assert_eq!(closed.referendum_index, None);
}
