use governance_tracker::account::AccountId;
use governance_tracker::assets::listed_once;
use governance_tracker::ledger::{StakeEntry, StakeKey, StakeLedger};
use governance_tracker::proposal::{each_listed_once, Outcome, Proposal};
use governance_tracker::store::ProposalStore;
use governance_tracker::tracker::GovernanceTracker;

const OWNER: u8 = 1;
const CREATOR: u8 = 2;
const ALICE: u8 = 3;
const BOB: u8 = 4;

fn account(byte: u8) -> AccountId {
    AccountId::new([byte; 32])
}

fn busy_engine() -> GovernanceTracker {
    let mut g = GovernanceTracker::new(100, 50, account(OWNER), vec![7, 8]);
    g.submit_proposal(String::from("roads"), String::from("x"), 100, account(CREATOR), 1000).unwrap();
    g.submit_proposal(String::from("parks"), String::from("y"), 100, account(ALICE), 1000).unwrap();
    assert!(g.vote_for(0, 7, 300, account(ALICE), 1001).is_ok());
    assert!(g.vote_for(0, 8, 200, account(ALICE), 1001).is_ok());
    assert!(g.vote_against(0, 7, 100, account(BOB), 1001).is_ok());
    assert!(g.vote_against(1, 8, 900, account(BOB), 1001).is_ok());
    assert!(g.close_vote(0, account(CREATOR), Some(5)).is_ok());
    g
}

fn stake(proposal_id: u32, voter: u8, in_favor: bool, asset_id: u32, amount: u128) -> StakeEntry {
    StakeEntry { key: StakeKey { proposal_id, voter: account(voter), in_favor, asset_id }, amount }
}

fn restore(assets: Vec<u32>, proposals: Vec<Proposal>, stakes: Vec<StakeEntry>) -> Option<GovernanceTracker> {
    GovernanceTracker::restore(100, 50, account(OWNER), assets, proposals, stakes)
}

fn voted_proposal() -> Proposal {
    let mut p = Proposal::open(String::from("roads"), String::from("x"), account(CREATOR), 1050);
    p.record_vote(account(ALICE), true);
    p
}

#[test]
fn exported_tables_hold_every_record_and_every_stake() {
    let g = busy_engine();
    let proposals = g.proposals();
    assert_eq!(proposals.len(), 2);
    assert_eq!(Some(proposals[0].clone()), g.get_proposal(0));
    assert_eq!(Some(proposals[1].clone()), g.get_proposal(1));
    assert_eq!(proposals[0].result, Outcome::InFavor);
    assert_eq!(
        g.stake_entries(),
        vec![
            stake(0, ALICE, true, 7, 300),
            stake(0, ALICE, true, 8, 200),
            stake(0, BOB, false, 7, 100),
            stake(1, BOB, false, 8, 900),
        ]
    );
}

#[test]
fn restore_gives_back_the_engine_that_was_exported() {
    let g = busy_engine();
    let restored = GovernanceTracker::restore(
        g.get_min_deposit(),
        g.get_voting_period(),
        g.get_owner(),
        g.get_supported_assets(),
        g.proposals(),
        g.stake_entries(),
    );
    assert_eq!(restored, Some(g.clone()));
    let mut restored = restored.unwrap();
    assert_eq!(restored.tally(1), Some((0, 900)));
    assert!(restored.vote_for(1, 7, 1000, account(ALICE), 1002).is_ok());
    assert_eq!(restored.close_vote(1, account(OWNER), Some(6)).unwrap().result, Outcome::InFavor);
}

#[test]
fn restore_of_an_empty_engine() {
    let g = restore(vec![7], Vec::new(), Vec::new()).unwrap();
    assert_eq!(g, GovernanceTracker::new(100, 50, account(OWNER), vec![7]));
}

#[test]
fn restore_refuses_repeated_assets() {
    assert_eq!(restore(vec![7, 8, 7], Vec::new(), Vec::new()), None);
}

#[test]
fn restore_refuses_stakes_that_no_vote_could_have_made() {
    let good = restore(vec![7], vec![voted_proposal()], vec![stake(0, ALICE, true, 7, 300)]);
    assert!(good.is_some());
    // No such proposal.
    assert_eq!(restore(vec![7], vec![voted_proposal()], vec![stake(1, ALICE, true, 7, 300)]), None);
    // No such asset.
    assert_eq!(restore(vec![7], vec![voted_proposal()], vec![stake(0, ALICE, true, 8, 300)]), None);
    // The voter is not listed.
    assert_eq!(restore(vec![7], vec![voted_proposal()], vec![stake(0, BOB, true, 7, 300)]), None);
    // The voter is listed on the other side.
    assert_eq!(restore(vec![7], vec![voted_proposal()], vec![stake(0, ALICE, false, 7, 300)]), None);
    // Two lines for one key.
    assert_eq!(
        restore(
            vec![7],
            vec![voted_proposal()],
            vec![stake(0, ALICE, true, 7, 300), stake(0, ALICE, true, 7, 1)]
        ),
        None
    );
}

#[test]
fn restore_refuses_records_that_the_engine_could_not_have_written() {
    let mut twice = voted_proposal();
    twice.for_voters.push(account(ALICE));
    twice.supporter_count = 2;
    assert_eq!(restore(vec![7], vec![twice], Vec::new()), None);

    let mut uncounted = voted_proposal();
    uncounted.supporter_count = 0;
    assert_eq!(restore(vec![7], vec![uncounted], Vec::new()), None);

    let mut decided_while_open = voted_proposal();
    decided_while_open.result = Outcome::Against;
    assert_eq!(restore(vec![7], vec![decided_while_open], Vec::new()), None);

    let mut in_favor_without_reference = voted_proposal();
    in_favor_without_reference.closed = true;
    in_favor_without_reference.result = Outcome::InFavor;
    assert_eq!(restore(vec![7], vec![in_favor_without_reference], Vec::new()), None);

    let mut reference_without_decision = voted_proposal();
    reference_without_decision.closed = true;
    reference_without_decision.result = Outcome::Indecision;
    reference_without_decision.referendum_index = Some(1);
    assert_eq!(restore(vec![7], vec![reference_without_decision], Vec::new()), None);

    let mut cancelled = voted_proposal();
    cancelled.closed = true;
    assert!(restore(vec![7], vec![cancelled], Vec::new()).is_some());
}

#[test]
fn well_formed_records() {
    assert!(voted_proposal().is_well_formed());
    let mut p = voted_proposal();
    p.against_voters = vec![account(BOB), account(ALICE), account(BOB)];
    p.supporter_count_against = 3;
    assert!(!p.is_well_formed());
    p.against_voters = vec![account(BOB), account(ALICE)];
    assert!(p.is_well_formed());
    p.supporter_count_against = 1;
    assert!(!p.is_well_formed());
}

#[test]
fn lists_without_repetition() {
    assert!(listed_once(&Vec::new()));
    assert!(listed_once(&vec![1, 2, 3]));
    assert!(!listed_once(&vec![1, 2, 1]));
    assert!(!listed_once(&vec![2, 2]));
    assert!(each_listed_once(&Vec::new()));
    assert!(each_listed_once(&vec![account(1), account(2)]));
    assert!(!each_listed_once(&vec![account(1), account(2), account(2)]));
}

#[test]
fn ledger_from_entries_and_back() {
    let lines = vec![stake(0, ALICE, true, 7, 300), stake(0, ALICE, false, 7, 2)];
    let ledger = StakeLedger::from_entries(lines.clone()).unwrap();
    assert_eq!(ledger.read_stake(0, account(ALICE), true, 7), 300);
    assert_eq!(ledger.read_stake(0, account(ALICE), false, 7), 2);
    assert_eq!(ledger.read_stake(0, account(BOB), false, 7), 0);
    assert_eq!(ledger.entries(), lines);
    assert_eq!(StakeLedger::from_entries(vec![stake(0, ALICE, true, 7, 1), stake(0, ALICE, true, 7, 1)]), None);
    assert_eq!(StakeLedger::from_entries(Vec::new()), Some(StakeLedger::new()));
}

#[test]
fn store_from_records_and_back() {
    let records = vec![voted_proposal(), Proposal::open(String::from("b"), String::from("c"), account(9), 4)];
    let store = ProposalStore::from_records(records.clone()).unwrap();
    assert_eq!(store.count(), 2);
    assert_eq!(store.get(1), Some(records[1].clone()));
    assert_eq!(store.records(), records);
}

#[test]
fn submission_must_fit() {
    let g = GovernanceTracker::new(100, 50, account(OWNER), vec![7]);
    assert!(g.submit_fits(100, 0));
    assert!(g.submit_fits(100, u32::MAX - 50));
    assert!(!g.submit_fits(100, u32::MAX - 49));
    // A submission that is refused anyway asks for nothing.
    assert!(g.submit_fits(99, u32::MAX));
}

#[test]
fn vote_must_fit() {
    let mut g = GovernanceTracker::new(100, 50, account(OWNER), vec![7]);
    g.submit_proposal(String::from("roads"), String::from("x"), 100, account(CREATOR), 1000).unwrap();
    assert!(g.vote_fits(0, 7, u128::MAX, account(ALICE), 1001, true));
    assert!(g.vote_for(0, 7, u128::MAX - 100, account(ALICE), 1001).is_ok());
    assert!(g.vote_fits(0, 7, 100, account(ALICE), 1001, true));
    assert!(!g.vote_fits(0, 7, 101, account(ALICE), 1001, true));
    assert!(g.vote_fits(0, 7, 101, account(ALICE), 1001, false));
    assert!(g.vote_fits(0, 7, 101, account(BOB), 1001, true));
    // A vote that is refused anyway asks for nothing.
    assert!(g.vote_fits(0, 7, 101, account(ALICE), 2000, true));
    assert!(g.vote_fits(0, 8, u128::MAX, account(ALICE), 1001, true));

    let mut full = Proposal::open(String::from("t"), String::from("d"), account(CREATOR), 1050);
    full.supporter_count = u32::MAX;
    full.for_voters.push(account(ALICE));
    let g = restore(vec![7], vec![full], Vec::new()).unwrap();
    assert!(!g.vote_fits(0, 7, 100, account(BOB), 1001, true));
    assert!(g.vote_fits(0, 7, 100, account(BOB), 1001, false));
}
