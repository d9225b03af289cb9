use governance_tracker::account::AccountId;
use governance_tracker::ledger::StakeLedger;

fn account(byte: u8) -> AccountId {
    AccountId::new([byte; 32])
}

#[test]
fn empty_ledger_reads_zero() {
    let ledger = StakeLedger::new();
    assert_eq!(ledger.read_stake(0, account(1), true, 7), 0);
    assert_eq!(ledger.read_stake(3, account(2), false, 0), 0);
}

#[test]
fn record_stake_returns_the_new_total() {
    let mut ledger = StakeLedger::new();
    assert_eq!(ledger.record_stake(0, account(1), true, 7, 100), 100);
    assert_eq!(ledger.record_stake(0, account(1), true, 7, 25), 125);
    assert_eq!(ledger.record_stake(0, account(1), true, 7, 0), 125);
    assert_eq!(ledger.read_stake(0, account(1), true, 7), 125);
}

#[test]
fn record_stake_touches_one_key_only() {
    let mut ledger = StakeLedger::new();
    ledger.record_stake(0, account(1), true, 7, 100);
    ledger.record_stake(0, account(1), false, 7, 11);
    ledger.record_stake(0, account(1), true, 8, 12);
    ledger.record_stake(1, account(1), true, 7, 13);
    ledger.record_stake(0, account(2), true, 7, 14);
    assert_eq!(ledger.read_stake(0, account(1), true, 7), 100);
    assert_eq!(ledger.read_stake(0, account(1), false, 7), 11);
    assert_eq!(ledger.read_stake(0, account(1), true, 8), 12);
    assert_eq!(ledger.read_stake(1, account(1), true, 7), 13);
    assert_eq!(ledger.read_stake(0, account(2), true, 7), 14);
    assert_eq!(ledger.read_stake(1, account(2), true, 7), 0);
}

#[test]
fn record_stake_reaches_the_largest_amount() {
    let mut ledger = StakeLedger::new();
    assert_eq!(ledger.record_stake(0, account(1), true, 7, u128::MAX - 1), u128::MAX - 1);
    assert_eq!(ledger.record_stake(0, account(1), true, 7, 1), u128::MAX);
    assert_eq!(ledger.read_stake(0, account(1), true, 7), u128::MAX);
}

#[test]
fn ledger_copy_is_independent() {
    let mut ledger = StakeLedger::new();
    ledger.record_stake(0, account(1), true, 7, 100);
    let snapshot = ledger.clone();
    assert_eq!(snapshot, ledger);
    ledger.record_stake(0, account(1), true, 7, 1);
    assert_ne!(snapshot, ledger);
    assert_eq!(snapshot.read_stake(0, account(1), true, 7), 100);
}

#[test]
fn accounts_compare_byte_by_byte() {
    let mut bytes = [9u8; 32];
    let a = AccountId::new(bytes);
    assert_eq!(a, AccountId::new([9u8; 32]));
    bytes[31] = 8;
    assert_ne!(a, AccountId::new(bytes));
    bytes[31] = 9;
    bytes[0] = 0;
    assert_ne!(a, AccountId::new(bytes));
    assert_eq!(a.bytes, [9u8; 32]);
}
