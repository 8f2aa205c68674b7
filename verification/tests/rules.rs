use stake_pool::account::same_account;
use stake_pool::pool::{Payout, BETTING_WINDOW};
use stake_pool::state::{Bet, BetInfo, PoolError};

const OWNER: [u8; 32] = [1; 32];
const ANN: [u8; 32] = [2; 32];
const BOB: [u8; 32] = [3; 32];
const CAT: [u8; 32] = [4; 32];

fn open_pool_of(stake: u64, now: i64) -> Bet {
    let mut pool = Bet::new();
    assert_eq!(pool.open_pool(true, stake, &OWNER, stake, now), Ok(stake));
    pool
}

#[test]
fn same_account_compares_all_bytes() {
    let mut other = ANN;
    assert!(same_account(&ANN, &other));
    other[31] = 0;
    assert!(!same_account(&ANN, &other));
    other = ANN;
    other[0] = 9;
    assert!(!same_account(&ANN, &other));
}

#[test]
fn betting_window_is_one_day() {
    assert_eq!(BETTING_WINDOW, 24 * 60 * 60);
}

#[test]
fn opening_sets_stake_owner_and_deadline() {
    let mut pool = Bet::new();
    assert_eq!(pool.open_pool(true, 100, &OWNER, 1000, 5000), Ok(100));
    assert!(pool.is_bet);
    assert_eq!(pool.bet_amount, 100);
    assert_eq!(pool.bet_address, OWNER);
    assert_eq!(pool.end_time, 91_400);
    assert!(pool.bets.is_empty());
}

#[test]
fn opening_needs_the_stake_in_the_callers_balance() {
    let mut pool = Bet::new();
    assert_eq!(pool.open_pool(true, 100, &OWNER, 99, 5000), Err(PoolError::InsufficientFunds));
    assert_eq!(pool, Bet::new());
    assert_eq!(pool.open_pool(true, 100, &OWNER, 100, 5000), Ok(100));
}

#[test]
fn disabling_changes_only_the_open_flag() {
    let mut pool = open_pool_of(100, 5000);
    assert_eq!(pool.stake(100, &ANN, 100, 5001), Ok(100));
    let before = pool.clone();
    assert_eq!(pool.open_pool(false, 777, &BOB, 0, 9999), Ok(0));
    assert!(!pool.is_bet);
    assert_eq!(pool.bet_amount, before.bet_amount);
    assert_eq!(pool.bet_address, before.bet_address);
    assert_eq!(pool.end_time, before.end_time);
    assert_eq!(pool.bets, before.bets);
}

#[test]
fn reopening_keeps_recorded_stakes() {
    let mut pool = open_pool_of(100, 5000);
    assert_eq!(pool.stake(100, &ANN, 100, 5001), Ok(100));
    assert_eq!(pool.open_pool(false, 0, &OWNER, 0, 5002), Ok(0));
    assert_eq!(pool.open_pool(true, 50, &BOB, 50, 6000), Ok(50));
    assert_eq!(pool.bet_amount, 50);
    assert_eq!(pool.bet_address, BOB);
    assert_eq!(pool.end_time, 92_400);
    assert_eq!(pool.bets.len(), 1);
}

#[test]
fn closed_pool_refuses_every_stake() {
    let mut pool = Bet::new();
    for amount in [0u64, 1, 100, u64::MAX] {
        assert_eq!(pool.stake(amount, &ANN, u64::MAX, 1), Err(PoolError::PoolClosed));
    }
    assert_eq!(pool, Bet::new());
}

#[test]
fn open_pool_refuses_other_amounts_whatever_the_balance() {
    let mut pool = open_pool_of(100, 5000);
    let before = pool.clone();
    for amount in [0u64, 99, 101, u64::MAX] {
        assert_eq!(pool.stake(amount, &ANN, u64::MAX, 1), Err(PoolError::InvalidAmount));
        assert_eq!(pool.stake(amount, &ANN, 0, 1), Err(PoolError::InvalidAmount));
    }
    assert_eq!(pool, before);
}

#[test]
fn stake_needs_the_amount_in_the_participants_balance() {
    let mut pool = open_pool_of(100, 5000);
    assert_eq!(pool.stake(100, &ANN, 99, 1), Err(PoolError::InsufficientFunds));
    assert!(pool.bets.is_empty());
    assert_eq!(pool.stake(100, &ANN, 100, 1), Ok(100));
}

#[test]
fn stake_appends_one_entry_per_call() {
    let mut pool = open_pool_of(100, 5000);
    assert_eq!(pool.stake(100, &ANN, 500, 5001), Ok(100));
    assert_eq!(pool.stake(100, &BOB, 500, 5002), Ok(100));
    assert_eq!(pool.stake(100, &ANN, 400, 5003), Ok(100));
    assert_eq!(
        pool.bets,
        vec![
            BetInfo { bettor: ANN, amount: 100, time: 5001 },
            BetInfo { bettor: BOB, amount: 100, time: 5002 },
            BetInfo { bettor: ANN, amount: 100, time: 5003 },
        ]
    );
    assert_eq!(pool.count(), 3);
}

#[test]
fn close_is_refused_on_a_closed_pool() {
    let mut pool = Bet::new();
    assert_eq!(pool.close_pool(100, &[], 1).err(), Some(PoolError::PoolClosed));
}

#[test]
fn close_waits_for_the_deadline() {
    let mut pool = open_pool_of(100, 5000);
    assert_eq!(pool.stake(100, &ANN, 100, 5001), Ok(100));
    let before = pool.clone();
    assert_eq!(pool.close_pool(200, &[ANN], 91_399).err(), Some(PoolError::DeadlineNotReached));
    assert_eq!(pool.close_pool(200, &[ANN], i64::MIN).err(), Some(PoolError::DeadlineNotReached));
    assert_eq!(pool, before);
    let settlement = pool.close_pool(200, &[ANN], 91_400).unwrap();
    assert_eq!(settlement.share, 200);
}

#[test]
fn close_checks_the_deadline_before_the_participants() {
    let mut pool = open_pool_of(100, 5000);
    assert_eq!(pool.close_pool(100, &[], 5000).err(), Some(PoolError::DeadlineNotReached));
}

#[test]
fn close_without_participants_pays_nothing() {
    let mut pool = open_pool_of(100, 5000);
    let before = pool.clone();
    assert_eq!(pool.close_pool(100, &[], 91_400).err(), Some(PoolError::NoParticipants));
    assert_eq!(pool.close_pool(100, &[ANN], 91_400).err(), Some(PoolError::NoParticipants));
    assert_eq!(pool, before);
}

#[test]
fn close_wants_the_participants_in_order() {
    let mut pool = open_pool_of(100, 5000);
    assert_eq!(pool.stake(100, &ANN, 100, 5001), Ok(100));
    assert_eq!(pool.stake(100, &BOB, 100, 5002), Ok(100));
    let before = pool.clone();
    assert_eq!(pool.close_pool(300, &[BOB, ANN], 100_000).err(), Some(PoolError::AccountMismatch));
    assert_eq!(pool.close_pool(300, &[ANN, CAT], 100_000).err(), Some(PoolError::AccountMismatch));
    assert_eq!(pool.close_pool(300, &[ANN], 100_000).err(), Some(PoolError::AccountMismatch));
    assert_eq!(
        pool.close_pool(300, &[ANN, BOB, CAT], 100_000).err(),
        Some(PoolError::AccountMismatch)
    );
    assert_eq!(pool.close_pool(300, &[], 100_000).err(), Some(PoolError::AccountMismatch));
    assert_eq!(pool, before);
    assert!(pool.close_pool(300, &[ANN, BOB], 100_000).is_ok());
}

#[test]
fn close_splits_equally_and_keeps_the_remainder() {
    let mut pool = open_pool_of(100, 5000);
    assert_eq!(pool.stake(100, &ANN, 100, 5001), Ok(100));
    assert_eq!(pool.stake(100, &BOB, 100, 5002), Ok(100));
    assert_eq!(pool.stake(100, &CAT, 100, 5003), Ok(100));
    let s = pool.close_pool(400, &[ANN, BOB, CAT], 91_400).unwrap();
    assert_eq!(s.share, 133);
    assert_eq!(s.debit, 399);
    assert_eq!(
        s.payouts,
        vec![
            Payout { to: ANN, amount: 133 },
            Payout { to: BOB, amount: 133 },
            Payout { to: CAT, amount: 133 },
        ]
    );
    assert_eq!(s.payouts.iter().map(|p| p.amount).sum::<u64>(), s.debit);
    assert_eq!(400 - s.debit, 1);
    assert_eq!(pool, Bet::new());
}

#[test]
fn close_pays_each_entry_of_a_repeated_participant() {
    let mut pool = open_pool_of(10, 0);
    assert_eq!(pool.stake(10, &ANN, 100, 1), Ok(10));
    assert_eq!(pool.stake(10, &ANN, 90, 2), Ok(10));
    let s = pool.close_pool(30, &[ANN, ANN], BETTING_WINDOW).unwrap();
    assert_eq!(s.share, 15);
    assert_eq!(s.debit, 30);
    assert_eq!(s.payouts, vec![Payout { to: ANN, amount: 15 }; 2]);
}

#[test]
fn close_handles_the_largest_custody() {
    let mut pool = open_pool_of(1, 0);
    assert_eq!(pool.stake(1, &ANN, 1, 1), Ok(1));
    assert_eq!(pool.stake(1, &BOB, 1, 2), Ok(1));
    let s = pool.close_pool(u64::MAX, &[ANN, BOB], BETTING_WINDOW).unwrap();
    assert_eq!(s.share, u64::MAX / 2);
    assert_eq!(s.debit, u64::MAX - 1);
}

#[test]
fn close_with_less_custody_than_stakes_pays_zero_shares() {
    let mut pool = open_pool_of(100, 0);
    assert_eq!(pool.stake(100, &ANN, 100, 1), Ok(100));
    assert_eq!(pool.stake(100, &BOB, 100, 2), Ok(100));
    let s = pool.close_pool(1, &[ANN, BOB], BETTING_WINDOW).unwrap();
    assert_eq!(s.share, 0);
    assert_eq!(s.debit, 0);
    assert_eq!(s.payouts.len(), 2);
}

#[test]
fn closed_pool_can_be_reopened() {
    let mut pool = open_pool_of(100, 0);
    assert_eq!(pool.stake(100, &ANN, 100, 1), Ok(100));
    assert!(pool.close_pool(200, &[ANN], BETTING_WINDOW).is_ok());
    assert_eq!(pool.stake(100, &ANN, 100, 1), Err(PoolError::PoolClosed));
    assert_eq!(pool.open_pool(true, 7, &BOB, 7, 10), Ok(7));
    assert_eq!(pool.stake(7, &ANN, 7, 11), Ok(7));
    assert_eq!(pool.bets, vec![BetInfo { bettor: ANN, amount: 7, time: 11 }]);
}
