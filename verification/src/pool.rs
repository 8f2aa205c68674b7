//! The rules of a pool: opening it, staking into it, paying it out.
//!
//! Each rule comes twice. A method that takes `&mut self` applies the rule to
//! a pool in memory. An associated function named after the stored operation
//! reads the pool from its record, applies the rule, and hands back the record
//! to store. Both answer with the amounts that the caller has to move on the
//! ledger; neither moves anything itself, and a refused operation changes
//! nothing.

use vstd::prelude::*;
use crate::account::AccountId;
use crate::account::default_account;
use crate::account::same_account;
use crate::codec::spec_decode;
use crate::codec::spec_encode;
use crate::state::Bet;
use crate::state::BetInfo;
use crate::state::BetInfoView;
use crate::state::BetView;
use crate::state::DecodeError;
use crate::state::PoolError;
use crate::state::bets_view;

verus! {

/// Seconds between the opening of a pool and its deadline.
pub const BETTING_WINDOW: i64 = 86400;

/// What a successful open or stake asks of the caller.
pub struct Update {
    /// The record to store in place of the one that was read.
    pub record: Vec<u8>,
    /// The amount to move from the acting account into the pool's custody.
    pub deposit: u64,
}

/// One payment out of the pool's custody.
#[derive(Clone, Copy, Debug, PartialEq, Eq)]
pub struct Payout {
    pub to: AccountId,
    pub amount: u64,
}

/// Model of a [`Payout`].
pub struct PayoutView {
    pub to: Seq<u8>,
    pub amount: u64,
}

impl View for Payout {
    type V = PayoutView;

    open spec fn view(&self) -> PayoutView {
        PayoutView { to: self.to@, amount: self.amount }
    }
}

/// How a pool is paid out.
pub struct Settlement {
    /// What each stake receives.
    pub share: u64,
    /// One payment per stake, in the order in which the stakes were recorded.
    pub payouts: Vec<Payout>,
    /// What leaves the pool's custody in all.
    pub debit: u64,
}

/// What a successful close asks of the caller.
pub struct Closure {
    /// The record to store in place of the one that was read.
    pub record: Vec<u8>,
    /// The payments to make.
    pub settlement: Settlement,
}

/// Models of a list of payments, in order.
pub open spec fn payouts_view(payouts: Seq<Payout>) -> Seq<PayoutView> {
    Seq::new(payouts.len(), |i: int| payouts[i]@)
}

/// Bytes of a list of account identifiers, in order.
pub open spec fn accounts_view(accounts: Seq<AccountId>) -> Seq<Seq<u8>> {
    Seq::new(accounts.len(), |i: int| accounts[i]@)
}

/// The sum of the amounts of a list of payments.
pub open spec fn total_paid(payouts: Seq<PayoutView>) -> int
    decreases payouts.len(),
{
    if payouts.len() == 0 {
        0
    } else {
        total_paid(payouts.drop_last()) + payouts.last().amount
    }
}

/// Why opening or disabling is refused, if it is.
pub open spec fn spec_open_error(enable: bool, bet_amount: u64, caller_balance: u64) -> Option<
    PoolError,
> {
    if enable && caller_balance < bet_amount {
        Some(PoolError::InsufficientFunds)
    } else {
        None
    }
}

/// The pool after it was opened (`enable`) or disabled. Opening sets the
/// stake, the owner and a deadline one betting window from `now`; disabling
/// only stops the pool from accepting stakes. Neither touches the stakes.
pub open spec fn spec_open_pool(
    pool: BetView,
    enable: bool,
    bet_amount: u64,
    caller: Seq<u8>,
    now: i64,
) -> BetView {
    if enable {
        BetView {
            bets: pool.bets,
            is_bet: true,
            bet_amount,
            bet_address: caller,
            end_time: (now + BETTING_WINDOW) as i64,
        }
    } else {
        BetView { is_bet: false, ..pool }
    }
}

/// What the caller of an open or disable has to deposit.
pub open spec fn spec_open_deposit(enable: bool, bet_amount: u64) -> u64 {
    if enable {
        bet_amount
    } else {
        0
    }
}

/// Why a stake is refused, if it is: the pool is closed, else the amount is
/// not the fixed stake, else the participant cannot pay it.
pub open spec fn spec_stake_error(pool: BetView, amount: u64, balance: u64) -> Option<PoolError> {
    if !pool.is_bet {
        Some(PoolError::PoolClosed)
    } else if amount != pool.bet_amount {
        Some(PoolError::InvalidAmount)
    } else if balance < amount {
        Some(PoolError::InsufficientFunds)
    } else {
        None
    }
}

/// The pool after one more stake was recorded.
pub open spec fn spec_stake(pool: BetView, participant: Seq<u8>, amount: u64, now: i64) -> BetView {
    BetView { bets: pool.bets.push(BetInfoView { bettor: participant, amount, time: now }), ..pool }
}

/// Whether the payee accounts are the recorded participants, one per stake
/// and in the order of the stakes.
pub open spec fn spec_payees_match(pool: BetView, payees: Seq<Seq<u8>>) -> bool {
    &&& payees.len() == pool.bets.len()
    &&& forall|i: int| 0 <= i < pool.bets.len() ==> payees[i] == (#[trigger] pool.bets[i]).bettor
}

/// Why a close is refused, if it is: the pool is closed, else its deadline is
/// still ahead, else nobody has staked, else the payees are not the
/// participants.
pub open spec fn spec_close_error(pool: BetView, payees: Seq<Seq<u8>>, now: i64) -> Option<
    PoolError,
> {
    if !pool.is_bet {
        Some(PoolError::PoolClosed)
    } else if now < pool.end_time {
        Some(PoolError::DeadlineNotReached)
    } else if pool.bets.len() == 0 {
        Some(PoolError::NoParticipants)
    } else if !spec_payees_match(pool, payees) {
        Some(PoolError::AccountMismatch)
    } else {
        None
    }
}

/// The equal share of `total` for each of `count` stakes, rounded down.
pub open spec fn spec_share(total: u64, count: nat) -> int
    recommends
        count > 0,
{
    total as int / count as int
}

/// Whether `s` pays out a pool with the stakes `bets` from a custody of
/// `total`: every stake gets the equal share, in order, and the custody is
/// debited by the sum of the shares, so that the remainder of the division
/// stays in custody.
pub open spec fn spec_settles(s: Settlement, bets: Seq<BetInfoView>, total: u64) -> bool {
    &&& s.share == spec_share(total, bets.len())
    &&& s.debit == s.share * bets.len()
    &&& s.payouts@.len() == bets.len()
    &&& forall|i: int|
        0 <= i < bets.len() ==> (#[trigger] s.payouts@[i])@ == (PayoutView {
            to: bets[i].bettor,
            amount: s.share,
        })
}

/// The error of an operation on a stored record: an unreadable record comes
/// first, then whatever the rule itself objects to.
pub open spec fn spec_on_record(record: Seq<u8>, refusal: Option<PoolError>) -> Option<PoolError> {
    if spec_decode(record).is_none() {
        Some(PoolError::Decode(DecodeError::Truncated))
    } else {
        refusal
    }
}

/// Whether `update` is the answer to opening or disabling the pool stored in
/// `record`: an error exactly when the record cannot be read or the rule
/// objects, else the deposit and the record of the pool after the operation.
pub open spec fn spec_published(
    record: Seq<u8>,
    is_bet: bool,
    bet_amount: u64,
    caller: Seq<u8>,
    caller_balance: u64,
    now: i64,
    update: Result<Update, PoolError>,
) -> bool {
    let refusal = spec_on_record(record, spec_open_error(is_bet, bet_amount, caller_balance));
    match update {
        Ok(u) => {
            &&& refusal.is_none()
            &&& u.deposit == spec_open_deposit(is_bet, bet_amount)
            &&& u.record@ == spec_encode(
                spec_open_pool(spec_decode(record).unwrap(), is_bet, bet_amount, caller, now),
            )
        },
        Err(e) => refusal == Some(e),
    }
}

/// Whether `update` is the answer to a stake into the pool stored in
/// `record`: an error exactly when the record cannot be read or the rule
/// objects, else the deposit and the record of the pool with the new stake.
pub open spec fn spec_participated(
    record: Seq<u8>,
    bet_amount: u64,
    participant: Seq<u8>,
    balance: u64,
    now: i64,
    update: Result<Update, PoolError>,
) -> bool {
    let pool = spec_decode(record).unwrap();
    let refusal = spec_on_record(record, spec_stake_error(pool, bet_amount, balance));
    match update {
        Ok(u) => {
            &&& refusal.is_none()
            &&& u.deposit == bet_amount
            &&& u.record@ == spec_encode(spec_stake(pool, participant, bet_amount, now))
        },
        Err(e) => refusal == Some(e),
    }
}

/// Whether `closure` is the answer to paying out the pool stored in
/// `record`: an error exactly when the record cannot be read or the rule
/// objects, else the settlement of the recorded stakes and the record of a
/// cleared pool.
pub open spec fn spec_ended(
    record: Seq<u8>,
    custody_balance: u64,
    payees: Seq<Seq<u8>>,
    now: i64,
    closure: Result<Closure, PoolError>,
) -> bool {
    let pool = spec_decode(record).unwrap();
    let refusal = spec_on_record(record, spec_close_error(pool, payees, now));
    match closure {
        Ok(c) => {
            &&& refusal.is_none()
            &&& spec_settles(c.settlement, pool.bets, custody_balance)
            &&& total_paid(payouts_view(c.settlement.payouts@)) == c.settlement.debit
            &&& c.settlement.debit <= custody_balance
            &&& c.record@ == spec_encode(BetView::cleared())
        },
        Err(e) => refusal == Some(e),
    }
}

/// Whether `bets` is the answer to a query of the pool stored in `record`:
/// the recorded stakes, or `Decode` exactly when the record cannot be read.
pub open spec fn spec_reported(record: Seq<u8>, bets: Result<Vec<BetInfo>, PoolError>) -> bool {
    match bets {
        Ok(list) => spec_decode(record).is_some() && bets_view(list@) == spec_decode(
            record,
        ).unwrap().bets,
        Err(e) => spec_on_record(record, None) == Some(e),
    }
}

/// A refused stake on a closed pool is refused as `PoolClosed`, whatever
/// the amount and the balance.
pub proof fn lemma_closed_pool_refuses_stake(pool: BetView, amount: u64, balance: u64)
    requires
        !pool.is_bet,
    ensures
        spec_stake_error(pool, amount, balance) == Some(PoolError::PoolClosed),
{
}

/// An open pool refuses every amount but its fixed stake as `InvalidAmount`,
/// however much the participant holds.
pub proof fn lemma_open_pool_refuses_other_amounts(pool: BetView, amount: u64, balance: u64)
    requires
        pool.is_bet,
        amount != pool.bet_amount,
    ensures
        spec_stake_error(pool, amount, balance) == Some(PoolError::InvalidAmount),
{
}

/// A pool whose stakes are all of its fixed amount stays so through every
/// accepted stake.
pub proof fn lemma_stake_keeps_fixed_stakes(
    pool: BetView,
    participant: Seq<u8>,
    amount: u64,
    balance: u64,
    now: i64,
)
    requires
        pool.fixed_stakes(),
        spec_stake_error(pool, amount, balance).is_none(),
    ensures
        spec_stake(pool, participant, amount, now).fixed_stakes(),
        spec_stake(pool, participant, amount, now).bets.len() == pool.bets.len() + 1,
{
    let next = spec_stake(pool, participant, amount, now);
    assert forall|i: int| 0 <= i < next.bets.len() implies (#[trigger] next.bets[i]).amount
        == next.bet_amount by {
        if i < pool.bets.len() {
            assert(next.bets[i] == pool.bets[i]);
        }
    }
}

/// An open pool cannot be closed before its deadline, and a pool with stakes
/// and the right payees can be closed at the deadline itself.
pub proof fn lemma_deadline_gates_close(pool: BetView, payees: Seq<Seq<u8>>, now: i64)
    requires
        pool.is_bet,
    ensures
        now < pool.end_time ==> spec_close_error(pool, payees, now) == Some(
            PoolError::DeadlineNotReached,
        ),
        now == pool.end_time && pool.bets.len() > 0 && spec_payees_match(pool, payees)
            ==> spec_close_error(pool, payees, now).is_none(),
{
}

/// An open pool without stakes whose deadline has come is refused as
/// `NoParticipants`, whatever the payees.
pub proof fn lemma_empty_pool_refuses_close(pool: BetView, payees: Seq<Seq<u8>>, now: i64)
    requires
        pool.is_bet,
        now >= pool.end_time,
        pool.bets.len() == 0,
    ensures
        spec_close_error(pool, payees, now) == Some(PoolError::NoParticipants),
{
}

/// A settlement conserves funds: the payments add up to the share times the
/// number of stakes, the custody is debited by exactly that, and what stays
/// in custody is the remainder of the division.
pub proof fn lemma_settlement_conserves(s: Settlement, bets: Seq<BetInfoView>, total: u64)
    requires
        bets.len() > 0,
        spec_settles(s, bets, total),
    ensures
        s.share == total as int / bets.len() as int,
        total_paid(payouts_view(s.payouts@)) == s.share * bets.len(),
        s.debit == total_paid(payouts_view(s.payouts@)),
        s.debit <= total,
        total - s.debit == total as int % bets.len() as int,
{
    let paid = payouts_view(s.payouts@);
    assert forall|j: int| 0 <= j < paid.len() implies (#[trigger] paid[j]).amount == s.share by {
        assert(paid[j] == s.payouts@[j]@);
    }
    lemma_total_of_equal_shares(paid, s.share);
    lemma_share_bounds(total, bets.len());
}

/// Two queries of one record give the same answer.
pub proof fn lemma_query_repeatable(
    record: Seq<u8>,
    first: Result<Vec<BetInfo>, PoolError>,
    second: Result<Vec<BetInfo>, PoolError>,
)
    requires
        spec_reported(record, first),
        spec_reported(record, second),
    ensures
        match (first, second) {
            (Ok(a), Ok(b)) => bets_view(a@) == bets_view(b@),
            (Err(a), Err(b)) => a == b,
            _ => false,
        },
{
}

/// Equal payments of `share` to `count` payees add up to `share * count`.
pub proof fn lemma_total_of_equal_shares(payouts: Seq<PayoutView>, share: u64)
    requires
        forall|i: int| 0 <= i < payouts.len() ==> (#[trigger] payouts[i]).amount == share,
    ensures
        total_paid(payouts) == share * payouts.len(),
    decreases payouts.len(),
{
    if payouts.len() > 0 {
        let front = payouts.drop_last();
        lemma_total_of_equal_shares(front, share);
        assert(share * payouts.len() == share * front.len() + share) by (nonlinear_arith)
            requires
                payouts.len() == front.len() + 1,
        ;
    }
}

/// The shares never exceed the custody, and what they leave is the remainder
/// of the division.
pub proof fn lemma_share_bounds(total: u64, count: nat)
    requires
        count > 0,
    ensures
        0 <= spec_share(total, count) <= total,
        spec_share(total, count) * count <= total,
        total - spec_share(total, count) * count == total as int % count as int,
{
    let t = total as int;
    let c = count as int;
    assert(0 <= t / c <= t && (t / c) * c <= t && t - (t / c) * c == t % c) by (nonlinear_arith)
        requires
            t >= 0,
            c > 0,
    ;
}

impl Bet {
    /// Opens the pool (`enable`) or stops it from accepting stakes.
    ///
    /// Opening is refused with `InsufficientFunds` when the caller holds less
    /// than the stake; otherwise the caller owes the stake as a deposit.
    /// Disabling never fails and asks for no deposit.
    pub fn open_pool(
        &mut self,
        enable: bool,
        bet_amount: u64,
        caller: &AccountId,
        caller_balance: u64,
        now: i64,
    ) -> (deposit: Result<u64, PoolError>)
        requires
            enable ==> now + BETTING_WINDOW <= i64::MAX,
        ensures
            match deposit {
                Ok(d) => {
                    &&& spec_open_error(enable, bet_amount, caller_balance).is_none()
                    &&& d == spec_open_deposit(enable, bet_amount)
                    &&& final(self)@ == spec_open_pool(
                        old(self)@,
                        enable,
                        bet_amount,
                        caller@,
                        now,
                    )
                },
                Err(e) => {
                    &&& spec_open_error(enable, bet_amount, caller_balance) == Some(e)
                    &&& *final(self) == *old(self)
                },
            },
    {
        if !enable {
            self.is_bet = false;
            return Ok(0);
        }
        if caller_balance < bet_amount {
            return Err(PoolError::InsufficientFunds);
        }
        self.is_bet = true;
        self.bet_amount = bet_amount;
        self.bet_address = *caller;
        self.end_time = now + BETTING_WINDOW;
        Ok(bet_amount)
    }

    /// Records one stake of `participant` at time `now`.
    ///
    /// Refused, in this order, when the pool is closed, when `amount` is not
    /// the pool's stake, and when the participant holds less than `amount`.
    /// On success the participant owes `amount` as a deposit.
    pub fn stake(
        &mut self,
        amount: u64,
        participant: &AccountId,
        balance: u64,
        now: i64,
    ) -> (deposit: Result<u64, PoolError>)
        ensures
            match deposit {
                Ok(d) => {
                    &&& spec_stake_error(old(self)@, amount, balance).is_none()
                    &&& d == amount
                    &&& final(self)@ == spec_stake(old(self)@, participant@, amount, now)
                },
                Err(e) => {
                    &&& spec_stake_error(old(self)@, amount, balance) == Some(e)
                    &&& *final(self) == *old(self)
                },
            },
    {
        if !self.is_bet {
            return Err(PoolError::PoolClosed);
        }
        if amount != self.bet_amount {
            return Err(PoolError::InvalidAmount);
        }
        if balance < amount {
            return Err(PoolError::InsufficientFunds);
        }
        self.bets.push(BetInfo { bettor: *participant, amount, time: now });
        assert(self@.bets =~= spec_stake(old(self)@, participant@, amount, now).bets);
        Ok(amount)
    }

    /// Pays the pool out at time `now` from a custody of `custody_balance`
    /// and resets it.
    ///
    /// Refused, in this order, when the pool is closed, when its deadline is
    /// still ahead, when nobody has staked, and when `payees` are not the
    /// participants in the order of their stakes. On success every stake is
    /// owed the same share, the custody is debited by what the shares add up
    /// to, and the pool is closed and empty.
    pub fn close_pool(
        &mut self,
        custody_balance: u64,
        payees: &[AccountId],
        now: i64,
    ) -> (settlement: Result<Settlement, PoolError>)
        ensures
            match settlement {
                Ok(s) => {
                    &&& spec_close_error(old(self)@, accounts_view(payees@), now).is_none()
                    &&& spec_settles(s, old(self)@.bets, custody_balance)
                    &&& total_paid(payouts_view(s.payouts@)) == s.debit
                    &&& s.debit <= custody_balance
                    &&& final(self)@ == BetView::cleared()
                },
                Err(e) => {
                    &&& spec_close_error(old(self)@, accounts_view(payees@), now) == Some(e)
                    &&& *final(self) == *old(self)
                },
            },
    {
        if !self.is_bet {
            return Err(PoolError::PoolClosed);
        }
        if now < self.end_time {
            return Err(PoolError::DeadlineNotReached);
        }
        let count = self.count();
        if count == 0 {
            return Err(PoolError::NoParticipants);
        }
        let ghost pool = self@;
        let ghost given = accounts_view(payees@);
        if payees.len() != count {
            return Err(PoolError::AccountMismatch);
        }
        let share: u64 = custody_balance / (count as u64);
        proof {
            lemma_share_bounds(custody_balance, count as nat);
        }
        let mut payouts: Vec<Payout> = Vec::new();
        let mut i: usize = 0;
        while i < count
            invariant
                i <= count,
                count == self.bets@.len(),
                count == payees@.len(),
                pool == self@,
                *self == *old(self),
                pool.is_bet && now >= pool.end_time && count > 0,
                given == accounts_view(payees@),
                payouts@.len() == i,
                forall|j: int| 0 <= j < i ==> given[j] == (#[trigger] pool.bets[j]).bettor,
                forall|j: int|
                    0 <= j < i ==> (#[trigger] payouts@[j])@ == (PayoutView {
                        to: pool.bets[j].bettor,
                        amount: share,
                    }),
            decreases count - i,
        {
            let bet = &self.bets[i];
            assert(pool.bets[i as int] == bet@);
            assert(given[i as int] == payees@[i as int]@);
            if !same_account(&payees[i], &bet.bettor) {
                return Err(PoolError::AccountMismatch);
            }
            payouts.push(Payout { to: bet.bettor, amount: share });
            i += 1;
        }
        proof {
            let paid = payouts_view(payouts@);
            assert forall|j: int| 0 <= j < paid.len() implies (#[trigger] paid[j]).amount
                == share by {
                assert(paid[j] == payouts@[j]@);
            }
            lemma_total_of_equal_shares(paid, share);
        }
        let debit: u64 = share * (count as u64);
        self.is_bet = false;
        self.bet_amount = 0;
        self.bet_address = default_account();
        self.end_time = 0;
        self.bets.clear();
        assert(self@.bets =~= Seq::empty());
        Ok(Settlement { share, payouts, debit })
    }

    /// Opens or disables the pool stored in `record`.
    ///
    /// Fails with `Decode` when the record cannot be read, and otherwise as
    /// [`Bet::open_pool`] does.
    pub fn publish_post(
        record: &[u8],
        is_bet: bool,
        bet_amount: u64,
        caller: &AccountId,
        caller_balance: u64,
        now: i64,
    ) -> (update: Result<Update, PoolError>)
        requires
            is_bet ==> now + BETTING_WINDOW <= i64::MAX,
        ensures
            spec_published(record@, is_bet, bet_amount, caller@, caller_balance, now, update),
    {
        let mut pool = match Bet::deserialize(record) {
            Ok(pool) => pool,
            Err(e) => {
                return Err(PoolError::Decode(e));
            },
        };
        match pool.open_pool(is_bet, bet_amount, caller, caller_balance, now) {
            Ok(deposit) => Ok(Update { record: pool.serialize(), deposit }),
            Err(e) => Err(e),
        }
    }

    /// Records a stake in the pool stored in `record`.
    ///
    /// Fails with `Decode` when the record cannot be read, and otherwise as
    /// [`Bet::stake`] does.
    pub fn participate(
        record: &[u8],
        bet_amount: u64,
        participant: &AccountId,
        balance: u64,
        now: i64,
    ) -> (update: Result<Update, PoolError>)
        ensures
            spec_participated(record@, bet_amount, participant@, balance, now, update),
    {
        let mut pool = match Bet::deserialize(record) {
            Ok(pool) => pool,
            Err(e) => {
                return Err(PoolError::Decode(e));
            },
        };
        match pool.stake(bet_amount, participant, balance, now) {
            Ok(deposit) => Ok(Update { record: pool.serialize(), deposit }),
            Err(e) => Err(e),
        }
    }

    /// Pays out the pool stored in `record`.
    ///
    /// Fails with `Decode` when the record cannot be read, and otherwise as
    /// [`Bet::close_pool`] does. The record to store is that of a cleared pool.
    pub fn end_bet(
        record: &[u8],
        custody_balance: u64,
        payees: &[AccountId],
        now: i64,
    ) -> (closure: Result<Closure, PoolError>)
        ensures
            spec_ended(record@, custody_balance, accounts_view(payees@), now, closure),
    {
        let mut pool = match Bet::deserialize(record) {
            Ok(pool) => pool,
            Err(e) => {
                return Err(PoolError::Decode(e));
            },
        };
        match pool.close_pool(custody_balance, payees, now) {
            Ok(settlement) => Ok(Closure { record: pool.serialize(), settlement }),
            Err(e) => Err(e),
        }
    }

    /// The stakes of the pool stored in `record`, oldest first.
    ///
    /// Fails only when the record cannot be read. The answer depends on the
    /// record alone, and the record is not changed.
    pub fn get_bet_info(record: &[u8]) -> (bets: Result<Vec<BetInfo>, PoolError>)
        ensures
            spec_reported(record@, bets),
    {
        match Bet::deserialize(record) {
            Ok(pool) => Ok(pool.bets),
            Err(e) => Err(PoolError::Decode(e)),
        }
    }
}

} // verus!
