//! The pool record and its mathematical model.

use vstd::prelude::*;
use crate::account::AccountId;
use crate::account::default_account;
use crate::account::spec_default_account;

verus! {

/// Why a stored record could not be read.
#[derive(Clone, Copy, Debug, PartialEq, Eq, Structural)]
pub enum DecodeError {
    /// The buffer ends before the header or before the last announced entry.
    Truncated,
}

/// Why an operation on a pool was refused.
#[derive(Clone, Copy, Debug, PartialEq, Eq, Structural)]
pub enum PoolError {
    /// The operation code is not one of the four known ones.
    InvalidOperation,
    /// The offered stake differs from the pool's fixed stake.
    InvalidAmount,
    /// The paying account holds less than the amount to move.
    InsufficientFunds,
    /// The pool does not accept stakes and cannot be closed.
    PoolClosed,
    /// The pool's deadline lies in the future.
    DeadlineNotReached,
    /// Nobody has staked, so there is nobody to pay.
    NoParticipants,
    /// The payee accounts are not the recorded participants, in order.
    AccountMismatch,
    /// The stored record could not be read.
    Decode(DecodeError),
}

/// One accepted stake: who staked, how much, and when.
#[derive(Clone, Copy, Debug, PartialEq, Eq)]
pub struct BetInfo {
    pub bettor: AccountId,
    pub amount: u64,
    pub time: i64,
}

/// Model of a [`BetInfo`].
pub struct BetInfoView {
    pub bettor: Seq<u8>,
    pub amount: u64,
    pub time: i64,
}

impl View for BetInfo {
    type V = BetInfoView;

    open spec fn view(&self) -> BetInfoView {
        BetInfoView { bettor: self.bettor@, amount: self.amount, time: self.time }
    }
}

/// The state of one pool.
#[derive(Clone, Debug, PartialEq, Eq)]
pub struct Bet {
    /// Every stake accepted since the pool was last paid out, oldest first.
    pub bets: Vec<BetInfo>,
    /// Whether the pool accepts stakes.
    pub is_bet: bool,
    /// The stake that every participant must contribute.
    pub bet_amount: u64,
    /// The account that opened the pool.
    pub bet_address: AccountId,
    /// Unix time from which the pool may be paid out.
    pub end_time: i64,
}

/// Model of a [`Bet`].
pub struct BetView {
    pub bets: Seq<BetInfoView>,
    pub is_bet: bool,
    pub bet_amount: u64,
    pub bet_address: Seq<u8>,
    pub end_time: i64,
}

impl BetView {
    /// Identifiers are 32 bytes long and the number of stakes fits in 64 bits.
    pub open spec fn wf(self) -> bool {
        &&& self.bet_address.len() == 32
        &&& self.bets.len() <= u64::MAX
        &&& forall|i: int| 0 <= i < self.bets.len() ==> (#[trigger] self.bets[i]).bettor.len() == 32
    }

    /// Every recorded stake is of the pool's fixed amount.
    pub open spec fn fixed_stakes(self) -> bool {
        forall|i: int| 0 <= i < self.bets.len() ==> (#[trigger] self.bets[i]).amount == self.bet_amount
    }

    /// The state of a pool that was never opened, or was just paid out.
    pub open spec fn cleared() -> BetView {
        BetView {
            bets: Seq::empty(),
            is_bet: false,
            bet_amount: 0,
            bet_address: spec_default_account(),
            end_time: 0,
        }
    }
}

/// Models of a list of stakes, in order.
pub open spec fn bets_view(bets: Seq<BetInfo>) -> Seq<BetInfoView> {
    Seq::new(bets.len(), |i: int| bets[i]@)
}

impl View for Bet {
    type V = BetView;

    open spec fn view(&self) -> BetView {
        BetView {
            bets: bets_view(self.bets@),
            is_bet: self.is_bet,
            bet_amount: self.bet_amount,
            bet_address: self.bet_address@,
            end_time: self.end_time,
        }
    }
}

impl Bet {
    /// A closed pool without stakes, stake amount, owner or deadline.
    pub fn new() -> (pool: Bet)
        ensures
            pool@ == BetView::cleared(),
            pool@.wf(),
    {
        let pool = Bet {
            bets: Vec::new(),
            is_bet: false,
            bet_amount: 0,
            bet_address: default_account(),
            end_time: 0,
        };
        assert(pool@.bets =~= Seq::empty());
        pool
    }

    /// The number of recorded stakes.
    pub fn count(&self) -> (n: usize)
        ensures
            n == self@.bets.len(),
            self@.wf(),
    {
        let n = self.bets.len();
        proof {
            assert forall|i: int| 0 <= i < self@.bets.len() implies (#[trigger] self@.bets[i]).bettor.len()
                == 32 by {
                assert(self@.bets[i] == self.bets@[i]@);
            }
        }
        n
    }
}

} // verus!
