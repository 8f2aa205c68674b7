//! The operation envelope: one code byte, then the operation's arguments.
//!
//! | code | arguments                          | operation        |
//! |------|------------------------------------|------------------|
//! | 0    | enable (1 byte), stake (8 bytes)   | open or disable  |
//! | 1    | stake (8 bytes)                    | stake            |
//! | 2    |                                    | close            |
//! | 3    |                                    | query            |
//!
//! Integers are little-endian; an enable byte other than zero means "open".

use vstd::prelude::*;
use vstd::bytes::spec_u64_from_le_bytes;
use crate::account::AccountId;
use crate::codec::read_u64;
use crate::pool::accounts_view;
use crate::pool::spec_ended;
use crate::pool::spec_participated;
use crate::pool::spec_published;
use crate::pool::spec_reported;
use crate::pool::Closure;
use crate::pool::Update;
use crate::pool::BETTING_WINDOW;
use crate::state::Bet;
use crate::state::BetInfo;
use crate::state::PoolError;

verus! {

/// One operation with its arguments.
#[derive(Clone, Copy, Debug, PartialEq, Eq, Structural)]
pub enum Instruction {
    /// Open the pool with the given stake, or disable it.
    PublishPost { is_bet: bool, bet_amount: u64 },
    /// Stake the given amount.
    Participate { bet_amount: u64 },
    /// Pay the pool out.
    EndBet,
    /// List the recorded stakes.
    GetBetInfo,
}

/// What an operation on a stored pool answers.
pub enum Outcome {
    /// The pool was opened, disabled or joined.
    Updated(Update),
    /// The pool was paid out.
    Closed(Closure),
    /// The recorded stakes.
    Report(Vec<BetInfo>),
}

/// The operation that an envelope stands for, if any. An envelope is
/// malformed when it is empty, when its code is unknown, or when it ends
/// before the arguments of its operation.
pub open spec fn spec_parse_instruction(data: Seq<u8>) -> Option<Instruction> {
    if data.len() == 0 {
        None
    } else if data[0] == 0 && data.len() >= 10 {
        Some(
            Instruction::PublishPost {
                is_bet: data[1] != 0,
                bet_amount: spec_u64_from_le_bytes(data.subrange(2, 10)),
            },
        )
    } else if data[0] == 1 && data.len() >= 9 {
        Some(Instruction::Participate { bet_amount: spec_u64_from_le_bytes(data.subrange(1, 9)) })
    } else if data[0] == 2 {
        Some(Instruction::EndBet)
    } else if data[0] == 3 {
        Some(Instruction::GetBetInfo)
    } else {
        None
    }
}

/// Reads an envelope. Fails with `InvalidOperation` exactly when the
/// envelope is malformed.
pub fn parse_instruction(data: &[u8]) -> (instruction: Result<Instruction, PoolError>)
    ensures
        match instruction {
            Ok(i) => spec_parse_instruction(data@) == Some(i),
            Err(e) => e == PoolError::InvalidOperation && spec_parse_instruction(data@).is_none(),
        },
{
    let len = data.len();
    if len == 0 {
        return Err(PoolError::InvalidOperation);
    }
    let code = data[0];
    if code == 0 && len >= 10 {
        Ok(Instruction::PublishPost { is_bet: data[1] != 0, bet_amount: read_u64(data, 2) })
    } else if code == 1 && len >= 9 {
        Ok(Instruction::Participate { bet_amount: read_u64(data, 1) })
    } else if code == 2 {
        Ok(Instruction::EndBet)
    } else if code == 3 {
        Ok(Instruction::GetBetInfo)
    } else {
        Err(PoolError::InvalidOperation)
    }
}

/// Whether `outcome` is the answer to `instruction` on the pool stored in
/// `record`: that of the one operation which the instruction names.
pub open spec fn spec_performed(
    record: Seq<u8>,
    instruction: Instruction,
    caller: Seq<u8>,
    caller_balance: u64,
    custody_balance: u64,
    payees: Seq<Seq<u8>>,
    now: i64,
    outcome: Result<Outcome, PoolError>,
) -> bool {
    match instruction {
        Instruction::PublishPost { is_bet, bet_amount } => match outcome {
            Ok(Outcome::Updated(u)) => spec_published(
                record,
                is_bet,
                bet_amount,
                caller,
                caller_balance,
                now,
                Ok(u),
            ),
            Err(e) => spec_published(
                record,
                is_bet,
                bet_amount,
                caller,
                caller_balance,
                now,
                Err(e),
            ),
            _ => false,
        },
        Instruction::Participate { bet_amount } => match outcome {
            Ok(Outcome::Updated(u)) => spec_participated(
                record,
                bet_amount,
                caller,
                caller_balance,
                now,
                Ok(u),
            ),
            Err(e) => spec_participated(record, bet_amount, caller, caller_balance, now, Err(e)),
            _ => false,
        },
        Instruction::EndBet => match outcome {
            Ok(Outcome::Closed(c)) => spec_ended(record, custody_balance, payees, now, Ok(c)),
            Err(e) => spec_ended(record, custody_balance, payees, now, Err(e)),
            _ => false,
        },
        Instruction::GetBetInfo => match outcome {
            Ok(Outcome::Report(list)) => spec_reported(record, Ok(list)),
            Err(e) => spec_reported(record, Err(e)),
            _ => false,
        },
    }
}

/// Whether opening with this envelope at time `now` would set a deadline
/// beyond the largest representable time.
pub open spec fn spec_deadline_overflows(data: Seq<u8>, now: i64) -> bool {
    match spec_parse_instruction(data) {
        Some(Instruction::PublishPost { is_bet, bet_amount }) => is_bet && now + BETTING_WINDOW
            > i64::MAX,
        _ => false,
    }
}

/// Performs the operation that the envelope `instruction_data` names on the
/// pool stored in `record`, on behalf of `caller`.
///
/// `caller_balance` is what the caller holds, `custody_balance` what the
/// pool's custody holds, `payees` the accounts to pay on a close, `now` the
/// current time. Fails with `InvalidOperation` when the envelope is
/// malformed, and otherwise as the named operation does.
pub fn process_instruction(
    record: &[u8],
    instruction_data: &[u8],
    caller: &AccountId,
    caller_balance: u64,
    custody_balance: u64,
    payees: &[AccountId],
    now: i64,
) -> (outcome: Result<Outcome, PoolError>)
    requires
        !spec_deadline_overflows(instruction_data@, now),
    ensures
        match spec_parse_instruction(instruction_data@) {
            Some(i) => spec_performed(
                record@,
                i,
                caller@,
                caller_balance,
                custody_balance,
                accounts_view(payees@),
                now,
                outcome,
            ),
            None => outcome matches Err(e) && e == PoolError::InvalidOperation,
        },
{
    let instruction = match parse_instruction(instruction_data) {
        Ok(i) => i,
        Err(e) => {
            return Err(e);
        },
    };
    match instruction {
        Instruction::PublishPost { is_bet, bet_amount } => {
            match Bet::publish_post(record, is_bet, bet_amount, caller, caller_balance, now) {
                Ok(u) => Ok(Outcome::Updated(u)),
                Err(e) => Err(e),
            }
        },
        Instruction::Participate { bet_amount } => {
            match Bet::participate(record, bet_amount, caller, caller_balance, now) {
                Ok(u) => Ok(Outcome::Updated(u)),
                Err(e) => Err(e),
            }
        },
        Instruction::EndBet => {
            match Bet::end_bet(record, custody_balance, payees, now) {
                Ok(c) => Ok(Outcome::Closed(c)),
                Err(e) => Err(e),
            }
        },
        Instruction::GetBetInfo => {
            match Bet::get_bet_info(record) {
                Ok(list) => Ok(Outcome::Report(list)),
                Err(e) => Err(e),
            }
        },
    }
}

} // verus!
