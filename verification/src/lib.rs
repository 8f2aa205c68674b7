//! A pari-mutuel wagering pool: its persisted record, the byte layout of that
//! record, and the rules by which a pool is opened, joined and paid out.
//!
//! The library never touches a ledger or a clock. Every operation takes the
//! stored record, the balances and the time it needs as plain values, and
//! answers with the record to store next and the amounts to move.

pub mod account;
pub mod state;
pub mod codec;
pub mod pool;
pub mod dispatch;
