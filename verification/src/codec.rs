//! The byte layout of a pool record.
//!
//! A record is a 57-byte header followed by one 48-byte entry per stake:
//!
//! ```text
//! is_bet(1) | bet_amount(8) | bet_address(32) | end_time(8) | count(8)
//! count x ( bettor(32) | amount(8) | time(8) )
//! ```
//!
//! Integers are little-endian. Bytes after the last entry are ignored.

use vstd::prelude::*;
use vstd::bytes::spec_u64_to_le_bytes;
use vstd::bytes::spec_u64_from_le_bytes;
use vstd::bytes::u64_to_le_bytes;
use vstd::bytes::u64_from_le_bytes;
use vstd::bytes::lemma_auto_spec_u64_to_from_le_bytes;
use vstd::slice::slice_subrange;
use crate::account::AccountId;
use crate::state::Bet;
use crate::state::BetInfo;
use crate::state::BetInfoView;
use crate::state::BetView;
use crate::state::DecodeError;

verus! {

/// Length of the fixed part of a record.
pub const HEADER_LEN: usize = 57;

/// Length of one stake entry.
pub const ENTRY_LEN: usize = 48;

/// The eight little-endian bytes of a signed integer, in two's complement.
pub open spec fn spec_i64_to_le_bytes(x: i64) -> Seq<u8> {
    spec_u64_to_le_bytes(x as u64)
}

/// The signed integer that eight little-endian bytes stand for.
pub open spec fn spec_i64_from_le_bytes(s: Seq<u8>) -> i64 {
    spec_u64_from_le_bytes(s) as i64
}

/// The 48 bytes of one stake entry.
pub open spec fn spec_encode_entry(e: BetInfoView) -> Seq<u8> {
    e.bettor + spec_u64_to_le_bytes(e.amount) + spec_i64_to_le_bytes(e.time)
}

/// The stake that 48 bytes stand for.
pub open spec fn spec_decode_entry(s: Seq<u8>) -> BetInfoView {
    BetInfoView {
        bettor: s.subrange(0, 32),
        amount: spec_u64_from_le_bytes(s.subrange(32, 40)),
        time: spec_i64_from_le_bytes(s.subrange(40, 48)),
    }
}

/// The entries of a list of stakes, one after the other.
pub open spec fn spec_encode_entries(bets: Seq<BetInfoView>) -> Seq<u8>
    decreases bets.len(),
{
    if bets.len() == 0 {
        Seq::empty()
    } else {
        spec_encode_entries(bets.drop_last()) + spec_encode_entry(bets.last())
    }
}

/// The 57 bytes of a record's header.
pub open spec fn spec_encode_header(pool: BetView) -> Seq<u8> {
    seq![if pool.is_bet { 1u8 } else { 0u8 }] + spec_u64_to_le_bytes(pool.bet_amount)
        + pool.bet_address + spec_i64_to_le_bytes(pool.end_time) + spec_u64_to_le_bytes(
        pool.bets.len() as u64,
    )
}

/// The record of a pool: its header, then its entries.
pub open spec fn spec_encode(pool: BetView) -> Seq<u8> {
    spec_encode_header(pool) + spec_encode_entries(pool.bets)
}

/// The number of entries that a buffer of at least 57 bytes announces.
pub open spec fn spec_entry_count(data: Seq<u8>) -> nat {
    spec_u64_from_le_bytes(data.subrange(49, 57)) as nat
}

/// Whether a buffer holds a whole record: the header and every announced entry.
pub open spec fn spec_complete(data: Seq<u8>) -> bool {
    data.len() >= 57 && data.len() >= 57 + 48 * spec_entry_count(data)
}

/// The bytes of the entry at position `i` of a record.
pub open spec fn spec_entry_bytes(data: Seq<u8>, i: int) -> Seq<u8> {
    data.subrange(57 + 48 * i, 57 + 48 * i + 48)
}

/// The pool that a buffer stands for, if the buffer holds a whole record.
/// A first byte other than zero reads as an open pool.
pub open spec fn spec_decode(data: Seq<u8>) -> Option<BetView> {
    if spec_complete(data) {
        Some(
            BetView {
                bets: Seq::new(
                    spec_entry_count(data),
                    |i: int| spec_decode_entry(spec_entry_bytes(data, i)),
                ),
                is_bet: data[0] != 0,
                bet_amount: spec_u64_from_le_bytes(data.subrange(1, 9)),
                bet_address: data.subrange(9, 41),
                end_time: spec_i64_from_le_bytes(data.subrange(41, 49)),
            },
        )
    } else {
        None
    }
}

/// A signed integer survives the trip through its unsigned bit pattern.
pub proof fn lemma_i64_bits_round_trip(x: i64)
    ensures
        (x as u64) as i64 == x,
{
    assert((x as u64) as i64 == x) by (bit_vector);
}

/// The entries of `n` stakes take `48 * n` bytes, and the entry at position
/// `i` stands at offset `48 * i`.
pub proof fn lemma_encode_entries_layout(bets: Seq<BetInfoView>)
    requires
        forall|i: int| 0 <= i < bets.len() ==> (#[trigger] bets[i]).bettor.len() == 32,
    ensures
        spec_encode_entries(bets).len() == 48 * bets.len(),
        forall|i: int|
            0 <= i < bets.len() ==> #[trigger] spec_encode_entries(bets).subrange(
                48 * i,
                48 * i + 48,
            ) == spec_encode_entry(bets[i]),
    decreases bets.len(),
{
    lemma_auto_spec_u64_to_from_le_bytes();
    if bets.len() > 0 {
        let front = bets.drop_last();
        lemma_encode_entries_layout(front);
        let all = spec_encode_entries(bets);
        let head = spec_encode_entries(front);
        let tail = spec_encode_entry(bets.last());
        assert(tail.len() == 48);
        assert forall|i: int| 0 <= i < bets.len() implies #[trigger] all.subrange(
            48 * i,
            48 * i + 48,
        ) == spec_encode_entry(bets[i]) by {
            if i < front.len() {
                assert(front[i] == bets[i]);
                assert(all.subrange(48 * i, 48 * i + 48) =~= head.subrange(48 * i, 48 * i + 48));
            } else {
                assert(all.subrange(48 * i, 48 * i + 48) =~= tail);
            }
        }
    }
}

/// Reading an entry's 48 bytes gives the entry back.
pub proof fn lemma_entry_round_trip(e: BetInfoView)
    requires
        e.bettor.len() == 32,
    ensures
        spec_encode_entry(e).len() == 48,
        spec_decode_entry(spec_encode_entry(e)) == e,
{
    lemma_auto_spec_u64_to_from_le_bytes();
    lemma_i64_bits_round_trip(e.time);
    let s = spec_encode_entry(e);
    assert(s.subrange(0, 32) =~= e.bettor);
    assert(s.subrange(32, 40) =~= spec_u64_to_le_bytes(e.amount));
    assert(s.subrange(40, 48) =~= spec_i64_to_le_bytes(e.time));
}

/// Decoding undoes encoding: the record of a pool reads back as that pool.
pub proof fn lemma_decode_encode(pool: BetView)
    requires
        pool.wf(),
    ensures
        spec_decode(spec_encode(pool)) == Some(pool),
{
    lemma_auto_spec_u64_to_from_le_bytes();
    lemma_i64_bits_round_trip(pool.end_time);
    lemma_encode_entries_layout(pool.bets);
    let header = spec_encode_header(pool);
    let entries = spec_encode_entries(pool.bets);
    let data = spec_encode(pool);
    let n = pool.bets.len();
    assert(header.len() == 57);
    assert(data.subrange(49, 57) =~= spec_u64_to_le_bytes(n as u64));
    assert(spec_entry_count(data) == n);
    assert(data.len() == 57 + 48 * n);
    assert(data.subrange(1, 9) =~= spec_u64_to_le_bytes(pool.bet_amount));
    assert(data.subrange(9, 41) =~= pool.bet_address);
    assert(data.subrange(41, 49) =~= spec_i64_to_le_bytes(pool.end_time));
    let back = spec_decode(data).unwrap();
    assert forall|i: int| 0 <= i < n implies back.bets[i] == pool.bets[i] by {
        assert(spec_entry_bytes(data, i) =~= entries.subrange(48 * i, 48 * i + 48));
        lemma_entry_round_trip(pool.bets[i]);
    }
    assert(back.bets =~= pool.bets);
}

/// A buffer that ends before the header, or before the last entry that the
/// header announces, stands for no pool.
pub proof fn lemma_truncated_has_no_pool(data: Seq<u8>)
    requires
        data.len() < 57 || data.len() < 57 + 48 * spec_entry_count(data),
    ensures
        spec_decode(data).is_none(),
{
}

/// Appends the bytes of `src` to `buf`.
fn append_bytes(buf: &mut Vec<u8>, src: &[u8])
    ensures
        final(buf)@ == old(buf)@ + src@,
{
    let mut i: usize = 0;
    while i < src.len()
        invariant
            i <= src@.len(),
            buf@ == old(buf)@ + src@.subrange(0, i as int),
        decreases src@.len() - i,
    {
        buf.push(src[i]);
        i += 1;
        assert(buf@ =~= old(buf)@ + src@.subrange(0, i as int));
    }
    assert(src@.subrange(0, i as int) =~= src@);
}

/// Appends the eight little-endian bytes of `x` to `buf`.
fn append_u64(buf: &mut Vec<u8>, x: u64)
    ensures
        final(buf)@ == old(buf)@ + spec_u64_to_le_bytes(x),
{
    let bytes = u64_to_le_bytes(x);
    append_bytes(buf, bytes.as_slice());
}

/// Appends the eight little-endian bytes of `x` to `buf`.
fn append_i64(buf: &mut Vec<u8>, x: i64)
    ensures
        final(buf)@ == old(buf)@ + spec_i64_to_le_bytes(x),
{
    append_u64(buf, x as u64);
}

/// Reads the unsigned integer at `data[at..at + 8]`.
pub(crate) fn read_u64(data: &[u8], at: usize) -> (x: u64)
    requires
        at + 8 <= data@.len() <= usize::MAX,
    ensures
        x == spec_u64_from_le_bytes(data@.subrange(at as int, at + 8)),
{
    u64_from_le_bytes(slice_subrange(data, at, at + 8))
}

/// Reads the signed integer at `data[at..at + 8]`.
fn read_i64(data: &[u8], at: usize) -> (x: i64)
    requires
        at + 8 <= data@.len() <= usize::MAX,
    ensures
        x == spec_i64_from_le_bytes(data@.subrange(at as int, at + 8)),
{
    read_u64(data, at) as i64
}

/// Reads the account identifier at `data[at..at + 32]`.
fn read_account(data: &[u8], at: usize) -> (id: AccountId)
    requires
        at + 32 <= data@.len() <= usize::MAX,
    ensures
        id@ == data@.subrange(at as int, at + 32),
{
    let mut id: AccountId = [0u8; 32];
    let mut i: usize = 0;
    while i < 32
        invariant
            i <= 32,
            at + 32 <= data@.len() <= usize::MAX,
            forall|j: int| 0 <= j < i ==> id@[j] == data@[at + j],
        decreases 32 - i,
    {
        id[i] = data[at + i];
        i += 1;
    }
    assert(id@ =~= data@.subrange(at as int, at + 32));
    id
}

impl Bet {
    /// The record of this pool.
    pub fn serialize(&self) -> (buf: Vec<u8>)
        ensures
            buf@ == spec_encode(self@),
            buf@.len() == 57 + 48 * self@.bets.len(),
            spec_decode(buf@) == Some(self@),
    {
        let n = self.count();
        let mut buf: Vec<u8> = Vec::new();
        buf.push(if self.is_bet { 1u8 } else { 0u8 });
        append_u64(&mut buf, self.bet_amount);
        append_bytes(&mut buf, self.bet_address.as_slice());
        append_i64(&mut buf, self.end_time);
        append_u64(&mut buf, n as u64);
        assert(buf@ =~= spec_encode_header(self@));
        let mut i: usize = 0;
        while i < n
            invariant
                i <= n,
                n == self.bets@.len(),
                buf@ == spec_encode_header(self@) + spec_encode_entries(self@.bets.take(i as int)),
            decreases n - i,
        {
            let bet = &self.bets[i];
            append_bytes(&mut buf, bet.bettor.as_slice());
            append_u64(&mut buf, bet.amount);
            append_i64(&mut buf, bet.time);
            proof {
                let done = self@.bets.take(i + 1);
                assert(done.drop_last() =~= self@.bets.take(i as int));
                assert(done.last() == bet@);
                assert(buf@ =~= spec_encode_header(self@) + spec_encode_entries(done));
            }
            i += 1;
        }
        proof {
            assert(self@.bets.take(n as int) =~= self@.bets);
            lemma_encode_entries_layout(self@.bets);
            lemma_auto_spec_u64_to_from_le_bytes();
            lemma_decode_encode(self@);
        }
        buf
    }

    /// Reads a pool from its record. Fails with `Truncated` exactly when the
    /// buffer ends before the header or before the last announced entry.
    pub fn deserialize(data: &[u8]) -> (pool: Result<Bet, DecodeError>)
        ensures
            match pool {
                Ok(p) => spec_decode(data@) == Some(p@) && p@.wf(),
                Err(e) => e == DecodeError::Truncated && !spec_complete(data@),
            },
    {
        if data.len() < HEADER_LEN {
            return Err(DecodeError::Truncated);
        }
        let is_bet = data[0] != 0;
        let bet_amount = read_u64(data, 1);
        let bet_address = read_account(data, 9);
        let end_time = read_i64(data, 41);
        let announced = read_u64(data, 49);
        let room: usize = (data.len() - HEADER_LEN) / ENTRY_LEN;
        if announced > room as u64 {
            return Err(DecodeError::Truncated);
        }
        let n: usize = announced as usize;
        let mut bets: Vec<BetInfo> = Vec::new();
        let mut i: usize = 0;
        while i < n
            invariant
                i <= n,
                n == spec_entry_count(data@),
                57 + 48 * n <= data@.len() <= usize::MAX,
                bets@.len() == i,
                forall|j: int|
                    0 <= j < i ==> (#[trigger] bets@[j])@ == spec_decode_entry(
                        spec_entry_bytes(data@, j),
                    ),
            decreases n - i,
        {
            let at: usize = HEADER_LEN + ENTRY_LEN * i;
            let bet = BetInfo {
                bettor: read_account(data, at),
                amount: read_u64(data, at + 32),
                time: read_i64(data, at + 40),
            };
            proof {
                let chunk = spec_entry_bytes(data@, i as int);
                assert(chunk.subrange(0, 32) =~= data@.subrange(at as int, at + 32));
                assert(chunk.subrange(32, 40) =~= data@.subrange(at + 32, at + 40));
                assert(chunk.subrange(40, 48) =~= data@.subrange(at + 40, at + 48));
            }
            bets.push(bet);
            i += 1;
        }
        let pool = Bet { bets, is_bet, bet_amount, bet_address, end_time };
        proof {
            assert(pool@.bets =~= spec_decode(data@).unwrap().bets);
            assert forall|k: int| 0 <= k < pool@.bets.len() implies (#[trigger] pool@.bets[k]).bettor.len()
                == 32 by {
                assert(pool@.bets[k] == pool.bets@[k]@);
            }
        }
        Ok(pool)
    }
}

} // verus!
