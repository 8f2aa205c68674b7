//! Account identifiers: 32 raw bytes naming an owner or a participant.

use vstd::prelude::*;

verus! {

/// The 32 bytes of an account identifier.
pub type AccountId = [u8; 32];

/// The identifier made of zero bytes only, which stands for "no account".
pub open spec fn spec_default_account() -> Seq<u8> {
    Seq::new(32, |i: int| 0u8)
}

/// The identifier that `solana_program::pubkey::Pubkey::default()` yields,
/// as raw bytes. `Pubkey` derives `Default` over its 32-byte array, so the
/// contract claims that every byte is zero.
#[verifier::external_body]
pub(crate) fn default_account() -> (id: AccountId)
    ensures
        id@ == spec_default_account(),
{
    solana_program::pubkey::Pubkey::default().to_bytes()
}

/// Whether two identifiers hold the same bytes.
pub fn same_account(a: &AccountId, b: &AccountId) -> (same: bool)
    ensures
        same == (a@ == b@),
{
    let mut i: usize = 0;
    while i < 32
        invariant
            i <= 32,
            forall|j: int| 0 <= j < i ==> a@[j] == b@[j],
        decreases 32 - i,
    {
        if a[i] != b[i] {
            return false;
        }
        i += 1;
    }
    assert(a@ =~= b@);
    true
}

} // verus!
