//! Identities, addresses, and the deployment-time constants of the protocol.
//!
//! Identities and addresses are 32-byte values, as in the ledger substrate
//! the protocol is deployed on.  The program id is process-wide
//! configuration, fixed at deployment time.
use vstd::prelude::*;

verus! {

/// The deployed protocol's own identity: every custody address is derived
/// under this program id, so no external key can authorize spends from it.
pub const PROGRAM_ID: [u8; 32] = [
    65, 117, 114, 97, 69, 115, 99, 114, 111, 119, 80, 114, 111, 103, 114, 97,
    109, 73, 100, 0, 0, 0, 0, 0, 0, 0, 0, 0, 0, 0, 0, 1,
];

/// Seed tag under which a listing's record slot address is derived.
pub const ESCROW_SEED: [u8; 6] = [101, 115, 99, 114, 111, 119];

/// Seed tag under which a record slot's custody (vault) address is derived.
pub const VAULT_SEED: [u8; 5] = [118, 97, 117, 108, 116];

/// Equality of two 32-byte identities, usable in contracts through the views.
pub fn bytes_eq(a: &[u8; 32], b: &[u8; 32]) -> (r: bool)
    ensures
        r == (a@ == b@),
{
    let mut i: usize = 0;
    while i < 32
        invariant
            0 <= i <= 32,
            forall|j: int| 0 <= j < i ==> a@[j] == b@[j],
        decreases 32 - i,
    {
        if a[i] != b[i] {
            assert(a@[i as int] != b@[i as int]);
            return false;
        }
        i += 1;
    }
    assert(a@ =~= b@);
    true
}

/// Equality of two byte strings, usable in contracts through the views.
pub fn byte_seq_eq(a: &[u8], b: &[u8]) -> (r: bool)
    ensures
        r == (a@ == b@),
{
    if a.len() != b.len() {
        return false;
    }
    let n = a.len();
    let mut i: usize = 0;
    while i < n
        invariant
            0 <= i <= n,
            n == a@.len() == b@.len(),
            forall|j: int| 0 <= j < i ==> a@[j] == b@[j],
        decreases n - i,
    {
        if a[i] != b[i] {
            assert(a@[i as int] != b@[i as int]);
            return false;
        }
        i += 1;
    }
    assert(a@ =~= b@);
    true
}

} // verus!
