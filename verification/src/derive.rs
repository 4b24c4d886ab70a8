//! Deterministic custody-address derivation.
//!
//! A listing key first yields the address of the record's storage slot, and
//! that address in turn yields the custody (vault) address that holds the
//! locked funds.  Both steps go through the substrate's program-derived
//! address search, a pure function of the seeds and the program id; nothing
//! secret enters the derivation, so any holder of the public listing key can
//! reproduce it, and the derivation at lock time and the independent
//! re-derivation at release time agree exactly.
use vstd::prelude::*;

use crate::ids::{ESCROW_SEED, PROGRAM_ID, VAULT_SEED};

verus! {

/// The address and bump seed that the substrate's program-derived-address
/// search yields for a pair of seed slices under a program id, or `None`
/// when the search fails; a function of the seeds and the program id alone.
pub uninterp spec fn pda_of(tag: Seq<u8>, key: Seq<u8>, program: Seq<u8>) -> Option<(Seq<u8>, u8)>;

/// Relies on `Pubkey::try_find_program_address` (solana-pubkey, re-exported
/// as `anchor_lang::solana_program::pubkey`): the returned address and bump
/// seed are a deterministic function of the seed slices and the program id
/// (a SHA-256-based search over bump seeds), and `None` comes only when no
/// viable bump exists or a seed is over the substrate's length limit.
#[verifier::external_body]
fn find_pda(tag: &[u8], key: &[u8], program_id: &[u8; 32]) -> (r: Option<([u8; 32], u8)>)
    ensures
        match r {
            Some(p) => pda_of(tag@, key@, program_id@) == Some((p.0@, p.1)),
            None => pda_of(tag@, key@, program_id@) is None,
        },
{
    let program = anchor_lang::solana_program::pubkey::Pubkey::new_from_array(*program_id);
    match anchor_lang::solana_program::pubkey::Pubkey::try_find_program_address(
        &[tag, key],
        &program,
    ) {
        Some((addr, bump)) => Some((addr.to_bytes(), bump)),
        None => None,
    }
}

/// The storage slot address of the record for a listing key.
pub open spec fn record_slot_of(listing_id: Seq<u8>) -> Option<(Seq<u8>, u8)> {
    pda_of(ESCROW_SEED@, listing_id, PROGRAM_ID@)
}

/// The custody (vault) address for a listing key: derived from the record
/// slot address, which is itself derived from the listing key.
pub open spec fn custody_of(listing_id: Seq<u8>) -> Option<(Seq<u8>, u8)> {
    match record_slot_of(listing_id) {
        Some(p) => pda_of(VAULT_SEED@, p.0, PROGRAM_ID@),
        None => None,
    }
}

/// The two derived addresses a listing key determines, with their bump seeds.
pub struct DerivedAddrs {
    /// Address of the storage slot that holds the record and its deposit.
    pub record_slot: [u8; 32],
    /// Bump seed of the record slot derivation.
    pub record_bump: u8,
    /// Address that holds the locked funds.
    pub custody: [u8; 32],
    /// Bump seed of the custody derivation.
    pub custody_bump: u8,
}

/// Derive the custody address for a listing key, together with the record
/// slot address it goes through.  The result is a function of the listing
/// key alone.
pub fn derive_custody_address(listing_id: &Vec<u8>) -> (r: Option<DerivedAddrs>)
    ensures
        r is Some <==> custody_of(listing_id@) is Some,
        r matches Some(d) ==> record_slot_of(listing_id@) == Some((d.record_slot@, d.record_bump)),
        r matches Some(d) ==> custody_of(listing_id@) == Some((d.custody@, d.custody_bump)),
{
    let slot = match find_pda(ESCROW_SEED.as_slice(), listing_id.as_slice(), &PROGRAM_ID) {
        None => {
            return None;
        },
        Some(p) => p,
    };
    match find_pda(VAULT_SEED.as_slice(), slot.0.as_slice(), &PROGRAM_ID) {
        None => None,
        Some(q) => Some(
            DerivedAddrs {
                record_slot: slot.0,
                record_bump: slot.1,
                custody: q.0,
                custody_bump: q.1,
            },
        ),
    }
}

} // verus!
