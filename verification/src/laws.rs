//! The protocol's global guarantees, proved from the transition contracts.
//!
//! Each law is stated over the same spec functions that `lock`'s and
//! `release`'s own contracts use, so it holds of every pair of states an
//! actual call can produce.
use vstd::prelude::*;

use crate::derive::custody_of;
use crate::errors::EscrowError;
use crate::ledger::{bal, rec_of, Account, EscrowRecord};
use crate::protocol::{
    custody_addr, lock_bal_after, lock_err, lock_post, locked_record, release_bal_after,
    release_err, release_post, slot_addr,
    valid_lock_args, TransferReceipt,
};

verus! {

/// Conservation: a successful lock of `amount` (with `deposit`) followed by
/// a successful release pays the seller exactly `amount`, returns exactly
/// the deposit to the buyer, restores the custody address and zeroes the
/// slot, and touches no other balance — nothing leaks, nothing is created.
/// The parties and the two derived addresses are distinct and the slot is
/// fresh, as for any real escrow.
pub proof fn lemma_conservation(
    a0: Seq<Account>,
    r0: Seq<EscrowRecord>,
    a1: Seq<Account>,
    r1: Seq<EscrowRecord>,
    a2: Seq<Account>,
    r2: Seq<EscrowRecord>,
    buyer: Seq<u8>,
    seller: Seq<u8>,
    authority: Seq<u8>,
    lid: Seq<u8>,
    amount: u64,
    deposit: u64,
    rcpt: TransferReceipt,
)
    requires
        lock_err(a0, r0, buyer, lid, amount, deposit) is None,
        lock_post(a0, r0, a1, r1, buyer, seller, authority, lid, amount, deposit),
        release_err(a1, r1, authority, seller, buyer, lid) is None,
        release_post(a1, r1, a2, r2, seller, buyer, lid, amount, rcpt),
        buyer != seller,
        buyer != custody_addr(lid),
        buyer != slot_addr(lid),
        seller != custody_addr(lid),
        seller != slot_addr(lid),
        custody_addr(lid) != slot_addr(lid),
        bal(a0, slot_addr(lid)) == 0,
    ensures
        rcpt.seller_amount == amount,
        rcpt.buyer_refund == deposit,
        bal(a2, seller) == bal(a0, seller) + amount,
        bal(a2, buyer) == bal(a0, buyer) - amount,
        bal(a2, custody_addr(lid)) == bal(a0, custody_addr(lid)),
        bal(a2, slot_addr(lid)) == 0,
        forall|k: Seq<u8>|
            k != buyer && k != seller && k != custody_addr(lid) && k != slot_addr(lid)
                ==> #[trigger] bal(a2, k) == bal(a0, k),
        rcpt.seller_amount + rcpt.buyer_refund == amount + deposit,
{
    let c = custody_addr(lid);
    let s = slot_addr(lid);
    assert(bal(a1, buyer) == lock_bal_after(a0, buyer, lid, amount, deposit, buyer));
    assert(bal(a1, seller) == lock_bal_after(a0, buyer, lid, amount, deposit, seller));
    assert(bal(a1, c) == lock_bal_after(a0, buyer, lid, amount, deposit, c));
    assert(bal(a1, s) == lock_bal_after(a0, buyer, lid, amount, deposit, s));
    assert(bal(a2, buyer) == release_bal_after(a1, seller, buyer, lid, amount, buyer));
    assert(bal(a2, seller) == release_bal_after(a1, seller, buyer, lid, amount, seller));
    assert(bal(a2, c) == release_bal_after(a1, seller, buyer, lid, amount, c));
    assert(bal(a2, s) == release_bal_after(a1, seller, buyer, lid, amount, s));
    assert forall|k: Seq<u8>|
        k != buyer && k != seller && k != c && k != s implies #[trigger] bal(a2, k) == bal(
        a0,
        k,
    ) by {
        assert(bal(a1, k) == lock_bal_after(a0, buyer, lid, amount, deposit, k));
        assert(bal(a2, k) == release_bal_after(a1, seller, buyer, lid, amount, k));
    };
}

/// The locked state is funded: right after a lock of `amount` succeeds,
/// the custody address holds at least `amount`, so the escrowed payment is
/// there to release.  The buyer and the record slot are distinct from the
/// custody address, as for any real escrow.
pub proof fn lemma_lock_funds_custody(
    a0: Seq<Account>,
    r0: Seq<EscrowRecord>,
    a1: Seq<Account>,
    r1: Seq<EscrowRecord>,
    buyer: Seq<u8>,
    seller: Seq<u8>,
    authority: Seq<u8>,
    lid: Seq<u8>,
    amount: u64,
    deposit: u64,
)
    requires
        lock_err(a0, r0, buyer, lid, amount, deposit) is None,
        lock_post(a0, r0, a1, r1, buyer, seller, authority, lid, amount, deposit),
        buyer != custody_addr(lid),
        custody_addr(lid) != slot_addr(lid),
    ensures
        bal(a1, custody_addr(lid)) >= amount,
        rec_of(r1, lid) is Some,
{
    let c = custody_addr(lid);
    assert(bal(a1, c) == lock_bal_after(a0, buyer, lid, amount, deposit, c));
    assert(rec_of(r1, lid) == Some(locked_record(buyer, seller, authority, lid, amount)));
}

/// No double release: once a release of a listing key has succeeded, any
/// further release of the same key — whoever calls it — meets `NotFound`.
pub proof fn lemma_no_double_release(
    a1: Seq<Account>,
    r1: Seq<EscrowRecord>,
    a2: Seq<Account>,
    r2: Seq<EscrowRecord>,
    caller: Seq<u8>,
    seller: Seq<u8>,
    buyer: Seq<u8>,
    lid: Seq<u8>,
    amount: u64,
    rcpt: TransferReceipt,
    caller2: Seq<u8>,
    seller2: Seq<u8>,
    buyer2: Seq<u8>,
)
    requires
        release_err(a1, r1, caller, seller, buyer, lid) is None,
        release_post(a1, r1, a2, r2, seller, buyer, lid, amount, rcpt),
    ensures
        release_err(a2, r2, caller2, seller2, buyer2, lid) == Some(EscrowError::NotFound),
{
    assert(rec_of(r2, lid) is None);
}

/// Authorization enforcement: a release whose caller is not the stored
/// authority, or whose declared seller or buyer differs from the stored
/// ones, meets `Unauthorized`; by `release`'s error contract the ledger —
/// record and balances alike — is then left unchanged.
pub proof fn lemma_release_unauthorized(
    accs: Seq<Account>,
    recs: Seq<EscrowRecord>,
    caller: Seq<u8>,
    seller: Seq<u8>,
    buyer: Seq<u8>,
    lid: Seq<u8>,
)
    requires
        rec_of(recs, lid) matches Some(r) && !(caller == r.authority && seller == r.seller
            && buyer == r.buyer),
    ensures
        release_err(accs, recs, caller, seller, buyer, lid) == Some(EscrowError::Unauthorized),
{
}

/// Duplicate listing rejection: after a lock of a listing key succeeds, a
/// second lock of the same key — whatever its buyer, amount or deposit —
/// meets `DuplicateEscrow`, and the stored record is still the first one,
/// field for field.
pub proof fn lemma_duplicate_lock(
    a0: Seq<Account>,
    r0: Seq<EscrowRecord>,
    a1: Seq<Account>,
    r1: Seq<EscrowRecord>,
    buyer: Seq<u8>,
    seller: Seq<u8>,
    authority: Seq<u8>,
    lid: Seq<u8>,
    amount: u64,
    deposit: u64,
    buyer2: Seq<u8>,
    amount2: u64,
    deposit2: u64,
)
    requires
        lock_err(a0, r0, buyer, lid, amount, deposit) is None,
        lock_post(a0, r0, a1, r1, buyer, seller, authority, lid, amount, deposit),
        valid_lock_args(lid, amount2),
    ensures
        lock_err(a1, r1, buyer2, lid, amount2, deposit2) == Some(EscrowError::DuplicateEscrow),
        rec_of(r1, lid) == Some(locked_record(buyer, seller, authority, lid, amount)),
{
    assert(rec_of(r1, lid) == Some(locked_record(buyer, seller, authority, lid, amount)));
}

/// Atomic rollback on insufficient funds: a well-formed, derivable,
/// non-duplicate lock whose buyer cannot cover amount plus deposit meets
/// exactly `InsufficientFunds`; by `lock`'s error contract the ledger is
/// then left untouched — no record appears, no balance moves.
pub proof fn lemma_lock_insufficient(
    accs: Seq<Account>,
    recs: Seq<EscrowRecord>,
    buyer: Seq<u8>,
    lid: Seq<u8>,
    amount: u64,
    deposit: u64,
)
    requires
        valid_lock_args(lid, amount),
        custody_of(lid) is Some,
        rec_of(recs, lid) is None,
        bal(accs, buyer) < amount + deposit,
    ensures
        lock_err(accs, recs, buyer, lid, amount, deposit) == Some(EscrowError::InsufficientFunds),
{
}

} // verus!
