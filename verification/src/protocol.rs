//! The two guarded state transitions of the escrow protocol.
//!
//! [`lock`] moves a buyer's payment into the custody address derived from
//! the listing key and persists the record; [`release`] pays the seller from
//! custody under the stored authority's approval, refunds the record slot's
//! deposit to the buyer, and destroys the record.  Both are atomic: on any
//! error the ledger is left exactly as it was.
//!
//! The contracts are functional: [`lock_err`] and [`release_err`] say, for
//! every input, exactly which error comes back and when none does, and
//! [`lock_post`] and [`release_post`] pin the resulting balances and record
//! store pointwise.
use vstd::prelude::*;

use crate::derive::{custody_of, derive_custody_address, record_slot_of};
use crate::errors::EscrowError;
use crate::ids::bytes_eq;
use crate::ledger::{
    bal, lemma_rec_absent, lemma_rec_at, rec_of, xfer_bal, Account, EscrowRecord, Ledger, RecordV,
};

verus! {

/// What a successful release paid out: the escrowed amount to the seller,
/// and the record slot's whole remaining balance (the storage deposit) back
/// to the buyer.
#[derive(Clone, Copy, Debug, PartialEq, Eq, Structural)]
pub struct TransferReceipt {
    /// Exactly the escrowed amount, credited to the seller.
    pub seller_amount: u64,
    /// The record slot's balance at release, returned to the buyer.
    pub buyer_refund: u64,
}

/// The custody address a listing key derives (meaningful when the
/// derivation exists).
pub open spec fn custody_addr(lid: Seq<u8>) -> Seq<u8> {
    (custody_of(lid)->0).0
}

/// The record slot address a listing key derives (meaningful when the
/// derivation exists).
pub open spec fn slot_addr(lid: Seq<u8>) -> Seq<u8> {
    (record_slot_of(lid)->0).0
}

/// A lock request is well-formed: non-empty listing key, positive amount.
pub open spec fn valid_lock_args(lid: Seq<u8>, amount: u64) -> bool {
    lid.len() > 0 && amount > 0
}

/// The error a lock request meets, or `None` when it succeeds: malformed or
/// underivable input, a live duplicate, a buyer who cannot cover amount plus
/// deposit, or a destination that cannot receive the funds.
pub open spec fn lock_err(
    accs: Seq<Account>,
    recs: Seq<EscrowRecord>,
    buyer: Seq<u8>,
    lid: Seq<u8>,
    amount: u64,
    deposit: u64,
) -> Option<EscrowError> {
    let c = custody_addr(lid);
    let s = slot_addr(lid);
    if !valid_lock_args(lid, amount) || custody_of(lid) is None {
        Some(EscrowError::InvalidArgument)
    } else if rec_of(recs, lid) is Some {
        Some(EscrowError::DuplicateEscrow)
    } else if bal(accs, buyer) < amount + deposit {
        Some(EscrowError::InsufficientFunds)
    } else if buyer != c && bal(accs, c) + amount > u64::MAX {
        Some(EscrowError::TransferFailed)
    } else if buyer != s && xfer_bal(accs, buyer, c, amount, s) + deposit > u64::MAX {
        Some(EscrowError::TransferFailed)
    } else {
        None
    }
}

/// The balance every address holds after a successful lock: the amount moves
/// from the buyer to the custody address, then the deposit from the buyer to
/// the record slot.
pub open spec fn lock_bal_after(
    accs: Seq<Account>,
    buyer: Seq<u8>,
    lid: Seq<u8>,
    amount: u64,
    deposit: u64,
    k: Seq<u8>,
) -> int {
    let c = custody_addr(lid);
    let s = slot_addr(lid);
    if buyer == s {
        xfer_bal(accs, buyer, c, amount, k)
    } else if k == buyer {
        xfer_bal(accs, buyer, c, amount, buyer) - deposit
    } else if k == s {
        xfer_bal(accs, buyer, c, amount, s) + deposit
    } else {
        xfer_bal(accs, buyer, c, amount, k)
    }
}

/// The record a successful lock persists.
pub open spec fn locked_record(
    buyer: Seq<u8>,
    seller: Seq<u8>,
    authority: Seq<u8>,
    lid: Seq<u8>,
    amount: u64,
) -> RecordV {
    RecordV {
        buyer,
        seller,
        authority,
        amount,
        listing_id: lid,
        vault_bump: (custody_of(lid)->0).1,
    }
}

/// How a successful lock rewrites the ledger, pointwise over addresses and
/// listing keys.
pub open spec fn lock_post(
    a0: Seq<Account>,
    r0: Seq<EscrowRecord>,
    a1: Seq<Account>,
    r1: Seq<EscrowRecord>,
    buyer: Seq<u8>,
    seller: Seq<u8>,
    authority: Seq<u8>,
    lid: Seq<u8>,
    amount: u64,
    deposit: u64,
) -> bool {
    &&& forall|k: Seq<u8>| #[trigger] bal(a1, k) == lock_bal_after(a0, buyer, lid, amount, deposit, k)
    &&& forall|k: Seq<u8>|
        #[trigger] rec_of(r1, k) == if k == lid {
            Some(locked_record(buyer, seller, authority, lid, amount))
        } else {
            rec_of(r0, k)
        }
}

/// Lock: validate the request, derive the custody address, refuse
/// duplicates, move `amount` from the buyer to custody and `deposit` from
/// the buyer to the record slot, and persist the record.  `buyer` is the
/// transaction's authenticated caller and the source of funds; `seller` and
/// `authority` are recorded, not authenticated.  Fails atomically: on any
/// error the ledger is untouched.
pub fn lock(
    ledger: &mut Ledger,
    buyer: [u8; 32],
    seller: [u8; 32],
    authority: [u8; 32],
    listing_id: Vec<u8>,
    amount: u64,
    deposit: u64,
) -> (r: Result<(), EscrowError>)
    requires
        old(ledger).wf(),
    ensures
        final(ledger).wf(),
        match r {
            Ok(()) => {
                &&& lock_err(
                    old(ledger).accounts@,
                    old(ledger).records@,
                    buyer@,
                    listing_id@,
                    amount,
                    deposit,
                ) is None
                &&& lock_post(
                    old(ledger).accounts@,
                    old(ledger).records@,
                    final(ledger).accounts@,
                    final(ledger).records@,
                    buyer@,
                    seller@,
                    authority@,
                    listing_id@,
                    amount,
                    deposit,
                )
            },
            Err(e) => {
                &&& Some(e) == lock_err(
                    old(ledger).accounts@,
                    old(ledger).records@,
                    buyer@,
                    listing_id@,
                    amount,
                    deposit,
                )
                &&& final(ledger).accounts@ == old(ledger).accounts@
                &&& final(ledger).records@ == old(ledger).records@
            },
        },
{
    if listing_id.len() == 0 || amount == 0 {
        return Err(EscrowError::InvalidArgument);
    }
    let d = match derive_custody_address(&listing_id) {
        None => {
            return Err(EscrowError::InvalidArgument);
        },
        Some(d) => d,
    };
    match ledger.find_record(listing_id.as_slice()) {
        Some(i) => {
            proof {
                lemma_rec_at(ledger.records@, i as int);
            }
            return Err(EscrowError::DuplicateEscrow);
        },
        None => {
            proof {
                lemma_rec_absent(ledger.records@, listing_id@);
            }
        },
    }
    let need = match amount.checked_add(deposit) {
        None => {
            return Err(EscrowError::InsufficientFunds);
        },
        Some(n) => n,
    };
    let bb = ledger.balance_of(&buyer);
    if bb < need {
        return Err(EscrowError::InsufficientFunds);
    }
    let buyer_is_custody = bytes_eq(&buyer, &d.custody);
    let bc0 = ledger.balance_of(&d.custody);
    if !buyer_is_custody && bc0 > u64::MAX - amount {
        return Err(EscrowError::TransferFailed);
    }
    let buyer_is_slot = bytes_eq(&buyer, &d.record_slot);
    let slot_is_custody = bytes_eq(&d.record_slot, &d.custody);
    if !buyer_is_slot {
        let bs1: u64 = if slot_is_custody {
            bc0 + amount
        } else {
            ledger.balance_of(&d.record_slot)
        };
        if bs1 > u64::MAX - deposit {
            return Err(EscrowError::TransferFailed);
        }
    }
    let ghost a0 = ledger.accounts@;
    ledger.transfer_applied(buyer, d.custody, amount);
    let ghost mid = ledger.accounts@;
    proof {
        assert(bal(mid, buyer@) == xfer_bal(a0, buyer@, d.custody@, amount, buyer@));
        assert(bal(mid, d.record_slot@) == xfer_bal(a0, buyer@, d.custody@, amount, d.record_slot@));
    }
    ledger.transfer_applied(buyer, d.record_slot, deposit);
    let rec = EscrowRecord {
        buyer,
        seller,
        authority,
        amount,
        listing_id,
        vault_bump: d.custody_bump,
    };
    proof {
        assert forall|k: Seq<u8>|
            #[trigger] bal(ledger.accounts@, k) == lock_bal_after(
                a0,
                buyer@,
                rec.listing_id@,
                amount,
                deposit,
                k,
            ) by {
            assert(bal(ledger.accounts@, k) == xfer_bal(mid, buyer@, d.record_slot@, deposit, k));
            assert(bal(mid, k) == xfer_bal(a0, buyer@, d.custody@, amount, k));
            assert(bal(mid, buyer@) == xfer_bal(a0, buyer@, d.custody@, amount, buyer@));
            assert(bal(mid, d.record_slot@) == xfer_bal(
                a0,
                buyer@,
                d.custody@,
                amount,
                d.record_slot@,
            ));
        };
    }
    proof {
        assert(rec@ == locked_record(buyer@, seller@, authority@, rec.listing_id@, amount));
    }
    match ledger.allocate(rec) {
        Ok(()) => Ok(()),
        Err(_) => {
            proof {
                assert(false);
            }
            Err(EscrowError::DuplicateEscrow)
        },
    }
}

/// The error a release request meets, or `None` when it succeeds: a missing
/// record, a caller who is not the stored authority or declared parties that
/// differ from the stored ones, a custody balance that cannot cover the
/// amount, or a credit that would overflow a destination.
pub open spec fn release_err(
    accs: Seq<Account>,
    recs: Seq<EscrowRecord>,
    caller: Seq<u8>,
    seller: Seq<u8>,
    buyer: Seq<u8>,
    lid: Seq<u8>,
) -> Option<EscrowError> {
    match rec_of(recs, lid) {
        None => Some(EscrowError::NotFound),
        Some(r) => {
            let c = custody_addr(lid);
            let s = slot_addr(lid);
            if !(caller == r.authority && seller == r.seller && buyer == r.buyer) {
                Some(EscrowError::Unauthorized)
            } else if bal(accs, c) < r.amount {
                Some(EscrowError::TransferFailed)
            } else if seller != c && bal(accs, seller) + r.amount > u64::MAX {
                Some(EscrowError::ArithmeticOverflow)
            } else if buyer != s && xfer_bal(accs, c, seller, r.amount, buyer) + xfer_bal(
                accs,
                c,
                seller,
                r.amount,
                s,
            ) > u64::MAX {
                Some(EscrowError::ArithmeticOverflow)
            } else {
                None
            }
        },
    }
}

/// The balance every address holds after a successful release: the amount
/// moves from custody to the seller, then the record slot's whole remaining
/// balance to the buyer, zeroing the slot.
pub open spec fn release_bal_after(
    accs: Seq<Account>,
    seller: Seq<u8>,
    buyer: Seq<u8>,
    lid: Seq<u8>,
    amount: u64,
    k: Seq<u8>,
) -> int {
    let c = custody_addr(lid);
    let s = slot_addr(lid);
    let rd = xfer_bal(accs, c, seller, amount, s);
    if s == buyer {
        xfer_bal(accs, c, seller, amount, k)
    } else if k == s {
        0
    } else if k == buyer {
        xfer_bal(accs, c, seller, amount, buyer) + rd
    } else {
        xfer_bal(accs, c, seller, amount, k)
    }
}

/// How a successful release rewrites the ledger and what the receipt says:
/// the seller is credited exactly the escrowed amount, the buyer receives
/// the record slot's balance (the storage deposit), and the listing key is
/// free again.
pub open spec fn release_post(
    a0: Seq<Account>,
    r0: Seq<EscrowRecord>,
    a1: Seq<Account>,
    r1: Seq<EscrowRecord>,
    seller: Seq<u8>,
    buyer: Seq<u8>,
    lid: Seq<u8>,
    amount: u64,
    rcpt: TransferReceipt,
) -> bool {
    let c = custody_addr(lid);
    let s = slot_addr(lid);
    &&& rcpt.seller_amount == amount
    &&& rcpt.buyer_refund == xfer_bal(a0, c, seller, amount, s)
    &&& forall|k: Seq<u8>|
        #[trigger] bal(a1, k) == release_bal_after(a0, seller, buyer, lid, amount, k)
    &&& forall|k: Seq<u8>|
        #[trigger] rec_of(r1, k) == if k == lid {
            None::<RecordV>
        } else {
            rec_of(r0, k)
        }
}

/// Release: find the record, check that the caller is the stored authority
/// and that the declared seller and buyer are the stored ones, re-derive the
/// custody address from the listing key, pay the seller exactly the
/// escrowed amount out of custody, return the record slot's balance to the
/// buyer, and destroy the record.  Atomic as a unit: on any error the
/// ledger is untouched and the record stays locked.
pub fn release(
    ledger: &mut Ledger,
    caller: [u8; 32],
    seller: [u8; 32],
    buyer: [u8; 32],
    listing_id: &Vec<u8>,
) -> (r: Result<TransferReceipt, EscrowError>)
    requires
        old(ledger).wf(),
    ensures
        final(ledger).wf(),
        match r {
            Ok(rcpt) => {
                &&& release_err(
                    old(ledger).accounts@,
                    old(ledger).records@,
                    caller@,
                    seller@,
                    buyer@,
                    listing_id@,
                ) is None
                &&& release_post(
                    old(ledger).accounts@,
                    old(ledger).records@,
                    final(ledger).accounts@,
                    final(ledger).records@,
                    seller@,
                    buyer@,
                    listing_id@,
                    (rec_of(old(ledger).records@, listing_id@)->0).amount,
                    rcpt,
                )
            },
            Err(e) => {
                &&& Some(e) == release_err(
                    old(ledger).accounts@,
                    old(ledger).records@,
                    caller@,
                    seller@,
                    buyer@,
                    listing_id@,
                )
                &&& final(ledger).accounts@ == old(ledger).accounts@
                &&& final(ledger).records@ == old(ledger).records@
            },
        },
{
    let i = match ledger.find_record(listing_id.as_slice()) {
        None => {
            proof {
                lemma_rec_absent(ledger.records@, listing_id@);
            }
            return Err(EscrowError::NotFound);
        },
        Some(i) => i,
    };
    proof {
        lemma_rec_at(ledger.records@, i as int);
    }
    let r_amount = ledger.records[i].amount;
    let r_buyer = ledger.records[i].buyer;
    let r_seller = ledger.records[i].seller;
    let r_authority = ledger.records[i].authority;
    if !(bytes_eq(&caller, &r_authority) && bytes_eq(&seller, &r_seller) && bytes_eq(
        &buyer,
        &r_buyer,
    )) {
        return Err(EscrowError::Unauthorized);
    }
    let d = match derive_custody_address(listing_id) {
        None => {
            proof {
                assert(false);
            }
            return Err(EscrowError::NotFound);
        },
        Some(d) => d,
    };
    let bc = ledger.balance_of(&d.custody);
    if bc < r_amount {
        return Err(EscrowError::TransferFailed);
    }
    let seller_is_custody = bytes_eq(&seller, &d.custody);
    let bs = ledger.balance_of(&seller);
    if !seller_is_custody && bs > u64::MAX - r_amount {
        return Err(EscrowError::ArithmeticOverflow);
    }
    let slot_is_custody = bytes_eq(&d.record_slot, &d.custody);
    let slot_is_seller = bytes_eq(&d.record_slot, &seller);
    let rd: u64 = if seller_is_custody {
        ledger.balance_of(&d.record_slot)
    } else if slot_is_custody {
        bc - r_amount
    } else if slot_is_seller {
        bs + r_amount
    } else {
        ledger.balance_of(&d.record_slot)
    };
    let buyer_is_slot = bytes_eq(&buyer, &d.record_slot);
    if !buyer_is_slot {
        let buyer_is_custody = bytes_eq(&buyer, &d.custody);
        let buyer_is_seller = bytes_eq(&buyer, &seller);
        let bb1: u64 = if seller_is_custody {
            ledger.balance_of(&buyer)
        } else if buyer_is_custody {
            bc - r_amount
        } else if buyer_is_seller {
            bs + r_amount
        } else {
            ledger.balance_of(&buyer)
        };
        if bb1 > u64::MAX - rd {
            return Err(EscrowError::ArithmeticOverflow);
        }
    }
    let ghost a0 = ledger.accounts@;
    ledger.transfer_applied(d.custody, seller, r_amount);
    let ghost mid = ledger.accounts@;
    proof {
        assert(bal(mid, d.record_slot@) == xfer_bal(a0, d.custody@, seller@, r_amount, d.record_slot@));
        assert(bal(mid, buyer@) == xfer_bal(a0, d.custody@, seller@, r_amount, buyer@));
    }
    let refund = ledger.destroy(i, d.record_slot, buyer);
    proof {
        assert(refund == rd);
        assert forall|k: Seq<u8>|
            #[trigger] bal(ledger.accounts@, k) == release_bal_after(
                a0,
                seller@,
                buyer@,
                listing_id@,
                r_amount,
                k,
            ) by {
            assert(bal(ledger.accounts@, k) == xfer_bal(mid, d.record_slot@, buyer@, rd, k));
            assert(bal(mid, k) == xfer_bal(a0, d.custody@, seller@, r_amount, k));
            assert(bal(mid, buyer@) == xfer_bal(a0, d.custody@, seller@, r_amount, buyer@));
            assert(bal(mid, d.record_slot@) == xfer_bal(
                a0,
                d.custody@,
                seller@,
                r_amount,
                d.record_slot@,
            ));
        };
    }
    Ok(TransferReceipt { seller_amount: r_amount, buyer_refund: refund })
}

} // verus!
