//! The escrow ledger: account balances and record storage.
//!
//! The ledger owns the data model and the invariants.  Balances are
//! attributed to 32-byte addresses; at most one record lives under a listing
//! key at any time.  Contracts speak through two spec functions: [`bal`],
//! the balance an address holds (zero when absent), and [`rec_of`], the
//! record stored under a listing key.
use vstd::prelude::*;

use crate::derive::custody_of;
use crate::errors::EscrowError;
use crate::ids::{byte_seq_eq, bytes_eq};

verus! {

/// One balance-bearing account of the ledger.
#[derive(Clone, Copy)]
pub struct Account {
    /// The account's address.
    pub addr: [u8; 32],
    /// The funds it holds, in the smallest currency unit.
    pub balance: u64,
}

/// The sole persisted entity: the escrow for one listing.  `amount`,
/// `buyer`, `seller` and `authority` are fixed at creation and never
/// mutated; the record is destroyed exactly once, at release.
pub struct EscrowRecord {
    /// Identity the funds came from; the authenticated caller at lock time.
    pub buyer: [u8; 32],
    /// Identity the funds are owed to.
    pub seller: [u8; 32],
    /// The only identity that may trigger release.
    pub authority: [u8; 32],
    /// The escrowed amount, fixed at creation.
    pub amount: u64,
    /// The business key; exactly one live record exists per listing key.
    pub listing_id: Vec<u8>,
    /// Bump seed of the custody derivation, kept to re-derive at release.
    pub vault_bump: u8,
}

/// Mathematical image of a record: every field as a plain value.
#[verifier::ext_equal]
pub struct RecordV {
    /// Image of the stored buyer identity.
    pub buyer: Seq<u8>,
    /// Image of the stored seller identity.
    pub seller: Seq<u8>,
    /// Image of the stored release authority.
    pub authority: Seq<u8>,
    /// The escrowed amount.
    pub amount: u64,
    /// Image of the listing key.
    pub listing_id: Seq<u8>,
    /// Bump seed of the custody derivation.
    pub vault_bump: u8,
}

impl View for EscrowRecord {
    type V = RecordV;

    open spec fn view(&self) -> RecordV {
        RecordV {
            buyer: self.buyer@,
            seller: self.seller@,
            authority: self.authority@,
            amount: self.amount,
            listing_id: self.listing_id@,
            vault_bump: self.vault_bump,
        }
    }
}

/// The balance the ledger attributes to an address; absent addresses hold
/// zero.
pub open spec fn bal(accs: Seq<Account>, k: Seq<u8>) -> u64
    decreases accs.len(),
{
    if accs.len() == 0 {
        0u64
    } else if accs.last().addr@ == k {
        accs.last().balance
    } else {
        bal(accs.drop_last(), k)
    }
}

/// The record stored under a listing key, if any.
pub open spec fn rec_of(recs: Seq<EscrowRecord>, lid: Seq<u8>) -> Option<RecordV>
    decreases recs.len(),
{
    if recs.len() == 0 {
        None
    } else if recs.last().listing_id@ == lid {
        Some(recs.last()@)
    } else {
        rec_of(recs.drop_last(), lid)
    }
}

/// Pointwise image of one transfer of `amount` from `from` to `to`: the
/// balance address `k` holds afterwards.  A transfer to oneself moves
/// nothing.
pub open spec fn xfer_bal(accs: Seq<Account>, from: Seq<u8>, to: Seq<u8>, amount: u64, k: Seq<u8>) -> int {
    if from == to {
        bal(accs, k) as int
    } else if k == from {
        bal(accs, from) - amount
    } else if k == to {
        bal(accs, to) + amount
    } else {
        bal(accs, k) as int
    }
}

/// Account addresses are pairwise distinct.
pub open spec fn uniq_accounts(accs: Seq<Account>) -> bool {
    forall|i: int, j: int|
        0 <= i < j < accs.len() ==> (#[trigger] accs[i]).addr@ != (#[trigger] accs[j]).addr@
}

/// Listing keys are pairwise distinct: at most one live record per listing.
pub open spec fn uniq_records(recs: Seq<EscrowRecord>) -> bool {
    forall|i: int, j: int|
        0 <= i < j < recs.len() ==> (#[trigger] recs[i]).listing_id@ != (#[trigger] recs[j]).listing_id@
}

/// A record as stored: non-empty key, positive amount, and a custody
/// derivation that exists and matches the stored bump seed.
pub open spec fn wf_record(r: RecordV) -> bool {
    &&& r.listing_id.len() > 0
    &&& r.amount > 0
    &&& (custody_of(r.listing_id) matches Some(p) && p.1 == r.vault_bump)
}

/// In a unique ledger, the entry at a position gives the attributed balance.
pub proof fn lemma_bal_at(accs: Seq<Account>, i: int)
    requires
        uniq_accounts(accs),
        0 <= i < accs.len(),
    ensures
        bal(accs, accs[i].addr@) == accs[i].balance,
    decreases accs.len(),
{
    if i < accs.len() - 1 {
        assert(accs[i].addr@ != accs.last().addr@);
        assert forall|p: int, q: int|
            0 <= p < q < accs.drop_last().len() implies (#[trigger] accs.drop_last()[p]).addr@
            != (#[trigger] accs.drop_last()[q]).addr@ by {
            assert(accs.drop_last()[p] == accs[p]);
            assert(accs.drop_last()[q] == accs[q]);
        };
        assert(accs.drop_last()[i] == accs[i]);
        lemma_bal_at(accs.drop_last(), i);
    }
}

/// An address no entry carries holds zero.
pub proof fn lemma_bal_absent(accs: Seq<Account>, k: Seq<u8>)
    requires
        forall|i: int| 0 <= i < accs.len() ==> (#[trigger] accs[i]).addr@ != k,
    ensures
        bal(accs, k) == 0,
    decreases accs.len(),
{
    if accs.len() > 0 {
        assert(accs.last() == accs[accs.len() - 1]);
        assert forall|i: int| 0 <= i < accs.drop_last().len() implies (#[trigger] accs.drop_last()[i]).addr@
            != k by {
            assert(accs.drop_last()[i] == accs[i]);
        };
        lemma_bal_absent(accs.drop_last(), k);
    }
}

/// Overwriting the entry at a position (same address) rewrites exactly that
/// address's balance, and keeps addresses unique.
pub proof fn lemma_bal_update(accs: Seq<Account>, i: int, a: Account, k: Seq<u8>)
    requires
        uniq_accounts(accs),
        0 <= i < accs.len(),
        a.addr@ == accs[i].addr@,
    ensures
        uniq_accounts(accs.update(i, a)),
        bal(accs.update(i, a), k) == if accs[i].addr@ == k {
            a.balance
        } else {
            bal(accs, k)
        },
    decreases accs.len(),
{
    let s1 = accs.update(i, a);
    assert forall|p: int, q: int|
        0 <= p < q < s1.len() implies (#[trigger] s1[p]).addr@ != (#[trigger] s1[q]).addr@ by {
        assert(accs[p].addr@ != accs[q].addr@);
    };
    if i == accs.len() - 1 {
        assert(s1.last() == a);
        assert(s1.drop_last() =~= accs.drop_last());
    } else {
        assert(s1.last() == accs.last());
        assert(s1.drop_last() =~= accs.drop_last().update(i, a));
        assert forall|p: int, q: int|
            0 <= p < q < accs.drop_last().len() implies (#[trigger] accs.drop_last()[p]).addr@
            != (#[trigger] accs.drop_last()[q]).addr@ by {
            assert(accs.drop_last()[p] == accs[p]);
            assert(accs.drop_last()[q] == accs[q]);
        };
        assert(accs.drop_last()[i] == accs[i]);
        lemma_bal_update(accs.drop_last(), i, a, k);
        assert(accs[i].addr@ != accs.last().addr@);
    }
}

/// Appending an entry for a fresh address binds that address's balance and
/// leaves every other address as it was.
pub proof fn lemma_bal_push(accs: Seq<Account>, a: Account, k: Seq<u8>)
    ensures
        bal(accs.push(a), k) == if a.addr@ == k {
            a.balance
        } else {
            bal(accs, k)
        },
{
    assert(accs.push(a).last() == a);
    assert(accs.push(a).drop_last() =~= accs);
}

/// Appending a fresh address keeps addresses unique.
pub proof fn lemma_uniq_push(accs: Seq<Account>, a: Account)
    requires
        uniq_accounts(accs),
        forall|i: int| 0 <= i < accs.len() ==> (#[trigger] accs[i]).addr@ != a.addr@,
    ensures
        uniq_accounts(accs.push(a)),
{
    let s1 = accs.push(a);
    assert forall|p: int, q: int|
        0 <= p < q < s1.len() implies (#[trigger] s1[p]).addr@ != (#[trigger] s1[q]).addr@ by {
        if q < accs.len() {
            assert(s1[p] == accs[p]);
            assert(s1[q] == accs[q]);
        } else {
            assert(s1[p] == accs[p]);
            assert(s1[q] == a);
        }
    };
}

/// In a unique store, the record at a position is the one its listing key
/// finds.
pub proof fn lemma_rec_at(recs: Seq<EscrowRecord>, i: int)
    requires
        uniq_records(recs),
        0 <= i < recs.len(),
    ensures
        rec_of(recs, recs[i].listing_id@) == Some(recs[i]@),
    decreases recs.len(),
{
    if i < recs.len() - 1 {
        assert(recs[i].listing_id@ != recs.last().listing_id@);
        assert forall|p: int, q: int|
            0 <= p < q < recs.drop_last().len() implies (#[trigger] recs.drop_last()[p]).listing_id@
            != (#[trigger] recs.drop_last()[q]).listing_id@ by {
            assert(recs.drop_last()[p] == recs[p]);
            assert(recs.drop_last()[q] == recs[q]);
        };
        assert(recs.drop_last()[i] == recs[i]);
        lemma_rec_at(recs.drop_last(), i);
    }
}

/// A listing key no entry carries stores nothing.
pub proof fn lemma_rec_absent(recs: Seq<EscrowRecord>, k: Seq<u8>)
    requires
        forall|i: int| 0 <= i < recs.len() ==> (#[trigger] recs[i]).listing_id@ != k,
    ensures
        rec_of(recs, k) is None,
    decreases recs.len(),
{
    if recs.len() > 0 {
        assert(recs.last() == recs[recs.len() - 1]);
        assert forall|i: int| 0 <= i < recs.drop_last().len() implies (#[trigger] recs.drop_last()[i]).listing_id@
            != k by {
            assert(recs.drop_last()[i] == recs[i]);
        };
        lemma_rec_absent(recs.drop_last(), k);
    }
}

/// Appending a record for a fresh listing key stores it there and leaves
/// every other key as it was; uniqueness is kept.
pub proof fn lemma_rec_push(recs: Seq<EscrowRecord>, r: EscrowRecord, k: Seq<u8>)
    requires
        uniq_records(recs),
        forall|i: int| 0 <= i < recs.len() ==> (#[trigger] recs[i]).listing_id@ != r.listing_id@,
    ensures
        uniq_records(recs.push(r)),
        rec_of(recs.push(r), k) == if r.listing_id@ == k {
            Some(r@)
        } else {
            rec_of(recs, k)
        },
{
    assert(recs.push(r).last() == r);
    assert(recs.push(r).drop_last() =~= recs);
    let s1 = recs.push(r);
    assert forall|p: int, q: int|
        0 <= p < q < s1.len() implies (#[trigger] s1[p]).listing_id@ != (#[trigger] s1[q]).listing_id@ by {
        if q < recs.len() {
            assert(s1[p] == recs[p]);
            assert(s1[q] == recs[q]);
        } else {
            assert(s1[p] == recs[p]);
            assert(s1[q] == r);
        }
    };
}

/// Removing the record at a position frees exactly its listing key and
/// leaves every other key as it was; uniqueness is kept.
pub proof fn lemma_rec_remove(recs: Seq<EscrowRecord>, i: int, k: Seq<u8>)
    requires
        uniq_records(recs),
        0 <= i < recs.len(),
    ensures
        uniq_records(recs.remove(i)),
        rec_of(recs.remove(i), k) == if recs[i].listing_id@ == k {
            None::<RecordV>
        } else {
            rec_of(recs, k)
        },
    decreases recs.len(),
{
    let s1 = recs.remove(i);
    assert forall|p: int, q: int|
        0 <= p < q < s1.len() implies (#[trigger] s1[p]).listing_id@ != (#[trigger] s1[q]).listing_id@ by {
        let p0 = if p < i {
            p
        } else {
            p + 1
        };
        let q0 = if q < i {
            q
        } else {
            q + 1
        };
        assert(s1[p] == recs[p0]);
        assert(s1[q] == recs[q0]);
        assert(recs[p0].listing_id@ != recs[q0].listing_id@);
    };
    if i == recs.len() - 1 {
        assert(s1 =~= recs.drop_last());
        if recs[i].listing_id@ == k {
            assert forall|j: int| 0 <= j < s1.len() implies (#[trigger] s1[j]).listing_id@ != k by {
                assert(s1[j] == recs[j]);
                assert(recs[j].listing_id@ != recs[i].listing_id@);
            };
            lemma_rec_absent(s1, k);
        }
    } else {
        assert(s1.last() == recs.last());
        assert(s1.drop_last() =~= recs.drop_last().remove(i));
        assert forall|p: int, q: int|
            0 <= p < q < recs.drop_last().len() implies (#[trigger] recs.drop_last()[p]).listing_id@
            != (#[trigger] recs.drop_last()[q]).listing_id@ by {
            assert(recs.drop_last()[p] == recs[p]);
            assert(recs.drop_last()[q] == recs[q]);
        };
        lemma_rec_remove(recs.drop_last(), i, k);
        assert(recs.drop_last()[i] == recs[i]);
        assert(recs[i].listing_id@ != recs.last().listing_id@);
    }
}

/// The ledger: every account balance and every live escrow record.
pub struct Ledger {
    /// The balance-bearing accounts, addresses pairwise distinct.
    pub accounts: Vec<Account>,
    /// The live escrow records, listing keys pairwise distinct.
    pub records: Vec<EscrowRecord>,
}

impl Ledger {
    /// Well-formedness: unique addresses, unique listing keys, and every
    /// stored record valid with a live custody derivation.
    pub open spec fn wf(&self) -> bool {
        &&& uniq_accounts(self.accounts@)
        &&& uniq_records(self.records@)
        &&& forall|i: int| 0 <= i < self.records@.len() ==> wf_record((#[trigger] self.records@[i])@)
    }

    /// An empty ledger: no balances, no records.
    pub fn new() -> (r: Ledger)
        ensures
            r.wf(),
            r.accounts@.len() == 0,
            r.records@.len() == 0,
            forall|k: Seq<u8>| bal(r.accounts@, k) == 0,
            forall|k: Seq<u8>| rec_of(r.records@, k) is None,
    {
        Ledger { accounts: Vec::new(), records: Vec::new() }
    }

    /// Index of the account holding an address, if one exists.
    fn find_account(&self, addr: &[u8; 32]) -> (r: Option<usize>)
        ensures
            match r {
                Some(i) => i < self.accounts@.len() && self.accounts@[i as int].addr@ == addr@,
                None => forall|j: int|
                    0 <= j < self.accounts@.len() ==> (#[trigger] self.accounts@[j]).addr@ != addr@,
            },
    {
        let n = self.accounts.len();
        let mut i: usize = 0;
        while i < n
            invariant
                0 <= i <= n,
                n == self.accounts@.len(),
                forall|j: int| 0 <= j < i ==> (#[trigger] self.accounts@[j]).addr@ != addr@,
            decreases n - i,
        {
            if bytes_eq(&self.accounts[i].addr, addr) {
                return Some(i);
            }
            i += 1;
        }
        None
    }

    /// The balance an address holds; zero when the address is absent.
    pub fn balance_of(&self, addr: &[u8; 32]) -> (r: u64)
        requires
            self.wf(),
        ensures
            r == bal(self.accounts@, addr@),
    {
        match self.find_account(addr) {
            Some(i) => {
                proof {
                    lemma_bal_at(self.accounts@, i as int);
                }
                self.accounts[i].balance
            },
            None => {
                proof {
                    lemma_bal_absent(self.accounts@, addr@);
                }
                0
            },
        }
    }

    /// Bind an address to a balance, materializing the account if absent.
    fn set_bal(&mut self, addr: [u8; 32], v: u64)
        requires
            old(self).wf(),
        ensures
            final(self).wf(),
            final(self).records@ == old(self).records@,
            forall|k: Seq<u8>|
                #[trigger] bal(final(self).accounts@, k) == if k == addr@ {
                    v
                } else {
                    bal(old(self).accounts@, k)
                },
    {
        let a = Account { addr, balance: v };
        match self.find_account(&addr) {
            Some(i) => {
                self.accounts[i] = a;
                proof {
                    assert forall|k: Seq<u8>|
                        #[trigger] bal(self.accounts@, k) == if k == addr@ {
                            v
                        } else {
                            bal(old(self).accounts@, k)
                        } by {
                        lemma_bal_update(old(self).accounts@, i as int, a, k);
                    };
                }
            },
            None => {
                self.accounts.push(a);
                proof {
                    lemma_uniq_push(old(self).accounts@, a);
                    assert forall|k: Seq<u8>|
                        #[trigger] bal(self.accounts@, k) == if k == addr@ {
                            v
                        } else {
                            bal(old(self).accounts@, k)
                        } by {
                        lemma_bal_push(old(self).accounts@, a, k);
                        if k != addr@ {
                        } else {
                        }
                    };
                }
            },
        }
    }

    /// Move `amount` from one address to another: debit, then credit.  A
    /// move to oneself leaves every balance unchanged.
    pub(crate) fn transfer_applied(&mut self, from: [u8; 32], to: [u8; 32], amount: u64)
        requires
            old(self).wf(),
            bal(old(self).accounts@, from@) >= amount,
            from@ != to@ ==> bal(old(self).accounts@, to@) + amount <= u64::MAX,
        ensures
            final(self).wf(),
            final(self).records@ == old(self).records@,
            forall|k: Seq<u8>|
                #[trigger] bal(final(self).accounts@, k) == xfer_bal(
                    old(self).accounts@,
                    from@,
                    to@,
                    amount,
                    k,
                ),
    {
        let bf = self.balance_of(&from);
        self.set_bal(from, bf - amount);
        let bt = self.balance_of(&to);
        self.set_bal(to, bt + amount);
    }

    /// Funds entering the ledger from outside (the substrate crediting an
    /// address); fails closed when the credit would overflow.
    pub fn credit(&mut self, addr: [u8; 32], amount: u64) -> (r: Result<(), EscrowError>)
        requires
            old(self).wf(),
        ensures
            final(self).wf(),
            final(self).records@ == old(self).records@,
            match r {
                Ok(()) => bal(old(self).accounts@, addr@) + amount <= u64::MAX && forall|k: Seq<u8>|
                    #[trigger] bal(final(self).accounts@, k) == if k == addr@ {
                        bal(old(self).accounts@, addr@) + amount
                    } else {
                        bal(old(self).accounts@, k) as int
                    },
                Err(e) => {
                    &&& e == EscrowError::ArithmeticOverflow
                    &&& bal(old(self).accounts@, addr@) + amount > u64::MAX
                    &&& final(self).accounts@ == old(self).accounts@
                },
            },
    {
        let b = self.balance_of(&addr);
        match b.checked_add(amount) {
            Some(nb) => {
                self.set_bal(addr, nb);
                Ok(())
            },
            None => Err(EscrowError::ArithmeticOverflow),
        }
    }

    /// Index of the record stored under a listing key, if one exists.
    pub(crate) fn find_record(&self, listing_id: &[u8]) -> (r: Option<usize>)
        ensures
            match r {
                Some(i) => i < self.records@.len() && self.records@[i as int].listing_id@
                    == listing_id@,
                None => forall|j: int|
                    0 <= j < self.records@.len() ==> (#[trigger] self.records@[j]).listing_id@
                        != listing_id@,
            },
    {
        let n = self.records.len();
        let mut i: usize = 0;
        while i < n
            invariant
                0 <= i <= n,
                n == self.records@.len(),
                forall|j: int| 0 <= j < i ==> (#[trigger] self.records@[j]).listing_id@ != listing_id@,
            decreases n - i,
        {
            if byte_seq_eq(self.records[i].listing_id.as_slice(), listing_id) {
                return Some(i);
            }
            i += 1;
        }
        None
    }

    /// Persist a record under its listing key; fails when a live record
    /// already exists for that key, and touches no balance either way.
    pub(crate) fn allocate(&mut self, rec: EscrowRecord) -> (r: Result<(), EscrowError>)
        requires
            old(self).wf(),
            wf_record(rec@),
        ensures
            final(self).wf(),
            final(self).accounts@ == old(self).accounts@,
            match r {
                Ok(()) => {
                    &&& rec_of(old(self).records@, rec.listing_id@) is None
                    &&& forall|k: Seq<u8>|
                        #[trigger] rec_of(final(self).records@, k) == if k == rec.listing_id@ {
                            Some(rec@)
                        } else {
                            rec_of(old(self).records@, k)
                        }
                },
                Err(e) => {
                    &&& e == EscrowError::DuplicateEscrow
                    &&& rec_of(old(self).records@, rec.listing_id@) is Some
                    &&& final(self).records@ == old(self).records@
                },
            },
    {
        match self.find_record(rec.listing_id.as_slice()) {
            Some(i) => {
                proof {
                    lemma_rec_at(self.records@, i as int);
                }
                Err(EscrowError::DuplicateEscrow)
            },
            None => {
                proof {
                    lemma_rec_absent(self.records@, rec.listing_id@);
                }
                let ghost recs0 = self.records@;
                self.records.push(rec);
                proof {
                    assert forall|k: Seq<u8>|
                        #[trigger] rec_of(self.records@, k) == if k == rec.listing_id@ {
                            Some(rec@)
                        } else {
                            rec_of(recs0, k)
                        } by {
                        lemma_rec_push(recs0, rec, k);
                    };
                    assert forall|i: int| 0 <= i < self.records@.len() implies wf_record(
                        (#[trigger] self.records@[i])@,
                    ) by {
                        if i < recs0.len() {
                            assert(self.records@[i] == recs0[i]);
                        } else {
                            assert(self.records@[i] == rec);
                        }
                    };
                }
                Ok(())
            },
        }
    }

    /// Free the storage slot of the record at a position: pay the slot
    /// address's whole balance — the storage deposit — to a recipient and
    /// destroy the record, as one unit.  The freed listing key stores
    /// nothing afterwards; every other key and balance is untouched.
    pub(crate) fn destroy(&mut self, i: usize, slot: [u8; 32], recipient: [u8; 32]) -> (refund:
        u64)
        requires
            old(self).wf(),
            i < old(self).records@.len(),
            recipient@ != slot@ ==> bal(old(self).accounts@, recipient@) + bal(
                old(self).accounts@,
                slot@,
            ) <= u64::MAX,
        ensures
            final(self).wf(),
            refund == bal(old(self).accounts@, slot@),
            forall|k: Seq<u8>|
                #[trigger] bal(final(self).accounts@, k) == xfer_bal(
                    old(self).accounts@,
                    slot@,
                    recipient@,
                    refund,
                    k,
                ),
            forall|k: Seq<u8>|
                #[trigger] rec_of(final(self).records@, k) == if k == old(
                    self,
                ).records@[i as int].listing_id@ {
                    None::<RecordV>
                } else {
                    rec_of(old(self).records@, k)
                },
    {
        let refund = self.balance_of(&slot);
        self.transfer_applied(slot, recipient, refund);
        let ghost recs0 = self.records@;
        self.records.remove(i);
        proof {
            assert forall|k: Seq<u8>|
                #[trigger] rec_of(self.records@, k) == if k == recs0[i as int].listing_id@ {
                    None::<RecordV>
                } else {
                    rec_of(recs0, k)
                } by {
                lemma_rec_remove(recs0, i as int, k);
            };
            lemma_rec_remove(recs0, i as int, recs0[i as int].listing_id@);
            assert forall|j: int| 0 <= j < self.records@.len() implies wf_record(
                (#[trigger] self.records@[j])@,
            ) by {
                if j < i {
                    assert(self.records@[j] == recs0[j]);
                } else {
                    assert(self.records@[j] == recs0[j + 1]);
                }
            };
        }
        refund
    }

    /// The live record under a listing key, if one exists.
    pub fn get_record(&self, listing_id: &Vec<u8>) -> (r: Option<&EscrowRecord>)
        requires
            self.wf(),
        ensures
            match r {
                Some(x) => rec_of(self.records@, listing_id@) == Some(x@),
                None => rec_of(self.records@, listing_id@) is None,
            },
    {
        match self.find_record(listing_id.as_slice()) {
            Some(i) => {
                proof {
                    lemma_rec_at(self.records@, i as int);
                }
                Some(&self.records[i])
            },
            None => {
                proof {
                    lemma_rec_absent(self.records@, listing_id@);
                }
                None
            },
        }
    }
}

} // verus!
