//! End-to-end exercises of the escrow state machine through its public
//! entry points, with the real address-derivation crate linked.
use aura_escrow::derive::derive_custody_address;
use aura_escrow::errors::EscrowError;
use aura_escrow::ledger::Ledger;
use aura_escrow::protocol::{lock, release, TransferReceipt};

fn addr(n: u8) -> [u8; 32] {
    [n; 32]
}

#[test]
fn end_to_end_scenario() {
    let mut l = Ledger::new();
    let buyer = addr(1);
    let seller = addr(2);
    let auth = addr(3);
    let lid = b"item-42".to_vec();
    l.credit(buyer, 10_000).unwrap();

    let d = derive_custody_address(&lid).expect("derivation must exist");
    assert_eq!(lock(&mut l, buyer, seller, auth, lid.clone(), 1000, 50), Ok(()));
    assert_eq!(l.balance_of(&d.custody), 1000);
    assert_eq!(l.balance_of(&d.record_slot), 50);
    assert_eq!(l.balance_of(&buyer), 10_000 - 1050);
    let rec = l.get_record(&lid).expect("record must be live");
    assert_eq!(rec.buyer, buyer);
    assert_eq!(rec.seller, seller);
    assert_eq!(rec.authority, auth);
    assert_eq!(rec.amount, 1000);
    assert_eq!(rec.listing_id, lid);
    assert_eq!(rec.vault_bump, d.custody_bump);

    let rcpt = release(&mut l, auth, seller, buyer, &lid).expect("release must succeed");
    assert_eq!(rcpt, TransferReceipt { seller_amount: 1000, buyer_refund: 50 });
    assert_eq!(l.balance_of(&seller), 1000);
    assert_eq!(l.balance_of(&buyer), 10_000 - 1000);
    assert_eq!(l.balance_of(&d.custody), 0);
    assert_eq!(l.balance_of(&d.record_slot), 0);
    assert!(l.get_record(&lid).is_none());

    // The listing key is free again: a fresh lock succeeds.
    assert_eq!(lock(&mut l, buyer, seller, auth, lid.clone(), 500, 10), Ok(()));
    assert_eq!(l.balance_of(&d.custody), 500);
}

#[test]
fn conservation_exact() {
    let mut l = Ledger::new();
    let buyer = addr(10);
    let seller = addr(11);
    let auth = addr(12);
    let lid = b"conserved".to_vec();
    l.credit(buyer, 7_777).unwrap();
    let before_buyer = l.balance_of(&buyer);
    let before_seller = l.balance_of(&seller);

    assert_eq!(lock(&mut l, buyer, seller, auth, lid.clone(), 1234, 89), Ok(()));
    let rcpt = release(&mut l, auth, seller, buyer, &lid).unwrap();

    let seller_credit = l.balance_of(&seller) - before_seller;
    // What the buyer is out, end to end, is exactly the escrowed amount:
    // the deposit came back with the release.
    let buyer_delta = before_buyer - l.balance_of(&buyer);
    assert_eq!(seller_credit, 1234);
    assert_eq!(buyer_delta, 1234);
    assert_eq!(rcpt.seller_amount + rcpt.buyer_refund, 1234 + 89);
}

#[test]
fn double_release_not_found() {
    let mut l = Ledger::new();
    let buyer = addr(21);
    let seller = addr(22);
    let auth = addr(23);
    let lid = b"once-only".to_vec();
    l.credit(buyer, 5_000).unwrap();
    assert_eq!(lock(&mut l, buyer, seller, auth, lid.clone(), 100, 5), Ok(()));
    assert!(release(&mut l, auth, seller, buyer, &lid).is_ok());
    assert_eq!(release(&mut l, auth, seller, buyer, &lid), Err(EscrowError::NotFound));
}

#[test]
fn release_unauthorized() {
    let mut l = Ledger::new();
    let buyer = addr(31);
    let seller = addr(32);
    let auth = addr(33);
    let stranger = addr(34);
    let lid = b"guarded".to_vec();
    l.credit(buyer, 5_000).unwrap();
    let d = derive_custody_address(&lid).unwrap();
    assert_eq!(lock(&mut l, buyer, seller, auth, lid.clone(), 800, 20), Ok(()));

    // Wrong caller identity.
    assert_eq!(release(&mut l, stranger, seller, buyer, &lid), Err(EscrowError::Unauthorized));
    // Declared seller differs from the stored one.
    assert_eq!(release(&mut l, auth, stranger, buyer, &lid), Err(EscrowError::Unauthorized));
    // Declared buyer differs from the stored one.
    assert_eq!(release(&mut l, auth, seller, stranger, &lid), Err(EscrowError::Unauthorized));

    // Record and balances unchanged.
    assert_eq!(l.balance_of(&d.custody), 800);
    assert_eq!(l.balance_of(&seller), 0);
    assert_eq!(l.get_record(&lid).unwrap().amount, 800);
}

#[test]
fn duplicate_lock_rejected() {
    let mut l = Ledger::new();
    let buyer = addr(41);
    let seller = addr(42);
    let auth = addr(43);
    let other_buyer = addr(44);
    let lid = b"one-listing".to_vec();
    l.credit(buyer, 5_000).unwrap();
    l.credit(other_buyer, 5_000).unwrap();
    assert_eq!(lock(&mut l, buyer, seller, auth, lid.clone(), 300, 7), Ok(()));
    assert_eq!(
        lock(&mut l, other_buyer, seller, auth, lid.clone(), 999, 1),
        Err(EscrowError::DuplicateEscrow)
    );
    // First record's fields unchanged.
    let rec = l.get_record(&lid).unwrap();
    assert_eq!(rec.buyer, buyer);
    assert_eq!(rec.amount, 300);
    assert_eq!(l.balance_of(&other_buyer), 5_000);
}

#[test]
fn derivation_stable() {
    let lid = b"item-42".to_vec();
    let d1 = derive_custody_address(&lid).unwrap();
    let d2 = derive_custody_address(&lid).unwrap();
    assert_eq!(d1.custody, d2.custody);
    assert_eq!(d1.record_slot, d2.record_slot);
    assert_eq!(d1.custody_bump, d2.custody_bump);
    assert_eq!(d1.record_bump, d2.record_bump);
    // The derivation really transforms its input: the two stages disagree
    // with each other and with another listing's custody address.
    assert_ne!(d1.custody, d1.record_slot);
    let other = derive_custody_address(&b"item-43".to_vec()).unwrap();
    assert_ne!(d1.custody, other.custody);
}

#[test]
fn insufficient_funds_rollback() {
    let mut l = Ledger::new();
    let buyer = addr(51);
    let seller = addr(52);
    let auth = addr(53);
    let lid = b"too-dear".to_vec();
    l.credit(buyer, 100).unwrap();
    let d = derive_custody_address(&lid).unwrap();
    assert_eq!(
        lock(&mut l, buyer, seller, auth, lid.clone(), 1000, 0),
        Err(EscrowError::InsufficientFunds)
    );
    // Amount alone affordable, amount plus deposit not.
    assert_eq!(
        lock(&mut l, buyer, seller, auth, lid.clone(), 100, 1),
        Err(EscrowError::InsufficientFunds)
    );
    assert_eq!(l.balance_of(&buyer), 100);
    assert_eq!(l.balance_of(&d.custody), 0);
    assert!(l.get_record(&lid).is_none());
}

#[test]
fn invalid_arguments_rejected() {
    let mut l = Ledger::new();
    let buyer = addr(61);
    l.credit(buyer, 1_000).unwrap();
    assert_eq!(
        lock(&mut l, buyer, addr(62), addr(63), Vec::new(), 10, 0),
        Err(EscrowError::InvalidArgument)
    );
    assert_eq!(
        lock(&mut l, buyer, addr(62), addr(63), b"zero".to_vec(), 0, 0),
        Err(EscrowError::InvalidArgument)
    );
    assert_eq!(l.balance_of(&buyer), 1_000);
}

#[test]
fn overlong_listing_key_underivable() {
    // A listing key over the substrate's seed-length limit admits no
    // custody derivation and is rejected as malformed.
    let lid = vec![7u8; 33];
    assert!(derive_custody_address(&lid).is_none());
    let mut l = Ledger::new();
    let buyer = addr(71);
    l.credit(buyer, 1_000).unwrap();
    assert_eq!(
        lock(&mut l, buyer, addr(72), addr(73), lid, 10, 0),
        Err(EscrowError::InvalidArgument)
    );
}

#[test]
fn release_not_found_on_empty_ledger() {
    let mut l = Ledger::new();
    assert_eq!(
        release(&mut l, addr(81), addr(82), addr(83), &b"ghost".to_vec()),
        Err(EscrowError::NotFound)
    );
}

#[test]
fn lock_transfer_failed_on_custody_overflow() {
    let mut l = Ledger::new();
    let buyer = addr(91);
    let seller = addr(92);
    let auth = addr(93);
    let lid = b"brimful".to_vec();
    let d = derive_custody_address(&lid).unwrap();
    l.credit(buyer, 2_000).unwrap();
    l.credit(d.custody, u64::MAX - 10).unwrap();
    assert_eq!(
        lock(&mut l, buyer, seller, auth, lid.clone(), 1000, 0),
        Err(EscrowError::TransferFailed)
    );
    assert_eq!(l.balance_of(&buyer), 2_000);
    assert!(l.get_record(&lid).is_none());
}

#[test]
fn release_overflow_fails_closed() {
    let mut l = Ledger::new();
    let buyer = addr(101);
    let seller = addr(102);
    let auth = addr(103);
    let lid = b"rich-seller".to_vec();
    l.credit(buyer, 5_000).unwrap();
    assert_eq!(lock(&mut l, buyer, seller, auth, lid.clone(), 1000, 25), Ok(()));
    l.credit(seller, u64::MAX - 10).unwrap();
    assert_eq!(
        release(&mut l, auth, seller, buyer, &lid),
        Err(EscrowError::ArithmeticOverflow)
    );
    // The record stays locked and the custody balance is untouched.
    let d = derive_custody_address(&lid).unwrap();
    assert_eq!(l.balance_of(&d.custody), 1000);
    assert_eq!(l.get_record(&lid).unwrap().amount, 1000);
}

#[test]
fn release_transfer_failed_when_custody_drained() {
    // An address that happens to serve as another party's identity can
    // spend the funds it holds; if that drains a custody address below its
    // record's amount, release aborts retryably and keeps the record.
    let mut l = Ledger::new();
    let buyer = addr(121);
    let seller = addr(122);
    let auth = addr(123);
    let lid = b"drained".to_vec();
    l.credit(buyer, 5_000).unwrap();
    assert_eq!(lock(&mut l, buyer, seller, auth, lid.clone(), 1000, 0), Ok(()));
    let d = derive_custody_address(&lid).unwrap();
    assert_eq!(l.balance_of(&d.custody), 1000);
    // The custody address acts as buyer of an unrelated escrow, moving 600
    // of its funds away.
    assert_eq!(lock(&mut l, d.custody, seller, auth, b"other".to_vec(), 600, 0), Ok(()));
    assert_eq!(l.balance_of(&d.custody), 400);
    assert_eq!(release(&mut l, auth, seller, buyer, &lid), Err(EscrowError::TransferFailed));
    // The record stays locked, retryable after remediation.
    assert_eq!(l.get_record(&lid).unwrap().amount, 1000);
    assert_eq!(l.balance_of(&d.custody), 400);
}

#[test]
fn credit_fails_closed_on_overflow() {
    let mut l = Ledger::new();
    let a = addr(111);
    l.credit(a, u64::MAX).unwrap();
    assert_eq!(l.credit(a, 1), Err(EscrowError::ArithmeticOverflow));
    assert_eq!(l.balance_of(&a), u64::MAX);
}
