//! The record's binary form: exact bytes, round trip, and rejection of
//! malformed encodings.
use aura_escrow::codec::{decode_record, encode_record};
use aura_escrow::ledger::EscrowRecord;

fn sample() -> EscrowRecord {
    EscrowRecord {
        buyer: [1; 32],
        seller: [2; 32],
        authority: [3; 32],
        amount: 1000,
        listing_id: b"item-42".to_vec(),
        vault_bump: 254,
    }
}

#[test]
fn encode_exact_bytes() {
    let bytes = encode_record(&sample());
    let mut expected = vec![1u8];
    expected.extend_from_slice(&[1; 32]);
    expected.extend_from_slice(&[2; 32]);
    expected.extend_from_slice(&[3; 32]);
    expected.extend_from_slice(&[232, 3, 0, 0, 0, 0, 0, 0]);
    expected.extend_from_slice(&[7, 0, 0, 0]);
    expected.extend_from_slice(b"item-42");
    expected.push(254);
    assert_eq!(bytes, expected);
}

#[test]
fn round_trip() {
    let rec = sample();
    let bytes = encode_record(&rec);
    let back = decode_record(&bytes).expect("well-formed encoding must parse");
    assert_eq!(back.buyer, rec.buyer);
    assert_eq!(back.seller, rec.seller);
    assert_eq!(back.authority, rec.authority);
    assert_eq!(back.amount, rec.amount);
    assert_eq!(back.listing_id, rec.listing_id);
    assert_eq!(back.vault_bump, rec.vault_bump);
}

#[test]
fn decode_rejects_wrong_version() {
    let mut bytes = encode_record(&sample());
    bytes[0] = 2;
    assert!(decode_record(&bytes).is_none());
}

#[test]
fn decode_rejects_truncated_input() {
    let bytes = encode_record(&sample());
    assert!(decode_record(&bytes[..bytes.len() - 1]).is_none());
    assert!(decode_record(&[]).is_none());
    assert!(decode_record(&bytes[..100]).is_none());
}

#[test]
fn decode_rejects_disagreeing_length_prefix() {
    let mut bytes = encode_record(&sample());
    // Claim one byte more of listing key than the input carries.
    bytes[105] = 8;
    assert!(decode_record(&bytes).is_none());
}
