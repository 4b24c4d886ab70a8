//! The record's persisted form: a stable, versioned binary encoding.
//!
//! One version byte, the three identity fields at fixed width, the amount
//! as eight little-endian bytes, the listing key length-prefixed with four
//! little-endian bytes, and the custody bump seed last.  Decoding accepts
//! exactly the encodings this module produces, and producing then parsing a
//! record yields it back field for field.
use vstd::bytes::{
    lemma_auto_spec_u32_to_from_le_bytes, lemma_auto_spec_u64_to_from_le_bytes,
    spec_u32_from_le_bytes, spec_u32_to_le_bytes, spec_u64_from_le_bytes, spec_u64_to_le_bytes,
    u32_from_le_bytes, u32_to_le_bytes, u64_from_le_bytes, u64_to_le_bytes,
};
use vstd::prelude::*;
use vstd::slice::{slice_subrange, slice_to_vec};

use crate::ledger::{EscrowRecord, RecordV};

verus! {

/// Version tag of the record encoding.
pub const RECORD_VERSION: u8 = 1;

/// Bytes a record occupies beyond its variable-length listing key: the
/// version byte, three 32-byte identities, eight amount bytes, four length
/// bytes, and the bump seed.
pub const RECORD_OVERHEAD: usize = 110;

/// The encoded form of a record.
pub open spec fn spec_encode(r: RecordV) -> Seq<u8> {
    seq![RECORD_VERSION] + r.buyer + r.seller + r.authority + spec_u64_to_le_bytes(r.amount)
        + spec_u32_to_le_bytes(r.listing_id.len() as u32) + r.listing_id + seq![r.vault_bump]
}

/// The record a byte string encodes, if it is a well-formed encoding.
pub open spec fn spec_decode(s: Seq<u8>) -> Option<RecordV> {
    if s.len() < RECORD_OVERHEAD {
        None
    } else if s[0] != RECORD_VERSION {
        None
    } else {
        let n = spec_u32_from_le_bytes(s.subrange(105, 109));
        if s.len() != RECORD_OVERHEAD + n {
            None
        } else {
            Some(
                RecordV {
                    buyer: s.subrange(1, 33),
                    seller: s.subrange(33, 65),
                    authority: s.subrange(65, 97),
                    amount: spec_u64_from_le_bytes(s.subrange(97, 105)),
                    listing_id: s.subrange(109, 109 + n),
                    vault_bump: s[s.len() - 1],
                },
            )
        }
    }
}

/// Serialize a record into its stable binary form.
pub fn encode_record(r: &EscrowRecord) -> (out: Vec<u8>)
    requires
        r.listing_id@.len() <= u32::MAX,
    ensures
        out@ == spec_encode(r@),
{
    let mut out: Vec<u8> = Vec::new();
    out.push(RECORD_VERSION);
    let mut f = slice_to_vec(r.buyer.as_slice());
    out.append(&mut f);
    let mut f = slice_to_vec(r.seller.as_slice());
    out.append(&mut f);
    let mut f = slice_to_vec(r.authority.as_slice());
    out.append(&mut f);
    let mut f = u64_to_le_bytes(r.amount);
    out.append(&mut f);
    let mut f = u32_to_le_bytes(r.listing_id.len() as u32);
    out.append(&mut f);
    let mut f = slice_to_vec(r.listing_id.as_slice());
    out.append(&mut f);
    out.push(r.vault_bump);
    proof {
        assert(out@ =~= spec_encode(r@));
    }
    out
}

/// Copy 32 bytes out of a slice at an offset.
fn read32(s: &[u8], off: usize) -> (a: [u8; 32])
    requires
        off + 32 <= s@.len(),
        s@.len() <= usize::MAX,
    ensures
        a@ == s@.subrange(off as int, off as int + 32),
{
    let mut a: [u8; 32] = [0; 32];
    let mut i: usize = 0;
    while i < 32
        invariant
            0 <= i <= 32,
            off + 32 <= s@.len(),
            s@.len() <= usize::MAX,
            forall|j: int| 0 <= j < i ==> a@[j] == s@[off + j],
        decreases 32 - i,
    {
        a[i] = s[off + i];
        i += 1;
    }
    proof {
        assert(a@ =~= s@.subrange(off as int, off as int + 32));
    }
    a
}

/// Parse a record out of its stable binary form; `None` on anything but a
/// well-formed encoding (short input, unknown version, or a length prefix
/// that disagrees with the input's length).
pub fn decode_record(bytes: &[u8]) -> (r: Option<EscrowRecord>)
    ensures
        match r {
            Some(rec) => spec_decode(bytes@) == Some(rec@),
            None => spec_decode(bytes@) is None,
        },
{
    if bytes.len() < RECORD_OVERHEAD {
        return None;
    }
    if bytes[0] != RECORD_VERSION {
        return None;
    }
    let buyer = read32(bytes, 1);
    let seller = read32(bytes, 33);
    let authority = read32(bytes, 65);
    let amount = u64_from_le_bytes(slice_subrange(bytes, 97, 105));
    let n32 = u32_from_le_bytes(slice_subrange(bytes, 105, 109));
    let n = n32 as usize;
    if bytes.len() - RECORD_OVERHEAD != n {
        return None;
    }
    let listing_id = slice_to_vec(slice_subrange(bytes, 109, 109 + n));
    let vault_bump = bytes[bytes.len() - 1];
    let rec = EscrowRecord { buyer, seller, authority, amount, listing_id, vault_bump };
    proof {
        assert(spec_decode(bytes@) matches Some(v) && v =~= rec@);
    }
    Some(rec)
}

/// Round trip: producing a record's encoding and parsing it back yields the
/// record, field for field, for every record whose identity fields have
/// their fixed width and whose listing key fits the length prefix.
pub proof fn lemma_codec_round_trip(r: RecordV)
    requires
        r.buyer.len() == 32,
        r.seller.len() == 32,
        r.authority.len() == 32,
        r.listing_id.len() <= u32::MAX,
    ensures
        spec_decode(spec_encode(r)) == Some(r),
{
    lemma_auto_spec_u64_to_from_le_bytes();
    lemma_auto_spec_u32_to_from_le_bytes();
    let s = spec_encode(r);
    assert(spec_u64_to_le_bytes(r.amount).len() == 8);
    assert(spec_u32_to_le_bytes(r.listing_id.len() as u32).len() == 4);
    assert(s.len() == RECORD_OVERHEAD + r.listing_id.len());
    assert(s[0] == RECORD_VERSION);
    assert(s.subrange(105, 109) =~= spec_u32_to_le_bytes(r.listing_id.len() as u32));
    assert(spec_u32_from_le_bytes(s.subrange(105, 109)) == r.listing_id.len());
    assert(s.subrange(1, 33) =~= r.buyer);
    assert(s.subrange(33, 65) =~= r.seller);
    assert(s.subrange(65, 97) =~= r.authority);
    assert(s.subrange(97, 105) =~= spec_u64_to_le_bytes(r.amount));
    assert(s.subrange(109, 109 + r.listing_id.len() as int) =~= r.listing_id);
    assert(s[s.len() - 1] == r.vault_bump);
    assert(spec_decode(s) matches Some(v) && v =~= r);
}

} // verus!
