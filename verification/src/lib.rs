//! A fund-custody escrow protocol.
//!
//! A buyer locks a payment for a listing at a deterministically derived
//! custody address; a designated release authority later pays the seller and
//! returns the record's storage deposit to the buyer.  The library is the
//! escrow state machine itself: the record data model, the custody-address
//! derivation, and the two guarded transitions (lock, release) over a ledger
//! of balances and records.
pub mod codec;
pub mod derive;
pub mod errors;
pub mod ids;
pub mod laws;
pub mod ledger;
pub mod protocol;
