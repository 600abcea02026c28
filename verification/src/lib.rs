//! A registry and marketplace for uniquely identified digital patterns.
//! Participants mint assets bound to a deterministically generated opaque
//! payload, trade them through owner-initiated transfers, and buy and sell
//! them through a priced-bid protocol.
pub mod balances;
pub mod cipher;
pub mod hashing;
pub mod pallet;
pub mod seed;

use vstd::prelude::*;

verus! {

/// Identifier of a stored pattern: the hash of its record at mint time.
pub type PatternId = u64;

/// Account identifier in the ledger.
pub type AccountId = u64;

} // verus!
