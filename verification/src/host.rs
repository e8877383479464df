//! What the ledger takes from the host's software kit.

use vstd::prelude::*;

verus! {

/// `near_sdk::env::storage_byte_cost`: the price of one byte of storage. The
/// kit returns its constant `STORAGE_PRICE_PER_BYTE`, ten to the nineteenth,
/// and asks the host nothing.
pub assume_specification[ near_sdk::env::storage_byte_cost ]() -> (cost: u128)
    ensures
        cost == 10_000_000_000_000_000_000u128,
;

} // verus!
