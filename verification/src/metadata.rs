//! The descriptive fields that a token carries.

use vstd::prelude::*;

verus! {

/// What a token says of itself. The ledger never reads it.
#[derive(Clone, Debug)]
pub struct FungibleTokenMetadata {
    pub spec: String,
    pub name: String,
    pub symbol: String,
    pub icon: Option<String>,
    pub reference: Option<String>,
    pub reference_hash: Option<Vec<u8>>,
    pub decimals: u8,
}

} // verus!
