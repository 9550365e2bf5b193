//! Accounting core of a fungible-token ledger: a balance ledger with a global
//! supply counter, a storage-deposit guard that decides which accounts may hold
//! a balance, a transfer engine, and the resolution step that settles a
//! transfer after the receiver has been notified.

use vstd::prelude::*;

pub mod errors;
pub mod events;
pub mod ft_core;
pub mod history;
pub mod internal;
pub mod ledger;
pub mod metadata;
pub mod storage;

use crate::events::{FtMint, MINT_MEMO};
use crate::ledger::Ledger;
use crate::metadata::FungibleTokenMetadata;

verus! {

/// The version of the metadata layout that a token made with
/// [`Contract::new_default_meta`] declares.
pub const FT_METADATA_SPEC: &'static str = "ft-1.0.0";

/// Where the default icon of the token is found.
pub const DATA_IMAGE_SVG_GT_ICON: &'static str = "https://tswaanda.com/assets/logo-68d8236b.png";

/// The state of the token: the ledger, the supply counter, the measured
/// footprint of one registration, and the token's description.
#[derive(Clone, Debug)]
pub struct Contract {
    pub accounts: Ledger,
    pub total_supply: u128,
    pub bytes_for_longest_account_id: u64,
    pub metadata: FungibleTokenMetadata,
}

/// The parts of the state that are kept apart in durable storage.
#[derive(Clone, Copy, Debug, PartialEq, Eq, Structural)]
pub enum StorageKey {
    Accounts,
    Metadata,
}

impl Contract {
    /// The supply counter equals the sum of all balances.
    pub open spec fn supply_conserved(&self) -> bool {
        self.accounts.total() == self.total_supply
    }

    /// Everything but the ledger is as in `other`.
    pub open spec fn same_settings(&self, other: &Contract) -> bool {
        &&& self.total_supply == other.total_supply
        &&& self.bytes_for_longest_account_id == other.bytes_for_longest_account_id
        &&& self.metadata == other.metadata
    }

    /// A token with the default description: see [`Contract::new`] for the
    /// ledger it starts with.
    pub fn new_default_meta(
        owner_id: String,
        total_supply: u128,
        initial_storage_usage: u64,
        final_storage_usage: u64,
    ) -> (made: (Contract, FtMint))
        requires
            initial_storage_usage <= final_storage_usage,
        ensures
            ({
                let (this, event) = made;
                &&& this.accounts@ == Map::<Seq<char>, u128>::empty().insert(
                    owner_id@,
                    total_supply,
                )
                &&& this.total_supply == total_supply
                &&& this.supply_conserved()
                &&& this.bytes_for_longest_account_id == final_storage_usage
                    - initial_storage_usage
                &&& event.records(owner_id@, total_supply, Some(MINT_MEMO@))
            }),
            made.0.metadata.spec@ == FT_METADATA_SPEC@,
            made.0.metadata.name@ == "Tswaanda Token"@,
            made.0.metadata.symbol@ == "TSWT"@,
            made.0.metadata.icon matches Some(icon) && icon@ == DATA_IMAGE_SVG_GT_ICON@,
            made.0.metadata.reference is None,
            made.0.metadata.reference_hash is None,
            made.0.metadata.decimals == 24,
    {
        Contract::new(
            owner_id,
            total_supply,
            FungibleTokenMetadata {
                spec: FT_METADATA_SPEC.to_owned(),
                name: "Tswaanda Token".to_owned(),
                symbol: "TSWT".to_owned(),
                icon: Some(DATA_IMAGE_SVG_GT_ICON.to_owned()),
                reference: None,
                reference_hash: None,
                decimals: 24,
            },
            initial_storage_usage,
            final_storage_usage,
        )
    }

    /// A token whose whole supply is minted to `owner_id`: the owner is the
    /// one registered account and holds `total_supply`. The record of the
    /// mint comes with the token. The two readings of the storage in use
    /// give the footprint of one registration, as in
    /// [`Contract::measure_bytes_for_longest_account_id`].
    pub fn new(
        owner_id: String,
        total_supply: u128,
        metadata: FungibleTokenMetadata,
        initial_storage_usage: u64,
        final_storage_usage: u64,
    ) -> (made: (Contract, FtMint))
        requires
            initial_storage_usage <= final_storage_usage,
        ensures
            ({
                let (this, event) = made;
                &&& this.accounts@ == Map::<Seq<char>, u128>::empty().insert(
                    owner_id@,
                    total_supply,
                )
                &&& this.total_supply == total_supply
                &&& this.supply_conserved()
                &&& this.bytes_for_longest_account_id == final_storage_usage
                    - initial_storage_usage
                &&& this.metadata == metadata
                &&& event.records(owner_id@, total_supply, Some(MINT_MEMO@))
            }),
    {
        let mut this = Contract {
            total_supply,
            bytes_for_longest_account_id: 0,
            accounts: Ledger::new(),
            metadata,
        };
        this.measure_bytes_for_longest_account_id(initial_storage_usage, final_storage_usage);
        let registered = this.internal_register_account(&owner_id);
        let minted = this.internal_deposit(&owner_id, total_supply);
        assert(registered.is_ok() && minted.is_ok());
        let event = FtMint { owner_id, amount: total_supply, memo: Some(MINT_MEMO.to_owned()) };
        (this, event)
    }
}

} // verus!
