//! The registration guard: an account may hold a balance once the cost of its
//! ledger entry has been paid for.

use crate::errors::TokenError;
use crate::Contract;
use vstd::prelude::*;

verus! {

/// What an account has paid for storage, and how much of it is not in use.
#[derive(Clone, Copy, Debug, PartialEq, Eq, Structural)]
pub struct StorageBalance {
    pub total: u128,
    pub available: u128,
}

/// The least and the most that an account can pay for storage.
#[derive(Clone, Copy, Debug, PartialEq, Eq, Structural)]
pub struct StorageBalanceBounds {
    pub min: u128,
    pub max: Option<u128>,
}

/// How a storage deposit ended: the storage balance of the account, the part
/// of the attached payment that goes back to the payer, and whether the
/// account was registered before the deposit came.
#[derive(Clone, Copy, Debug, PartialEq, Eq, Structural)]
pub struct StorageDeposit {
    pub storage_balance: StorageBalance,
    pub refund: u128,
    pub already_registered: bool,
}

/// The cost of registering one account: the footprint of a ledger entry times
/// the price of one byte of storage.
pub open spec fn registration_cost(bytes_for_longest_account_id: u64, storage_byte_cost: u128) -> nat {
    (bytes_for_longest_account_id * storage_byte_cost) as nat
}

/// The account that a deposit is for: the one named, or else the payer.
pub open spec fn deposit_account(account_id: Option<String>, predecessor_id: String) -> Seq<char> {
    match account_id {
        Some(id) => id@,
        None => predecessor_id@,
    }
}

/// Registration against a deposit that pays for storage. Every method takes
/// the current price of one byte of storage.
pub trait StorageManagement {
    /// The cost of one registration at this price fits the range of a balance.
    spec fn registration_cost_fits(&self, storage_byte_cost: u128) -> bool;

    /// Registers the account that the deposit is for and says how much of the
    /// payment goes back.
    fn storage_deposit(
        &mut self,
        account_id: Option<String>,
        registration_only: Option<bool>,
        predecessor_id: String,
        attached_deposit: u128,
        storage_byte_cost: u128,
    ) -> Result<StorageDeposit, TokenError>
        requires
            old(self).registration_cost_fits(storage_byte_cost),
    ;

    /// The bounds of a storage balance.
    fn storage_balance_bounds(&self, storage_byte_cost: u128) -> StorageBalanceBounds
        requires
            self.registration_cost_fits(storage_byte_cost),
    ;

    /// The storage balance of an account, or `None` where it is not
    /// registered.
    fn storage_balance_of(&self, account_id: &String, storage_byte_cost: u128) -> Option<
        StorageBalance,
    >
        requires
            self.registration_cost_fits(storage_byte_cost),
    ;
}

impl StorageManagement for Contract {
    open spec fn registration_cost_fits(&self, storage_byte_cost: u128) -> bool {
        registration_cost(self.bytes_for_longest_account_id, storage_byte_cost) <= u128::MAX
    }

    /// For an account that is registered already the whole payment goes back
    /// and nothing changes. For any other the payment must cover the cost of
    /// one registration; the account is registered with balance zero and what
    /// exceeds the cost goes back. `registration_only` changes nothing: a
    /// deposit never pays for more than the registration.
    #[allow(unused_variables)]
    fn storage_deposit(
        &mut self,
        account_id: Option<String>,
        registration_only: Option<bool>,
        predecessor_id: String,
        attached_deposit: u128,
        storage_byte_cost: u128,
    ) -> (done: Result<StorageDeposit, TokenError>)
        ensures
            ({
                let id = deposit_account(account_id, predecessor_id);
                let cost = registration_cost(
                    old(self).bytes_for_longest_account_id,
                    storage_byte_cost,
                );
                if old(self).accounts@.contains_key(id) {
                    &&& done == Ok::<StorageDeposit, TokenError>(
                        StorageDeposit {
                            storage_balance: StorageBalance { total: cost as u128, available: 0 },
                            refund: attached_deposit,
                            already_registered: true,
                        },
                    )
                    &&& *final(self) == *old(self)
                } else if attached_deposit < cost {
                    &&& done == Err::<StorageDeposit, TokenError>(TokenError::InsufficientDeposit)
                    &&& *final(self) == *old(self)
                } else {
                    &&& done == Ok::<StorageDeposit, TokenError>(
                        StorageDeposit {
                            storage_balance: StorageBalance { total: cost as u128, available: 0 },
                            refund: (attached_deposit - cost) as u128,
                            already_registered: false,
                        },
                    )
                    &&& final(self).accounts@ == old(self).accounts@.insert(id, 0)
                    &&& final(self).accounts.total() == old(self).accounts.total()
                    &&& final(self).same_settings(old(self))
                }
            }),
            old(self).supply_conserved() ==> final(self).supply_conserved(),
    {
        let account_id = match account_id {
            Some(id) => id,
            None => predecessor_id,
        };
        let min_balance = self.storage_balance_bounds(storage_byte_cost).min;
        let storage_balance = StorageBalance { total: min_balance, available: 0 };
        if self.accounts.contains_key(&account_id) {
            return Ok(
                StorageDeposit { storage_balance, refund: attached_deposit, already_registered: true },
            );
        }
        if attached_deposit < min_balance {
            return Err(TokenError::InsufficientDeposit);
        }
        match self.internal_register_account(&account_id) {
            Ok(()) => Ok(
                StorageDeposit {
                    storage_balance,
                    refund: attached_deposit - min_balance,
                    already_registered: false,
                },
            ),
            Err(e) => Err(e),
        }
    }

    /// The least and the most are the same: the cost of one registration.
    fn storage_balance_bounds(&self, storage_byte_cost: u128) -> (bounds: StorageBalanceBounds)
        ensures
            bounds.min == registration_cost(self.bytes_for_longest_account_id, storage_byte_cost),
            bounds.max == Some(bounds.min),
    {
        let required_storage_balance = (self.bytes_for_longest_account_id as u128)
            * storage_byte_cost;
        StorageBalanceBounds {
            min: required_storage_balance,
            max: Some(required_storage_balance),
        }
    }

    /// A registered account has paid the cost of one registration, and none
    /// of it is available: the entry uses it all.
    fn storage_balance_of(&self, account_id: &String, storage_byte_cost: u128) -> (balance: Option<
        StorageBalance,
    >)
        ensures
            balance == (if self.accounts@.contains_key(account_id@) {
                Some(
                    StorageBalance {
                        total: registration_cost(
                            self.bytes_for_longest_account_id,
                            storage_byte_cost,
                        ) as u128,
                        available: 0,
                    },
                )
            } else {
                None
            }),
    {
        if self.accounts.contains_key(account_id) {
            Some(
                StorageBalance {
                    total: self.storage_balance_bounds(storage_byte_cost).min,
                    available: 0,
                },
            )
        } else {
            None
        }
    }
}

} // verus!
