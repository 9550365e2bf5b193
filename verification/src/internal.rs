//! The ledger operations that every other part of the token is built from.

use crate::errors::TokenError;
use crate::events::{memo_text, FtTransfer};
use crate::ledger::{credit_result, debit_result, register_result, transfer_result};
use crate::Contract;
use vstd::prelude::*;

verus! {

impl Contract {
    /// The balance of a registered account; refused for any other.
    pub fn internal_unwrap_balance_of(&self, account_id: &String) -> (balance: Result<
        u128,
        TokenError,
    >)
        ensures
            balance == (if self.accounts@.contains_key(account_id@) {
                Ok::<u128, TokenError>(self.accounts@[account_id@])
            } else {
                Err(TokenError::NotRegistered)
            }),
    {
        match self.accounts.get(account_id) {
            Some(balance) => Ok(balance),
            None => Err(TokenError::NotRegistered),
        }
    }

    /// Credits `amount` to a registered account. The supply counter is not
    /// touched: the sum of all balances grows by `amount`.
    pub fn internal_deposit(&mut self, account_id: &String, amount: u128) -> (done: Result<
        (),
        TokenError,
    >)
        ensures
            match credit_result(old(self).accounts@, account_id@, amount) {
                Ok(credited) => {
                    &&& done == Ok::<(), TokenError>(())
                    &&& final(self).accounts@ == credited
                    &&& final(self).accounts.total() == old(self).accounts.total() + amount
                    &&& final(self).same_settings(old(self))
                },
                Err(e) => done == Err::<(), TokenError>(e) && *final(self) == *old(self),
            },
    {
        let balance = match self.internal_unwrap_balance_of(account_id) {
            Ok(balance) => balance,
            Err(e) => {
                return Err(e);
            },
        };
        match balance.checked_add(amount) {
            Some(new_balance) => {
                self.accounts.insert(account_id, new_balance);
                Ok(())
            },
            None => Err(TokenError::Overflow),
        }
    }

    /// Debits `amount` from a registered account that holds at least as much.
    /// The supply counter is not touched: the sum of all balances shrinks by
    /// `amount`.
    pub fn internal_withdraw(&mut self, account_id: &String, amount: u128) -> (done: Result<
        (),
        TokenError,
    >)
        ensures
            match debit_result(old(self).accounts@, account_id@, amount) {
                Ok(debited) => {
                    &&& done == Ok::<(), TokenError>(())
                    &&& final(self).accounts@ == debited
                    &&& final(self).accounts.total() == old(self).accounts.total() - amount
                    &&& final(self).same_settings(old(self))
                },
                Err(e) => done == Err::<(), TokenError>(e) && *final(self) == *old(self),
            },
    {
        let balance = match self.internal_unwrap_balance_of(account_id) {
            Ok(balance) => balance,
            Err(e) => {
                return Err(e);
            },
        };
        match balance.checked_sub(amount) {
            Some(new_balance) => {
                self.accounts.insert(account_id, new_balance);
                Ok(())
            },
            None => Err(TokenError::InsufficientBalance),
        }
    }

    /// Registers an account with balance zero; refused where it is registered
    /// already, whatever it holds.
    pub fn internal_register_account(&mut self, account_id: &String) -> (done: Result<
        (),
        TokenError,
    >)
        ensures
            match register_result(old(self).accounts@, account_id@) {
                Ok(registered) => {
                    &&& done == Ok::<(), TokenError>(())
                    &&& final(self).accounts@ == registered
                    &&& final(self).accounts.total() == old(self).accounts.total()
                    &&& final(self).same_settings(old(self))
                },
                Err(e) => done == Err::<(), TokenError>(e) && *final(self) == *old(self),
            },
    {
        if self.accounts.contains_key(account_id) {
            return Err(TokenError::AlreadyRegistered);
        }
        self.accounts.insert(account_id, 0);
        Ok(())
    }

    /// Moves `amount` from `sender_id` to `receiver_id`: a debit followed by a
    /// credit of the same amount, so the sum of all balances stays what it
    /// was. Either both happen or, where anything is refused, neither. The
    /// record of the transfer carries the memo.
    pub fn internal_transfer(
        &mut self,
        sender_id: &String,
        receiver_id: &String,
        amount: u128,
        memo: Option<String>,
    ) -> (done: Result<FtTransfer, TokenError>)
        ensures
            match transfer_result(old(self).accounts@, sender_id@, receiver_id@, amount) {
                Ok(moved) => {
                    &&& done matches Ok(event)
                    &&& event.records(sender_id@, receiver_id@, amount, memo_text(memo))
                    &&& final(self).accounts@ == moved
                    &&& final(self).accounts.total() == old(self).accounts.total()
                    &&& final(self).same_settings(old(self))
                },
                Err(e) => done == Err::<FtTransfer, TokenError>(e) && *final(self) == *old(self),
            },
    {
        if amount == 0 {
            return Err(TokenError::InvalidAmount);
        }
        let sender_balance = match self.internal_unwrap_balance_of(sender_id) {
            Ok(balance) => balance,
            Err(e) => {
                return Err(e);
            },
        };
        if sender_balance < amount {
            return Err(TokenError::InsufficientBalance);
        }
        let receiver_balance = match self.internal_unwrap_balance_of(receiver_id) {
            Ok(balance) => balance,
            Err(e) => {
                return Err(e);
            },
        };
        let held = if *sender_id == *receiver_id {
            sender_balance - amount
        } else {
            receiver_balance
        };
        if held > u128::MAX - amount {
            return Err(TokenError::Overflow);
        }
        match self.internal_withdraw(sender_id, amount) {
            Ok(()) => {},
            Err(e) => {
                return Err(e);
            },
        }
        match self.internal_deposit(receiver_id, amount) {
            Ok(()) => Ok(
                FtTransfer {
                    old_owner_id: sender_id.clone(),
                    new_owner_id: receiver_id.clone(),
                    amount,
                    memo,
                },
            ),
            Err(e) => Err(e),
        }
    }

    /// Records what one registration costs in storage: the growth of the
    /// storage in use between the two readings taken around a trial
    /// registration of an account with the longest identifier allowed.
    pub fn measure_bytes_for_longest_account_id(
        &mut self,
        initial_storage_usage: u64,
        final_storage_usage: u64,
    )
        requires
            initial_storage_usage <= final_storage_usage,
        ensures
            final(self).bytes_for_longest_account_id == final_storage_usage
                - initial_storage_usage,
            final(self).accounts == old(self).accounts,
            final(self).total_supply == old(self).total_supply,
            final(self).metadata == old(self).metadata,
    {
        self.bytes_for_longest_account_id = final_storage_usage - initial_storage_usage;
    }
}

} // verus!
