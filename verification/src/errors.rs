//! The conditions under which a ledger operation is refused.

use vstd::prelude::*;

verus! {

/// Why an operation was refused. A refused operation changes nothing.
#[derive(Clone, Copy, Debug, PartialEq, Eq, Structural)]
pub enum TokenError {
    /// A debit asks for more than the account holds.
    InsufficientBalance,
    /// A credit would exceed the range of a balance.
    Overflow,
    /// The account to register already has a ledger entry.
    AlreadyRegistered,
    /// The account has no ledger entry.
    NotRegistered,
    /// The attached payment is below the cost of registering an account.
    InsufficientDeposit,
    /// The amount to transfer is zero.
    InvalidAmount,
}

impl TokenError {
    /// A sentence that describes the condition.
    pub fn message(&self) -> (text: &'static str)
        ensures
            text@ == match *self {
                TokenError::InsufficientBalance => "The account doesn't have enough balance"@,
                TokenError::Overflow => "Balance overflow"@,
                TokenError::AlreadyRegistered => "The account is already registered"@,
                TokenError::NotRegistered => "The account is not registered"@,
                TokenError::InsufficientDeposit
                    => "The attached deposit is less than the minimum storage balance"@,
                TokenError::InvalidAmount => "The amount should be a positive number"@,
            },
    {
        match self {
            TokenError::InsufficientBalance => "The account doesn't have enough balance",
            TokenError::Overflow => "Balance overflow",
            TokenError::AlreadyRegistered => "The account is already registered",
            TokenError::NotRegistered => "The account is not registered",
            TokenError::InsufficientDeposit
                => "The attached deposit is less than the minimum storage balance",
            TokenError::InvalidAmount => "The amount should be a positive number",
        }
    }
}

} // verus!
