//! The records of what happened to balances, for whoever follows the token
//! from outside. The ledger writes them; how they are published is the
//! caller's business.

use vstd::prelude::*;

verus! {

/// Tokens were created for an account.
#[derive(Clone, Debug, PartialEq, Eq)]
pub struct FtMint {
    pub owner_id: String,
    pub amount: u128,
    pub memo: Option<String>,
}

/// Tokens moved from one account to another.
#[derive(Clone, Debug, PartialEq, Eq)]
pub struct FtTransfer {
    pub old_owner_id: String,
    pub new_owner_id: String,
    pub amount: u128,
    pub memo: Option<String>,
}

/// The memo of every mint at initialization.
pub const MINT_MEMO: &'static str = "Initial token supply is minted";

/// The memo of every transfer that hands an unused amount back.
pub const REFUND_MEMO: &'static str = "Refund";

/// The text of a memo, where there is one.
pub open spec fn memo_text(memo: Option<String>) -> Option<Seq<char>> {
    match memo {
        Some(text) => Some(text@),
        None => None,
    }
}

impl FtMint {
    /// The record says that `amount` was minted to `owner`, with this memo.
    pub open spec fn records(&self, owner: Seq<char>, amount: u128, memo: Option<Seq<char>>) -> bool {
        &&& self.owner_id@ == owner
        &&& self.amount == amount
        &&& memo_text(self.memo) == memo
    }
}

impl FtTransfer {
    /// The record says that `amount` moved from `old_owner` to `new_owner`,
    /// with this memo.
    pub open spec fn records(
        &self,
        old_owner: Seq<char>,
        new_owner: Seq<char>,
        amount: u128,
        memo: Option<Seq<char>>,
    ) -> bool {
        &&& self.old_owner_id@ == old_owner
        &&& self.new_owner_id@ == new_owner
        &&& self.amount == amount
        &&& memo_text(self.memo) == memo
    }
}

} // verus!
