//! Histories: what a ledger becomes under any sequence of operations, and
//! what holds of it after every one of them.

use crate::errors::TokenError;
use crate::ft_core::{lemma_resolve_keeps_total, resolve_result};
use crate::ledger::{
    lemma_register_keeps_total, lemma_transfer_keeps_total, map_total, register_result,
    transfer_result,
};
use vstd::prelude::*;

verus! {

/// An operation that changes the ledger.
pub enum Operation {
    /// An account is registered against a deposit.
    Register { account: Seq<char> },
    /// An amount moves from one account to another.
    Transfer { sender: Seq<char>, receiver: Seq<char>, amount: u128 },
    /// A notified transfer is resolved with the unused amount that counts.
    Resolve { sender: Seq<char>, receiver: Seq<char>, amount: u128, unused_amount: u128 },
}

/// The ledger after one operation, or why the operation was refused.
pub open spec fn step(m: Map<Seq<char>, u128>, operation: Operation) -> Result<
    Map<Seq<char>, u128>,
    TokenError,
> {
    match operation {
        Operation::Register { account } => register_result(m, account),
        Operation::Transfer { sender, receiver, amount } => transfer_result(
            m,
            sender,
            receiver,
            amount,
        ),
        Operation::Resolve { sender, receiver, amount, unused_amount } => match resolve_result(
            m,
            sender,
            receiver,
            amount,
            unused_amount,
        ) {
            Ok((settled, _)) => Ok(settled),
            Err(e) => Err(e),
        },
    }
}

/// The ledger after a sequence of operations, each applied to what the one
/// before it left; refused as soon as one of them is.
pub open spec fn run(m: Map<Seq<char>, u128>, operations: Seq<Operation>) -> Result<
    Map<Seq<char>, u128>,
    TokenError,
>
    decreases operations.len(),
{
    if operations.len() == 0 {
        Ok(m)
    } else {
        match run(m, operations.drop_last()) {
            Ok(before) => step(before, operations.last()),
            Err(e) => Err(e),
        }
    }
}

/// One successful operation leaves the sum of all balances as it was and
/// every registered account registered.
pub proof fn lemma_step_conserves_supply(m: Map<Seq<char>, u128>, operation: Operation)
    requires
        m.dom().finite(),
        step(m, operation) is Ok,
    ensures
        step(m, operation)->Ok_0.dom().finite(),
        map_total(step(m, operation)->Ok_0) == map_total(m),
        m.dom().subset_of(step(m, operation)->Ok_0.dom()),
{
    match operation {
        Operation::Register { account } => {
            lemma_register_keeps_total(m, account);
        },
        Operation::Transfer { sender, receiver, amount } => {
            lemma_transfer_keeps_total(m, sender, receiver, amount);
        },
        Operation::Resolve { sender, receiver, amount, unused_amount } => {
            lemma_resolve_keeps_total(m, sender, receiver, amount, unused_amount);
        },
    }
}

/// Supply conservation: after any sequence of successful operations the sum
/// of all balances is what it was at the start, so a supply counter that
/// equalled the sum then equals it still. No account is ever unregistered.
pub proof fn lemma_run_conserves_supply(m: Map<Seq<char>, u128>, operations: Seq<Operation>)
    requires
        m.dom().finite(),
        run(m, operations) is Ok,
    ensures
        run(m, operations)->Ok_0.dom().finite(),
        map_total(run(m, operations)->Ok_0) == map_total(m),
        m.dom().subset_of(run(m, operations)->Ok_0.dom()),
    decreases operations.len(),
{
    if operations.len() > 0 {
        lemma_run_conserves_supply(m, operations.drop_last());
        lemma_step_conserves_supply(run(m, operations.drop_last())->Ok_0, operations.last());
    }
}

} // verus!
