//! The transfer engine and the resolution of a transfer that notified its
//! receiver.

use crate::errors::TokenError;
use crate::events::{memo_text, FtTransfer, REFUND_MEMO};
use crate::ledger::{
    balance_in, lemma_entries_map_finite, lemma_transfer_in_range, lemma_transfer_keeps_total,
    map_total, transfer_result,
};
use crate::Contract;
use vstd::prelude::*;

verus! {

/// The gas set aside for the resolution step.
pub const GAS_FOR_RESOLVE_TRANSFER: u64 = 5_000_000_000_000;

/// The gas handed to the receiver's handler; it covers the resolution step too.
pub const GAS_FOR_FT_TRANSFER_CALL: u64 = 25_000_000_000_000 + GAS_FOR_RESOLVE_TRANSFER;

/// How the call of the receiver's handler ended, as the resolution step finds
/// it.
#[derive(Clone, Debug, PartialEq, Eq)]
pub enum PromiseResult {
    /// The outcome is not known yet.
    NotReady,
    /// The handler returned, with these bytes as its response.
    Successful(Vec<u8>),
    /// The handler failed or ran out of gas.
    Failed,
}

/// A transfer that has moved its amount and waits for its receiver to be
/// notified: whom to call, with what, and the gas for the call and for the
/// resolution step that follows it.
#[derive(Clone, Debug, PartialEq, Eq)]
pub struct TransferCall {
    pub sender_id: String,
    pub receiver_id: String,
    pub amount: u128,
    pub msg: String,
    pub gas_for_receiver: u64,
    pub gas_for_resolve: u64,
}

/// The token operations that its holders call.
pub trait FungibleTokenCore {
    /// Moves `amount` from `sender_id` to `receiver_id`.
    fn ft_transfer(
        &mut self,
        sender_id: &String,
        receiver_id: &String,
        amount: u128,
        memo: Option<String>,
    ) -> Result<FtTransfer, TokenError>;

    /// Moves `amount` from `sender_id` to `receiver_id` and says how the
    /// receiver is to be notified of it.
    fn ft_transfer_call(
        &mut self,
        sender_id: &String,
        receiver_id: &String,
        amount: u128,
        memo: Option<String>,
        msg: String,
    ) -> Result<(FtTransfer, TransferCall), TokenError>;

    /// The number of tokens that exist.
    fn ft_total_supply(&self) -> u128;

    /// The balance of an account; zero for one that is not registered.
    fn ft_balance_of(&self, account_id: &String) -> u128;
}

/// What the receiver of a notified transfer implements: told who sent how
/// much, with the sender's message, it answers with the amount it has no use
/// for.
pub trait FungibleTokenReceiver {
    fn ft_on_transfer(&mut self, sender_id: String, amount: u128, msg: String) -> u128;
}

impl FungibleTokenCore for Contract {
    /// Refused where the amount is zero, where the sender is not registered or
    /// holds less than `amount`, where the receiver is not registered, and
    /// where the receiver's balance would leave its range: in that order.
    fn ft_transfer(
        &mut self,
        sender_id: &String,
        receiver_id: &String,
        amount: u128,
        memo: Option<String>,
    ) -> (done: Result<FtTransfer, TokenError>)
        ensures
            match transfer_result(old(self).accounts@, sender_id@, receiver_id@, amount) {
                Ok(moved) => {
                    &&& done matches Ok(event)
                    &&& event.records(sender_id@, receiver_id@, amount, memo_text(memo))
                    &&& final(self).accounts@ == moved
                    &&& final(self).accounts.total() == old(self).accounts.total()
                    &&& final(self).same_settings(old(self))
                },
                Err(e) => done == Err::<FtTransfer, TokenError>(e) && *final(self) == *old(self),
            },
            old(self).supply_conserved() ==> final(self).supply_conserved() && done
                != Err::<FtTransfer, TokenError>(TokenError::Overflow),
    {
        proof {
            lemma_entries_map_finite(self.accounts.entries@);
            if self.supply_conserved() {
                lemma_transfer_in_range(self.accounts@, sender_id@, receiver_id@, amount);
            }
        }
        self.internal_transfer(sender_id, receiver_id, amount, memo)
    }

    /// Moves the amount as [`FungibleTokenCore::ft_transfer`] does, before
    /// the receiver hears of it, and returns the call to make.
    fn ft_transfer_call(
        &mut self,
        sender_id: &String,
        receiver_id: &String,
        amount: u128,
        memo: Option<String>,
        msg: String,
    ) -> (done: Result<(FtTransfer, TransferCall), TokenError>)
        ensures
            match transfer_result(old(self).accounts@, sender_id@, receiver_id@, amount) {
                Ok(moved) => {
                    &&& done matches Ok((event, call))
                    &&& event.records(sender_id@, receiver_id@, amount, memo_text(memo))
                    &&& call.sender_id@ == sender_id@
                    &&& call.receiver_id@ == receiver_id@
                    &&& call.amount == amount
                    &&& call.msg == msg
                    &&& call.gas_for_receiver == GAS_FOR_FT_TRANSFER_CALL
                    &&& call.gas_for_resolve == GAS_FOR_RESOLVE_TRANSFER
                    &&& final(self).accounts@ == moved
                    &&& final(self).accounts.total() == old(self).accounts.total()
                    &&& final(self).same_settings(old(self))
                },
                Err(e) => {
                    &&& done == Err::<(FtTransfer, TransferCall), TokenError>(e)
                    &&& *final(self) == *old(self)
                },
            },
            old(self).supply_conserved() ==> final(self).supply_conserved() && done
                != Err::<(FtTransfer, TransferCall), TokenError>(TokenError::Overflow),
    {
        proof {
            lemma_entries_map_finite(self.accounts.entries@);
            if self.supply_conserved() {
                lemma_transfer_in_range(self.accounts@, sender_id@, receiver_id@, amount);
            }
        }
        match self.internal_transfer(sender_id, receiver_id, amount, memo) {
            Ok(event) => Ok(
                (
                    event,
                    TransferCall {
                        sender_id: sender_id.clone(),
                        receiver_id: receiver_id.clone(),
                        amount,
                        msg,
                        gas_for_receiver: GAS_FOR_FT_TRANSFER_CALL,
                        gas_for_resolve: GAS_FOR_RESOLVE_TRANSFER,
                    },
                ),
            ),
            Err(e) => Err(e),
        }
    }

    fn ft_total_supply(&self) -> (supply: u128)
        ensures
            supply == self.total_supply,
    {
        self.total_supply
    }

    fn ft_balance_of(&self, account_id: &String) -> (balance: u128)
        ensures
            balance == balance_in(self.accounts@, account_id@),
    {
        match self.accounts.get(account_id) {
            Some(balance) => balance,
            None => 0,
        }
    }
}

/// The amount that a receiver's response declares unused: the number that a
/// JSON string holds in decimal notation, or `None` where the bytes are no
/// such string or the number does not fit a balance.
pub uninterp spec fn declared_amount(value: Seq<u8>) -> Option<u128>;

/// Reads a response with `near_sdk::serde_json::from_slice`, at the type
/// `near_sdk::json_types::U128`. Not proved: that the outcome depends on the
/// bytes alone, which the name `declared_amount` stands for. A response that
/// cannot be read gives `None`.
#[verifier::external_body]
fn read_declared_amount(value: &Vec<u8>) -> (declared: Option<u128>)
    ensures
        declared == declared_amount(value@),
{
    match near_sdk::serde_json::from_slice::<near_sdk::json_types::U128>(value) {
        Ok(amount) => Some(amount.0),
        Err(_) => None,
    }
}

/// The unused amount that counts for a transfer of `amount`: what the
/// receiver declared, but no more than it was given, and the whole amount
/// where it declared nothing that can be read.
pub open spec fn spec_unused_amount(amount: u128, declared: Option<u128>) -> u128 {
    match declared {
        Some(unused) => if unused < amount {
            unused
        } else {
            amount
        },
        None => amount,
    }
}

/// The unused amount that counts after the receiver's handler ended with
/// `result`: the whole amount where the handler failed.
pub open spec fn outcome_unused(amount: u128, result: PromiseResult) -> u128 {
    match result {
        PromiseResult::Successful(value) => spec_unused_amount(amount, declared_amount(value@)),
        _ => amount,
    }
}

/// The amount to hand back to the sender: the unused amount, but no more than
/// the receiver holds now.
pub open spec fn refund_amount(receiver_balance: u128, unused_amount: u128) -> u128 {
    if receiver_balance < unused_amount {
        receiver_balance
    } else {
        unused_amount
    }
}

/// What resolving a transfer of `amount` makes of a ledger, given the unused
/// amount: the ledger after the refund and the amount that the receiver keeps
/// of the transfer. Nothing moves where the refund is zero. A refund above
/// the transferred amount is refused, and so is a refund that cannot be
/// transferred back.
pub open spec fn resolve_result(
    m: Map<Seq<char>, u128>,
    sender: Seq<char>,
    receiver: Seq<char>,
    amount: u128,
    unused_amount: u128,
) -> Result<(Map<Seq<char>, u128>, u128), TokenError> {
    let refund = refund_amount(balance_in(m, receiver), unused_amount);
    if refund == 0 {
        Ok((m, amount))
    } else if refund > amount {
        Err(TokenError::Overflow)
    } else {
        match transfer_result(m, receiver, sender, refund) {
            Ok(moved) => Ok((moved, (amount - refund) as u128)),
            Err(e) => Err(e),
        }
    }
}

/// The refund is the least of the declared unused amount, the transferred
/// amount and what the receiver holds now: never more than any of them.
pub proof fn lemma_refund_is_clamped(amount: u128, declared: u128, receiver_balance: u128)
    ensures
        ({
            let refund = refund_amount(
                receiver_balance,
                spec_unused_amount(amount, Some(declared)),
            );
            &&& refund <= declared
            &&& refund <= amount
            &&& refund <= receiver_balance
            &&& refund == declared || refund == amount || refund == receiver_balance
        }),
{
}

/// A response that cannot be read counts as one that declares the whole
/// amount unused, and so does a handler that failed.
pub proof fn lemma_unreadable_response_is_full_refund(amount: u128, value: Vec<u8>)
    ensures
        spec_unused_amount(amount, None) == spec_unused_amount(amount, Some(amount)),
        spec_unused_amount(amount, None) == amount,
        outcome_unused(amount, PromiseResult::Failed) == amount,
        declared_amount(value@) is None ==> outcome_unused(
            amount,
            PromiseResult::Successful(value),
        ) == amount,
{
}

/// A resolution that is not refused hands back exactly the refund: the sum
/// of all balances and the set of registered accounts stay as they were, the
/// receiver keeps the transferred amount less the refund, and between two
/// distinct accounts the receiver loses what the sender gains.
pub proof fn lemma_resolve_keeps_total(
    m: Map<Seq<char>, u128>,
    sender: Seq<char>,
    receiver: Seq<char>,
    amount: u128,
    unused_amount: u128,
)
    requires
        m.dom().finite(),
        resolve_result(m, sender, receiver, amount, unused_amount) is Ok,
    ensures
        ({
            let (settled, used_amount) = resolve_result(
                m,
                sender,
                receiver,
                amount,
                unused_amount,
            )->Ok_0;
            let refund = refund_amount(balance_in(m, receiver), unused_amount);
            &&& map_total(settled) == map_total(m)
            &&& settled.dom() == m.dom()
            &&& used_amount == amount - refund
            &&& sender != receiver ==> {
                &&& balance_in(settled, receiver) == balance_in(m, receiver) - refund
                &&& balance_in(settled, sender) == balance_in(m, sender) + refund
            }
            &&& sender == receiver ==> settled == m
        }),
{
    let refund = refund_amount(balance_in(m, receiver), unused_amount);
    if refund > 0 {
        lemma_transfer_keeps_total(m, receiver, sender, refund);
    }
}

/// While the sum of all balances fits the range of a balance, the sender is
/// registered and the unused amount is no more than was transferred, the
/// resolution is never refused.
pub proof fn lemma_resolve_succeeds(
    m: Map<Seq<char>, u128>,
    sender: Seq<char>,
    receiver: Seq<char>,
    amount: u128,
    unused_amount: u128,
)
    requires
        m.dom().finite(),
        map_total(m) <= u128::MAX,
        m.contains_key(sender),
        unused_amount <= amount,
    ensures
        resolve_result(m, sender, receiver, amount, unused_amount) is Ok,
{
    let refund = refund_amount(balance_in(m, receiver), unused_amount);
    if refund > 0 {
        lemma_transfer_in_range(m, receiver, sender, refund);
    }
}

/// See [`spec_unused_amount`].
#[verifier::when_used_as_spec(spec_unused_amount)]
pub fn unused_amount(amount: u128, declared: Option<u128>) -> (unused: u128)
    ensures
        unused == spec_unused_amount(amount, declared),
{
    match declared {
        Some(unused) => if unused < amount {
            unused
        } else {
            amount
        },
        None => amount,
    }
}

/// The record that a resolution leaves: none where nothing was handed back,
/// else that of the transfer of the refund from the receiver to the sender.
pub open spec fn is_refund_record(
    event: Option<FtTransfer>,
    sender: Seq<char>,
    receiver: Seq<char>,
    refund: u128,
) -> bool {
    match event {
        Some(record) => refund > 0 && record.records(receiver, sender, refund, Some(REFUND_MEMO@)),
        None => refund == 0,
    }
}

impl Contract {
    /// Settles a transfer of `amount` from `sender_id` to `receiver_id` once
    /// the unused amount is known: hands back to the sender what is unused
    /// and still held by the receiver, and returns what the receiver keeps,
    /// with the record of the refund where there was one.
    pub fn internal_resolve_transfer(
        &mut self,
        sender_id: &String,
        receiver_id: &String,
        amount: u128,
        unused_amount: u128,
    ) -> (used: Result<(u128, Option<FtTransfer>), TokenError>)
        ensures
            match resolve_result(
                old(self).accounts@,
                sender_id@,
                receiver_id@,
                amount,
                unused_amount,
            ) {
                Ok((settled, used_amount)) => {
                    &&& used matches Ok((kept, event))
                    &&& kept == used_amount
                    &&& is_refund_record(
                        event,
                        sender_id@,
                        receiver_id@,
                        refund_amount(balance_in(old(self).accounts@, receiver_id@), unused_amount),
                    )
                    &&& final(self).accounts@ == settled
                    &&& final(self).accounts.total() == old(self).accounts.total()
                    &&& final(self).same_settings(old(self))
                },
                Err(e) => used == Err::<(u128, Option<FtTransfer>), TokenError>(e) && *final(self)
                    == *old(self),
            },
            old(self).supply_conserved() ==> final(self).supply_conserved(),
    {
        if unused_amount > 0 {
            let receiver_balance = self.ft_balance_of(receiver_id);
            if receiver_balance > 0 {
                let refund = if receiver_balance < unused_amount {
                    receiver_balance
                } else {
                    unused_amount
                };
                let used_amount = match amount.checked_sub(refund) {
                    Some(used_amount) => used_amount,
                    None => {
                        return Err(TokenError::Overflow);
                    },
                };
                let memo = Some(REFUND_MEMO.to_owned());
                return match self.internal_transfer(receiver_id, sender_id, refund, memo) {
                    Ok(event) => Ok((used_amount, Some(event))),
                    Err(e) => Err(e),
                };
            }
        }
        Ok((amount, None))
    }

    /// The resolution step of a notified transfer: runs once the outcome of
    /// the receiver's handler is known. A response that cannot be read and a
    /// handler that failed both count as the whole amount unused.
    pub fn ft_resolve_transfer(
        &mut self,
        sender_id: &String,
        receiver_id: &String,
        amount: u128,
        result: &PromiseResult,
    ) -> (used: Result<(u128, Option<FtTransfer>), TokenError>)
        requires
            !(result is NotReady),
        ensures
            match resolve_result(
                old(self).accounts@,
                sender_id@,
                receiver_id@,
                amount,
                outcome_unused(amount, *result),
            ) {
                Ok((settled, used_amount)) => {
                    &&& used matches Ok((kept, event))
                    &&& kept == used_amount
                    &&& is_refund_record(
                        event,
                        sender_id@,
                        receiver_id@,
                        refund_amount(
                            balance_in(old(self).accounts@, receiver_id@),
                            outcome_unused(amount, *result),
                        ),
                    )
                    &&& final(self).accounts@ == settled
                    &&& final(self).accounts.total() == old(self).accounts.total()
                    &&& final(self).same_settings(old(self))
                },
                Err(e) => used == Err::<(u128, Option<FtTransfer>), TokenError>(e) && *final(self)
                    == *old(self),
            },
            old(self).supply_conserved() ==> final(self).supply_conserved(),
            old(self).supply_conserved() && old(self).accounts@.contains_key(sender_id@)
                ==> used is Ok,
    {
        proof {
            lemma_entries_map_finite(self.accounts.entries@);
            if self.supply_conserved() && self.accounts@.contains_key(sender_id@) {
                lemma_resolve_succeeds(
                    self.accounts@,
                    sender_id@,
                    receiver_id@,
                    amount,
                    outcome_unused(amount, *result),
                );
            }
        }
        let unused = match result {
            PromiseResult::Successful(value) => unused_amount(amount, read_declared_amount(value)),
            _ => amount,
        };
        self.internal_resolve_transfer(sender_id, receiver_id, amount, unused)
    }
}

} // verus!
