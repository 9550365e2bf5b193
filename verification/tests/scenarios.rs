use tswaanda_token::errors::TokenError;
use tswaanda_token::events::{FtMint, FtTransfer};
use tswaanda_token::ft_core::{
    FungibleTokenCore, PromiseResult, GAS_FOR_FT_TRANSFER_CALL, GAS_FOR_RESOLVE_TRANSFER,
};
use tswaanda_token::storage::{StorageBalance, StorageManagement};
use tswaanda_token::Contract;

const BYTE_COST: u128 = 10_000_000_000_000_000_000;

fn id(name: &str) -> String {
    name.to_string()
}

fn token() -> Contract {
    Contract::new_default_meta(id("x.near"), 1000, 5000, 5125).0
}

fn transfer(c: &mut Contract, from: &str, to: &str, amount: u128) -> Result<(), TokenError> {
    c.ft_transfer(&id(from), &id(to), amount, None).map(|_| ())
}

fn resolve(c: &mut Contract, amount: u128, result: PromiseResult) -> Result<u128, TokenError> {
    c.ft_resolve_transfer(&id("x.near"), &id("y.near"), amount, &result).map(|(used, _)| used)
}

fn token_with_y() -> Contract {
    let mut c = token();
    let cost = c.storage_balance_bounds(BYTE_COST).min;
    c.storage_deposit(Some(id("y.near")), None, id("x.near"), cost, BYTE_COST).unwrap();
    c
}

fn sum_of_balances(c: &Contract) -> u128 {
    c.accounts.entries.iter().map(|a| a.balance).sum()
}

#[test]
fn mint_at_initialization() {
    let (c, minted) = Contract::new_default_meta(id("x.near"), 1000, 5000, 5125);
    assert_eq!(
        minted,
        FtMint {
            owner_id: id("x.near"),
            amount: 1000,
            memo: Some(id("Initial token supply is minted")),
        }
    );
    assert_eq!(c.ft_total_supply(), 1000);
    assert_eq!(c.ft_balance_of(&id("x.near")), 1000);
    assert_eq!(c.bytes_for_longest_account_id, 125);
    assert_eq!(sum_of_balances(&c), 1000);
}

#[test]
fn register_with_exactly_the_minimum_deposit() {
    let mut c = token();
    let cost = c.storage_balance_bounds(BYTE_COST).min;
    assert_eq!(cost, 125 * BYTE_COST);
    let done = c.storage_deposit(Some(id("y.near")), None, id("x.near"), cost, BYTE_COST).unwrap();
    assert_eq!(done.refund, 0);
    assert!(!done.already_registered);
    assert_eq!(done.storage_balance, StorageBalance { total: cost, available: 0 });
    assert_eq!(c.ft_balance_of(&id("y.near")), 0);
    assert!(c.accounts.contains_key(&id("y.near")));
    assert_eq!(c.ft_total_supply(), 1000);
}

#[test]
fn simple_transfer_moves_the_amount() {
    let mut c = token_with_y();
    assert_eq!(transfer(&mut c, "x.near", "y.near", 400), Ok(()));
    assert_eq!(c.ft_balance_of(&id("x.near")), 600);
    assert_eq!(c.ft_balance_of(&id("y.near")), 400);
    assert_eq!(c.ft_total_supply(), 1000);
    assert_eq!(sum_of_balances(&c), 1000);
}

#[test]
fn notified_transfer_with_everything_unused_is_refunded_in_full() {
    let mut c = token_with_y();
    let (event, call) = c
        .ft_transfer_call(&id("x.near"), &id("y.near"), 400, Some(id("rent")), id("payload"))
        .unwrap();
    assert_eq!(
        event,
        FtTransfer {
            old_owner_id: id("x.near"),
            new_owner_id: id("y.near"),
            amount: 400,
            memo: Some(id("rent")),
        }
    );
    assert_eq!(call.sender_id, "x.near");
    assert_eq!(call.receiver_id, "y.near");
    assert_eq!(call.amount, 400);
    assert_eq!(call.msg, "payload");
    assert_eq!(call.gas_for_receiver, 30_000_000_000_000);
    assert_eq!(call.gas_for_receiver, GAS_FOR_FT_TRANSFER_CALL);
    assert_eq!(call.gas_for_resolve, GAS_FOR_RESOLVE_TRANSFER);
    assert_eq!(c.ft_balance_of(&id("x.near")), 600);
    assert_eq!(c.ft_balance_of(&id("y.near")), 400);

    let response = PromiseResult::Successful(b"\"400\"".to_vec());
    let (used, refund) =
        c.ft_resolve_transfer(&call.sender_id, &call.receiver_id, call.amount, &response).unwrap();
    assert_eq!(used, 0);
    assert_eq!(
        refund,
        Some(FtTransfer {
            old_owner_id: id("y.near"),
            new_owner_id: id("x.near"),
            amount: 400,
            memo: Some(id("Refund")),
        })
    );
    assert_eq!(c.ft_balance_of(&id("x.near")), 1000);
    assert_eq!(c.ft_balance_of(&id("y.near")), 0);
    assert_eq!(sum_of_balances(&c), c.ft_total_supply());
}

#[test]
fn notified_transfer_whose_handler_fails_is_refunded_in_full() {
    let mut c = token_with_y();
    c.ft_transfer_call(&id("x.near"), &id("y.near"), 400, None, id("payload")).unwrap();
    assert_eq!(resolve(&mut c, 400, PromiseResult::Failed), Ok(0));
    assert_eq!(c.ft_balance_of(&id("x.near")), 1000);
    assert_eq!(c.ft_balance_of(&id("y.near")), 0);
}

#[test]
fn refund_is_limited_to_what_the_receiver_still_holds() {
    let mut c = token_with_y();
    c.storage_deposit(Some(id("z.near")), None, id("x.near"), 125 * BYTE_COST, BYTE_COST).unwrap();
    c.ft_transfer_call(&id("x.near"), &id("y.near"), 400, None, id("payload")).unwrap();
    assert_eq!(transfer(&mut c, "y.near", "z.near", 250), Ok(()));
    assert_eq!(c.ft_balance_of(&id("y.near")), 150);

    let response = PromiseResult::Successful(b"\"400\"".to_vec());
    let (used, refund) =
        c.ft_resolve_transfer(&id("x.near"), &id("y.near"), 400, &response).unwrap();
    assert_eq!(used, 250);
    assert_eq!(refund.map(|record| record.amount), Some(150));
    assert_eq!(c.ft_balance_of(&id("y.near")), 0);
    assert_eq!(c.ft_balance_of(&id("x.near")), 750);
    assert_eq!(c.ft_balance_of(&id("z.near")), 250);
    assert_eq!(sum_of_balances(&c), 1000);
    assert_eq!(c.ft_total_supply(), 1000);
}

#[test]
fn transfer_of_zero_is_refused() {
    let mut c = token_with_y();
    let before = c.accounts.entries.len();
    assert_eq!(transfer(&mut c, "x.near", "y.near", 0), Err(TokenError::InvalidAmount));
    assert_eq!(c.ft_balance_of(&id("x.near")), 1000);
    assert_eq!(c.ft_balance_of(&id("y.near")), 0);
    assert_eq!(c.accounts.entries.len(), before);
}

#[test]
fn transfer_of_more_than_held_is_refused_and_changes_nothing() {
    let mut c = token_with_y();
    assert_eq!(
        transfer(&mut c, "x.near", "y.near", 1001),
        Err(TokenError::InsufficientBalance)
    );
    assert_eq!(c.ft_balance_of(&id("x.near")), 1000);
    assert_eq!(c.ft_balance_of(&id("y.near")), 0);
    assert_eq!(transfer(&mut c, "y.near", "x.near", 1), Err(TokenError::InsufficientBalance));
    assert_eq!(transfer(&mut c, "x.near", "y.near", 1000), Ok(()));
    assert_eq!(c.ft_balance_of(&id("x.near")), 0);
    assert_eq!(c.ft_balance_of(&id("y.near")), 1000);
}

#[test]
fn transfer_needs_both_accounts_registered() {
    let mut c = token();
    assert_eq!(
        transfer(&mut c, "x.near", "nobody.near", 10),
        Err(TokenError::NotRegistered)
    );
    assert_eq!(
        transfer(&mut c, "nobody.near", "x.near", 10),
        Err(TokenError::NotRegistered)
    );
    assert_eq!(
        c.ft_transfer_call(&id("x.near"), &id("nobody.near"), 10, None, id("m")),
        Err(TokenError::NotRegistered)
    );
    assert_eq!(c.ft_balance_of(&id("x.near")), 1000);
    assert_eq!(c.ft_balance_of(&id("nobody.near")), 0);
    assert!(!c.accounts.contains_key(&id("nobody.near")));
    assert_eq!(sum_of_balances(&c), 1000);
}

#[test]
fn transfer_to_oneself_changes_nothing() {
    let mut c = token();
    assert_eq!(transfer(&mut c, "x.near", "x.near", 400), Ok(()));
    assert_eq!(c.ft_balance_of(&id("x.near")), 1000);
    assert_eq!(
        transfer(&mut c, "x.near", "x.near", 1001),
        Err(TokenError::InsufficientBalance)
    );
}

#[test]
fn balance_of_an_unregistered_account_is_zero() {
    let c = token();
    assert_eq!(c.ft_balance_of(&id("nobody.near")), 0);
    assert_eq!(c.internal_unwrap_balance_of(&id("nobody.near")), Err(TokenError::NotRegistered));
    assert_eq!(c.internal_unwrap_balance_of(&id("x.near")), Ok(1000));
}

#[test]
fn transfer_is_recorded_with_its_memo() {
    let mut c = token_with_y();
    assert_eq!(
        c.ft_transfer(&id("x.near"), &id("y.near"), 7, Some(id("thanks"))),
        Ok(FtTransfer {
            old_owner_id: id("x.near"),
            new_owner_id: id("y.near"),
            amount: 7,
            memo: Some(id("thanks")),
        })
    );
    assert_eq!(
        c.ft_transfer(&id("y.near"), &id("x.near"), 7, None),
        Ok(FtTransfer {
            old_owner_id: id("y.near"),
            new_owner_id: id("x.near"),
            amount: 7,
            memo: None,
        })
    );
}
