use tswaanda_token::errors::TokenError;
use tswaanda_token::ft_core::{unused_amount, FungibleTokenCore, PromiseResult};
use tswaanda_token::Contract;

fn name(text: &str) -> String {
    text.to_string()
}

/// `sender` has sent `amount` of its 1000 to `receiver`, who waits to be resolved.
fn in_flight(amount: u128) -> Contract {
    let mut c = Contract::new_default_meta(name("sender"), 1000, 0, 100).0;
    c.internal_register_account(&name("receiver")).unwrap();
    c.ft_transfer_call(&name("sender"), &name("receiver"), amount, None, name("")).unwrap();
    c
}

fn transfer(c: &mut Contract, from: &str, to: &str, amount: u128) {
    c.ft_transfer(&name(from), &name(to), amount, None).unwrap();
}

fn settle(c: &mut Contract, from: &str, to: &str, amount: u128, unused: u128) -> Result<u128, TokenError> {
    c.internal_resolve_transfer(&name(from), &name(to), amount, unused).map(|(used, _)| used)
}

fn resolve(c: &mut Contract, amount: u128, response: &[u8]) -> Result<u128, TokenError> {
    let result = PromiseResult::Successful(response.to_vec());
    c.ft_resolve_transfer(&name("sender"), &name("receiver"), amount, &result).map(|(used, _)| used)
}

#[test]
fn nothing_unused_means_the_receiver_keeps_it_all() {
    let mut c = in_flight(400);
    assert_eq!(resolve(&mut c, 400, b"\"0\""), Ok(400));
    assert_eq!(c.ft_balance_of(&name("sender")), 600);
    assert_eq!(c.ft_balance_of(&name("receiver")), 400);
}

#[test]
fn a_part_unused_goes_back() {
    let mut c = in_flight(400);
    assert_eq!(resolve(&mut c, 400, b"\"100\""), Ok(300));
    assert_eq!(c.ft_balance_of(&name("sender")), 700);
    assert_eq!(c.ft_balance_of(&name("receiver")), 300);
}

#[test]
fn declared_unused_is_limited_to_the_amount_sent() {
    let mut c = in_flight(400);
    c.internal_deposit(&name("receiver"), 0).unwrap();
    transfer(&mut c, "sender", "receiver", 200);
    assert_eq!(c.ft_balance_of(&name("receiver")), 600);
    assert_eq!(resolve(&mut c, 400, b"\"5000\""), Ok(0));
    assert_eq!(c.ft_balance_of(&name("sender")), 800);
    assert_eq!(c.ft_balance_of(&name("receiver")), 200);
}

#[test]
fn a_response_that_cannot_be_read_counts_as_all_unused() {
    for response in [
        &b"garbage"[..],
        &b""[..],
        &b"400"[..],
        &b"\"-1\""[..],
        &b"\"12ab\""[..],
        &b"{\"unused\":\"1\"}"[..],
        &b"\"340282366920938463463374607431768211456\""[..],
        &b"\"1\" \"2\""[..],
    ] {
        let mut c = in_flight(400);
        assert_eq!(resolve(&mut c, 400, response), Ok(0));
        assert_eq!(c.ft_balance_of(&name("sender")), 1000);
        assert_eq!(c.ft_balance_of(&name("receiver")), 0);
    }
}

#[test]
fn the_largest_balance_can_be_declared() {
    let mut c = in_flight(400);
    assert_eq!(
        resolve(&mut c, 400, b" \"340282366920938463463374607431768211455\"\n"),
        Ok(0)
    );
    assert_eq!(c.ft_balance_of(&name("sender")), 1000);
}

#[test]
fn a_receiver_that_holds_nothing_refunds_nothing() {
    let mut c = in_flight(400);
    c.internal_register_account(&name("third")).unwrap();
    transfer(&mut c, "receiver", "third", 400);
    assert_eq!(resolve(&mut c, 400, b"\"400\""), Ok(400));
    assert_eq!(c.ft_balance_of(&name("sender")), 600);
    assert_eq!(c.ft_balance_of(&name("receiver")), 0);
    assert_eq!(c.ft_balance_of(&name("third")), 400);
    let failed = PromiseResult::Failed;
    assert_eq!(
        c.ft_resolve_transfer(&name("sender"), &name("receiver"), 400, &failed),
        Ok((400, None))
    );
}

#[test]
fn resolution_given_the_unused_amount() {
    let mut c = in_flight(400);
    assert_eq!(settle(&mut c, "sender", "receiver", 400, 0), Ok(400));
    assert_eq!(settle(&mut c, "sender", "receiver", 400, 150), Ok(250));
    assert_eq!(c.ft_balance_of(&name("sender")), 750);
    assert_eq!(c.ft_balance_of(&name("receiver")), 250);
    assert_eq!(
        settle(&mut c, "sender", "receiver", 100, 200),
        Err(TokenError::Overflow)
    );
    assert_eq!(c.ft_balance_of(&name("receiver")), 250);
    assert_eq!(
        settle(&mut c, "gone", "receiver", 400, 100),
        Err(TokenError::NotRegistered)
    );
    assert_eq!(c.ft_balance_of(&name("receiver")), 250);
    assert_eq!(settle(&mut c, "sender", "nobody", 400, 100), Ok(400));
}

#[test]
fn unused_amount_by_cases() {
    assert_eq!(unused_amount(400, Some(0)), 0);
    assert_eq!(unused_amount(400, Some(399)), 399);
    assert_eq!(unused_amount(400, Some(400)), 400);
    assert_eq!(unused_amount(400, Some(401)), 400);
    assert_eq!(unused_amount(400, Some(u128::MAX)), 400);
    assert_eq!(unused_amount(400, None), 400);
    assert_eq!(unused_amount(0, None), 0);
}

#[test]
fn refund_is_the_least_of_declared_sent_and_held() {
    for (held, declared, expected_refund) in
        [(400u128, 100u128, 100u128), (400, 900, 400), (150, 400, 150), (700, 500, 400), (0, 5, 0)]
    {
        let mut c = Contract::new_default_meta(name("sender"), 1000, 0, 100).0;
        c.internal_register_account(&name("receiver")).unwrap();
        c.internal_register_account(&name("third")).unwrap();
        transfer(&mut c, "sender", "third", 300);
        c.ft_transfer_call(&name("sender"), &name("receiver"), 400, None, name("")).unwrap();
        if held < 400 {
            transfer(&mut c, "receiver", "third", 400 - held);
        } else if held > 400 {
            transfer(&mut c, "third", "receiver", held - 400);
        }
        let sender_before = c.ft_balance_of(&name("sender"));
        let response = format!("\"{}\"", declared);
        assert_eq!(resolve(&mut c, 400, response.as_bytes()), Ok(400 - expected_refund));
        assert_eq!(c.ft_balance_of(&name("receiver")), held - expected_refund);
        assert_eq!(c.ft_balance_of(&name("sender")), sender_before + expected_refund);
    }
}
