use psp_coin::account::AccountId;
use psp_coin::error::PSP22Error;
use psp_coin::event::{Approval, Event, Transfer};
use psp_coin::ledger::PspCoin;

fn acct(id: u64) -> AccountId {
    AccountId { id }
}

#[test]
fn construction_credits_creator() {
    let c = acct(1);
    let ledger = PspCoin::new(c, 1000, None, None, 0);
    assert_eq!(ledger.balance_of(c), 1000);
    assert_eq!(ledger.total_supply(), 1000);
    assert_eq!(ledger.balance_of(acct(2)), 0);
}

#[test]
fn construction_records_mint_origin_event() {
    let c = acct(1);
    let mut ledger = PspCoin::new(c, 1000, None, None, 0);
    let events = ledger.take_events();
    assert_eq!(
        events,
        vec![Event::Transfer(Transfer { from: None, to: Some(c), value: 1000 })]
    );
    assert_eq!(ledger.take_events(), vec![]);
}

#[test]
fn transfer_moves_balance() {
    let c = acct(1);
    let a = acct(2);
    let mut ledger = PspCoin::new(c, 1000, None, None, 0);
    assert_eq!(ledger.transfer(c, a, 400), Ok(()));
    assert_eq!(ledger.balance_of(c), 600);
    assert_eq!(ledger.balance_of(a), 400);
    assert_eq!(ledger.total_supply(), 1000);
}

#[test]
fn transfer_records_event() {
    let c = acct(1);
    let a = acct(2);
    let mut ledger = PspCoin::new(c, 1000, None, None, 0);
    ledger.take_events();
    assert_eq!(ledger.transfer(c, a, 400), Ok(()));
    assert_eq!(
        ledger.take_events(),
        vec![Event::Transfer(Transfer { from: Some(c), to: Some(a), value: 400 })]
    );
}

#[test]
fn transfer_beyond_balance_fails_without_mutation() {
    let c = acct(1);
    let a = acct(2);
    let mut ledger = PspCoin::new(c, 1000, None, None, 0);
    assert_eq!(ledger.transfer(c, a, 400), Ok(()));
    ledger.take_events();
    assert_eq!(ledger.transfer(c, a, 700), Err(PSP22Error::InsufficientBalance));
    assert_eq!(ledger.balance_of(c), 600);
    assert_eq!(ledger.balance_of(a), 400);
    assert_eq!(ledger.take_events(), vec![]);
}

#[test]
fn self_transfer_keeps_balance_and_records_event() {
    let c = acct(1);
    let mut ledger = PspCoin::new(c, 1000, None, None, 0);
    ledger.take_events();
    assert_eq!(ledger.transfer(c, c, 250), Ok(()));
    assert_eq!(ledger.balance_of(c), 1000);
    assert_eq!(
        ledger.take_events(),
        vec![Event::Transfer(Transfer { from: Some(c), to: Some(c), value: 250 })]
    );
}

#[test]
fn self_transfer_beyond_balance_fails() {
    let c = acct(1);
    let mut ledger = PspCoin::new(c, 1000, None, None, 0);
    assert_eq!(ledger.transfer(c, c, 1001), Err(PSP22Error::InsufficientBalance));
    assert_eq!(ledger.balance_of(c), 1000);
}

#[test]
fn transfer_from_spends_allowance() {
    let c = acct(1);
    let a = acct(2);
    let b = acct(3);
    let d = acct(4);
    let mut ledger = PspCoin::new(c, 1000, None, None, 0);
    assert_eq!(ledger.transfer(c, a, 400), Ok(()));
    assert_eq!(ledger.approve(a, b, 100), Ok(()));
    assert_eq!(ledger.transfer_from(b, a, d, 50), Ok(()));
    assert_eq!(ledger.allowance(a, b), 50);
    assert_eq!(ledger.balance_of(a), 350);
    assert_eq!(ledger.balance_of(d), 50);
}

#[test]
fn transfer_from_records_no_approval_event() {
    let c = acct(1);
    let b = acct(3);
    let d = acct(4);
    let mut ledger = PspCoin::new(c, 1000, None, None, 0);
    assert_eq!(ledger.approve(c, b, 100), Ok(()));
    ledger.take_events();
    assert_eq!(ledger.transfer_from(b, c, d, 50), Ok(()));
    assert_eq!(
        ledger.take_events(),
        vec![Event::Transfer(Transfer { from: Some(c), to: Some(d), value: 50 })]
    );
}

#[test]
fn transfer_from_beyond_allowance_fails_without_mutation() {
    let c = acct(1);
    let a = acct(2);
    let b = acct(3);
    let d = acct(4);
    let mut ledger = PspCoin::new(c, 1000, None, None, 0);
    assert_eq!(ledger.transfer(c, a, 400), Ok(()));
    assert_eq!(ledger.approve(a, b, 50), Ok(()));
    assert_eq!(ledger.transfer_from(b, a, d, 200), Err(PSP22Error::InsufficientAllowance));
    assert_eq!(ledger.balance_of(a), 400);
    assert_eq!(ledger.balance_of(d), 0);
    assert_eq!(ledger.allowance(a, b), 50);
}

#[test]
fn transfer_from_beyond_balance_keeps_allowance() {
    let c = acct(1);
    let a = acct(2);
    let b = acct(3);
    let d = acct(4);
    let mut ledger = PspCoin::new(c, 1000, None, None, 0);
    assert_eq!(ledger.transfer(c, a, 100), Ok(()));
    assert_eq!(ledger.approve(a, b, 500), Ok(()));
    assert_eq!(ledger.transfer_from(b, a, d, 200), Err(PSP22Error::InsufficientBalance));
    assert_eq!(ledger.allowance(a, b), 500);
    assert_eq!(ledger.balance_of(a), 100);
    assert_eq!(ledger.balance_of(d), 0);
}

#[test]
fn approve_overwrites_previous_allowance() {
    let a = acct(1);
    let b = acct(2);
    let mut ledger = PspCoin::new(a, 1000, None, None, 0);
    assert_eq!(ledger.approve(a, b, 70), Ok(()));
    assert_eq!(ledger.approve(a, b, 30), Ok(()));
    assert_eq!(ledger.allowance(a, b), 30);
}

#[test]
fn approve_records_event() {
    let a = acct(1);
    let b = acct(2);
    let mut ledger = PspCoin::new(a, 1000, None, None, 0);
    ledger.take_events();
    assert_eq!(ledger.approve(a, b, 70), Ok(()));
    assert_eq!(
        ledger.take_events(),
        vec![Event::Approval(Approval { owner: a, spender: b, value: 70 })]
    );
}

#[test]
fn allowance_adjustments_record_approval_events() {
    let a = acct(1);
    let b = acct(2);
    let mut ledger = PspCoin::new(a, 1000, None, None, 0);
    assert_eq!(ledger.approve(a, b, 70), Ok(()));
    ledger.take_events();
    assert_eq!(ledger.increase_allowance(a, b, 30), Ok(()));
    assert_eq!(ledger.decrease_allowance(a, b, 10), Ok(()));
    assert_eq!(
        ledger.take_events(),
        vec![
            Event::Approval(Approval { owner: a, spender: b, value: 100 }),
            Event::Approval(Approval { owner: a, spender: b, value: 90 }),
        ]
    );
}

#[test]
fn increase_allowance_adds() {
    let a = acct(1);
    let b = acct(2);
    let mut ledger = PspCoin::new(a, 1000, None, None, 0);
    assert_eq!(ledger.approve(a, b, 70), Ok(()));
    assert_eq!(ledger.increase_allowance(a, b, 30), Ok(()));
    assert_eq!(ledger.allowance(a, b), 100);
}

#[test]
fn increase_allowance_saturates_at_maximum() {
    let a = acct(1);
    let b = acct(2);
    let mut ledger = PspCoin::new(a, 1000, None, None, 0);
    assert_eq!(ledger.approve(a, b, u128::MAX - 5), Ok(()));
    assert_eq!(ledger.increase_allowance(a, b, 10), Ok(()));
    assert_eq!(ledger.allowance(a, b), u128::MAX);
}

#[test]
fn decrease_allowance_subtracts() {
    let a = acct(1);
    let b = acct(2);
    let mut ledger = PspCoin::new(a, 1000, None, None, 0);
    assert_eq!(ledger.approve(a, b, 70), Ok(()));
    assert_eq!(ledger.decrease_allowance(a, b, 30), Ok(()));
    assert_eq!(ledger.allowance(a, b), 40);
}

#[test]
fn decrease_allowance_beyond_current_fails() {
    let a = acct(1);
    let b = acct(2);
    let mut ledger = PspCoin::new(a, 1000, None, None, 0);
    assert_eq!(ledger.approve(a, b, 20), Ok(()));
    assert_eq!(ledger.decrease_allowance(a, b, 30), Err(PSP22Error::InsufficientAllowance));
    assert_eq!(ledger.allowance(a, b), 20);
}

#[test]
fn mint_then_burn_restores_state() {
    let x = acct(7);
    let c = acct(1);
    let mut ledger = PspCoin::new(c, 1000, None, None, 0);
    let balance_before = ledger.balance_of(x);
    let supply_before = ledger.total_supply();
    assert_eq!(ledger.mint(x, 10), Ok(()));
    assert_eq!(ledger.balance_of(x), balance_before + 10);
    assert_eq!(ledger.total_supply(), supply_before + 10);
    assert_eq!(ledger.burn(x, 10), Ok(()));
    assert_eq!(ledger.balance_of(x), balance_before);
    assert_eq!(ledger.total_supply(), supply_before);
}

#[test]
fn mint_and_burn_record_open_ended_events() {
    let x = acct(7);
    let mut ledger = PspCoin::new(acct(1), 1000, None, None, 0);
    ledger.take_events();
    assert_eq!(ledger.mint(x, 10), Ok(()));
    assert_eq!(ledger.burn(x, 10), Ok(()));
    assert_eq!(
        ledger.take_events(),
        vec![
            Event::Transfer(Transfer { from: None, to: Some(x), value: 10 }),
            Event::Transfer(Transfer { from: Some(x), to: None, value: 10 }),
        ]
    );
}

#[test]
fn mint_saturates_at_maximum_supply() {
    let c = acct(1);
    let mut ledger = PspCoin::new(c, u128::MAX - 5, None, None, 0);
    assert_eq!(ledger.mint(c, 10), Ok(()));
    assert_eq!(ledger.total_supply(), u128::MAX);
    assert_eq!(ledger.balance_of(c), u128::MAX);
}

#[test]
fn burn_beyond_balance_fails_without_mutation() {
    let c = acct(1);
    let mut ledger = PspCoin::new(c, 1000, None, None, 0);
    assert_eq!(ledger.burn(c, 1001), Err(PSP22Error::InsufficientBalance));
    assert_eq!(ledger.balance_of(c), 1000);
    assert_eq!(ledger.total_supply(), 1000);
}

#[test]
fn queries_repeat_identically() {
    let c = acct(1);
    let b = acct(2);
    let mut ledger = PspCoin::new(c, 1000, None, None, 0);
    assert_eq!(ledger.approve(c, b, 75), Ok(()));
    assert_eq!(ledger.balance_of(c), ledger.balance_of(c));
    assert_eq!(ledger.allowance(c, b), ledger.allowance(c, b));
    assert_eq!(ledger.total_supply(), ledger.total_supply());
    assert_eq!(ledger.balance_of(c), 1000);
    assert_eq!(ledger.allowance(c, b), 75);
    assert_eq!(ledger.total_supply(), 1000);
}

#[test]
fn metadata_is_returned_as_given() {
    let c = acct(1);
    let ledger = PspCoin::new(
        c,
        500,
        Some(String::from("Example")),
        Some(String::from("EXM")),
        12,
    );
    assert_eq!(ledger.token_name(), Some(String::from("Example")));
    assert_eq!(ledger.token_symbol(), Some(String::from("EXM")));
    assert_eq!(ledger.token_decimals(), 12);
}

#[test]
fn metadata_may_be_absent() {
    let ledger = PspCoin::new(acct(1), 500, None, None, 0);
    assert_eq!(ledger.token_name(), None);
    assert_eq!(ledger.token_symbol(), None);
    assert_eq!(ledger.token_decimals(), 0);
}

#[test]
fn default_ledger_uses_example_metadata() {
    let c = acct(1);
    let ledger = PspCoin::default(c);
    assert_eq!(ledger.total_supply(), 1000000);
    assert_eq!(ledger.balance_of(c), 1000000);
    assert_eq!(ledger.token_name(), Some(String::from("MyToken")));
    assert_eq!(ledger.token_symbol(), Some(String::from("MTK")));
    assert_eq!(ledger.token_decimals(), 18);
}
