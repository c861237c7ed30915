use erc20::AccountId;
use erc20::Erc20;
use erc20::Error;
use erc20::Event;

#[test]
fn untouched_keys_read_zero() {
    let alice = AccountId(1);
    let dave = AccountId(4);
    let eve = AccountId(5);
    let erc20 = Erc20::new(alice, 10_000);
    assert_eq!(erc20.balance_of(dave), 0);
    assert_eq!(erc20.allowance(alice, dave), 0);
    assert_eq!(erc20.allowance(dave, eve), 0);
}

#[test]
fn approve_overwrites_previous_value() {
    let alice = AccountId(1);
    let bob = AccountId(2);
    let mut erc20 = Erc20::new(alice, 10_000);
    assert!(erc20.approve(alice, bob, 500).is_ok());
    assert!(erc20.approve(alice, bob, 200).is_ok());
    assert_eq!(erc20.allowance(alice, bob), 200);
}

#[test]
fn failed_transfer_leaves_state_unchanged() {
    let total_supply: u128 = 10_000;
    let alice = AccountId(1);
    let bob = AccountId(2);
    let charlie = AccountId(3);
    let mut erc20 = Erc20::new(alice, total_supply);
    let res = erc20.transfer(bob, charlie, 1_000);
    assert_eq!(res, Err(Error::BalanceTooLow));
    assert_eq!(erc20.balance_of(alice), total_supply);
    assert_eq!(erc20.balance_of(bob), 0);
    assert_eq!(erc20.balance_of(charlie), 0);
    assert_eq!(erc20.total_supply(), total_supply);
    assert_eq!(erc20.events().len(), 1);
}

#[test]
fn failed_transfer_from_leaves_state_unchanged() {
    let total_supply: u128 = 10_000;
    let alice = AccountId(1);
    let bob = AccountId(2);
    let charlie = AccountId(3);
    let mut erc20 = Erc20::new(alice, total_supply);
    assert!(erc20.approve(alice, bob, 999).is_ok());
    let res = erc20.transfer_from(bob, alice, charlie, 1_000);
    assert_eq!(res, Err(Error::AllowanceTooLow));
    assert_eq!(erc20.allowance(alice, bob), 999);
    assert_eq!(erc20.balance_of(alice), total_supply);
    assert_eq!(erc20.balance_of(charlie), 0);
    assert_eq!(erc20.events().len(), 2);
}

#[test]
fn allowance_spent_even_when_balance_check_fails() {
    // The allowance is decremented before the balance sufficiency check, so a
    // BalanceTooLow failure leaves the allowance reduced though no balance
    // moved. A host with whole-call rollback discards this; one without it
    // observes exactly what the contract states.
    let alice = AccountId(1);
    let bob = AccountId(2);
    let charlie = AccountId(3);
    let mut erc20 = Erc20::new(alice, 100);
    assert!(erc20.approve(alice, bob, 1_000).is_ok());
    let res = erc20.transfer_from(bob, alice, charlie, 500);
    assert_eq!(res, Err(Error::BalanceTooLow));
    assert_eq!(erc20.allowance(alice, bob), 500);
    assert_eq!(erc20.balance_of(alice), 100);
    assert_eq!(erc20.balance_of(charlie), 0);
}

#[test]
fn transfer_from_moves_balance() {
    let total_supply: u128 = 10_000;
    let alice = AccountId(1);
    let bob = AccountId(2);
    let dave = AccountId(4);
    let mut erc20 = Erc20::new(alice, total_supply);
    assert!(erc20.approve(alice, bob, 1_000).is_ok());
    let res = erc20.transfer_from(bob, alice, dave, 1_000);
    assert!(res.is_ok());
    assert_eq!(erc20.allowance(alice, bob), 0);
    assert_eq!(erc20.balance_of(dave), 1_000);
    assert_eq!(erc20.balance_of(alice), total_supply - 1_000);
}

#[test]
fn self_transfer_preserves_balance() {
    let alice = AccountId(1);
    let mut erc20 = Erc20::new(alice, 10_000);
    let res = erc20.transfer(alice, alice, 400);
    assert!(res.is_ok());
    assert_eq!(erc20.balance_of(alice), 10_000);
    assert_eq!(erc20.total_supply(), 10_000);
}

#[test]
fn zero_value_transfer_succeeds() {
    let alice = AccountId(1);
    let bob = AccountId(2);
    let charlie = AccountId(3);
    let mut erc20 = Erc20::new(alice, 10_000);
    let res = erc20.transfer(bob, charlie, 0);
    assert!(res.is_ok());
    assert_eq!(erc20.balance_of(bob), 0);
    assert_eq!(erc20.balance_of(charlie), 0);
}

#[test]
fn transfer_of_exact_balance_succeeds() {
    let alice = AccountId(1);
    let bob = AccountId(2);
    let mut erc20 = Erc20::new(alice, 10_000);
    assert!(erc20.transfer(alice, bob, 10_000).is_ok());
    assert_eq!(erc20.balance_of(alice), 0);
    assert_eq!(erc20.balance_of(bob), 10_000);
    assert_eq!(erc20.transfer(alice, bob, 1), Err(Error::BalanceTooLow));
}

#[test]
fn approve_logs_event() {
    let alice = AccountId(1);
    let bob = AccountId(2);
    let mut erc20 = Erc20::new(alice, 10_000);
    assert!(erc20.approve(alice, bob, 777).is_ok());
    let emitted_events = erc20.events();
    assert_eq!(emitted_events.len(), 2);
    match &emitted_events[1] {
        Event::Approve(approve) => {
            assert_eq!(approve.from, alice);
            assert_eq!(approve.to, bob);
            assert_eq!(approve.value, 777);
        }
        _ => panic!("Event do not match"),
    }
}

#[test]
fn transfer_logs_event_with_source() {
    let alice = AccountId(1);
    let bob = AccountId(2);
    let mut erc20 = Erc20::new(alice, 10_000);
    assert!(erc20.transfer(alice, bob, 25).is_ok());
    let emitted_events = erc20.events();
    assert_eq!(emitted_events.len(), 2);
    match &emitted_events[1] {
        Event::Transfer(transfer) => {
            assert_eq!(transfer.from, Some(alice));
            assert_eq!(transfer.to, bob);
            assert_eq!(transfer.value, 25);
        }
        _ => panic!("Event do not match"),
    }
}

#[test]
fn allowance_may_exceed_balance() {
    let alice = AccountId(1);
    let bob = AccountId(2);
    let mut erc20 = Erc20::new(alice, 100);
    assert!(erc20.approve(alice, bob, 1_000_000).is_ok());
    assert_eq!(erc20.allowance(alice, bob), 1_000_000);
    assert_eq!(erc20.balance_of(alice), 100);
}
