use erc20::AccountId;
use erc20::Erc20;
use erc20::Error;
use erc20::Event;

#[test]
fn constructor_works() {
    let total_supply: u128 = 10_000;
    let alice = AccountId(1);
    let erc20 = Erc20::new(alice, total_supply);
    assert_eq!(erc20.total_supply(), total_supply);
    assert_eq!(erc20.balance_of(alice), total_supply);

    let emitted_events = erc20.events();
    let event = &emitted_events[0];
    match event {
        Event::Transfer(transfer) => {
            assert!(transfer.from.is_none());
            assert_eq!(transfer.to, alice);
            assert_eq!(transfer.value, total_supply);
        }
        _ => panic!("Event do not match"),
    }
}

#[test]
fn transfer_should_work() {
    let total_supply: u128 = 10_000;
    let transfer_amount: u128 = 1_000;
    let alice = AccountId(1);
    let bob = AccountId(2);
    let mut erc20 = Erc20::new(alice, total_supply);
    let res = erc20.transfer(alice, bob, transfer_amount);

    assert!(res.is_ok());
    assert_eq!(erc20.balance_of(alice), total_supply - transfer_amount);
    assert_eq!(erc20.balance_of(bob), transfer_amount);
}

#[test]
fn invalid_transfer_should_fail() {
    let total_supply: u128 = 10_000;
    let transfer_amount: u128 = 1_000;
    let alice = AccountId(1);
    let bob = AccountId(2);
    let mut erc20 = Erc20::new(alice, total_supply);
    let res = erc20.transfer(bob, bob, transfer_amount);
    assert_eq!(res, Err(Error::BalanceTooLow));
}

#[test]
fn approve_then_transfer_should_work() {
    let total_supply: u128 = 10_000;
    let approve_amount: u128 = 1_000;
    let transfer_amount: u128 = 1_000;
    let alice = AccountId(1);
    let bob = AccountId(2);
    let charlie = AccountId(3);
    let mut erc20 = Erc20::new(alice, total_supply);
    let res = erc20.approve(alice, bob, approve_amount);
    assert!(res.is_ok());
    let res = erc20.transfer_from(bob, alice, charlie, transfer_amount);
    assert!(res.is_ok());
    let allowance = erc20.allowance(alice, bob);
    assert_eq!(allowance, approve_amount - transfer_amount);
}

#[test]
fn transfer_from_failed_when_allowance_too_low() {
    let total_supply: u128 = 10_000;
    let approve_amount: u128 = 999;
    let transfer_amount: u128 = 1_000;
    let alice = AccountId(1);
    let bob = AccountId(2);
    let charlie = AccountId(3);
    let mut erc20 = Erc20::new(alice, total_supply);
    let res = erc20.approve(alice, bob, approve_amount);
    assert!(res.is_ok());
    let res = erc20.transfer_from(bob, alice, charlie, transfer_amount);
    assert_eq!(res, Err(Error::AllowanceTooLow));
}

#[test]
fn e2e_transfer_works() {
    let total_supply: u128 = 100_000;
    let transfer_amount: u128 = 1_000;
    let alice = AccountId(1);
    let bob = AccountId(2);
    let mut erc20 = Erc20::new(alice, total_supply);

    let res = erc20.transfer(alice, bob, transfer_amount);
    assert!(res.is_ok());

    assert_eq!(erc20.balance_of(alice), total_supply - transfer_amount);
}

#[test]
fn e2e_approve_then_transfer_from_works() {
    let total_supply: u128 = 100_000;
    let transfer_amount: u128 = 1_000;
    let alice = AccountId(1);
    let bob = AccountId(2);
    let charlie = AccountId(3);
    let mut erc20 = Erc20::new(alice, total_supply);

    let res = erc20.approve(alice, bob, transfer_amount);
    assert!(res.is_ok());

    let res = erc20.transfer_from(bob, alice, charlie, transfer_amount);
    assert!(res.is_ok());

    assert_eq!(erc20.balance_of(alice), total_supply - transfer_amount);

    assert_eq!(erc20.allowance(alice, bob), 0);
}
