use common_amm::account::AccountId;
use common_amm::checks::sort_tokens;
use common_amm::errors::{PSP22Error, RouterError, RouterV2Error};
use common_amm::router::tokens_sorted;
use common_amm::router_v2::Pair;
use common_amm::wnative::WnativeContract;

fn acc(b: u8) -> AccountId {
    AccountId([b; 32])
}

fn wrapped_with(holder: AccountId, amount: u128) -> WnativeContract {
    ink::env::test::set_callee::<ink::env::DefaultEnvironment>(ink::primitives::AccountId::from(
        [77; 32],
    ));
    let mut w = WnativeContract::new();
    w.deposit(holder, amount).unwrap();
    w
}

#[test]
fn transfer_moves_balances() {
    let mut w = wrapped_with(acc(1), 100);
    assert_eq!(w.transfer(acc(1), acc(2), 30).unwrap().len(), 1);
    assert_eq!(w.balance_of(acc(1)), 70);
    assert_eq!(w.balance_of(acc(2)), 30);
    assert_eq!(w.transfer(acc(1), acc(1), 30).unwrap().len(), 0);
    assert_eq!(w.transfer(acc(1), acc(2), 0).unwrap().len(), 0);
    assert_eq!(w.transfer(acc(2), acc(1), 31).err(), Some(PSP22Error::InsufficientBalance));
    assert_eq!(w.total_supply(), 100);
}

#[test]
fn allowances_and_transfer_from() {
    let mut w = wrapped_with(acc(1), 100);
    assert_eq!(w.allowance(acc(1), acc(3)), 0);
    assert_eq!(w.approve(acc(1), acc(3), 50).unwrap().len(), 1);
    assert_eq!(w.allowance(acc(1), acc(3)), 50);
    assert_eq!(w.transfer_from(acc(3), acc(1), acc(4), 51).err(), Some(PSP22Error::InsufficientAllowance));
    assert_eq!(w.transfer_from(acc(3), acc(1), acc(4), 20).unwrap().len(), 2);
    assert_eq!(w.allowance(acc(1), acc(3)), 30);
    assert_eq!(w.balance_of(acc(4)), 20);
    assert_eq!(w.increase_allowance(acc(1), acc(3), 100).unwrap().len(), 1);
    assert_eq!(w.allowance(acc(1), acc(3)), 130);
    assert_eq!(w.transfer_from(acc(3), acc(1), acc(4), 81).err(), Some(PSP22Error::InsufficientBalance));
    assert_eq!(w.decrease_allowance(acc(1), acc(3), 131).err(), Some(PSP22Error::InsufficientAllowance));
    assert_eq!(w.decrease_allowance(acc(1), acc(3), 130).unwrap().len(), 1);
    assert_eq!(w.allowance(acc(1), acc(3)), 0);
    // the holder itself needs no allowance
    assert_eq!(w.transfer_from(acc(1), acc(1), acc(4), 10).unwrap().len(), 1);
    assert_eq!(w.balance_of(acc(4)), 30);
}

#[test]
fn token_order_helpers() {
    assert_eq!(tokens_sorted(acc(1), acc(2)), Ok(true));
    assert_eq!(tokens_sorted(acc(2), acc(1)), Ok(false));
    assert_eq!(tokens_sorted(acc(2), acc(2)), Err(RouterError::IdenticalAddresses));
    assert_eq!(sort_tokens(acc(9), acc(3)), (acc(3), acc(9)));
    assert_eq!(sort_tokens(acc(3), acc(9)), (acc(3), acc(9)));
}

#[test]
fn pair_remove_liquidity_native() {
    let p = Pair { id: acc(12), token_0: acc(1), token_1: acc(2), fee: 3 };
    assert_eq!(p.remove_liquidity_native(acc(2), acc(1), (3, 4), 4, 3, 10, 10), Ok((4, 3)));
    assert_eq!(
        p.remove_liquidity_native(acc(2), acc(5), (3, 4), 4, 3, 10, 10),
        Err(RouterV2Error::InvalidToken)
    );
}

#[test]
fn transfer_back_restores_balances() {
    let mut w = wrapped_with(acc(1), 100);
    w.deposit(acc(2), 5).unwrap();
    w.transfer(acc(1), acc(2), 40).unwrap();
    assert_eq!((w.balance_of(acc(1)), w.balance_of(acc(2))), (60, 45));
    w.transfer(acc(2), acc(1), 40).unwrap();
    assert_eq!((w.balance_of(acc(1)), w.balance_of(acc(2))), (100, 5));
    assert_eq!(w.total_supply(), 105);
}

#[test]
fn deposit_then_withdraw_restores_balance() {
    let mut w = wrapped_with(acc(1), 100);
    w.deposit(acc(1), 25).unwrap();
    assert_eq!(w.balance_of(acc(1)), 125);
    w.withdraw(acc(1), 25).unwrap();
    assert_eq!((w.balance_of(acc(1)), w.total_supply()), (100, 100));
}

#[test]
fn register_works() {
    let wnative_contract = wrapped_with(acc(1), 0);
    assert_eq!(wnative_contract.token_name(), Some(String::from("Wrapped AZERO")));
    assert_eq!(wnative_contract.token_symbol(), Some(String::from("WAZERO")));
}

#[test]
fn test_deposit() {
    let alice = acc(1);
    let mut wnative_contract = wrapped_with(alice, 0);
    assert_eq!(wnative_contract.deposit(alice, 1000), Ok(()));
    let balance = wnative_contract.balance_of(alice);
    assert_eq!(balance, 1000, "balance not correct!");
}

#[test]
fn test_withdraw() {
    let alice = acc(1);
    let mut wnative_contract = wrapped_with(alice, 1000);
    let wnative_balance = wnative_contract.balance_of(alice);
    assert_eq!(wnative_balance, 1000, "balance not correct!");
    assert_eq!(wnative_contract.withdraw(alice, 800), Ok(()));
    let wnative_balance = wnative_contract.balance_of(alice);
    assert_eq!(wnative_balance, 200, "balance not correct!");
}
