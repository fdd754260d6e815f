use common_amm::account::AccountId;
use common_amm::checks::{assert_approx, is_approx, timestamp_one_hour_forward_millis};
use common_amm::errors::{Ownable2StepError, PSP22Error, RouterError, StablePoolError};
use common_amm::helper::update_cumulative;
use common_amm::ownable::Ownable2StepData;
use common_amm::rate_provider::{MockRateProviderContract, RateProvider};
use common_amm::router::RouterContract;
use common_amm::router_pool::{Pool, PoolSwap, Quote};
use common_amm::token_rate::{ExternalTokenRate, TokenRate};
use common_amm::u256::{U256, WrappedU256};
use common_amm::wnative::{NativeTransfer, WnativeContract};
use sp_arithmetic::FixedU128;

fn acc(b: u8) -> AccountId {
    AccountId([b; 32])
}

fn u256(x: u128) -> U256 {
    U256(primitive_types::U256::from(x).0)
}

fn wrapped(x: u128) -> WrappedU256 {
    WrappedU256(u256(x))
}

fn as_u128(x: WrappedU256) -> u128 {
    primitive_types::U256(x.0 .0).as_u128()
}

#[test]
fn update_cumulative_from_zero_time_elapsed() {
    let (cumulative0, cumulative1) = update_cumulative(wrapped(0), wrapped(0), u256(0), 10, 10);
    assert_eq!(as_u128(cumulative0), 0);
    assert_eq!(as_u128(cumulative1), 0);
}

#[test]
fn update_cumulative_from_one_time_elapsed() {
    let (cumulative0, cumulative1) = update_cumulative(wrapped(0), wrapped(0), u256(1), 10, 10);
    assert_eq!(FixedU128::from_inner(as_u128(cumulative0)), 1.into());
    assert_eq!(FixedU128::from_inner(as_u128(cumulative1)), 1.into());
}

#[test]
fn update_cumulative_prices_and_empty_reserves() {
    let one = 1_000_000_000_000_000_000u128;
    let (c0, c1) = update_cumulative(wrapped(5), wrapped(7), u256(3), 10, 20);
    assert_eq!(as_u128(c0), 2 * one * 3 + 5);
    assert_eq!(as_u128(c1), one / 2 * 3 + 7);
    // a price with a zero denominator counts as 0
    let (c0, c1) = update_cumulative(wrapped(5), wrapped(7), u256(3), 0, 20);
    assert_eq!(as_u128(c0), 5);
    assert_eq!(as_u128(c1), 7);
}

#[test]
fn two_step_ownership() {
    let mut s = Ownable2StepData::new(acc(1));
    assert_eq!(s.get_owner(), Ok(acc(1)));
    assert_eq!(s.get_pending_owner(), Err(Ownable2StepError::NoPendingOwner));
    assert_eq!(s.transfer_ownership(acc(2), acc(2)), Err(Ownable2StepError::CallerNotOwner(acc(2))));
    assert_eq!(s.accept_ownership(acc(2)), Err(Ownable2StepError::NoPendingOwner));
    assert_eq!(s.transfer_ownership(acc(1), acc(2)), Ok(()));
    assert_eq!(s.accept_ownership(acc(3)), Err(Ownable2StepError::CallerNotPendingOwner(acc(3))));
    assert_eq!(s.accept_ownership(acc(2)), Ok(()));
    assert_eq!(s, Ownable2StepData { owner: acc(2), pending_owner: None });
    assert_eq!(s.ensure_owner(acc(2)), Ok(()));
    assert_eq!(s.transfer_ownership(acc(2), acc(4)), Ok(()));
    assert_eq!(
        s.renounce_ownership(acc(2), acc(9)),
        Err(Ownable2StepError::ContractNotPendingOwner(acc(4)))
    );
    assert_eq!(s.transfer_ownership(acc(2), acc(9)), Ok(()));
    assert_eq!(s.renounce_ownership(acc(2), acc(9)), Ok(()));
    assert_eq!(s.get_owner(), Ok(acc(9)));
    assert_eq!(s.transfer_ownership(acc(2), acc(2)), Err(Ownable2StepError::CallerNotOwner(acc(2))));
}

#[test]
fn external_rate_is_read_once_per_block() {
    let mut t = TokenRate::new_external(acc(60));
    assert!(t.needs_query(1));
    assert_eq!(t.get_rate(1, 500), 500);
    assert!(!t.needs_query(1));
    assert_eq!(t.get_rate(1, 900), 500);
    assert_eq!(t.get_rate(2, 900), 900);
    assert_eq!(
        t,
        TokenRate::External(ExternalTokenRate {
            rate_provider: acc(60),
            cached_token_rate: 900,
            last_update_block_no: 2
        })
    );
    assert_eq!(t.get_rate_provider(), Some(acc(60)));
    let mut c = TokenRate::new_constant(7);
    assert_eq!(c.get_rate(9, 100), 7);
    assert_eq!(c.get_rate_provider(), None);
}

#[test]
fn mock_rate_provider() {
    let mut m = MockRateProviderContract::new();
    assert_eq!(m.get_rate(), 1_000_000_000_000);
    m.set_rate(3);
    assert_eq!(m.get_rate(), 3);
}

#[test]
fn wrapped_native_deposit_and_withdraw() {
    ink::env::test::set_callee::<ink::env::DefaultEnvironment>(ink::primitives::AccountId::from(
        [77; 32],
    ));
    let mut w = WnativeContract::new();
    assert_eq!(w.token_name(), Some(String::from("Wrapped AZERO")));
    assert_eq!(w.token_symbol(), Some(String::from("WAZERO")));
    assert_eq!(w.token_decimals(), 12);
    assert_eq!(w.deposit(acc(1), 1000), Ok(()));
    assert_eq!(w.balance_of(acc(1)), 1000);
    assert_eq!(w.total_supply(), 1000);
    assert_eq!(w.withdraw(acc(1), 1001), Err(PSP22Error::InsufficientBalance));
    assert_eq!(w.withdraw(acc(1), 800), Ok(()));
    assert_eq!(w.balance_of(acc(1)), 200);
    assert_eq!(w.total_supply(), 200);
    assert!(matches!(w.deposit(acc(2), u128::MAX), Err(PSP22Error::Custom(_))));
}

#[test]
fn approx_and_deadline() {
    assert_approx(10, 12, 2, "below");
    assert_approx(12, 10, 2, "above");
    assert!(is_approx(10, 12, 2));
    assert!(is_approx(12, 10, 2));
    assert!(!is_approx(10, 13, 2));
    assert!(!is_approx(13, 10, 2));
    assert!(is_approx(0, u128::MAX, u128::MAX));
    assert_eq!(timestamp_one_hour_forward_millis(1_000), 3_601_000);
}

#[test]
fn router_remove_liquidity_and_native_checks() {
    let r = RouterContract::new(acc(100), acc(101));
    assert_eq!(r.remove_liquidity(acc(2), acc(1), (3, 4), 4, 3, 10, 10), Ok((4, 3)));
    assert_eq!(r.remove_liquidity(acc(2), acc(1), (3, 4), 4, 3, 9, 10), Err(RouterError::Expired));
    assert_eq!(
        r.remove_liquidity(acc(2), acc(2), (3, 4), 4, 3, 10, 10),
        Err(RouterError::IdenticalAddresses)
    );
    assert_eq!(
        r.remove_liquidity(acc(1), acc(2), (3, 4), 4, 3, 10, 10),
        Err(RouterError::InsufficientAmountA)
    );
    assert_eq!(r.check_native_first(&vec![acc(101), acc(1)]), Ok(()));
    assert_eq!(r.check_native_first(&vec![acc(1), acc(101)]), Err(RouterError::InvalidPath));
    assert_eq!(r.check_native_last(&vec![acc(1), acc(101)]), Ok(()));
    assert_eq!(r.native_refund(10, 7), Ok(3));
    assert_eq!(r.native_refund(10, 11), Err(RouterError::ExcessiveInputAmount));
}

#[test]
fn router_pools_price_and_swap() {
    let pair = Pool::Pair((acc(1), acc(2)), acc(12), 3);
    assert_eq!(pair.get_amount_out(acc(1), acc(2), 1000, Quote::Reserves(100_000, 100_000)), Ok(987));
    assert_eq!(pair.get_amount_in(acc(2), acc(1), 987, Quote::Reserves(100_000, 100_000)), Ok(1000));
    assert_eq!(
        pair.get_amount_in(acc(2), acc(1), 0, Quote::Reserves(100_000, 100_000)),
        Err(RouterError::InsufficientAmount)
    );
    let (reserves, fee) = pair.get_reserves_with_fee((5, 6));
    assert_eq!((reserves, fee), (vec![5, 6], 3));
    assert_eq!(
        pair.swap(acc(2), acc(1), 9, acc(7)),
        Ok(PoolSwap::Pair { pair: acc(12), amount_0_out: 9, amount_1_out: 0, to: acc(7) })
    );
    assert_eq!(pair.swap(acc(2), acc(2), 9, acc(7)), Err(RouterError::IdenticalAddresses));
    let stable = Pool::StablePool(vec![acc(1), acc(2)], acc(30));
    assert_eq!(stable.get_amount_out(acc(1), acc(2), 5, Quote::StablePool(Ok((4, 1)))), Ok(4));
    assert_eq!(
        stable.get_amount_in(acc(1), acc(2), 5, Quote::StablePool(Err(StablePoolError::ZeroAmounts))),
        Err(RouterError::StablePoolError(StablePoolError::ZeroAmounts))
    );
}

#[test]
fn withdraw_pays_the_caller_natively() {
    ink::env::test::set_callee::<ink::env::DefaultEnvironment>(ink::primitives::AccountId::from(
        [78; 32],
    ));
    let mut w = WnativeContract::new();
    assert_eq!(w.deposit(acc(1), 1000), Ok(()));
    assert_eq!(w.withdraw(acc(1), 800), Ok(()));
    assert_eq!(w.withdraw_payout(acc(1), 800), NativeTransfer { to: acc(1), value: 800 });
    assert_eq!(w.withdraw_settled(true), Ok(()));
    assert_eq!(
        w.withdraw_settled(false),
        Err(PSP22Error::Custom(String::from("Wrapper AZERO: withdraw failed")))
    );
}
