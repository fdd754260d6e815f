use common_amm::account::AccountId;
use common_amm::amp_coef::AmpCoef;
use common_amm::constants::stable_pool::RATE_PRECISION;
use common_amm::errors::{MathError, Ownable2StepError, PSP22Error, StablePoolError};
use common_amm::stable_pool::{
    AmpCoefChange, AmpCoefChangeStop, FeeChanged, FeeReceiverChanged, Fees, StablePoolContract,
};
use common_amm::token_rate::TokenRate;

fn acc(b: u8) -> AccountId {
    AccountId([b; 32])
}

/// Each pool is a contract of its own and keeps its ledger in its own
/// storage: a test runs it as the callee `b`.
fn set_contract(b: u8) {
    ink::env::test::set_callee::<ink::env::DefaultEnvironment>(ink::primitives::AccountId::from([
        b; 32
    ]));
}

const OWNER: u8 = 50;
const RECEIVER: u8 = 42;

fn pool() -> StablePoolContract {
    set_contract(77);
    StablePoolContract::new_stable(
        vec![acc(1), acc(2)],
        vec![18, 6],
        100,
        acc(OWNER),
        1_000_000,
        200_000_000,
        Some(acc(RECEIVER)),
    )
    .unwrap()
}

#[test]
fn new_pool_checks_in_order() {
    set_contract(77);
    let err = |tokens: Vec<AccountId>, decimals: Vec<u8>, amp: u128, trade: u32| {
        StablePoolContract::new_stable(tokens, decimals, amp, acc(OWNER), trade, 0, None).err()
    };
    assert_eq!(err(vec![acc(1), acc(1)], vec![6, 6], 100, 0), Some(StablePoolError::IdenticalTokenId));
    assert_eq!(err(vec![acc(1)], vec![6], 100, 0), Some(StablePoolError::IncorrectTokenCount));
    assert_eq!(err(vec![acc(1), acc(2)], vec![6], 100, 0), Some(StablePoolError::IncorrectTokenCount));
    assert_eq!(
        err((1..=9).map(acc).collect(), vec![6; 9], 100, 0),
        Some(StablePoolError::IncorrectTokenCount)
    );
    assert_eq!(err(vec![acc(1), acc(2)], vec![6, 19], 100, 0), Some(StablePoolError::TooLargeTokenDecimal));
    assert_eq!(err(vec![acc(1), acc(2)], vec![6, 18], 0, 0), Some(StablePoolError::AmpCoefTooLow));
    assert_eq!(err(vec![acc(1), acc(2)], vec![6, 18], 1_000_001, 0), Some(StablePoolError::AmpCoefTooHigh));
    assert_eq!(err(vec![acc(1), acc(2)], vec![6, 18], 100, 10_000_001), Some(StablePoolError::InvalidFee));
    assert_eq!(err(vec![acc(1), acc(2)], vec![6, 18], 100, 10_000_000), None);
}

#[test]
fn new_pool_state() {
    let p = pool();
    assert_eq!(p.tokens(), vec![acc(1), acc(2)]);
    assert_eq!(p.reserves(), vec![0, 0]);
    assert_eq!(p.pool.precisions, vec![1, 1_000_000_000_000]);
    assert_eq!(p.fees(), (1_000_000, 200_000_000));
    assert_eq!(p.fee_receiver(), Some(acc(RECEIVER)));
    assert_eq!(p.amp_coef(0), Ok(100));
    assert_eq!(p.future_amp_coef(0), None);
    assert_eq!(p.total_supply(), 0);
    assert_eq!(p.get_owner(), Ok(acc(OWNER)));
    assert_eq!(p.token_rates_providers(), vec![None, None]);
    assert_eq!(p.token_name(), Some(String::from("CommonStableSwap")));
    assert_eq!(p.token_symbol(), Some(String::from("CMNSS")));
    assert_eq!(p.token_decimals(), 18);
}

#[test]
fn rated_pool_rates_and_scaled_rates() {
    set_contract(77);
    let mut p = StablePoolContract::new_rated(
        vec![acc(1), acc(2)],
        vec![12, 18],
        vec![Some(acc(60)), None],
        100,
        acc(OWNER),
        0,
        0,
        None,
    )
    .unwrap();
    assert_eq!(p.token_rates_providers(), vec![Some(acc(60)), None]);
    // the provider is read at block 5 and then cached for that block
    assert_eq!(p.token_rates(5, &vec![2 * RATE_PRECISION, 0]), vec![2 * RATE_PRECISION, RATE_PRECISION]);
    assert_eq!(p.token_rates(5, &vec![7, 0]), vec![2 * RATE_PRECISION, RATE_PRECISION]);
    assert_eq!(
        p.get_scaled_rates(6, &vec![3 * RATE_PRECISION, 0]),
        Ok(vec![3 * RATE_PRECISION * 1_000_000, RATE_PRECISION])
    );
    assert_eq!(
        p.get_scaled_rates(7, &vec![u128::MAX, 0]),
        Err(MathError::MulOverflow(104))
    );
}

#[test]
fn token_ids() {
    let p = pool();
    assert_eq!(p.token_id(acc(2)), Ok(1));
    assert_eq!(p.token_id(acc(3)), Err(StablePoolError::InvalidTokenId(acc(3))));
    assert_eq!(p.check_tokens(acc(2), acc(1)), Ok((1, 0)));
    assert_eq!(p.check_tokens(acc(2), acc(2)), Err(StablePoolError::IdenticalTokenId));
    assert_eq!(p.check_tokens(acc(2), acc(5)), Err(StablePoolError::InvalidTokenId(acc(5))));
}

#[test]
fn fees_protocol_part() {
    let fees = Fees::new(1_000_000, 200_000_000).unwrap();
    assert_eq!(fees.protocol_trade_fee(1000), 200);
    assert_eq!(fees.protocol_trade_fee(u128::MAX), u128::MAX / 5);
    assert_eq!(Fees::new(10_000_001, 0), None);
    assert_eq!(Fees::new(0, 500_000_001), None);
}

#[test]
fn add_and_remove_liquidity() {
    let mut p = pool();
    assert_eq!(
        p.add_liquidity(0, &vec![1], acc(5), Ok((10, 0))),
        Err(StablePoolError::IncorrectAmountsCount)
    );
    assert_eq!(p.add_liquidity(0, &vec![0, 0], acc(5), Ok((10, 0))), Err(StablePoolError::ZeroAmounts));
    assert_eq!(
        p.add_liquidity(0, &vec![1, 1], acc(5), Err(MathError::DivByZero(1))),
        Err(StablePoolError::MathError(MathError::DivByZero(1)))
    );
    assert_eq!(
        p.add_liquidity(11, &vec![1, 1], acc(5), Ok((10, 0))),
        Err(StablePoolError::InsufficientLiquidityMinted)
    );
    assert_eq!(p.add_liquidity(10, &vec![100, 200], acc(5), Ok((1000, 50))), Ok((1000, 50)));
    assert_eq!(p.reserves(), vec![100, 200]);
    assert_eq!(p.balance_of(acc(5)), 1000);
    // the protocol keeps 20% of the fee part
    assert_eq!(p.balance_of(acc(RECEIVER)), 10);
    assert_eq!(p.total_supply(), 1010);

    assert_eq!(
        p.remove_liquidity_by_shares(100, &vec![11, 0], acc(5), Ok(vec![10, 20])),
        Err(StablePoolError::InsufficientOutputAmount)
    );
    assert_eq!(
        p.remove_liquidity_by_shares(100, &vec![], acc(5), Ok(vec![0, 0])),
        Err(StablePoolError::ZeroAmounts)
    );
    assert_eq!(p.remove_liquidity_by_shares(100, &vec![10, 20], acc(5), Ok(vec![10, 20])), Ok(vec![10, 20]));
    assert_eq!(p.reserves(), vec![90, 180]);
    assert_eq!(p.balance_of(acc(5)), 900);

    assert_eq!(
        p.remove_liquidity_by_amounts(99, &vec![10, 10], acc(5), Ok((100, 0))),
        Err(StablePoolError::InsufficientLiquidityBurned)
    );
    assert_eq!(p.remove_liquidity_by_amounts(100, &vec![10, 10], acc(5), Ok((100, 100))), Ok((100, 100)));
    assert_eq!(p.reserves(), vec![80, 170]);
    assert_eq!(p.balance_of(acc(5)), 800);
    assert_eq!(p.balance_of(acc(RECEIVER)), 30);
    assert_eq!(
        p.remove_liquidity_by_amounts(100, &vec![81, 0], acc(5), Ok((1, 0))),
        Err(StablePoolError::MathError(MathError::SubUnderflow(101)))
    );
    assert_eq!(p.check_liquidity_burn(p.total_supply() + 1), Err(StablePoolError::InsufficientLiquidity));
    assert_eq!(p.check_liquidity_burn(p.total_supply()), Ok(()));
    assert_eq!(p.check_amounts_count(&vec![1]), Err(StablePoolError::IncorrectAmountsCount));
    assert_eq!(
        p.remove_liquidity_by_shares(5000, &vec![], acc(5), Ok(vec![1, 1])),
        Err(StablePoolError::PSP22Error(PSP22Error::InsufficientBalance))
    );
}

#[test]
fn swaps_move_reserves() {
    let mut p = pool();
    assert_eq!(p.add_liquidity(0, &vec![1000, 1000], acc(5), Ok((2000, 0))), Ok((2000, 0)));
    assert_eq!(p.transfer_in_amount(0, Some(0), 0), Err(StablePoolError::InsufficientInputAmount));
    assert_eq!(p.transfer_in_amount(0, None, 999), Err(StablePoolError::MathError(MathError::SubUnderflow(103))));
    assert_eq!(p.transfer_in_amount(0, None, 1000), Err(StablePoolError::InsufficientInputAmount));
    assert_eq!(p.transfer_in_amount(0, None, 1050), Ok(50));
    assert_eq!(
        p.apply_swap_exact_in(0, 1, 50, 49, Ok((48, 2))),
        Err(StablePoolError::InsufficientOutputAmount)
    );
    assert_eq!(p.apply_swap_exact_in(0, 1, 50, 48, Ok((48, 2))), Ok((48, 2)));
    assert_eq!(p.reserves(), vec![1050, 952]);
    assert_eq!(StablePoolContract::check_swap_exact_out(0), Err(StablePoolError::InsufficientOutputAmount));
    assert_eq!(
        p.apply_swap_exact_out(0, 1, 10, 10, Ok((11, 1))),
        Err(StablePoolError::InsufficientInputAmount)
    );
    assert_eq!(p.apply_swap_exact_out(0, 1, 10, 11, Ok((11, 1))), Ok((11, 1)));
    assert_eq!(p.reserves(), vec![1061, 942]);
    assert_eq!(
        p.apply_swap_exact_out(0, 1, 943, 2000, Ok((1, 1))),
        Err(StablePoolError::MathError(MathError::SubUnderflow(101)))
    );
    assert_eq!(p.reserves(), vec![1061, 942]);
    // the protocol's part of a fee of 100 is 20, deposited as token 1
    let (deposit, reserves) = p.protocol_fee_deposit(100, 1).unwrap().unwrap();
    assert_eq!(deposit, vec![0, 20]);
    assert_eq!(reserves, vec![1061, 922]);
    assert_eq!(p.protocol_fee_deposit(4, 1), Ok(None));
    assert_eq!(p.mint_protocol_fee(Ok((7, 0))), Ok(()));
    assert_eq!(p.balance_of(acc(RECEIVER)), 7);
}

#[test]
fn owner_settings() {
    let mut p = pool();
    let stranger = acc(9);
    let not_owner = StablePoolError::Ownable2StepError(Ownable2StepError::CallerNotOwner(stranger));
    assert_eq!(p.set_fee_receiver(stranger, None), Err(not_owner));
    assert_eq!(
        p.set_fee_receiver(acc(OWNER), None),
        Ok(FeeReceiverChanged { new_fee_receiver: None })
    );
    assert_eq!(p.fee_receiver(), None);
    assert_eq!(p.set_fees(acc(OWNER), 10_000_001, 0), Err(StablePoolError::InvalidFee));
    assert_eq!(p.set_fees(acc(OWNER), 3, 4), Ok(FeeChanged { trade_fee: 3, protocol_fee: 4 }));
    assert_eq!(p.fees(), (3, 4));
    assert_eq!(
        p.ramp_amp_coef(acc(OWNER), 1000, 100 + 86_400_000, 100),
        Ok(AmpCoefChange {
            init_amp_coef: 100,
            future_amp_coef: 1000,
            init_time: 100,
            future_time: 100 + 86_400_000
        })
    );
    assert_eq!(p.future_amp_coef(200), Some((1000, 100 + 86_400_000)));
    assert_eq!(
        p.stop_ramp_amp_coef(acc(OWNER), 100 + 43_200_000),
        Ok(AmpCoefChangeStop { amp_coef: 550, time: 100 + 43_200_000 })
    );
    assert_eq!(
        p.pool.amp_coef,
        AmpCoef {
            init_amp_coef: 550,
            future_amp_coef: 550,
            init_time: 100 + 43_200_000,
            future_time: 100 + 43_200_000
        }
    );
}

#[test]
fn pool_ownership() {
    let mut p = pool();
    assert_eq!(p.get_pending_owner(), Err(Ownable2StepError::NoPendingOwner));
    assert!(p.transfer_ownership(acc(OWNER), acc(8)).is_ok());
    assert_eq!(p.get_pending_owner(), Ok(acc(8)));
    assert_eq!(p.accept_ownership(acc(9)), Err(Ownable2StepError::CallerNotPendingOwner(acc(9))));
    assert!(p.accept_ownership(acc(8)).is_ok());
    assert_eq!(p.get_owner(), Ok(acc(8)));
    assert_eq!(p.ensure_owner(acc(OWNER)), Err(Ownable2StepError::CallerNotOwner(acc(OWNER))));
    assert_eq!(p.renounce_ownership(acc(8), acc(77)), Err(Ownable2StepError::NoPendingOwner));
    assert!(p.transfer_ownership(acc(8), acc(77)).is_ok());
    assert!(p.renounce_ownership(acc(8), acc(77)).is_ok());
    assert_eq!(p.get_owner(), Ok(acc(77)));
}

#[test]
fn constant_rates_ignore_providers() {
    let mut p = pool();
    assert_eq!(p.token_rates(3, &vec![5, 5]), vec![RATE_PRECISION, RATE_PRECISION]);
    assert_eq!(p.pool.token_rates, vec![TokenRate::Constant(RATE_PRECISION); 2]);
}

#[test]
fn failed_deposit_and_withdrawals_change_nothing() {
    let mut p = pool();
    // the shares fit, the protocol's part of the fee does not: nothing is minted
    assert!(matches!(
        p.add_liquidity(0, &vec![1, 1], acc(5), Ok((u128::MAX, 100))),
        Err(StablePoolError::PSP22Error(PSP22Error::Custom(_)))
    ));
    assert_eq!(p.balance_of(acc(5)), 0);
    assert_eq!(p.total_supply(), 0);
    assert_eq!(p.reserves(), vec![0, 0]);
    assert_eq!(p.add_liquidity(0, &vec![100, 200], acc(5), Ok((1000, 0))), Ok((1000, 0)));
    // the reserves cover the amounts, the caller's shares do not
    assert_eq!(
        p.remove_liquidity_by_shares(2000, &vec![], acc(5), Ok(vec![10, 20])),
        Err(StablePoolError::PSP22Error(PSP22Error::InsufficientBalance))
    );
    assert_eq!(p.reserves(), vec![100, 200]);
    assert_eq!(p.balance_of(acc(5)), 1000);
    // the shares are there, the reserves do not cover the amounts
    assert_eq!(
        p.remove_liquidity_by_amounts(100, &vec![101, 0], acc(5), Ok((10, 100))),
        Err(StablePoolError::MathError(MathError::SubUnderflow(101)))
    );
    assert_eq!(p.balance_of(acc(5)), 1000);
    assert_eq!(p.balance_of(acc(RECEIVER)), 0);
    assert_eq!(p.total_supply(), 1000);
}

#[test]
fn math_inputs_gather_rates_reserves_supply_fees_and_amp() {
    let mut p = pool();
    assert_eq!(p.add_liquidity(0, &vec![100, 200], acc(5), Ok((1000, 0))), Ok((1000, 0)));
    let inputs = p.math_inputs(3, &vec![0, 0], 0).unwrap();
    assert_eq!(inputs.rates, vec![RATE_PRECISION, RATE_PRECISION * 1_000_000_000_000]);
    assert_eq!(inputs.reserves, vec![100, 200]);
    assert_eq!(inputs.total_supply, 1000);
    assert_eq!(inputs.fees, p.pool.fees);
    assert_eq!(inputs.amp_coef, 100);
}

#[test]
fn token_transfers_skip_zero_amounts() {
    let p = pool();
    assert_eq!(p.token_transfers(&vec![0, 7]), vec![(acc(2), 7)]);
    assert_eq!(p.token_transfers(&vec![3, 7]), vec![(acc(1), 3), (acc(2), 7)]);
    assert_eq!(p.token_transfers(&vec![0, 0]), vec![]);
}

#[test]
fn withdraw_all_shares_returns_the_reserves() {
    set_contract(79);
    let one_dai: u128 = 1_000_000_000_000_000_000;
    let (one_usdt, one_usdc): (u128, u128) = (1_000_000, 1_000_000);
    let one_lpt: u128 = 1_000_000_000_000_000_000;
    let mut p = StablePoolContract::new_stable(
        vec![acc(1), acc(2), acc(3)],
        vec![18, 6, 6],
        10_000,
        acc(OWNER),
        2_500_000,
        200_000_000,
        None,
    )
    .unwrap();
    let reserves = vec![100_000 * one_dai, 100_000 * one_usdt, 100_000 * one_usdc];
    // the first deposit of equal values mints their sum in shares
    assert_eq!(
        p.add_liquidity(1, &reserves, acc(5), Ok((300_000 * one_lpt, 0))),
        Ok((300_000 * one_lpt, 0))
    );
    assert_eq!(p.balance_of(acc(5)), 300_000 * one_lpt);
    // all shares give back all reserves
    assert_eq!(
        p.remove_liquidity_by_shares(
            300_000 * one_lpt,
            &vec![one_dai, one_usdt, one_usdc],
            acc(5),
            Ok(reserves.clone())
        ),
        Ok(reserves.clone())
    );
    assert_eq!(p.balance_of(acc(5)), 0);
    assert_eq!(p.total_supply(), 0);
    assert_eq!(p.reserves(), vec![0, 0, 0]);
    assert_eq!(p.token_transfers(&reserves), vec![
        (acc(1), 100_000 * one_dai),
        (acc(2), 100_000 * one_usdt),
        (acc(3), 100_000 * one_usdc),
    ]);
}

#[test]
fn received_input_equals_sent_input() {
    let mut p = pool();
    assert_eq!(p.add_liquidity(0, &vec![100, 200], acc(5), Ok((1000, 0))), Ok((1000, 0)));
    assert_eq!(p.transfer_in_amount(0, Some(5), 0), Ok(5));
    assert_eq!(p.transfer_in_amount(0, None, 105), Ok(5));
    assert_eq!(p.transfer_in_amount(0, None, 100), Err(StablePoolError::InsufficientInputAmount));
    assert_eq!(
        p.transfer_in_amount(0, None, 99),
        Err(StablePoolError::MathError(MathError::SubUnderflow(103)))
    );
}
