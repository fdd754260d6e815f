use common_amm::account::AccountId;
use common_amm::constants::{burn_address, MINIMUM_LIQUIDITY};
use common_amm::errors::{MathError, PairError};
use common_amm::pair::{
    price_cumulative, PairContract, PairEvent, SwapStep, UQ112x112, Q112, RESERVES_UPPER_BOUND,
};
use common_amm::u256::{U256, WrappedU256};

type Big = primitive_types::U256;

fn big(x: U256) -> Big {
    primitive_types::U256(x.0)
}

fn wrapped(x: Big) -> WrappedU256 {
    WrappedU256(U256(x.0))
}

fn acc(b: u8) -> AccountId {
    AccountId([b; 32])
}

/// Each pool is a contract of its own and keeps its ledger in its own
/// storage: a test runs it as the callee `b`.
fn set_contract(b: u8) {
    ink::env::test::set_callee::<ink::env::DefaultEnvironment>(ink::primitives::AccountId::from([
        b; 32
    ]));
}

#[test]
fn consts() {
    assert_eq!(Q112, 2u128.pow(112))
}

#[test]
fn u112x112() {
    assert!(
        UQ112x112::from_frac(Q112, 1).is_none(),
        "Should not work with num >= Q112"
    );
    assert!(
        UQ112x112::from_frac(1, Q112).is_none(),
        "Should not work with denom >= Q112"
    );
    assert_eq!(
        big(UQ112x112::from_frac(1u128, 1u128).unwrap()),
        Big::from(Q112)
    );
    assert_eq!(
        big(UQ112x112::from_frac(1u128, 2u128).unwrap()),
        Big::from(Q112 / 2)
    );
    assert_eq!(
        big(UQ112x112::from_frac(Q112 - 1, Q112 - 1).unwrap()),
        Big::from(Q112),
    );
    assert_eq!(
        big(UQ112x112::from_frac(Q112 - 1, 1).unwrap()),
        Big::from(2).pow(224.into()) - Big::from(Q112),
    );
}

#[test]
fn price_cumulative_from_zero_time_elapsed() {
    let cumulative = price_cumulative(1, 1, 0, wrapped(0.into())).unwrap();
    assert_eq!(big(cumulative), Big::from(0));
}

#[test]
fn price_cumulative_from_one_time_elapsed() {
    let cumulative = price_cumulative(1, 1, 1, wrapped(0.into())).unwrap();
    assert_eq!(big(cumulative), Big::from(Q112));
}

#[test]
fn price_cumulative_biggies() {
    assert_eq!(
        big(price_cumulative(
            RESERVES_UPPER_BOUND,
            RESERVES_UPPER_BOUND,
            u32::MAX,
            wrapped(0.into()),
        )
        .unwrap()),
        Big::from(2).pow(144.into()) - Big::from(2).pow(112.into())
    );
    let max_cumulative_without_overflow =
        Big::MAX - Big::from(2).pow(144.into()) - Big::from(2).pow(224.into())
            + Q112
            + 1;
    assert_eq!(
        big(price_cumulative(RESERVES_UPPER_BOUND, 1, u32::MAX, wrapped(0.into())).unwrap()),
        max_cumulative_without_overflow,
    );
    let new_cumulative_overflow = big(price_cumulative(
        RESERVES_UPPER_BOUND,
        1,
        u32::MAX,
        wrapped(max_cumulative_without_overflow),
    )
    .unwrap());
    assert!(
        new_cumulative_overflow < max_cumulative_without_overflow,
        "value after overflow should be lower"
    );
    let diff = Big::MAX - max_cumulative_without_overflow + new_cumulative_overflow;
    assert_eq!(diff + 1, max_cumulative_without_overflow);
}

#[test]
fn price_cumulative_rejects_large_reserves() {
    assert_eq!(
        price_cumulative(Q112, 1, 1, wrapped(0.into())),
        Err(PairError::ReservesOverflow)
    );
}

#[test]
fn pair_initialize_works() {
    let pair = PairContract::new(acc(3), acc(4), acc(5));
    assert_eq!(pair.get_token_0(), acc(3));
    assert_eq!(pair.get_token_1(), acc(4));
    assert_eq!(pair.get_factory(), acc(5));
    assert_eq!(pair.get_reserves(), (0, 0, 0));
}

#[test]
fn first_mint_locks_minimum_liquidity() {
    set_contract(90);
    let mut pair = PairContract::new(acc(3), acc(4), acc(5));
    let mut events = Vec::new();
    // sqrt(4000 * 1000) = 2000
    let liq = pair
        .mint(4000, 1000, None, acc(7), acc(8), 5_000, &mut events)
        .unwrap();
    assert_eq!(liq, 2000 - MINIMUM_LIQUIDITY);
    assert_eq!(pair.total_supply(), 2000);
    assert_eq!(pair.balance_of(burn_address()), MINIMUM_LIQUIDITY);
    assert_eq!(pair.balance_of(acc(7)), 1000);
    assert_eq!(pair.get_reserves(), (4000, 1000, 5));
    match events.last() {
        Some(PairEvent::Mint(m)) => {
            assert_eq!((m.sender, m.amount_0, m.amount_1), (acc(8), 4000, 1000))
        }
        _ => panic!("last event should be Mint"),
    }
}

#[test]
fn mint_needs_deposit() {
    set_contract(91);
    let mut pair = PairContract::new(acc(3), acc(4), acc(5));
    let mut events = Vec::new();
    pair.mint(4000, 1000, None, acc(7), acc(8), 0, &mut events)
        .unwrap();
    assert_eq!(
        pair.mint(3999, 1000, None, acc(7), acc(8), 0, &mut events),
        Err(PairError::MathError(MathError::SubUnderflow(2)))
    );
    assert_eq!(
        pair.mint(4000, 1000, None, acc(7), acc(8), 0, &mut events),
        Err(PairError::InsufficientLiquidityMinted)
    );
    // a second deposit in proportion: 2000 * 400 / 4000 = 200
    let liq = pair
        .mint(4400, 1100, None, acc(9), acc(8), 0, &mut events)
        .unwrap();
    assert_eq!(liq, 200);
}

#[test]
fn first_mint_too_small() {
    set_contract(92);
    let mut pair = PairContract::new(acc(3), acc(4), acc(5));
    let mut events = Vec::new();
    assert_eq!(
        pair.mint(999, 999, None, acc(7), acc(8), 0, &mut events),
        Err(PairError::MathError(MathError::SubUnderflow(4)))
    );
}

#[test]
fn swap_keeps_the_product() {
    set_contract(93);
    let mut pair = PairContract::new(acc(3), acc(4), acc(5));
    let mut events = Vec::new();
    pair.mint(1_000_000, 1_000_000, None, acc(7), acc(8), 0, &mut events)
        .unwrap();
    assert_eq!(pair.swap_check(0, 0, acc(9)), Err(PairError::InsufficientOutputAmount));
    assert_eq!(pair.swap_check(0, 1_000_000, acc(9)), Err(PairError::InsufficientLiquidity));
    assert_eq!(pair.swap_check(0, 10, acc(3)), Err(PairError::InvalidTo));
    assert_eq!(pair.swap_check(0, 996, acc(9)), Ok(()));
    // 1000 in: at most 996 out, as (1001000 * 1000 - 3000) * (999004 * 1000) >= 10^12 * 10^6
    assert_eq!(
        pair.swap(0, 997, acc(9), 1_001_000, 1_000_000 - 997, acc(8), 0, &mut events),
        Err(PairError::KInvariantChanged)
    );
    assert_eq!(
        pair.swap(0, 996, acc(9), 1_001_000, 1_000_000 - 996, acc(8), 0, &mut events),
        Ok(())
    );
    assert_eq!(pair.get_reserves(), (1_001_000, 999_004, 0));
    assert_eq!(
        pair.swap(0, 10, acc(9), 1_001_000, 999_004 - 10, acc(8), 0, &mut events),
        Err(PairError::InsufficientInputAmount)
    );
}

#[test]
fn burn_returns_share() {
    set_contract(94);
    let contract = acc(94);
    let mut pair = PairContract::new(acc(3), acc(4), acc(5));
    let mut events = Vec::new();
    pair.mint(4000, 1000, None, contract, acc(8), 0, &mut events)
        .unwrap();
    // the pair holds its own 1000 liquidity tokens out of 2000
    let plan = pair.burn(contract, 4000, 1000, None, &mut events).unwrap();
    assert_eq!((plan.amount_0, plan.amount_1, plan.fee_on), (2000, 500, false));
    assert_eq!(pair.total_supply(), 1000);
    assert_eq!(
        pair.burn_settle(plan, 2000, 500, acc(8), acc(9), 0, &mut events),
        Ok((2000, 500))
    );
    assert_eq!(pair.get_reserves(), (2000, 500, 0));
    assert_eq!(
        pair.burn(contract, 2000, 500, None, &mut events).err(),
        Some(PairError::InsufficientLiquidityBurned)
    );
}

#[test]
fn protocol_fee_is_minted() {
    set_contract(95);
    let mut pair = PairContract::new(acc(3), acc(4), acc(5));
    let mut events = Vec::new();
    let fee_to = Some(acc(6));
    pair.mint(1_000_000, 1_000_000, fee_to, acc(7), acc(8), 0, &mut events)
        .unwrap();
    let k_last = pair.pair.k_last.unwrap();
    assert_eq!(big(k_last.0), Big::from(1_000_000u128 * 1_000_000u128));
    // reserves grow by a swap: sqrt(k) grows from 10^6
    pair.swap(0, 90_000, acc(9), 1_100_000, 910_000, acc(8), 0, &mut events)
        .unwrap();
    // a deposit without tokens fails and mints nothing, not even the fee
    assert_eq!(
        pair.mint(1_100_000, 910_000, fee_to, acc(7), acc(8), 0, &mut events),
        Err(PairError::InsufficientLiquidityMinted)
    );
    assert_eq!(pair.balance_of(acc(6)), 0);
    assert_eq!(pair.total_supply(), 1_000_000);
    // a new deposit triggers the fee: sqrt(1_100_000 * 910_000) = 1_000_499
    let liq = pair
        .mint(1_111_000, 919_100, fee_to, acc(7), acc(8), 0, &mut events)
        .unwrap();
    // total supply 10^6, growth 499: 10^6 * 499 / (5 * 1_000_499 + 10^6) = 83
    assert_eq!(pair.balance_of(acc(6)), 83);
    // 11_000 * 1_000_083 / 1_100_000 = 10_000
    assert_eq!(liq, 10_000);
    assert_eq!(pair.total_supply(), 1_000_000 + 83 + 10_000);
    let k_last = pair.pair.k_last.unwrap();
    assert_eq!(big(k_last.0), Big::from(1_111_000u128 * 919_100u128));
}

#[test]
fn burn_with_fee_records_new_reserves() {
    set_contract(97);
    let contract = acc(97);
    let mut pair = PairContract::new(acc(3), acc(4), acc(5));
    let mut events = Vec::new();
    let fee_to = Some(acc(6));
    pair.mint(4000, 1000, fee_to, contract, acc(8), 0, &mut events)
        .unwrap();
    let plan = pair.burn(contract, 4000, 1000, fee_to, &mut events).unwrap();
    assert_eq!((plan.amount_0, plan.amount_1, plan.fee_on), (2000, 500, true));
    assert_eq!(
        pair.burn_settle(plan, 2000, 500, acc(8), acc(9), 0, &mut events),
        Ok((2000, 500))
    );
    // k_last is the product of the reserves after the burn
    let k_last = pair.pair.k_last.unwrap();
    assert_eq!(big(k_last.0), Big::from(2000u128 * 500u128));
}

#[test]
fn failed_burn_changes_nothing() {
    set_contract(98);
    let contract = acc(98);
    let mut pair = PairContract::new(acc(3), acc(4), acc(5));
    let mut events = Vec::new();
    pair.mint(4000, 1000, None, acc(7), acc(8), 0, &mut events)
        .unwrap();
    let n = events.len();
    // the pair holds no liquidity tokens of its own
    assert_eq!(
        pair.burn(contract, 4000, 1000, None, &mut events).err(),
        Some(PairError::InsufficientLiquidityBurned)
    );
    assert_eq!(events.len(), n);
    assert_eq!(pair.total_supply(), 2000);
    assert_eq!(pair.balance_of(acc(7)), 1000);
}

#[test]
fn mint_pays_fee_lock_and_depositor() {
    set_contract(99);
    let mut pair = PairContract::new(acc(3), acc(4), acc(5));
    let mut events = Vec::new();
    assert_eq!(
        pair.mint(10_000, 10_000, None, acc(7), acc(8), 0, &mut events),
        Ok(9000)
    );
    assert_eq!(pair.balance_of(acc(7)), 9000);
    assert_eq!(pair.balance_of(burn_address()), MINIMUM_LIQUIDITY);
    assert_eq!(pair.balance_of(acc(8)), 0);
    assert_eq!(pair.total_supply(), 10_000);
    assert_eq!(pair.get_reserves(), (10_000, 10_000, 0));
}

#[test]
fn failed_swap_keeps_reserves() {
    set_contract(100);
    let mut pair = PairContract::new(acc(3), acc(4), acc(5));
    let mut events = Vec::new();
    pair.mint(10_000, 10_000, None, acc(7), acc(8), 0, &mut events)
        .unwrap();
    let n = events.len();
    // 1020 of token 0 in: 924 out breaks the product, 923 does not
    assert_eq!(
        pair.swap(0, 924, acc(9), 11_020, 10_000 - 924, acc(8), 7_000, &mut events),
        Err(PairError::KInvariantChanged)
    );
    assert_eq!(pair.get_reserves(), (10_000, 10_000, 0));
    assert_eq!(events.len(), n);
    assert_eq!(
        pair.swap(0, 923, acc(9), 11_020, 10_000 - 923, acc(8), 7_000, &mut events),
        Ok(())
    );
    assert_eq!(pair.get_reserves(), (11_020, 9077, 7));
}

#[test]
fn swap_plan_pays_then_calls_then_reads() {
    set_contract(101);
    let mut pair = PairContract::new(acc(3), acc(4), acc(5));
    let mut events = Vec::new();
    pair.mint(10_000, 10_000, None, acc(7), acc(8), 0, &mut events)
        .unwrap();
    assert_eq!(
        pair.swap_plan(0, 0, acc(9), acc(8), true),
        Err(PairError::InsufficientOutputAmount)
    );
    assert_eq!(
        pair.swap_plan(5, 0, acc(3), acc(8), true),
        Err(PairError::InvalidTo)
    );
    assert_eq!(
        pair.swap_plan(5, 7, acc(9), acc(8), true),
        Ok(vec![
            SwapStep::Transfer { token: acc(3), to: acc(9), value: 5 },
            SwapStep::Transfer { token: acc(4), to: acc(9), value: 7 },
            SwapStep::Callback { to: acc(9), sender: acc(8), amount_0_out: 5, amount_1_out: 7 },
            SwapStep::ReadBalances,
        ])
    );
    assert_eq!(
        pair.swap_plan(0, 7, acc(9), acc(8), false),
        Ok(vec![
            SwapStep::Transfer { token: acc(4), to: acc(9), value: 7 },
            SwapStep::ReadBalances,
        ])
    );
}

#[test]
fn sync_and_skim() {
    set_contract(96);
    let mut pair = PairContract::new(acc(3), acc(4), acc(5));
    let mut events = Vec::new();
    pair.mint(4000, 1000, None, acc(7), acc(8), 0, &mut events)
        .unwrap();
    assert_eq!(pair.skim(4100, 1200), Ok((100, 200)));
    assert_eq!(
        pair.skim(3999, 1200),
        Err(PairError::MathError(MathError::SubUnderflow(11)))
    );
    assert_eq!(
        pair.sync(RESERVES_UPPER_BOUND + 1, 1, 0, &mut events),
        Err(PairError::ReservesOverflow)
    );
    // 2 seconds later the accumulators grow by 2 * price
    assert_eq!(pair.sync(4100, 1200, 2_000, &mut events), Ok(()));
    assert_eq!(pair.get_reserves(), (4100, 1200, 2));
    assert_eq!(
        big(pair.price_0_cumulative_last().0),
        Big::from(Q112 / 4 * 2)
    );
    assert_eq!(
        big(pair.price_1_cumulative_last().0),
        Big::from(Q112 * 4 * 2)
    );
}

#[test]
fn unbalanced_deposit_gets_smaller_share() {
    set_contract(95);
    let mut pair = PairContract::new(acc(3), acc(4), acc(5));
    let mut events = Vec::new();
    pair.mint(4000, 1000, None, acc(7), acc(8), 0, &mut events).unwrap();
    pair.mint(4400, 1100, None, acc(9), acc(8), 0, &mut events).unwrap();
    assert_eq!(pair.total_supply(), 2200);
    // 440 of token 0 is worth 220 shares, 220 of token 1 would be worth 440
    let liq = pair.mint(4840, 1320, None, acc(9), acc(8), 0, &mut events).unwrap();
    assert_eq!(liq, 220);
    assert!(liq * 4400 <= 440 * 2200 && liq * 1100 <= 220 * 2200);
}

#[test]
fn no_fee_while_k_has_not_grown() {
    set_contract(102);
    let mut pair = PairContract::new(acc(3), acc(4), acc(5));
    let mut events = Vec::new();
    let fee_to = Some(acc(6));
    pair.mint(1_000_000, 1_000_000, fee_to, acc(7), acc(8), 0, &mut events)
        .unwrap();
    pair.mint(2_000_000, 2_000_000, fee_to, acc(7), acc(8), 0, &mut events)
        .unwrap();
    assert_eq!(pair.balance_of(acc(6)), 0);
    assert_eq!(pair.total_supply(), 2_000_000);
}

#[test]
fn first_mint_events_in_order() {
    set_contract(103);
    let mut pair = PairContract::new(acc(3), acc(4), acc(5));
    let mut events = Vec::new();
    assert_eq!(pair.mint(10_000, 10_000, None, acc(7), acc(8), 0, &mut events), Ok(9000));
    // the locked liquidity, the depositor's liquidity, the reserves, the deposit
    assert_eq!(events.len(), 4);
    assert!(matches!(events[0], PairEvent::Ledger(_)));
    assert!(matches!(events[1], PairEvent::Ledger(_)));
    match &events[2] {
        PairEvent::Sync(s) => assert_eq!((s.reserve_0, s.reserve_1), (10_000, 10_000)),
        _ => panic!("third event should be Sync"),
    }
    assert_eq!(events.iter().filter(|e| matches!(e, PairEvent::Mint(_))).count(), 1);
    // nothing deposited since: no liquidity, and the error says so
    assert_eq!(
        pair.mint(10_000, 10_000, None, acc(7), acc(8), 0, &mut events),
        Err(PairError::InsufficientLiquidityMinted)
    );
    assert_eq!(events.len(), 4);
}

#[test]
fn burn_liquidity_provider_token_flow() {
    set_contract(104);
    let contract = acc(104);
    let (r, t0, t1) = (acc(7), acc(3), acc(4));
    let mut pair = PairContract::new(t0, t1, acc(5));
    let mut events = Vec::new();
    pair.mint(10_000, 10_000, None, r, acc(8), 0, &mut events).unwrap();
    // 1020 of token 0 in, 900 of token 1 out
    pair.swap(0, 900, r, 11_020, 9_100, acc(8), 0, &mut events).unwrap();
    pair.transfer(r, contract, 2000).unwrap();
    let n = events.len();
    let plan = pair.burn(contract, 11_020, 9_100, None, &mut events).unwrap();
    assert_eq!((plan.amount_0, plan.amount_1), (2204, 1820));
    assert_eq!(
        pair.burn_settle(plan, 11_020 - 2204, 9_100 - 1820, r, r, 0, &mut events),
        Ok((2204, 1820))
    );
    assert_eq!(events[n..].iter().filter(|e| matches!(e, PairEvent::Burn(_))).count(), 1);
    assert_eq!(pair.total_supply(), 8000);
    assert_eq!(pair.balance_of(r), 7000);
    assert_eq!(pair.get_reserves(), (8816, 7280, 0));
}
