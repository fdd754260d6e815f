use common_amm::account::AccountId;
use common_amm::amounts::{amount_in_core, amount_out_core, quote_core};
use common_amm::errors::{FactoryError, MathError, RouterError};
use common_amm::router::{LiquidityCall, RouterContract, SwapStep};

fn acc(b: u8) -> AccountId {
    AccountId([b; 32])
}

fn router() -> RouterContract {
    RouterContract::new(acc(100), acc(101))
}

#[test]
fn router_keeps_factory_and_wnative() {
    let r = router();
    assert_eq!(r.factory(), acc(100));
    assert_eq!(r.wnative(), acc(101));
    assert_eq!(r.get_pair(Some(acc(7))), Ok(acc(7)));
    assert_eq!(r.get_pair(None), Err(RouterError::PairNotFound));
}

#[test]
fn amount_formulas_exact_values() {
    let r = router();
    assert_eq!(r.get_amount_out(1000, 100_000, 100_000), Ok(987));
    assert_eq!(r.get_amount_in(987, 100_000, 100_000), Ok(1000));
    assert_eq!(r.get_amount_in(500, 1000, 1000), Ok(1004));
    assert_eq!(r.quote(10, 100, 200), Ok(20));
    assert_eq!(amount_out_core(1000, 100_000, 100_000, 997), Ok(987));
    assert_eq!(amount_out_core(1000, 100_000, 100_000, 1000), Ok(990));
    assert_eq!(amount_in_core(987, 100_000, 100_000, 997), Ok(1000));
    assert_eq!(quote_core(3, 7, 5), Ok(2));
}

#[test]
fn amount_formulas_errors() {
    let r = router();
    assert_eq!(r.get_amount_out(0, 1, 1), Err(RouterError::InsufficientAmount));
    assert_eq!(r.get_amount_out(1, 0, 1), Err(RouterError::InsufficientLiquidity));
    assert_eq!(r.get_amount_in(0, 1, 1), Err(RouterError::InsufficientAmount));
    assert_eq!(r.get_amount_in(1, 1, 0), Err(RouterError::InsufficientLiquidity));
    assert_eq!(
        r.get_amount_in(1000, 1000, 1000),
        Err(RouterError::MathError(MathError::DivByZero(8)))
    );
    assert_eq!(
        r.get_amount_in(1001, 1000, 1000),
        Err(RouterError::MathError(MathError::SubUnderflow(15)))
    );
    assert_eq!(r.quote(0, 1, 1), Err(RouterError::InsufficientAmount));
    assert_eq!(r.quote(1, 0, 1), Err(RouterError::InsufficientLiquidity));
    assert_eq!(
        r.quote(u128::MAX, 1, u128::MAX),
        Err(RouterError::MathError(MathError::CastOverflow(3)))
    );
}

#[test]
fn amount_in_buys_amount_out() {
    let r = router();
    for (out, r_in, r_out) in [(1u128, 10u128, 10u128), (977, 300_000, 150_000), (5, 7, 1000)] {
        let cost = r.get_amount_in(out, r_in, r_out).unwrap();
        assert!(r.get_amount_out(cost, r_in, r_out).unwrap() >= out);
    }
}

#[test]
fn reserves_follow_token_order() {
    let r = router();
    assert_eq!(r.get_reserves(acc(1), acc(2), Some((5, 9))), Ok((5, 9)));
    assert_eq!(r.get_reserves(acc(2), acc(1), Some((5, 9))), Ok((9, 5)));
    assert_eq!(r.get_reserves(acc(1), acc(2), None), Err(RouterError::PairNotFound));
    assert_eq!(
        r.get_reserves(acc(1), acc(1), Some((5, 9))),
        Err(RouterError::IdenticalAddresses)
    );
}

#[test]
fn deadline_check() {
    let r = router();
    assert_eq!(r.check_timestamp(10, 10), Ok(()));
    assert_eq!(r.check_timestamp(10, 11), Err(RouterError::Expired));
}

#[test]
fn liquidity_amounts() {
    let r = router();
    assert_eq!(r.calculate_liquidity(0, 0, 100, 300, 100, 300), Ok((100, 300)));
    assert_eq!(r.calculate_liquidity(1000, 2000, 100, 300, 0, 0), Ok((100, 200)));
    assert_eq!(r.calculate_liquidity(1000, 2000, 100, 150, 0, 0), Ok((75, 150)));
    assert_eq!(
        r.calculate_liquidity(1000, 2000, 100, 300, 0, 201),
        Err(RouterError::InsufficientAmountB)
    );
    assert_eq!(
        r.calculate_liquidity(1000, 2000, 100, 150, 76, 0),
        Err(RouterError::InsufficientAmountA)
    );
}

#[test]
fn amounts_along_a_path() {
    let r = router();
    let path = vec![acc(1), acc(2), acc(3)];
    let reserves = vec![Some((100_000, 200_000)), Some((300_000, 150_000))];
    assert_eq!(r.calculate_amounts_out(1000, &path, &reserves), Ok(vec![1000, 1974, 977]));
    assert_eq!(r.calculate_amounts_in(977, &path, &reserves), Ok(vec![1000, 1973, 977]));
    let back = vec![acc(3), acc(2), acc(1)];
    let back_reserves = vec![Some((300_000, 150_000)), Some((100_000, 200_000))];
    let amounts = r.calculate_amounts_out(1000, &back, &back_reserves).unwrap();
    assert_eq!(amounts[1], 1000 * 997 * 300_000 / (150_000 * 1000 + 1000 * 997));
}

#[test]
fn amounts_along_a_path_errors() {
    let r = router();
    let short = vec![acc(1)];
    assert_eq!(r.calculate_amounts_out(1, &short, &vec![]), Err(RouterError::InvalidPath));
    assert_eq!(r.calculate_amounts_in(1, &short, &vec![]), Err(RouterError::InvalidPath));
    let path = vec![acc(1), acc(2), acc(3)];
    let missing = vec![Some((10, 10)), None];
    assert_eq!(r.calculate_amounts_out(5, &path, &missing), Err(RouterError::PairNotFound));
    assert_eq!(r.calculate_amounts_in(5, &path, &missing), Err(RouterError::PairNotFound));
    let same = vec![acc(1), acc(1)];
    assert_eq!(
        r.calculate_amounts_out(5, &same, &vec![Some((10, 10))]),
        Err(RouterError::IdenticalAddresses)
    );
}

#[test]
fn swap_plans_and_hops() {
    let r = router();
    let path = vec![acc(1), acc(2), acc(3)];
    let reserves = vec![Some((100_000, 200_000)), Some((300_000, 150_000))];
    assert_eq!(
        r.plan_exact_in(1000, 978, &path, &reserves),
        Err(RouterError::InsufficientOutputAmount)
    );
    let amounts = r.plan_exact_in(1000, 977, &path, &reserves).unwrap();
    assert_eq!(
        r.plan_exact_out(977, 999, &path, &reserves),
        Err(RouterError::ExcessiveInputAmount)
    );
    assert_eq!(r.plan_exact_out(977, 1000, &path, &reserves), Ok(vec![1000, 1973, 977]));
    let pairs = vec![Some(acc(12)), Some(acc(23))];
    let steps = r.swap(&amounts, &path, &pairs, acc(9)).unwrap();
    assert_eq!(
        steps,
        vec![
            SwapStep { pair: acc(12), amount_0_out: 0, amount_1_out: 1974, to: acc(23) },
            SwapStep { pair: acc(23), amount_0_out: 0, amount_1_out: 977, to: acc(9) },
        ]
    );
    let back = vec![acc(3), acc(2)];
    let steps = r.swap(&vec![10, 4], &back, &vec![Some(acc(23))], acc(9)).unwrap();
    assert_eq!(
        steps,
        vec![SwapStep { pair: acc(23), amount_0_out: 4, amount_1_out: 0, to: acc(9) }]
    );
    assert_eq!(
        r.swap(&amounts, &path, &vec![Some(acc(12)), None], acc(9)),
        Err(RouterError::PairNotFound)
    );
}

#[test]
fn add_liquidity_creates_missing_pair() {
    let r = router();
    assert_eq!(r.existing_or_created(Some(acc(7)), None), Ok(acc(7)));
    assert_eq!(r.existing_or_created(None, Some(Ok(acc(8)))), Ok(acc(8)));
    assert_eq!(
        r.existing_or_created(None, Some(Err(FactoryError::PairExists))),
        Err(RouterError::FactoryError(FactoryError::PairExists))
    );
    assert_eq!(r.existing_or_created(None, None), Err(RouterError::PairNotFound));
}

#[test]
fn add_liquidity_takes_from_caller_and_mints_to_recipient() {
    let r = router();
    assert_eq!(
        r.add_liquidity_calls(acc(1), acc(2), acc(7), 10, 20, acc(5), acc(6)),
        vec![
            LiquidityCall::TransferFrom { token: acc(1), from: acc(5), to: acc(7), value: 10 },
            LiquidityCall::TransferFrom { token: acc(2), from: acc(5), to: acc(7), value: 20 },
            LiquidityCall::Mint { pair: acc(7), to: acc(6) },
        ]
    );
    assert_eq!(
        r.add_liquidity_native_calls(acc(1), acc(7), 10, 20, 25, acc(5), acc(6)),
        vec![
            LiquidityCall::TransferFrom { token: acc(1), from: acc(5), to: acc(7), value: 10 },
            LiquidityCall::Wrap { value: 20 },
            LiquidityCall::Transfer { token: acc(101), to: acc(7), value: 20 },
            LiquidityCall::Mint { pair: acc(7), to: acc(6) },
            LiquidityCall::Refund { to: acc(5), value: 5 },
        ]
    );
    assert_eq!(r.add_liquidity_native_calls(acc(1), acc(7), 10, 20, 20, acc(5), acc(6)).len(), 4);
}
