use common_amm::account::AccountId;
use common_amm::errors::{FactoryError, MathError, RouterV2Error, StablePoolError};
use common_amm::router_v2::{
    check_amount_in_max, check_amount_out_min, check_native_in, check_timestamp, given_or_created,
    native_in_and_refund, push_amount_out, set_amount_in, Pair, Pool, PoolReply, RouterV2Contract,
    StablePool, Step, SwapCall,
};

fn acc(b: u8) -> AccountId {
    AccountId([b; 32])
}

fn pair(fee: u8) -> Pair {
    Pair { id: acc(12), token_0: acc(1), token_1: acc(2), fee }
}

fn stable() -> StablePool {
    StablePool { id: acc(30), tokens: vec![acc(2), acc(3)] }
}

#[test]
fn router_v2_starts_empty() {
    let router = RouterV2Contract::new(acc(3), acc(4));
    assert_eq!(router.pair_factory(), acc(3));
    assert_eq!(router.wnative(), acc(4));
    assert_eq!(router.read_cached_pool(acc(12)), None);
}

#[test]
fn pair_probe_and_tokens() {
    assert_eq!(Pair::try_new(acc(12), None, acc(1), acc(2)), None);
    assert_eq!(Pair::try_new(acc(12), Some(3), acc(1), acc(2)), Some(pair(3)));
    let p = pair(3);
    assert_eq!(p.check_tokens(acc(2), acc(1)), Ok(()));
    assert_eq!(p.check_tokens(acc(1), acc(3)), Err(RouterV2Error::InvalidToken));
    assert_eq!(p.get_reserves(&acc(1), &acc(2), (5, 9)), (5, 9));
    assert_eq!(p.get_reserves(&acc(2), &acc(1), (5, 9)), (9, 5));
}

#[test]
fn pair_prices_with_its_fee() {
    let p = pair(3);
    assert_eq!(p.get_amount_out(acc(1), acc(2), 1000, (100_000, 100_000)), Ok(987));
    let p5 = pair(5);
    assert_eq!(p5.get_amount_out(acc(1), acc(2), 1000, (100_000, 100_000)), Ok(985));
    assert_eq!(p5.get_amount_in(acc(1), acc(2), 985, (100_000, 100_000)), Ok(1000));
    assert_eq!(
        p.get_amount_out(acc(1), acc(3), 1000, (100_000, 100_000)),
        Err(RouterV2Error::InvalidPath)
    );
    assert_eq!(
        p.get_amount_out(acc(1), acc(2), 0, (100_000, 100_000)),
        Err(RouterV2Error::InsufficientAmount)
    );
    assert_eq!(
        p.get_amount_in(acc(1), acc(2), 10, (0, 100_000)),
        Err(RouterV2Error::InsufficientLiquidity)
    );
    assert_eq!(
        p.get_amount_in(acc(1), acc(2), 100_000, (100_000, 100_000)),
        Err(RouterV2Error::MathError(MathError::DivByZero(8)))
    );
}

#[test]
fn pair_quote_and_liquidity() {
    assert_eq!(Pair::quote(10, 100, 200), Ok(20));
    assert_eq!(Pair::quote(10, 0, 200), Err(RouterV2Error::MathError(MathError::DivByZero(6))));
    let p = pair(3);
    assert_eq!(p.calculate_liquidity(acc(1), acc(2), (0, 0), 5, 7, 0, 0), Ok((5, 7)));
    assert_eq!(
        p.calculate_liquidity(acc(1), acc(2), (0, 10), 5, 7, 0, 0),
        Err(RouterV2Error::InsufficientLiquidity)
    );
    assert_eq!(
        p.calculate_liquidity(acc(1), acc(2), (1000, 2000), 0, 7, 0, 0),
        Err(RouterV2Error::InsufficientAmount)
    );
    assert_eq!(p.calculate_liquidity(acc(1), acc(2), (1000, 2000), 100, 300, 0, 0), Ok((100, 200)));
    assert_eq!(p.calculate_liquidity(acc(2), acc(1), (2000, 1000), 100, 300, 0, 0), Ok((100, 200)));
    assert_eq!(p.calculate_liquidity(acc(1), acc(2), (1000, 2000), 100, 150, 0, 0), Ok((75, 150)));
    assert_eq!(
        p.calculate_liquidity(acc(1), acc(2), (1000, 2000), 100, 300, 0, 201),
        Err(RouterV2Error::InsufficientAmountB)
    );
    assert_eq!(
        p.calculate_liquidity(acc(1), acc(2), (1000, 2000), 100, 150, 76, 0),
        Err(RouterV2Error::InsufficientAmountA)
    );
}

#[test]
fn pair_add_and_remove_liquidity() {
    let p = pair(3);
    assert_eq!(
        p.add_liquidity(acc(1), acc(2), (1000, 2000), 100, 300, 0, 0, 10, 11),
        Err(RouterV2Error::Expired)
    );
    assert_eq!(
        p.add_liquidity(acc(1), acc(3), (1000, 2000), 100, 300, 0, 0, 10, 10),
        Err(RouterV2Error::InvalidToken)
    );
    assert_eq!(p.add_liquidity(acc(1), acc(2), (1000, 2000), 100, 300, 0, 0, 10, 10), Ok((100, 200)));
    assert_eq!(
        p.add_liquidity_native(acc(1), acc(2), (1000, 2000), 100, 300, 0, 0, 10, 10),
        Ok((100, 200, 100))
    );
    assert_eq!(p.remove_liquidity(acc(2), acc(1), (3, 4), 4, 3, 10, 10), Ok((4, 3)));
    assert_eq!(
        p.remove_liquidity(acc(2), acc(1), (3, 4), 5, 3, 10, 10),
        Err(RouterV2Error::InsufficientAmountA)
    );
    assert_eq!(
        p.remove_liquidity(acc(2), acc(1), (3, 4), 4, 4, 10, 10),
        Err(RouterV2Error::InsufficientAmountB)
    );
    assert_eq!(p.swap(acc(1), acc(2), 9), Ok((0, 9)));
    assert_eq!(p.swap(acc(2), acc(1), 9), Ok((9, 0)));
    assert_eq!(p.swap(acc(2), acc(3), 9), Err(RouterV2Error::InvalidPath));
}

#[test]
fn stable_pool_answers() {
    let s = stable();
    assert_eq!(s.get_amount_out(Ok((40, 1))), Ok(40));
    assert_eq!(
        s.get_amount_in(Err(StablePoolError::InsufficientLiquidity)),
        Err(RouterV2Error::StablePoolError(StablePoolError::InsufficientLiquidity))
    );
    assert_eq!(StablePool::try_new(acc(30), None), None);
    assert_eq!(StablePool::try_new(acc(30), Some(vec![acc(2), acc(3)])), Some(stable()));
}

#[test]
fn pools_dispatch() {
    assert_eq!(Pool::try_new(Some(pair(3)), Some(stable())), Some(Pool::Pair(pair(3))));
    assert_eq!(Pool::try_new(None, Some(stable())), Some(Pool::StablePool(stable())));
    assert_eq!(Pool::try_new(None, None), None);
    let p = Pool::Pair(pair(3));
    assert_eq!(p.get_amount_out(acc(1), acc(2), 1000, PoolReply::Reserves(100_000, 100_000)), Ok(987));
    let s = Pool::StablePool(stable());
    assert_eq!(s.get_amount_in(acc(2), acc(3), 5, PoolReply::Quote(Ok((6, 1)))), Ok(6));
    assert_eq!(
        p.swap(acc(2), acc(1), 7, acc(9)),
        Ok(SwapCall::Pair { pair: acc(12), amount_0_out: 7, amount_1_out: 0, to: acc(9) })
    );
    assert_eq!(
        s.swap(acc(2), acc(3), 7, acc(9)),
        Ok(SwapCall::StablePool {
            pool: acc(30),
            token_in: acc(2),
            token_out: acc(3),
            amount_out: 7,
            to: acc(9)
        })
    );
}

#[test]
fn pool_cache_keeps_first_pool() {
    let mut router = RouterV2Contract::new(acc(100), acc(101));
    assert_eq!(router.get_and_cache_pool(acc(12), None), Err(RouterV2Error::InvalidPoolAddress));
    assert_eq!(router.get_and_cache_pool(acc(12), Some(Pool::Pair(pair(3)))), Ok(Pool::Pair(pair(3))));
    // once cached, what a later probe finds is ignored
    assert_eq!(router.get_and_cache_pool(acc(12), Some(Pool::Pair(pair(9)))), Ok(Pool::Pair(pair(3))));
    assert_eq!(router.get_and_cache_pool(acc(12), None), Ok(Pool::Pair(pair(3))));
    assert_eq!(router.read_cached_pool(acc(12)), Some(Pool::Pair(pair(3))));
    assert_eq!(router.get_and_cache_pair(acc(12), None), Ok(pair(3)));
    assert_eq!(router.get_and_cache_stable_pool(acc(12), None), Err(RouterV2Error::InvalidPoolAddress));
    assert_eq!(
        router.get_and_cache_stable_pool(acc(30), Some(Pool::StablePool(stable()))),
        Ok(stable())
    );
    assert_eq!(router.get_and_cache_pair(acc(30), None), Err(RouterV2Error::InvalidPoolAddress));
}

#[test]
fn swap_calls_along_a_path() {
    let router = RouterV2Contract::new(acc(100), acc(101));
    let path = vec![Step { token_in: acc(1), pool_id: acc(12) }, Step { token_in: acc(2), pool_id: acc(30) }];
    let pools = vec![Pool::Pair(pair(3)), Pool::StablePool(stable())];
    let calls = router.swap(&vec![100, 90, 80], &path, &pools, acc(3), acc(9)).unwrap();
    assert_eq!(
        calls,
        vec![
            SwapCall::Pair { pair: acc(12), amount_0_out: 0, amount_1_out: 90, to: acc(30) },
            SwapCall::StablePool {
                pool: acc(30),
                token_in: acc(2),
                token_out: acc(3),
                amount_out: 80,
                to: acc(9)
            },
        ]
    );
    let bad = vec![Step { token_in: acc(3), pool_id: acc(12) }];
    assert_eq!(
        router.swap(&vec![1, 1], &bad, &vec![Pool::Pair(pair(3))], acc(2), acc(9)),
        Err(RouterV2Error::InvalidPath)
    );
}

#[test]
fn trade_limits() {
    assert_eq!(check_timestamp(5, 6), Err(RouterV2Error::Expired));
    assert_eq!(check_timestamp(6, 6), Ok(()));
    assert_eq!(check_amount_out_min(&vec![], 1), Err(RouterV2Error::EmptyAmounts));
    assert_eq!(check_amount_out_min(&vec![5, 3], 4), Err(RouterV2Error::InsufficientOutputAmount));
    assert_eq!(check_amount_out_min(&vec![5, 4], 4), Ok(()));
    assert_eq!(check_amount_in_max(&vec![5, 4], 4), Err(RouterV2Error::ExcessiveInputAmount));
    assert_eq!(check_amount_in_max(&vec![4, 4], 4), Ok(()));
    let path = vec![Step { token_in: acc(4), pool_id: acc(12) }];
    assert_eq!(check_native_in(&path, acc(4)), Ok(()));
    assert_eq!(check_native_in(&path, acc(5)), Err(RouterV2Error::InvalidToken));
    assert_eq!(native_in_and_refund(&vec![7, 1], 10), Ok((7, 3)));
    assert_eq!(native_in_and_refund(&vec![11, 1], 10), Err(RouterV2Error::ExcessiveInputAmount));
}

#[test]
fn amounts_hop_by_hop() {
    let path = vec![Step { token_in: acc(1), pool_id: acc(12) }, Step { token_in: acc(2), pool_id: acc(30) }];
    let pools = vec![Pool::Pair(pair(3)), Pool::StablePool(stable())];
    let mut amounts = vec![1000];
    assert_eq!(push_amount_out(&mut amounts, &path, acc(3), &pools[0], PoolReply::Reserves(100_000, 100_000)), Ok(()));
    assert_eq!(amounts, vec![1000, 987]);
    assert_eq!(push_amount_out(&mut amounts, &path, acc(3), &pools[1], PoolReply::Quote(Ok((980, 2)))), Ok(()));
    assert_eq!(amounts, vec![1000, 987, 980]);

    let mut amounts = vec![0, 0, 980];
    assert_eq!(set_amount_in(&mut amounts, 1, &path, acc(3), &pools[1], PoolReply::Quote(Ok((987, 2)))), Ok(()));
    assert_eq!(set_amount_in(&mut amounts, 0, &path, acc(3), &pools[0], PoolReply::Reserves(100_000, 100_000)), Ok(()));
    assert_eq!(amounts, vec![1000, 987, 980]);
    let mut stuck = vec![0, 0, 5];
    assert_eq!(
        set_amount_in(&mut stuck, 1, &path, acc(3), &pools[1], PoolReply::Quote(Err(StablePoolError::InsufficientLiquidity))),
        Err(RouterV2Error::StablePoolError(StablePoolError::InsufficientLiquidity))
    );
    assert_eq!(stuck, vec![0, 0, 5]);
}

#[test]
fn pair_liquidity_creates_missing_pair() {
    assert_eq!(given_or_created(Some(acc(12)), None, None), Ok(acc(12)));
    // an existing pair is used, not created again
    assert_eq!(given_or_created(None, Some(acc(14)), None), Ok(acc(14)));
    assert_eq!(given_or_created(None, None, Some(Ok(acc(13)))), Ok(acc(13)));
    assert_eq!(
        given_or_created(None, None, Some(Err(FactoryError::IdenticalAddresses))),
        Err(RouterV2Error::FactoryError(FactoryError::IdenticalAddresses))
    );
    assert_eq!(given_or_created(None, None, None), Err(RouterV2Error::PairNotFound));
}

#[test]
fn trade_caches_the_pools_it_meets() {
    let mut r = RouterV2Contract::new(acc(100), acc(101));
    assert_eq!(r.read_cached_pool(acc(30)), None);
    assert_eq!(r.get_and_cache_pool(acc(30), Some(Pool::StablePool(stable()))), Ok(Pool::StablePool(stable())));
    assert_eq!(r.read_cached_pool(acc(30)), Some(Pool::StablePool(stable())));
    // a cached pool is not probed again
    assert_eq!(r.get_and_cache_pool(acc(30), None), Ok(Pool::StablePool(stable())));
    assert_eq!(r.get_and_cache_pool(acc(31), None), Err(RouterV2Error::InvalidPoolAddress));
}
