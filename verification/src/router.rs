//! The first router: liquidity and multi-hop trades over the pairs of one
//! factory, each pair keeping 0.3% of the input as fee.
//!
//! Lookups in the factory and reads of pair reserves are made by the
//! contract shell; their results are handed in here.
use crate::account::{account_lt, AccountId};
use crate::amounts::{
    amount_in_core, amount_in_formula, amount_out_core, amount_out_formula, lemma_amount_in_buys_amount_out,
    lemma_amount_out_below_reserve, lemma_amount_out_monotone, quote_core, quote_formula,
};
use crate::errors::{FactoryError, MathError, RouterError};
use crate::u256::{two_pow_128, two_pow_256};
use vstd::prelude::*;

verus! {

/// Of each 1000 units of input ...
pub const TRADING_FEE_ADJ_DENOM: u128 = 1000;

/// ... 997 count: the fee is 0.3%.
pub const TRADING_FEE_ADJ_NUM: u128 = 997;

/// A router bound to a pair factory and a wrapped native token.
#[derive(Clone, Copy, Debug, PartialEq, Eq)]
pub struct RouterContract {
    pub factory: AccountId,
    pub wnative: AccountId,
}

/// `get_amount_out` on plain numbers.
pub open spec fn amount_out_result(amount_in: u128, reserve_0: u128, reserve_1: u128) -> Result<
    u128,
    RouterError,
> {
    if !(amount_in > 0) {
        Err(RouterError::InsufficientAmount)
    } else if !(reserve_0 > 0 && reserve_1 > 0) {
        Err(RouterError::InsufficientLiquidity)
    } else if amount_in * 997 * reserve_1 >= two_pow_256() {
        Err(RouterError::MathError(MathError::MulOverflow(13)))
    } else {
        Ok(amount_out_formula(amount_in as nat, reserve_0 as nat, reserve_1 as nat, 997) as u128)
    }
}

/// `get_amount_in` on plain numbers.
pub open spec fn amount_in_result(amount_out: u128, reserve_0: u128, reserve_1: u128) -> Result<
    u128,
    RouterError,
> {
    if !(amount_out > 0) {
        Err(RouterError::InsufficientAmount)
    } else if !(reserve_0 > 0 && reserve_1 > 0) {
        Err(RouterError::InsufficientLiquidity)
    } else if reserve_0 * amount_out * 1000 >= two_pow_256() {
        Err(RouterError::MathError(MathError::MulOverflow(14)))
    } else if amount_out > reserve_1 {
        Err(RouterError::MathError(MathError::SubUnderflow(15)))
    } else if amount_out == reserve_1 {
        Err(RouterError::MathError(MathError::DivByZero(8)))
    } else if amount_in_formula(amount_out as nat, reserve_0 as nat, reserve_1 as nat, 997)
        >= two_pow_128() {
        Err(RouterError::MathError(MathError::CastOverflow(5)))
    } else {
        Ok(amount_in_formula(amount_out as nat, reserve_0 as nat, reserve_1 as nat, 997) as u128)
    }
}

/// The reserves of the pair of `token_0` and `token_1`, oriented as
/// `(reserve of token_0, reserve of token_1)`; the pair reports them in the
/// order of its sorted tokens.
pub open spec fn oriented_reserves(
    token_0: AccountId,
    token_1: AccountId,
    pair_reserves: Option<(u128, u128)>,
) -> Result<(u128, u128), RouterError> {
    if token_0 == token_1 {
        Err(RouterError::IdenticalAddresses)
    } else {
        match pair_reserves {
            None => Err(RouterError::PairNotFound),
            Some((r0, r1)) => if account_lt(token_0, token_1) {
                Ok((r0, r1))
            } else {
                Ok((r1, r0))
            },
        }
    }
}

/// The output of the hop from `t_in` to `t_out` for `amount`.
pub open spec fn hop_out(
    amount: u128,
    t_in: AccountId,
    t_out: AccountId,
    pair_reserves: Option<(u128, u128)>,
) -> Result<u128, RouterError> {
    match oriented_reserves(t_in, t_out, pair_reserves) {
        Err(e) => Err(e),
        Ok((ri, ro)) => amount_out_result(amount, ri, ro),
    }
}

/// The input of the hop from `t_in` to `t_out` that yields `amount`.
pub open spec fn hop_in(
    amount: u128,
    t_in: AccountId,
    t_out: AccountId,
    pair_reserves: Option<(u128, u128)>,
) -> Result<u128, RouterError> {
    match oriented_reserves(t_in, t_out, pair_reserves) {
        Err(e) => Err(e),
        Ok((ri, ro)) => amount_in_result(amount, ri, ro),
    }
}

/// The amounts along the first `n` hops of `path` starting with
/// `amount_in`; `pair_reserves[i]` is what the pair of `path[i]` and
/// `path[i + 1]` reports, `None` when there is no such pair.
pub open spec fn amounts_out(
    amount_in: u128,
    path: Seq<AccountId>,
    pair_reserves: Seq<Option<(u128, u128)>>,
    n: nat,
) -> Result<Seq<u128>, RouterError>
    decreases n,
{
    if n == 0 {
        Ok(seq![amount_in])
    } else {
        match amounts_out(amount_in, path, pair_reserves, (n - 1) as nat) {
            Err(e) => Err(e),
            Ok(s) => match hop_out(s.last(), path[n - 1], path[n as int], pair_reserves[n - 1]) {
                Err(e) => Err(e),
                Ok(x) => Ok(s.push(x)),
            },
        }
    }
}

/// The amounts along the last `k` hops of `path` ending with `amount_out`.
pub open spec fn amounts_in(
    amount_out: u128,
    path: Seq<AccountId>,
    pair_reserves: Seq<Option<(u128, u128)>>,
    k: nat,
) -> Result<Seq<u128>, RouterError>
    decreases k,
{
    if k == 0 {
        Ok(seq![amount_out])
    } else {
        match amounts_in(amount_out, path, pair_reserves, (k - 1) as nat) {
            Err(e) => Err(e),
            Ok(s) => {
                let i = path.len() - 1 - k;
                match hop_in(s[0], path[i], path[i + 1], pair_reserves[i]) {
                    Err(e) => Err(e),
                    Ok(x) => Ok(seq![x] + s),
                }
            },
        }
    }
}

/// A vector result agrees with a sequence result.
pub open spec fn agrees(r: Result<Vec<u128>, RouterError>, s: Result<Seq<u128>, RouterError>) -> bool {
    match (r, s) {
        (Ok(v), Ok(t)) => v@ == t,
        (Err(e), Err(f)) => e == f,
        _ => false,
    }
}

/// One hop of a multi-hop swap: the pair to call, the amounts it pays out
/// and where they go.
#[derive(Clone, Copy, Debug, PartialEq, Eq)]
pub struct SwapStep {
    pub pair: AccountId,
    pub amount_0_out: u128,
    pub amount_1_out: u128,
    pub to: AccountId,
}

/// A call that the router makes, in order, when it adds liquidity to a pair.
#[derive(Clone, Copy, Debug, PartialEq, Eq)]
pub enum LiquidityCall {
    /// `token` moves `value` from `from` to `to` on the router's allowance.
    TransferFrom { token: AccountId, from: AccountId, to: AccountId, value: u128 },
    /// The wrapped native token mints `value` to the router for as much
    /// native currency.
    Wrap { value: u128 },
    /// `token` moves `value` from the router to `to`.
    Transfer { token: AccountId, to: AccountId, value: u128 },
    /// The pair mints liquidity tokens to `to` for what it received.
    Mint { pair: AccountId, to: AccountId },
    /// Native currency that the deposit did not use goes back to `to`.
    Refund { to: AccountId, value: u128 },
}

impl RouterContract {
    /// A router for the pairs of `factory`.
    pub fn new(factory: AccountId, wnative: AccountId) -> (r: Self)
        ensures
            r.factory == factory,
            r.wnative == wnative,
    {
        RouterContract { factory, wnative }
    }

    /// The factory of the pairs.
    pub fn factory(&self) -> (r: AccountId)
        ensures
            r == self.factory,
    {
        self.factory
    }

    /// The wrapped native token.
    pub fn wnative(&self) -> (r: AccountId)
        ensures
            r == self.wnative,
    {
        self.wnative
    }

    /// The pair that the factory returned for two tokens, or `PairNotFound`.
    pub fn get_pair(&self, found: Option<AccountId>) -> (r: Result<AccountId, RouterError>)
        ensures
            found is Some ==> r == Ok::<AccountId, RouterError>(found.unwrap()),
            found is None ==> r == Err::<AccountId, RouterError>(RouterError::PairNotFound),
    {
        match found {
            Some(pair) => Ok(pair),
            None => Err(RouterError::PairNotFound),
        }
    }

    /// The pair to add liquidity to: the one the factory `found`, or else
    /// the one it answered with when asked to create it (`created`; the
    /// contract asks only when nothing was found). A failed creation is the
    /// router's `FactoryError`.
    pub fn existing_or_created(
        &self,
        found: Option<AccountId>,
        created: Option<Result<AccountId, FactoryError>>,
    ) -> (r: Result<AccountId, RouterError>)
        ensures
            found is Some ==> r == Ok::<AccountId, RouterError>(found.unwrap()),
            found is None ==> r == match created {
                Some(Ok(p)) => Ok::<AccountId, RouterError>(p),
                Some(Err(e)) => Err::<AccountId, RouterError>(RouterError::FactoryError(e)),
                None => Err::<AccountId, RouterError>(RouterError::PairNotFound),
            },
    {
        match found {
            Some(pair) => Ok(pair),
            None => match created {
                Some(Ok(pair)) => Ok(pair),
                Some(Err(e)) => Err(RouterError::FactoryError(e)),
                None => Err(RouterError::PairNotFound),
            },
        }
    }

    /// The calls that deposit `(amount_0, amount_1)` of `caller` into
    /// `pair` for liquidity tokens to `to`: both tokens move from the
    /// caller to the pair, then the pair mints.
    pub fn add_liquidity_calls(
        &self,
        token_0: AccountId,
        token_1: AccountId,
        pair: AccountId,
        amount_0: u128,
        amount_1: u128,
        caller: AccountId,
        to: AccountId,
    ) -> (r: Vec<LiquidityCall>)
        ensures
            r@ == seq![
                LiquidityCall::TransferFrom { token: token_0, from: caller, to: pair, value: amount_0 },
                LiquidityCall::TransferFrom { token: token_1, from: caller, to: pair, value: amount_1 },
                LiquidityCall::Mint { pair, to },
            ],
    {
        let mut calls: Vec<LiquidityCall> = Vec::new();
        calls.push(LiquidityCall::TransferFrom { token: token_0, from: caller, to: pair, value: amount_0 });
        calls.push(LiquidityCall::TransferFrom { token: token_1, from: caller, to: pair, value: amount_1 });
        calls.push(LiquidityCall::Mint { pair, to });
        calls
    }

    /// The calls that deposit `amount_token` of `caller`'s `token` and
    /// `amount_native` of the `received` native currency into `pair` for
    /// liquidity tokens to `to`: the token moves from the caller, the native
    /// part is wrapped and sent to the pair, the pair mints, and what was
    /// not used goes back to the caller.
    pub fn add_liquidity_native_calls(
        &self,
        token: AccountId,
        pair: AccountId,
        amount_token: u128,
        amount_native: u128,
        received: u128,
        caller: AccountId,
        to: AccountId,
    ) -> (r: Vec<LiquidityCall>)
        requires
            amount_native <= received,
        ensures
            r@ == seq![
                LiquidityCall::TransferFrom { token, from: caller, to: pair, value: amount_token },
                LiquidityCall::Wrap { value: amount_native },
                LiquidityCall::Transfer { token: self.wnative, to: pair, value: amount_native },
                LiquidityCall::Mint { pair, to },
            ] + if received > amount_native {
                seq![LiquidityCall::Refund { to: caller, value: (received - amount_native) as u128 }]
            } else {
                Seq::empty()
            },
    {
        let mut calls: Vec<LiquidityCall> = Vec::new();
        calls.push(LiquidityCall::TransferFrom { token, from: caller, to: pair, value: amount_token });
        calls.push(LiquidityCall::Wrap { value: amount_native });
        calls.push(LiquidityCall::Transfer { token: self.wnative, to: pair, value: amount_native });
        calls.push(LiquidityCall::Mint { pair, to });
        if received > amount_native {
            calls.push(LiquidityCall::Refund { to: caller, value: received - amount_native });
        }
        proof {
            let base = seq![
                LiquidityCall::TransferFrom { token, from: caller, to: pair, value: amount_token },
                LiquidityCall::Wrap { value: amount_native },
                LiquidityCall::Transfer { token: self.wnative, to: pair, value: amount_native },
                LiquidityCall::Mint { pair, to },
            ];
            if received > amount_native {
                assert(calls@ =~= base + seq![
                    LiquidityCall::Refund { to: caller, value: (received - amount_native) as u128 },
                ]);
            } else {
                assert(calls@ =~= base + Seq::<LiquidityCall>::empty());
            }
        }
        calls
    }

    /// The reserves of the pair of `token_0` and `token_1` in the order of
    /// the two tokens, from what the pair reports (`None` for no pair).
    pub fn get_reserves(
        &self,
        token_0: AccountId,
        token_1: AccountId,
        pair_reserves: Option<(u128, u128)>,
    ) -> (r: Result<(u128, u128), RouterError>)
        ensures
            r == oriented_reserves(token_0, token_1, pair_reserves),
    {
        if token_0 == token_1 {
            return Err(RouterError::IdenticalAddresses);
        }
        match pair_reserves {
            None => Err(RouterError::PairNotFound),
            Some((reserve_0, reserve_1)) => {
                if token_0.lt(&token_1) {
                    Ok((reserve_0, reserve_1))
                } else {
                    Ok((reserve_1, reserve_0))
                }
            },
        }
    }

    /// How much of the second token keeps the ratio of the reserves, given
    /// `amount_0` of the first.
    pub fn quote(&self, amount_0: u128, reserve_0: u128, reserve_1: u128) -> (r: Result<
        u128,
        RouterError,
    >)
        ensures
            amount_0 == 0 ==> r == Err::<u128, RouterError>(RouterError::InsufficientAmount),
            amount_0 > 0 && (reserve_0 == 0 || reserve_1 == 0) ==> r == Err::<u128, RouterError>(
                RouterError::InsufficientLiquidity,
            ),
            amount_0 > 0 && reserve_0 > 0 && reserve_1 > 0 ==> (r is Ok <==> quote_formula(
                amount_0 as nat,
                reserve_0 as nat,
                reserve_1 as nat,
            ) < two_pow_128()),
            r is Ok ==> r.unwrap() == quote_formula(
                amount_0 as nat,
                reserve_0 as nat,
                reserve_1 as nat,
            ),
            r is Err && amount_0 > 0 && reserve_0 > 0 && reserve_1 > 0 ==> r == Err::<
                u128,
                RouterError,
            >(RouterError::MathError(MathError::CastOverflow(3))),
    {
        if !(amount_0 > 0) {
            return Err(RouterError::InsufficientAmount);
        }
        if !(reserve_0 > 0 && reserve_1 > 0) {
            return Err(RouterError::InsufficientLiquidity);
        }
        match quote_core(amount_0, reserve_0, reserve_1) {
            Ok(v) => Ok(v),
            Err(e) => Err(RouterError::MathError(e)),
        }
    }

    /// The output of a trade of `amount_in` against `(reserve_0, reserve_1)`.
    pub fn get_amount_out(&self, amount_in: u128, reserve_0: u128, reserve_1: u128) -> (r: Result<
        u128,
        RouterError,
    >)
        ensures
            r == amount_out_result(amount_in, reserve_0, reserve_1),
            r is Ok ==> r.unwrap() < reserve_1,
    {
        if !(amount_in > 0) {
            return Err(RouterError::InsufficientAmount);
        }
        if !(reserve_0 > 0 && reserve_1 > 0) {
            return Err(RouterError::InsufficientLiquidity);
        }
        match amount_out_core(amount_in, reserve_0, reserve_1, TRADING_FEE_ADJ_NUM) {
            Ok(v) => Ok(v),
            Err(e) => Err(RouterError::MathError(e)),
        }
    }

    /// The input that a trade for `amount_out` against `(reserve_0, reserve_1)` costs.
    pub fn get_amount_in(&self, amount_out: u128, reserve_0: u128, reserve_1: u128) -> (r: Result<
        u128,
        RouterError,
    >)
        ensures
            r == amount_in_result(amount_out, reserve_0, reserve_1),
    {
        if !(amount_out > 0) {
            return Err(RouterError::InsufficientAmount);
        }
        if !(reserve_0 > 0 && reserve_1 > 0) {
            return Err(RouterError::InsufficientLiquidity);
        }
        match amount_in_core(amount_out, reserve_0, reserve_1, TRADING_FEE_ADJ_NUM) {
            Ok(v) => Ok(v),
            Err(e) => Err(RouterError::MathError(e)),
        }
    }

    /// Fails when the block time `now` is past `deadline`.
    pub fn check_timestamp(&self, deadline: u64, now: u64) -> (r: Result<(), RouterError>)
        ensures
            deadline >= now ==> r is Ok,
            deadline < now ==> r == Err::<(), RouterError>(RouterError::Expired),
    {
        if !(deadline >= now) {
            return Err(RouterError::Expired);
        }
        Ok(())
    }

    /// The amounts to deposit into a pair with reserves `(reserve_0,
    /// reserve_1)`: all that is desired into an empty pair, otherwise the
    /// most of one token that keeps the ratio of the reserves with the
    /// desired amount of the other, and no less than the minimums.
    pub fn calculate_liquidity(
        &self,
        reserve_0: u128,
        reserve_1: u128,
        amount_0_desired: u128,
        amount_1_desired: u128,
        amount_0_min: u128,
        amount_1_min: u128,
    ) -> (r: Result<(u128, u128), RouterError>)
        ensures
            r == liquidity_result(
                reserve_0,
                reserve_1,
                amount_0_desired,
                amount_1_desired,
                amount_0_min,
                amount_1_min,
            ),
            r is Ok && !(reserve_0 == 0 && reserve_1 == 0) ==> {
                let (a0, a1) = r.unwrap();
                &&& a0 <= amount_0_desired && a1 <= amount_1_desired
                &&& a0 == amount_0_desired || a0 >= amount_0_min
                &&& a1 == amount_1_desired || a1 >= amount_1_min
            },
    {
        if reserve_0 == 0 && reserve_1 == 0 {
            return Ok((amount_0_desired, amount_1_desired));
        }
        let amount_1_optimal = match self.quote(amount_0_desired, reserve_0, reserve_1) {
            Ok(v) => v,
            Err(e) => return Err(e),
        };
        if amount_1_optimal <= amount_1_desired {
            if !(amount_1_optimal >= amount_1_min) {
                return Err(RouterError::InsufficientAmountB);
            }
            Ok((amount_0_desired, amount_1_optimal))
        } else {
            proof {
                lemma_quote_back(
                    amount_0_desired as nat,
                    amount_1_desired as nat,
                    reserve_0 as nat,
                    reserve_1 as nat,
                );
            }
            let amount_0_optimal = match self.quote(amount_1_desired, reserve_1, reserve_0) {
                Ok(v) => v,
                Err(e) => return Err(e),
            };
            if !(amount_0_optimal >= amount_0_min) {
                return Err(RouterError::InsufficientAmountA);
            }
            Ok((amount_0_optimal, amount_1_desired))
        }
    }

    /// The amounts along `path` starting with `amount_in`;
    /// `pair_reserves[i]` is what the pair of `path[i]` and `path[i + 1]`
    /// reports (`None` when the factory has no such pair).
    pub fn calculate_amounts_out(
        &self,
        amount_in: u128,
        path: &Vec<AccountId>,
        pair_reserves: &Vec<Option<(u128, u128)>>,
    ) -> (r: Result<Vec<u128>, RouterError>)
        requires
            path@.len() >= 2 ==> pair_reserves@.len() == path@.len() - 1,
        ensures
            path@.len() < 2 ==> r == Err::<Vec<u128>, RouterError>(RouterError::InvalidPath),
            path@.len() >= 2 ==> agrees(
                r,
                amounts_out(amount_in, path@, pair_reserves@, (path@.len() - 1) as nat),
            ),
    {
        if !(path.len() >= 2) {
            return Err(RouterError::InvalidPath);
        }
        let mut amounts: Vec<u128> = Vec::new();
        amounts.push(amount_in);
        let mut i: usize = 0;
        while i < path.len() - 1
            invariant
                path@.len() >= 2,
                pair_reserves@.len() == path@.len() - 1,
                i <= path@.len() - 1,
                amounts_out(amount_in, path@, pair_reserves@, i as nat) == Ok::<
                    Seq<u128>,
                    RouterError,
                >(amounts@),
            decreases path@.len() - i,
        {
            proof {
                lemma_amounts_out_len(amount_in, path@, pair_reserves@, i as nat);
            }
            let (reserve_in, reserve_out) = match self.get_reserves(
                path[i],
                path[i + 1],
                pair_reserves[i],
            ) {
                Ok(v) => v,
                Err(e) => {
                    proof {
                        lemma_amounts_out_err(
                            amount_in,
                            path@,
                            pair_reserves@,
                            (i + 1) as nat,
                            (path@.len() - 1) as nat,
                        );
                    }
                    return Err(e);
                },
            };
            let out = match self.get_amount_out(amounts[i], reserve_in, reserve_out) {
                Ok(v) => v,
                Err(e) => {
                    proof {
                        lemma_amounts_out_err(
                            amount_in,
                            path@,
                            pair_reserves@,
                            (i + 1) as nat,
                            (path@.len() - 1) as nat,
                        );
                    }
                    return Err(e);
                },
            };
            amounts.push(out);
            i = i + 1;
        }
        Ok(amounts)
    }

    /// The amounts along `path` that end with exactly `amount_out`;
    /// `pair_reserves` as for `calculate_amounts_out`.
    pub fn calculate_amounts_in(
        &self,
        amount_out: u128,
        path: &Vec<AccountId>,
        pair_reserves: &Vec<Option<(u128, u128)>>,
    ) -> (r: Result<Vec<u128>, RouterError>)
        requires
            path@.len() >= 2 ==> pair_reserves@.len() == path@.len() - 1,
        ensures
            path@.len() < 2 ==> r == Err::<Vec<u128>, RouterError>(RouterError::InvalidPath),
            path@.len() >= 2 ==> agrees(
                r,
                amounts_in(amount_out, path@, pair_reserves@, (path@.len() - 1) as nat),
            ),
    {
        if !(path.len() >= 2) {
            return Err(RouterError::InvalidPath);
        }
        let n = path.len();
        let mut amounts: Vec<u128> = vec![0; n];
        amounts.set(n - 1, amount_out);
        let mut i: usize = n - 1;
        assert(amounts@.subrange(i as int, n as int) =~= seq![amount_out]);
        while i > 0
            invariant
                n == path@.len(),
                n >= 2,
                pair_reserves@.len() == n - 1,
                amounts@.len() == n,
                i <= n - 1,
                amounts_in(amount_out, path@, pair_reserves@, (n - 1 - i) as nat) == Ok::<
                    Seq<u128>,
                    RouterError,
                >(amounts@.subrange(i as int, n as int)),
            decreases i,
        {
            let j = i - 1;
            let (reserve_in, reserve_out) = match self.get_reserves(
                path[j],
                path[j + 1],
                pair_reserves[j],
            ) {
                Ok(v) => v,
                Err(e) => {
                    proof {
                        lemma_amounts_in_err(
                            amount_out,
                            path@,
                            pair_reserves@,
                            (n - i) as nat,
                            (n - 1) as nat,
                        );
                    }
                    return Err(e);
                },
            };
            assert(amounts@.subrange(i as int, n as int)[0] == amounts@[i as int]);
            let needed = match self.get_amount_in(amounts[i], reserve_in, reserve_out) {
                Ok(v) => v,
                Err(e) => {
                    proof {
                        lemma_amounts_in_err(
                            amount_out,
                            path@,
                            pair_reserves@,
                            (n - i) as nat,
                            (n - 1) as nat,
                        );
                    }
                    return Err(e);
                },
            };
            let ghost before = amounts@;
            amounts.set(j, needed);
            assert(amounts@.subrange(j as int, n as int) =~= seq![needed] + before.subrange(
                i as int,
                n as int,
            ));
            i = j;
        }
        assert(amounts@.subrange(0, n as int) =~= amounts@);
        Ok(amounts)
    }
}

/// `calculate_liquidity` on plain numbers.
pub open spec fn liquidity_result(
    reserve_0: u128,
    reserve_1: u128,
    amount_0_desired: u128,
    amount_1_desired: u128,
    amount_0_min: u128,
    amount_1_min: u128,
) -> Result<(u128, u128), RouterError> {
    if reserve_0 == 0 && reserve_1 == 0 {
        Ok((amount_0_desired, amount_1_desired))
    } else if amount_0_desired == 0 {
        Err(RouterError::InsufficientAmount)
    } else if reserve_0 == 0 || reserve_1 == 0 {
        Err(RouterError::InsufficientLiquidity)
    } else {
        let opt_1 = quote_formula(amount_0_desired as nat, reserve_0 as nat, reserve_1 as nat);
        if opt_1 >= two_pow_128() {
            Err(RouterError::MathError(MathError::CastOverflow(3)))
        } else if opt_1 <= amount_1_desired {
            if opt_1 >= amount_1_min {
                Ok((amount_0_desired, opt_1 as u128))
            } else {
                Err(RouterError::InsufficientAmountB)
            }
        } else {
            let opt_0 = quote_formula(amount_1_desired as nat, reserve_1 as nat, reserve_0 as nat);
            if amount_1_desired == 0 {
                Err(RouterError::InsufficientAmount)
            } else if opt_0 >= amount_0_min {
                Ok((opt_0 as u128, amount_1_desired))
            } else {
                Err(RouterError::InsufficientAmountA)
            }
        }
    }
}

/// When `d0` of the first token is worth more than `d1` of the second, `d1`
/// of the second is worth no more than `d0` of the first.
pub proof fn lemma_quote_back(d0: nat, d1: nat, r0: nat, r1: nat)
    requires
        r0 > 0,
        r1 > 0,
        quote_formula(d0, r0, r1) > d1,
    ensures
        quote_formula(d1, r1, r0) <= d0,
{
    assert(d1 < d0 * r1 / r0);
    assert(d1 * r0 < d0 * r1) by (nonlinear_arith)
        requires
            d1 < d0 * r1 / r0,
            r0 > 0,
    ;
    assert(d1 * r0 / r1 <= d0) by (nonlinear_arith)
        requires
            d1 * r0 < d0 * r1,
            r1 > 0,
    ;
}

proof fn lemma_amounts_out_err(
    amount_in: u128,
    path: Seq<AccountId>,
    pair_reserves: Seq<Option<(u128, u128)>>,
    k: nat,
    m: nat,
)
    requires
        amounts_out(amount_in, path, pair_reserves, k) is Err,
        k <= m,
    ensures
        amounts_out(amount_in, path, pair_reserves, m) == amounts_out(
            amount_in,
            path,
            pair_reserves,
            k,
        ),
    decreases m - k,
{
    if k < m {
        lemma_amounts_out_err(amount_in, path, pair_reserves, k, (m - 1) as nat);
    }
}

proof fn lemma_amounts_in_err(
    amount_out: u128,
    path: Seq<AccountId>,
    pair_reserves: Seq<Option<(u128, u128)>>,
    k: nat,
    m: nat,
)
    requires
        amounts_in(amount_out, path, pair_reserves, k) is Err,
        k <= m,
    ensures
        amounts_in(amount_out, path, pair_reserves, m) == amounts_in(
            amount_out,
            path,
            pair_reserves,
            k,
        ),
    decreases m - k,
{
    if k < m {
        lemma_amounts_in_err(amount_out, path, pair_reserves, k, (m - 1) as nat);
    }
}

proof fn lemma_amounts_out_len(
    amount_in: u128,
    path: Seq<AccountId>,
    pair_reserves: Seq<Option<(u128, u128)>>,
    n: nat,
)
    requires
        amounts_out(amount_in, path, pair_reserves, n) is Ok,
    ensures
        amounts_out(amount_in, path, pair_reserves, n).unwrap().len() == n + 1,
    decreases n,
{
    if n > 0 {
        lemma_amounts_out_len(amount_in, path, pair_reserves, (n - 1) as nat);
    }
}

/// The hops of a multi-hop swap: for hop `i`, the pair of `path[i]` and
/// `path[i + 1]` pays `amounts[i + 1]` out, to the next pair or, at the
/// last hop, to `to`.
pub open spec fn swap_steps_ok(
    amounts: Seq<u128>,
    path: Seq<AccountId>,
    pairs: Seq<Option<AccountId>>,
    to: AccountId,
    steps: Seq<SwapStep>,
) -> bool {
    &&& steps.len() == path.len() - 1
    &&& forall|i: int|
        0 <= i < steps.len() ==> {
            let st = #[trigger] steps[i];
            &&& pairs[i] == Some(st.pair)
            &&& st.to == if i < path.len() - 2 {
                pairs[i + 1].unwrap()
            } else {
                to
            }
            &&& account_lt(path[i], path[i + 1]) ==> st.amount_0_out == 0 && st.amount_1_out
                == amounts[i + 1]
            &&& !account_lt(path[i], path[i + 1]) ==> st.amount_0_out == amounts[i + 1]
                && st.amount_1_out == 0
        }
}

/// Every hop of `path` joins two different tokens through an existing pair.
pub open spec fn swap_path_valid(path: Seq<AccountId>, pairs: Seq<Option<AccountId>>) -> bool {
    forall|i: int| 0 <= i < path.len() - 1 ==> path[i] != path[i + 1] && #[trigger] pairs[i] is Some
}

impl RouterContract {
    /// The hops of a swap along `path` with the `amounts` computed for it;
    /// `pairs[i]` is the factory's pair of `path[i]` and `path[i + 1]`.
    pub fn swap(
        &self,
        amounts: &Vec<u128>,
        path: &Vec<AccountId>,
        pairs: &Vec<Option<AccountId>>,
        to: AccountId,
    ) -> (r: Result<Vec<SwapStep>, RouterError>)
        requires
            path@.len() >= 1,
            amounts@.len() == path@.len(),
            pairs@.len() == path@.len() - 1,
        ensures
            r is Ok <==> swap_path_valid(path@, pairs@),
            r is Ok ==> swap_steps_ok(amounts@, path@, pairs@, to, r.unwrap()@),
            r is Err ==> (r matches Err(RouterError::IdenticalAddresses)) || (r matches Err(
                RouterError::PairNotFound,
            )),
    {
        let n = path.len();
        let mut steps: Vec<SwapStep> = Vec::new();
        let mut i: usize = 0;
        while i < n - 1
            invariant
                n == path@.len(),
                n >= 1,
                amounts@.len() == n,
                pairs@.len() == n - 1,
                i <= n - 1,
                steps@.len() == i,
                swap_path_valid(path@.take(i as int + 1), pairs@.take(i as int)),
                forall|k: int|
                    0 <= k < i ==> {
                        let st = #[trigger] steps@[k];
                        &&& pairs@[k] == Some(st.pair)
                        &&& st.to == if k < n - 2 {
                            pairs@[k + 1].unwrap()
                        } else {
                            to
                        }
                        &&& account_lt(path@[k], path@[k + 1]) ==> st.amount_0_out == 0
                            && st.amount_1_out == amounts@[k + 1]
                        &&& !account_lt(path@[k], path@[k + 1]) ==> st.amount_0_out
                            == amounts@[k + 1] && st.amount_1_out == 0
                        &&& k + 1 < n - 1 ==> pairs@[k + 1] is Some
                    },
            decreases n - 1 - i,
        {
            let input = path[i];
            let output = path[i + 1];
            if input == output {
                proof {
                    let _ = pairs@[i as int];
                }
                return Err(RouterError::IdenticalAddresses);
            }
            let amount_out = amounts[i + 1];
            let (amount_0_out, amount_1_out) = if input.lt(&output) {
                (0, amount_out)
            } else {
                (amount_out, 0)
            };
            let next = if i < n - 2 {
                match self.get_pair(pairs[i + 1]) {
                    Ok(p) => p,
                    Err(e) => return Err(e),
                }
            } else {
                to
            };
            let pair = match self.get_pair(pairs[i]) {
                Ok(p) => p,
                Err(e) => return Err(e),
            };
            steps.push(SwapStep { pair, amount_0_out, amount_1_out, to: next });
            proof {
                assert forall|k: int|
                    0 <= k < (i + 1) as int implies path@.take(i as int + 2)[k] != path@.take(
                    i as int + 2,
                )[k + 1] && #[trigger] pairs@.take(i as int + 1)[k] is Some by {
                    if k < i {
                        assert(path@.take(i as int + 1)[k] != path@.take(i as int + 1)[k + 1]);
                        assert(pairs@.take(i as int)[k] is Some);
                    }
                }
            }
            i = i + 1;
        }
        proof {
            assert(path@.take(n as int) =~= path@);
            assert(pairs@.take((n - 1) as int) =~= pairs@);
        }
        Ok(steps)
    }

    /// The amounts of a swap of exactly `amount_in` along `path` that must
    /// yield at least `amount_out_min`.
    pub fn plan_exact_in(
        &self,
        amount_in: u128,
        amount_out_min: u128,
        path: &Vec<AccountId>,
        pair_reserves: &Vec<Option<(u128, u128)>>,
    ) -> (r: Result<Vec<u128>, RouterError>)
        requires
            path@.len() >= 2 ==> pair_reserves@.len() == path@.len() - 1,
        ensures
            path@.len() < 2 ==> r == Err::<Vec<u128>, RouterError>(RouterError::InvalidPath),
            path@.len() >= 2 ==> agrees(
                r,
                exact_in_result(amount_in, amount_out_min, path@, pair_reserves@),
            ),
    {
        let amounts = match self.calculate_amounts_out(amount_in, path, pair_reserves) {
            Ok(a) => a,
            Err(e) => return Err(e),
        };
        proof {
            lemma_amounts_out_len(amount_in, path@, pair_reserves@, (path@.len() - 1) as nat);
        }
        if !(amounts[amounts.len() - 1] >= amount_out_min) {
            return Err(RouterError::InsufficientOutputAmount);
        }
        Ok(amounts)
    }

    /// The amounts of a swap along `path` that yields exactly `amount_out`
    /// for at most `amount_in_max`.
    pub fn plan_exact_out(
        &self,
        amount_out: u128,
        amount_in_max: u128,
        path: &Vec<AccountId>,
        pair_reserves: &Vec<Option<(u128, u128)>>,
    ) -> (r: Result<Vec<u128>, RouterError>)
        requires
            path@.len() >= 2 ==> pair_reserves@.len() == path@.len() - 1,
        ensures
            path@.len() < 2 ==> r == Err::<Vec<u128>, RouterError>(RouterError::InvalidPath),
            path@.len() >= 2 ==> agrees(
                r,
                exact_out_result(amount_out, amount_in_max, path@, pair_reserves@),
            ),
    {
        let amounts = match self.calculate_amounts_in(amount_out, path, pair_reserves) {
            Ok(a) => a,
            Err(e) => return Err(e),
        };
        proof {
            lemma_amounts_in_len(amount_out, path@, pair_reserves@, (path@.len() - 1) as nat);
        }
        if !(amounts[0] <= amount_in_max) {
            return Err(RouterError::ExcessiveInputAmount);
        }
        Ok(amounts)
    }
}

/// The amounts of a swap of exactly `amount_in` that must yield at least
/// `amount_out_min`.
pub open spec fn exact_in_result(
    amount_in: u128,
    amount_out_min: u128,
    path: Seq<AccountId>,
    pair_reserves: Seq<Option<(u128, u128)>>,
) -> Result<Seq<u128>, RouterError> {
    match amounts_out(amount_in, path, pair_reserves, (path.len() - 1) as nat) {
        Err(e) => Err(e),
        Ok(s) => if s.last() >= amount_out_min {
            Ok(s)
        } else {
            Err(RouterError::InsufficientOutputAmount)
        },
    }
}

/// The amounts of a swap that yields exactly `amount_out` for at most
/// `amount_in_max`.
pub open spec fn exact_out_result(
    amount_out: u128,
    amount_in_max: u128,
    path: Seq<AccountId>,
    pair_reserves: Seq<Option<(u128, u128)>>,
) -> Result<Seq<u128>, RouterError> {
    match amounts_in(amount_out, path, pair_reserves, (path.len() - 1) as nat) {
        Err(e) => Err(e),
        Ok(s) => if s[0] <= amount_in_max {
            Ok(s)
        } else {
            Err(RouterError::ExcessiveInputAmount)
        },
    }
}

proof fn lemma_amounts_in_len(
    amount_out: u128,
    path: Seq<AccountId>,
    pair_reserves: Seq<Option<(u128, u128)>>,
    k: nat,
)
    requires
        amounts_in(amount_out, path, pair_reserves, k) is Ok,
    ensures
        amounts_in(amount_out, path, pair_reserves, k).unwrap().len() == k + 1,
    decreases k,
{
    if k > 0 {
        lemma_amounts_in_len(amount_out, path, pair_reserves, (k - 1) as nat);
    }
}

impl RouterContract {
    /// The checks of `remove_liquidity` around the burn: the deadline, two
    /// different tokens, and the amounts that the burn paid out (`burned`,
    /// in the order of the pair's sorted tokens) in the order of `token_0`
    /// and `token_1`, which must reach the minimums.
    pub fn remove_liquidity(
        &self,
        token_0: AccountId,
        token_1: AccountId,
        burned: (u128, u128),
        amount_0_min: u128,
        amount_1_min: u128,
        deadline: u64,
        now: u64,
    ) -> (r: Result<(u128, u128), RouterError>)
        ensures
            deadline < now ==> r == Err::<(u128, u128), RouterError>(RouterError::Expired),
            deadline >= now && token_0 == token_1 ==> r == Err::<(u128, u128), RouterError>(
                RouterError::IdenticalAddresses,
            ),
            deadline >= now && token_0 != token_1 ==> {
                let (a0, a1) = if account_lt(token_0, token_1) {
                    burned
                } else {
                    (burned.1, burned.0)
                };
                &&& a0 < amount_0_min ==> r == Err::<(u128, u128), RouterError>(
                    RouterError::InsufficientAmountA,
                )
                &&& a0 >= amount_0_min && a1 < amount_1_min ==> r == Err::<
                    (u128, u128),
                    RouterError,
                >(RouterError::InsufficientAmountB)
                &&& a0 >= amount_0_min && a1 >= amount_1_min ==> r == Ok::<
                    (u128, u128),
                    RouterError,
                >((a0, a1))
            },
    {
        match self.check_timestamp(deadline, now) {
            Ok(()) => {},
            Err(e) => return Err(e),
        }
        if !(token_0 != token_1) {
            return Err(RouterError::IdenticalAddresses);
        }
        let (amount_0, amount_1) = if token_0.lt(&token_1) {
            burned
        } else {
            (burned.1, burned.0)
        };
        if !(amount_0 >= amount_0_min) {
            return Err(RouterError::InsufficientAmountA);
        }
        if !(amount_1 >= amount_1_min) {
            return Err(RouterError::InsufficientAmountB);
        }
        Ok((amount_0, amount_1))
    }

    /// A trade that starts with the native token must start with the
    /// wrapped native token.
    pub fn check_native_first(&self, path: &Vec<AccountId>) -> (r: Result<(), RouterError>)
        requires
            path@.len() > 0,
        ensures
            path@[0] == self.wnative ==> r is Ok,
            path@[0] != self.wnative ==> r == Err::<(), RouterError>(RouterError::InvalidPath),
    {
        if !(path[0] == self.wnative) {
            return Err(RouterError::InvalidPath);
        }
        Ok(())
    }

    /// A trade that ends with the native token must end with the wrapped
    /// native token.
    pub fn check_native_last(&self, path: &Vec<AccountId>) -> (r: Result<(), RouterError>)
        requires
            path@.len() > 0,
        ensures
            path@.last() == self.wnative ==> r is Ok,
            path@.last() != self.wnative ==> r == Err::<(), RouterError>(RouterError::InvalidPath),
    {
        if !(path[path.len() - 1] == self.wnative) {
            return Err(RouterError::InvalidPath);
        }
        Ok(())
    }

    /// Of `received` native value, `used` was spent: what goes back.
    pub fn native_refund(&self, received: u128, used: u128) -> (r: Result<u128, RouterError>)
        ensures
            used > received ==> r == Err::<u128, RouterError>(RouterError::ExcessiveInputAmount),
            used <= received ==> r == Ok::<u128, RouterError>((received - used) as u128),
    {
        if !(used <= received) {
            return Err(RouterError::ExcessiveInputAmount);
        }
        Ok(received - used)
    }
}

/// Each amount that `amounts_in` computes is what the hop after it costs.
proof fn lemma_amounts_in_steps(
    amount_out: u128,
    path: Seq<AccountId>,
    pair_reserves: Seq<Option<(u128, u128)>>,
    k: nat,
)
    requires
        k <= path.len() - 1,
        amounts_in(amount_out, path, pair_reserves, k) is Ok,
    ensures
        ({
            let s = amounts_in(amount_out, path, pair_reserves, k).unwrap();
            let m = path.len() - 1;
            &&& s.len() == k + 1
            &&& s[k as int] == amount_out
            &&& forall|j: int|
                0 <= j < k ==> hop_in(
                    s[j + 1],
                    path[m - k + j],
                    path[m - k + j + 1],
                    pair_reserves[m - k + j],
                ) == Ok::<u128, RouterError>(#[trigger] s[j])
        }),
    decreases k,
{
    if k > 0 {
        lemma_amounts_in_steps(amount_out, path, pair_reserves, (k - 1) as nat);
        let s = amounts_in(amount_out, path, pair_reserves, k).unwrap();
        let t = amounts_in(amount_out, path, pair_reserves, (k - 1) as nat).unwrap();
        let m = path.len() - 1;
        assert forall|j: int| 0 <= j < k implies hop_in(
            s[j + 1],
            path[m - k + j],
            path[m - k + j + 1],
            pair_reserves[m - k + j],
        ) == Ok::<u128, RouterError>(#[trigger] s[j]) by {
            if j > 0 {
                assert(s[j] == t[j - 1]);
                assert(s[j + 1] == t[j]);
                assert(m - (k - 1) + (j - 1) == m - k + j);
            }
        }
    }
}

/// Along the first `n` hops, starting from what `amounts_in` asks, each
/// amount reached is at least the one `amounts_in` planned.
proof fn lemma_amounts_out_dominate(
    s: Seq<u128>,
    path: Seq<AccountId>,
    pair_reserves: Seq<Option<(u128, u128)>>,
    n: nat,
)
    requires
        path.len() >= 2,
        n <= path.len() - 1,
        s.len() == path.len(),
        forall|i: int|
            0 <= i < path.len() - 1 ==> hop_in(s[i + 1], path[i], path[i + 1], pair_reserves[i])
                == Ok::<u128, RouterError>(#[trigger] s[i]),
        amounts_out(s[0], path, pair_reserves, n) is Ok,
    ensures
        ({
            let t = amounts_out(s[0], path, pair_reserves, n).unwrap();
            &&& t.len() == n + 1
            &&& forall|i: int| 0 <= i <= n ==> #[trigger] t[i] >= s[i]
        }),
    decreases n,
{
    if n > 0 {
        let prev = amounts_out(s[0], path, pair_reserves, (n - 1) as nat);
        assert(prev is Ok);
        lemma_amounts_out_dominate(s, path, pair_reserves, (n - 1) as nat);
        let tp = prev.unwrap();
        let t = amounts_out(s[0], path, pair_reserves, n).unwrap();
        let i = n - 1;
        let hop = hop_in(s[i + 1], path[i], path[i + 1], pair_reserves[i]);
        assert(hop == Ok::<u128, RouterError>(s[i]));
        let (ri, ro) = oriented_reserves(path[i], path[i + 1], pair_reserves[i]).unwrap();
        assert(s[i] == amount_in_formula(s[i + 1] as nat, ri as nat, ro as nat, 997));
        lemma_amount_in_buys_amount_out(s[i + 1] as nat, ri as nat, ro as nat, 997);
        lemma_amount_out_monotone(s[i] as nat, tp[i] as nat, ri as nat, ro as nat, 997);
        lemma_amount_out_below_reserve(tp[i] as nat, ri as nat, ro as nat, 997);
        assert(t[n as int] >= s[n as int]);
        assert forall|j: int| 0 <= j <= n implies #[trigger] t[j] >= s[j] by {
            if j < n {
                assert(t[j] == tp[j]);
            }
        }
    }
}

/// Paying what `calculate_amounts_in` asks for an exact output and trading
/// it forward along the same path (as `calculate_amounts_out` does) reaches
/// at least the planned amount at every hop, hence at least `amount_out` at
/// the end, whenever the forward computation fits in 256 bits.
pub proof fn law_exact_out_amounts_suffice(
    amount_out: u128,
    path: Seq<AccountId>,
    pair_reserves: Seq<Option<(u128, u128)>>,
)
    requires
        path.len() >= 2,
        pair_reserves.len() == path.len() - 1,
        amounts_in(amount_out, path, pair_reserves, (path.len() - 1) as nat) is Ok,
        amounts_out(
            amounts_in(amount_out, path, pair_reserves, (path.len() - 1) as nat).unwrap()[0],
            path,
            pair_reserves,
            (path.len() - 1) as nat,
        ) is Ok,
    ensures
        ({
            let m = (path.len() - 1) as nat;
            let s = amounts_in(amount_out, path, pair_reserves, m).unwrap();
            let t = amounts_out(s[0], path, pair_reserves, m).unwrap();
            &&& t.len() == s.len()
            &&& forall|i: int| 0 <= i < s.len() ==> #[trigger] t[i] >= s[i]
            &&& t.last() >= amount_out
        }),
{
    let m = (path.len() - 1) as nat;
    lemma_amounts_in_steps(amount_out, path, pair_reserves, m);
    let s = amounts_in(amount_out, path, pair_reserves, m).unwrap();
    assert forall|i: int| 0 <= i < path.len() - 1 implies hop_in(
        s[i + 1],
        path[i],
        path[i + 1],
        pair_reserves[i],
    ) == Ok::<u128, RouterError>(#[trigger] s[i]) by {
        assert(m - m + i == i);
    }
    lemma_amounts_out_dominate(s, path, pair_reserves, m);
}

/// Whether `token_a` comes before `token_b`; they must differ.
pub fn tokens_sorted(token_a: AccountId, token_b: AccountId) -> (r: Result<bool, RouterError>)
    ensures
        token_a == token_b ==> r == Err::<bool, RouterError>(RouterError::IdenticalAddresses),
        token_a != token_b ==> r == Ok::<bool, RouterError>(account_lt(token_a, token_b)),
{
    if !(token_a != token_b) {
        return Err(RouterError::IdenticalAddresses);
    }
    Ok(token_a.lt(&token_b))
}

} // verus!
