//! The second router: trades along paths of pools, each a constant-product
//! pair with its own fee or a stable-swap pool, and liquidity for both kinds.
//!
//! Calls into pools and tokens are made by the contract shell; what they
//! report is handed in here, and what they are to be asked is handed out.
use crate::account::{account_lt, AccountId};
use crate::amounts::{
    amount_in_core, amount_in_formula, amount_out_core, amount_out_formula,
    lemma_amount_in_buys_amount_out, lemma_amount_out_below_reserve, quote_core, quote_formula,
};
use crate::errors::{FactoryError, MathError, RouterV2Error, StablePoolError};
use crate::router::lemma_quote_back;
use crate::u256::{two_pow_128, two_pow_256};
use vstd::prelude::*;

verus! {

/// Of each 1000 units of input a pair keeps `fee` as trading fee.
pub const PAIR_TRADING_FEE_DENOM: u128 = 1000;

/// One hop of a trade: the token that goes into the pool `pool_id`. The
/// token that comes out is the next step's `token_in`, or the trade's
/// `token_out` at the last step.
#[derive(Clone, Copy, Debug, PartialEq, Eq)]
pub struct Step {
    pub token_in: AccountId,
    pub pool_id: AccountId,
}

/// A constant-product pair as the router knows it.
#[derive(Clone, Copy, Debug, PartialEq, Eq)]
pub struct Pair {
    pub id: AccountId,
    pub token_0: AccountId,
    pub token_1: AccountId,
    pub fee: u8,
}

/// A stable-swap pool as the router knows it.
#[derive(Debug, PartialEq, Eq)]
pub struct StablePool {
    pub id: AccountId,
    pub tokens: Vec<AccountId>,
}

/// A pool on a trade path.
#[derive(Debug, PartialEq, Eq)]
pub enum Pool {
    Pair(Pair),
    StablePool(StablePool),
}

/// What a pool is, as a value of mathematics.
pub enum PoolView {
    Pair(Pair),
    StablePool(AccountId, Seq<AccountId>),
}

impl View for Pool {
    type V = PoolView;

    open spec fn view(&self) -> PoolView {
        match self {
            Pool::Pair(p) => PoolView::Pair(*p),
            Pool::StablePool(s) => PoolView::StablePool(s.id, s.tokens@),
        }
    }
}

/// What a pool reports to a price query: a pair its reserves, in the order
/// of its sorted tokens; a stable pool its quote (amount and fee) or error.
#[derive(Debug, PartialEq, Eq)]
pub enum PoolReply {
    Reserves(u128, u128),
    Quote(Result<(u128, u128), StablePoolError>),
}

/// The call that carries out one hop of a trade.
#[derive(Clone, Copy, Debug, PartialEq, Eq)]
pub enum SwapCall {
    /// `swap(amount_0_out, amount_1_out, to)` on a pair.
    Pair { pair: AccountId, amount_0_out: u128, amount_1_out: u128, to: AccountId },
    /// `swap_received(token_in, token_out, amount_out, to)` on a stable pool.
    StablePool {
        pool: AccountId,
        token_in: AccountId,
        token_out: AccountId,
        amount_out: u128,
        to: AccountId,
    },
}

/// The pair trades exactly the two tokens `a` and `b`, in either order.
pub open spec fn pair_has_tokens(p: Pair, a: AccountId, b: AccountId) -> bool {
    (p.token_0 == a && p.token_1 == b) || (p.token_0 == b && p.token_1 == a)
}

/// Reserves reported in the order of the sorted tokens, turned into the
/// order `(a, b)`.
pub open spec fn oriented(a: AccountId, b: AccountId, reported: (u128, u128)) -> (u128, u128) {
    if account_lt(a, b) {
        reported
    } else {
        (reported.1, reported.0)
    }
}

/// The share of the input that counts after the pair's fee, per mille.
pub open spec fn fee_num(fee: u8) -> nat {
    (1000 - fee) as nat
}

/// The output of a trade of `amount_in` against `(r_in, r_out)` with `fee`.
pub open spec fn pair_amount_out(amount_in: u128, r_in: u128, r_out: u128, fee: u8) -> Result<
    u128,
    RouterV2Error,
> {
    if !(amount_in > 0) {
        Err(RouterV2Error::InsufficientAmount)
    } else if !(r_in > 0 && r_out > 0) {
        Err(RouterV2Error::InsufficientLiquidity)
    } else if amount_in * fee_num(fee) * r_out >= two_pow_256() {
        Err(RouterV2Error::MathError(MathError::MulOverflow(13)))
    } else {
        Ok(amount_out_formula(amount_in as nat, r_in as nat, r_out as nat, fee_num(fee)) as u128)
    }
}

/// The input that a trade for `amount_out` against `(r_in, r_out)` with
/// `fee` costs.
pub open spec fn pair_amount_in(amount_out: u128, r_in: u128, r_out: u128, fee: u8) -> Result<
    u128,
    RouterV2Error,
> {
    if !(amount_out > 0) {
        Err(RouterV2Error::InsufficientAmount)
    } else if !(r_in > 0 && r_out > 0) {
        Err(RouterV2Error::InsufficientLiquidity)
    } else if r_in * amount_out * 1000 >= two_pow_256() {
        Err(RouterV2Error::MathError(MathError::MulOverflow(14)))
    } else if amount_out > r_out {
        Err(RouterV2Error::MathError(MathError::SubUnderflow(15)))
    } else if amount_out == r_out {
        Err(RouterV2Error::MathError(MathError::DivByZero(8)))
    } else if amount_in_formula(amount_out as nat, r_in as nat, r_out as nat, fee_num(fee))
        >= two_pow_128() {
        Err(RouterV2Error::MathError(MathError::CastOverflow(5)))
    } else {
        Ok(amount_in_formula(amount_out as nat, r_in as nat, r_out as nat, fee_num(fee)) as u128)
    }
}

/// `quote` on plain numbers.
pub open spec fn pair_quote(amount_0: u128, reserve_0: u128, reserve_1: u128) -> Result<
    u128,
    RouterV2Error,
> {
    if reserve_0 == 0 {
        Err(RouterV2Error::MathError(MathError::DivByZero(6)))
    } else if quote_formula(amount_0 as nat, reserve_0 as nat, reserve_1 as nat) >= two_pow_128() {
        Err(RouterV2Error::MathError(MathError::CastOverflow(3)))
    } else {
        Ok(quote_formula(amount_0 as nat, reserve_0 as nat, reserve_1 as nat) as u128)
    }
}

/// `calculate_liquidity` on plain numbers.
pub open spec fn pair_liquidity(
    reserve_0: u128,
    reserve_1: u128,
    amount_0_desired: u128,
    amount_1_desired: u128,
    amount_0_min: u128,
    amount_1_min: u128,
) -> Result<(u128, u128), RouterV2Error> {
    if reserve_0 == 0 && reserve_1 == 0 {
        Ok((amount_0_desired, amount_1_desired))
    } else if !(reserve_0 > 0 && reserve_1 > 0) {
        Err(RouterV2Error::InsufficientLiquidity)
    } else if !(amount_0_desired > 0 && amount_1_desired > 0) {
        Err(RouterV2Error::InsufficientAmount)
    } else {
        match pair_quote(amount_0_desired, reserve_0, reserve_1) {
            Err(e) => Err(e),
            Ok(amount_1_optimal) => if amount_1_optimal <= amount_1_desired {
                if amount_1_optimal >= amount_1_min {
                    Ok((amount_0_desired, amount_1_optimal))
                } else {
                    Err(RouterV2Error::InsufficientAmountB)
                }
            } else {
                match pair_quote(amount_1_desired, reserve_1, reserve_0) {
                    Err(e) => Err(e),
                    Ok(amount_0_optimal) => if amount_0_optimal >= amount_0_min {
                        Ok((amount_0_optimal, amount_1_desired))
                    } else {
                        Err(RouterV2Error::InsufficientAmountA)
                    },
                }
            },
        }
    }
}

/// The pair to add liquidity to: the one given; else the one that the
/// factory holds for the two tokens (`found`); else the one that the
/// factory answered with when asked to create it (`created`). The contract
/// looks the pair up only when none is given, and asks for a new one only
/// when the factory has none. A failed creation is the router's
/// `FactoryError`.
pub fn given_or_created(
    pair: Option<AccountId>,
    found: Option<AccountId>,
    created: Option<Result<AccountId, FactoryError>>,
) -> (r: Result<AccountId, RouterV2Error>)
    ensures
        pair is Some ==> r == Ok::<AccountId, RouterV2Error>(pair.unwrap()),
        pair is None && found is Some ==> r == Ok::<AccountId, RouterV2Error>(found.unwrap()),
        pair is None && found is None ==> r == match created {
            Some(Ok(p)) => Ok::<AccountId, RouterV2Error>(p),
            Some(Err(e)) => Err::<AccountId, RouterV2Error>(RouterV2Error::FactoryError(e)),
            None => Err::<AccountId, RouterV2Error>(RouterV2Error::PairNotFound),
        },
{
    match pair {
        Some(p) => Ok(p),
        None => match found {
            Some(p) => Ok(p),
            None => match created {
                Some(Ok(p)) => Ok(p),
                Some(Err(e)) => Err(RouterV2Error::FactoryError(e)),
                None => Err(RouterV2Error::PairNotFound),
            },
        },
    }
}

/// Fails when the block time `now` is past `deadline`.
pub fn check_timestamp(deadline: u64, now: u64) -> (r: Result<(), RouterV2Error>)
    ensures
        deadline >= now ==> r is Ok,
        deadline < now ==> r == Err::<(), RouterV2Error>(RouterV2Error::Expired),
{
    if !(deadline >= now) {
        return Err(RouterV2Error::Expired);
    }
    Ok(())
}

impl Pair {
    /// The pair `pair_id` when it answered the query for its fee (`fee` is
    /// `None` when it did not: then `pair_id` is no pair), with its tokens.
    pub fn try_new(pair_id: AccountId, fee: Option<u8>, token_0: AccountId, token_1: AccountId) -> (r:
        Option<Self>)
        ensures
            fee is None ==> r is None,
            fee is Some ==> r == Some(Pair { id: pair_id, token_0, token_1, fee: fee.unwrap() }),
    {
        match fee {
            Some(fee) => Some(Pair { id: pair_id, token_0, token_1, fee }),
            None => None,
        }
    }

    /// Fails with `InvalidToken` unless the pair trades `token_0` and `token_1`.
    pub fn check_tokens(&self, token_0: AccountId, token_1: AccountId) -> (r: Result<
        (),
        RouterV2Error,
    >)
        ensures
            pair_has_tokens(*self, token_0, token_1) ==> r is Ok,
            !pair_has_tokens(*self, token_0, token_1) ==> r == Err::<(), RouterV2Error>(
                RouterV2Error::InvalidToken,
            ),
    {
        if !((self.token_0 == token_0 && self.token_1 == token_1) || (self.token_0 == token_1
            && self.token_1 == token_0)) {
            return Err(RouterV2Error::InvalidToken);
        }
        Ok(())
    }

    /// The reserves that the pair reported, in the order of `token_0` and `token_1`.
    pub fn get_reserves(&self, token_0: &AccountId, token_1: &AccountId, reported: (u128, u128)) -> (r:
        (u128, u128))
        ensures
            r == oriented(*token_0, *token_1, reported),
    {
        let (reserve_0, reserve_1) = reported;
        if token_0.lt(token_1) {
            (reserve_0, reserve_1)
        } else {
            (reserve_1, reserve_0)
        }
    }

    /// How much of `token_1` keeps the ratio `reserve_0 / reserve_1`, given
    /// `amount_0` of `token_0`.
    pub fn quote(amount_0: u128, reserve_0: u128, reserve_1: u128) -> (r: Result<u128, RouterV2Error>)
        ensures
            r == pair_quote(amount_0, reserve_0, reserve_1),
    {
        if reserve_0 == 0 {
            return Err(RouterV2Error::MathError(MathError::DivByZero(6)));
        }
        match quote_core(amount_0, reserve_0, reserve_1) {
            Ok(v) => Ok(v),
            Err(e) => Err(RouterV2Error::MathError(e)),
        }
    }

    /// The amounts to deposit, given the reserves that the pair reported:
    /// all that is desired into an empty pair, otherwise the most of one
    /// token that keeps the ratio of the reserves with the desired amount
    /// of the other, and no less than the minimums.
    pub fn calculate_liquidity(
        &self,
        token_0: AccountId,
        token_1: AccountId,
        reported: (u128, u128),
        amount_0_desired: u128,
        amount_1_desired: u128,
        amount_0_min: u128,
        amount_1_min: u128,
    ) -> (r: Result<(u128, u128), RouterV2Error>)
        ensures
            r == pair_liquidity(
                oriented(token_0, token_1, reported).0,
                oriented(token_0, token_1, reported).1,
                amount_0_desired,
                amount_1_desired,
                amount_0_min,
                amount_1_min,
            ),
            r is Ok ==> r.unwrap().0 <= amount_0_desired && r.unwrap().1 <= amount_1_desired,
    {
        let (reserve_0, reserve_1) = self.get_reserves(&token_0, &token_1, reported);
        if reserve_0 == 0 && reserve_1 == 0 {
            return Ok((amount_0_desired, amount_1_desired));
        }
        if !(reserve_0 > 0 && reserve_1 > 0) {
            return Err(RouterV2Error::InsufficientLiquidity);
        }
        if !(amount_0_desired > 0 && amount_1_desired > 0) {
            return Err(RouterV2Error::InsufficientAmount);
        }
        let amount_1_optimal = match Pair::quote(amount_0_desired, reserve_0, reserve_1) {
            Ok(v) => v,
            Err(e) => return Err(e),
        };
        if amount_1_optimal <= amount_1_desired {
            if !(amount_1_optimal >= amount_1_min) {
                return Err(RouterV2Error::InsufficientAmountB);
            }
            Ok((amount_0_desired, amount_1_optimal))
        } else {
            proof {
                lemma_quote_back(
                    amount_0_desired as nat,
                    amount_1_desired as nat,
                    reserve_0 as nat,
                    reserve_1 as nat,
                );
            }
            let amount_0_optimal = match Pair::quote(amount_1_desired, reserve_1, reserve_0) {
                Ok(v) => v,
                Err(e) => return Err(e),
            };
            if !(amount_0_optimal >= amount_0_min) {
                return Err(RouterV2Error::InsufficientAmountA);
            }
            Ok((amount_0_optimal, amount_1_desired))
        }
    }

    /// The amounts of `token_0` and `token_1` to move into the pair before it
    /// mints liquidity; `reported` are the pair's reserves.
    pub fn add_liquidity(
        &self,
        token_0: AccountId,
        token_1: AccountId,
        reported: (u128, u128),
        amount_0_desired: u128,
        amount_1_desired: u128,
        amount_0_min: u128,
        amount_1_min: u128,
        deadline: u64,
        now: u64,
    ) -> (r: Result<(u128, u128), RouterV2Error>)
        ensures
            deadline < now ==> r == Err::<(u128, u128), RouterV2Error>(RouterV2Error::Expired),
            deadline >= now && !pair_has_tokens(*self, token_0, token_1) ==> r == Err::<
                (u128, u128),
                RouterV2Error,
            >(RouterV2Error::InvalidToken),
            deadline >= now && pair_has_tokens(*self, token_0, token_1) ==> r == pair_liquidity(
                oriented(token_0, token_1, reported).0,
                oriented(token_0, token_1, reported).1,
                amount_0_desired,
                amount_1_desired,
                amount_0_min,
                amount_1_min,
            ),
    {
        match check_timestamp(deadline, now) {
            Ok(()) => {},
            Err(e) => return Err(e),
        }
        match self.check_tokens(token_0, token_1) {
            Ok(()) => {},
            Err(e) => return Err(e),
        }
        self.calculate_liquidity(
            token_0,
            token_1,
            reported,
            amount_0_desired,
            amount_1_desired,
            amount_0_min,
            amount_1_min,
        )
    }

    /// Like `add_liquidity` with `wnative` for the second token, whose desired
    /// amount is the native value `received_value` sent along. Returns the
    /// token amount, the native amount to wrap and deposit, and the native
    /// amount to send back to the caller.
    pub fn add_liquidity_native(
        &self,
        token: AccountId,
        wnative: AccountId,
        reported: (u128, u128),
        amount_token_desired: u128,
        received_value: u128,
        amount_token_min: u128,
        amount_native_min: u128,
        deadline: u64,
        now: u64,
    ) -> (r: Result<(u128, u128, u128), RouterV2Error>)
        ensures
            ({
                let plain = self.add_liquidity_spec(
                    token,
                    wnative,
                    reported,
                    amount_token_desired,
                    received_value,
                    amount_token_min,
                    amount_native_min,
                    deadline,
                    now,
                );
                match plain {
                    Err(e) => r == Err::<(u128, u128, u128), RouterV2Error>(e),
                    Ok((a, n)) => r == Ok::<(u128, u128, u128), RouterV2Error>(
                        (a, n, (received_value - n) as u128),
                    ) && n <= received_value,
                }
            }),
    {
        let (amount_0, amount_native) = match self.add_liquidity(
            token,
            wnative,
            reported,
            amount_token_desired,
            received_value,
            amount_token_min,
            amount_native_min,
            deadline,
            now,
        ) {
            Ok(v) => v,
            Err(e) => return Err(e),
        };
        proof {
            lemma_liquidity_le_desired(
                oriented(token, wnative, reported).0,
                oriented(token, wnative, reported).1,
                amount_token_desired,
                received_value,
                amount_token_min,
                amount_native_min,
            );
        }
        let refund = if received_value > amount_native {
            received_value - amount_native
        } else {
            0
        };
        Ok((amount_0, amount_native, refund))
    }

    /// `add_liquidity` on plain values.
    pub open spec fn add_liquidity_spec(
        self,
        token_0: AccountId,
        token_1: AccountId,
        reported: (u128, u128),
        amount_0_desired: u128,
        amount_1_desired: u128,
        amount_0_min: u128,
        amount_1_min: u128,
        deadline: u64,
        now: u64,
    ) -> Result<(u128, u128), RouterV2Error> {
        if deadline < now {
            Err(RouterV2Error::Expired)
        } else if !pair_has_tokens(self, token_0, token_1) {
            Err(RouterV2Error::InvalidToken)
        } else {
            pair_liquidity(
                oriented(token_0, token_1, reported).0,
                oriented(token_0, token_1, reported).1,
                amount_0_desired,
                amount_1_desired,
                amount_0_min,
                amount_1_min,
            )
        }
    }

    /// The checks before liquidity is burned, and the amounts that the burn
    /// paid out (`burned`, in the order of the pair's sorted tokens) in the
    /// order of `token_0` and `token_1`, which must reach the minimums.
    pub fn remove_liquidity(
        &self,
        token_0: AccountId,
        token_1: AccountId,
        burned: (u128, u128),
        amount_0_min: u128,
        amount_1_min: u128,
        deadline: u64,
        now: u64,
    ) -> (r: Result<(u128, u128), RouterV2Error>)
        ensures
            deadline < now ==> r == Err::<(u128, u128), RouterV2Error>(RouterV2Error::Expired),
            deadline >= now && !pair_has_tokens(*self, token_0, token_1) ==> r == Err::<
                (u128, u128),
                RouterV2Error,
            >(RouterV2Error::InvalidToken),
            deadline >= now && pair_has_tokens(*self, token_0, token_1) ==> {
                let (a0, a1) = oriented(token_0, token_1, burned);
                &&& a0 < amount_0_min ==> r == Err::<(u128, u128), RouterV2Error>(
                    RouterV2Error::InsufficientAmountA,
                )
                &&& a0 >= amount_0_min && a1 < amount_1_min ==> r == Err::<
                    (u128, u128),
                    RouterV2Error,
                >(RouterV2Error::InsufficientAmountB)
                &&& a0 >= amount_0_min && a1 >= amount_1_min ==> r == Ok::<
                    (u128, u128),
                    RouterV2Error,
                >((a0, a1))
            },
    {
        match check_timestamp(deadline, now) {
            Ok(()) => {},
            Err(e) => return Err(e),
        }
        match self.check_tokens(token_0, token_1) {
            Ok(()) => {},
            Err(e) => return Err(e),
        }
        let (amount_0, amount_1) = self.get_reserves(&token_0, &token_1, burned);
        if !(amount_0 >= amount_0_min) {
            return Err(RouterV2Error::InsufficientAmountA);
        }
        if !(amount_1 >= amount_1_min) {
            return Err(RouterV2Error::InsufficientAmountB);
        }
        Ok((amount_0, amount_1))
    }

    /// `remove_liquidity` for `token` and the wrapped native token
    /// `wnative`: the amounts of the token and of native value that are then
    /// sent on.
    pub fn remove_liquidity_native(
        &self,
        token: AccountId,
        wnative: AccountId,
        burned: (u128, u128),
        amount_token_min: u128,
        amount_native_min: u128,
        deadline: u64,
        now: u64,
    ) -> (r: Result<(u128, u128), RouterV2Error>)
        ensures
            deadline < now ==> r == Err::<(u128, u128), RouterV2Error>(RouterV2Error::Expired),
            deadline >= now && !pair_has_tokens(*self, token, wnative) ==> r == Err::<
                (u128, u128),
                RouterV2Error,
            >(RouterV2Error::InvalidToken),
            deadline >= now && pair_has_tokens(*self, token, wnative) ==> {
                let (a0, a1) = oriented(token, wnative, burned);
                &&& a0 < amount_token_min ==> r == Err::<(u128, u128), RouterV2Error>(
                    RouterV2Error::InsufficientAmountA,
                )
                &&& a0 >= amount_token_min && a1 < amount_native_min ==> r == Err::<
                    (u128, u128),
                    RouterV2Error,
                >(RouterV2Error::InsufficientAmountB)
                &&& a0 >= amount_token_min && a1 >= amount_native_min ==> r == Ok::<
                    (u128, u128),
                    RouterV2Error,
                >((a0, a1))
            },
    {
        self.remove_liquidity(
            token,
            wnative,
            burned,
            amount_token_min,
            amount_native_min,
            deadline,
            now,
        )
    }

    /// The amounts that the pair pays out for a trade from `token_in` to
    /// `token_out` for `amount_out`, in the order of its sorted tokens.
    pub fn swap(&self, token_in: AccountId, token_out: AccountId, amount_out: u128) -> (r: Result<
        (u128, u128),
        RouterV2Error,
    >)
        ensures
            !pair_has_tokens(*self, token_in, token_out) ==> r == Err::<(u128, u128), RouterV2Error>(
                RouterV2Error::InvalidPath,
            ),
            pair_has_tokens(*self, token_in, token_out) && account_lt(token_in, token_out) ==> r
                == Ok::<(u128, u128), RouterV2Error>((0, amount_out)),
            pair_has_tokens(*self, token_in, token_out) && !account_lt(token_in, token_out) ==> r
                == Ok::<(u128, u128), RouterV2Error>((amount_out, 0)),
    {
        match self.check_tokens(token_in, token_out) {
            Ok(()) => {},
            Err(_) => return Err(RouterV2Error::InvalidPath),
        }
        if token_in.lt(&token_out) {
            Ok((0, amount_out))
        } else {
            Ok((amount_out, 0))
        }
    }

    /// The input that a trade from `token_in` to `token_out` for `amount_out`
    /// costs; `reported` are the pair's reserves.
    pub fn get_amount_in(
        &self,
        token_in: AccountId,
        token_out: AccountId,
        amount_out: u128,
        reported: (u128, u128),
    ) -> (r: Result<u128, RouterV2Error>)
        ensures
            !pair_has_tokens(*self, token_in, token_out) ==> r == Err::<u128, RouterV2Error>(
                RouterV2Error::InvalidPath,
            ),
            pair_has_tokens(*self, token_in, token_out) ==> r == pair_amount_in(
                amount_out,
                oriented(token_in, token_out, reported).0,
                oriented(token_in, token_out, reported).1,
                self.fee,
            ),
    {
        match self.check_tokens(token_in, token_out) {
            Ok(()) => {},
            Err(_) => return Err(RouterV2Error::InvalidPath),
        }
        let (reserve_in, reserve_out) = self.get_reserves(&token_in, &token_out, reported);
        if !(amount_out > 0) {
            return Err(RouterV2Error::InsufficientAmount);
        }
        if !(reserve_in > 0 && reserve_out > 0) {
            return Err(RouterV2Error::InsufficientLiquidity);
        }
        let fee: u128 = self.fee as u128;
        match amount_in_core(amount_out, reserve_in, reserve_out, PAIR_TRADING_FEE_DENOM - fee) {
            Ok(v) => Ok(v),
            Err(e) => Err(RouterV2Error::MathError(e)),
        }
    }

    /// The output of a trade of `amount_in` from `token_in` to `token_out`;
    /// `reported` are the pair's reserves.
    pub fn get_amount_out(
        &self,
        token_in: AccountId,
        token_out: AccountId,
        amount_in: u128,
        reported: (u128, u128),
    ) -> (r: Result<u128, RouterV2Error>)
        ensures
            !pair_has_tokens(*self, token_in, token_out) ==> r == Err::<u128, RouterV2Error>(
                RouterV2Error::InvalidPath,
            ),
            pair_has_tokens(*self, token_in, token_out) ==> r == pair_amount_out(
                amount_in,
                oriented(token_in, token_out, reported).0,
                oriented(token_in, token_out, reported).1,
                self.fee,
            ),
            r is Ok ==> r.unwrap() < oriented(token_in, token_out, reported).1,
    {
        match self.check_tokens(token_in, token_out) {
            Ok(()) => {},
            Err(_) => return Err(RouterV2Error::InvalidPath),
        }
        let (reserve_in, reserve_out) = self.get_reserves(&token_in, &token_out, reported);
        if !(amount_in > 0) {
            return Err(RouterV2Error::InsufficientAmount);
        }
        if !(reserve_in > 0 && reserve_out > 0) {
            return Err(RouterV2Error::InsufficientLiquidity);
        }
        let fee: u128 = self.fee as u128;
        match amount_out_core(amount_in, reserve_in, reserve_out, PAIR_TRADING_FEE_DENOM - fee) {
            Ok(v) => Ok(v),
            Err(e) => Err(RouterV2Error::MathError(e)),
        }
    }
}

/// What `calculate_liquidity` returns never exceeds what is desired.
proof fn lemma_liquidity_le_desired(
    reserve_0: u128,
    reserve_1: u128,
    amount_0_desired: u128,
    amount_1_desired: u128,
    amount_0_min: u128,
    amount_1_min: u128,
)
    ensures
        pair_liquidity(
            reserve_0,
            reserve_1,
            amount_0_desired,
            amount_1_desired,
            amount_0_min,
            amount_1_min,
        ) is Ok ==> {
            let (a0, a1) = pair_liquidity(
                reserve_0,
                reserve_1,
                amount_0_desired,
                amount_1_desired,
                amount_0_min,
                amount_1_min,
            ).unwrap();
            a0 <= amount_0_desired && a1 <= amount_1_desired
        },
{
    if reserve_0 > 0 && reserve_1 > 0 && amount_0_desired > 0 && amount_1_desired > 0 {
        if quote_formula(amount_0_desired as nat, reserve_0 as nat, reserve_1 as nat)
            > amount_1_desired {
            lemma_quote_back(
                amount_0_desired as nat,
                amount_1_desired as nat,
                reserve_0 as nat,
                reserve_1 as nat,
            );
        }
    }
}


/// A copy of the addresses in `v`.
fn copy_accounts(v: &Vec<AccountId>) -> (r: Vec<AccountId>)
    ensures
        r@ == v@,
{
    let mut r: Vec<AccountId> = Vec::new();
    let mut i: usize = 0;
    while i < v.len()
        invariant
            i <= v@.len(),
            r@ == v@.take(i as int),
        decreases v@.len() - i,
    {
        r.push(v[i]);
        i = i + 1;
        assert(r@ =~= v@.take(i as int));
    }
    assert(v@.take(v@.len() as int) =~= v@);
    r
}

impl StablePool {
    /// The stable pool `pool_id` when it answered the query for its tokens
    /// (`tokens` is `None` when it did not: then `pool_id` is no stable pool).
    pub fn try_new(pool_id: AccountId, tokens: Option<Vec<AccountId>>) -> (r: Option<Self>)
        ensures
            tokens is None ==> r is None,
            tokens is Some ==> r is Some && r.unwrap().id == pool_id && r.unwrap().tokens@
                == tokens.unwrap()@,
    {
        match tokens {
            Some(tokens) => Some(StablePool { id: pool_id, tokens }),
            None => None,
        }
    }

    /// The input amount of the pool's answer to `get_swap_amount_in`.
    pub fn get_amount_in(&self, reply: Result<(u128, u128), StablePoolError>) -> (r: Result<
        u128,
        RouterV2Error,
    >)
        ensures
            reply is Ok ==> r == Ok::<u128, RouterV2Error>(reply.unwrap().0),
            reply is Err ==> r == Err::<u128, RouterV2Error>(
                RouterV2Error::StablePoolError(reply.unwrap_err()),
            ),
    {
        match reply {
            Ok((amount_in, _)) => Ok(amount_in),
            Err(e) => Err(RouterV2Error::StablePoolError(e)),
        }
    }

    /// The output amount of the pool's answer to `get_swap_amount_out`.
    pub fn get_amount_out(&self, reply: Result<(u128, u128), StablePoolError>) -> (r: Result<
        u128,
        RouterV2Error,
    >)
        ensures
            reply is Ok ==> r == Ok::<u128, RouterV2Error>(reply.unwrap().0),
            reply is Err ==> r == Err::<u128, RouterV2Error>(
                RouterV2Error::StablePoolError(reply.unwrap_err()),
            ),
    {
        match reply {
            Ok((amount_out, _)) => Ok(amount_out),
            Err(e) => Err(RouterV2Error::StablePoolError(e)),
        }
    }
}

/// `Pool::get_amount_in` on plain values.
pub open spec fn pool_amount_in(
    pool: PoolView,
    token_in: AccountId,
    token_out: AccountId,
    amount_out: u128,
    reply: PoolReply,
) -> Result<u128, RouterV2Error> {
    match (pool, reply) {
        (PoolView::Pair(p), PoolReply::Reserves(r0, r1)) => if !pair_has_tokens(
            p,
            token_in,
            token_out,
        ) {
            Err(RouterV2Error::InvalidPath)
        } else {
            pair_amount_in(
                amount_out,
                oriented(token_in, token_out, (r0, r1)).0,
                oriented(token_in, token_out, (r0, r1)).1,
                p.fee,
            )
        },
        (PoolView::StablePool(_, _), PoolReply::Quote(q)) => match q {
            Ok((a, _)) => Ok(a),
            Err(e) => Err(RouterV2Error::StablePoolError(e)),
        },
        _ => Err(RouterV2Error::InvalidPoolAddress),
    }
}

/// `Pool::get_amount_out` on plain values.
pub open spec fn pool_amount_out(
    pool: PoolView,
    token_in: AccountId,
    token_out: AccountId,
    amount_in: u128,
    reply: PoolReply,
) -> Result<u128, RouterV2Error> {
    match (pool, reply) {
        (PoolView::Pair(p), PoolReply::Reserves(r0, r1)) => if !pair_has_tokens(
            p,
            token_in,
            token_out,
        ) {
            Err(RouterV2Error::InvalidPath)
        } else {
            pair_amount_out(
                amount_in,
                oriented(token_in, token_out, (r0, r1)).0,
                oriented(token_in, token_out, (r0, r1)).1,
                p.fee,
            )
        },
        (PoolView::StablePool(_, _), PoolReply::Quote(q)) => match q {
            Ok((a, _)) => Ok(a),
            Err(e) => Err(RouterV2Error::StablePoolError(e)),
        },
        _ => Err(RouterV2Error::InvalidPoolAddress),
    }
}

/// `Pool::swap` on plain values.
pub open spec fn pool_swap(
    pool: PoolView,
    token_in: AccountId,
    token_out: AccountId,
    amount_out: u128,
    to: AccountId,
) -> Result<SwapCall, RouterV2Error> {
    match pool {
        PoolView::Pair(p) => if !pair_has_tokens(p, token_in, token_out) {
            Err(RouterV2Error::InvalidPath)
        } else if account_lt(token_in, token_out) {
            Ok(SwapCall::Pair { pair: p.id, amount_0_out: 0, amount_1_out: amount_out, to })
        } else {
            Ok(SwapCall::Pair { pair: p.id, amount_0_out: amount_out, amount_1_out: 0, to })
        },
        PoolView::StablePool(id, _) => Ok(
            SwapCall::StablePool { pool: id, token_in, token_out, amount_out, to },
        ),
    }
}

impl Pool {
    /// The pool `pool_id`: the pair if it answered as a pair, else the
    /// stable pool if it answered as one, else none.
    pub fn try_new(pair: Option<Pair>, stable_pool: Option<StablePool>) -> (r: Option<Self>)
        ensures
            pair is Some ==> r == Some(Pool::Pair(pair.unwrap())),
            pair is None && stable_pool is Some ==> r == Some(
                Pool::StablePool(stable_pool.unwrap()),
            ),
            pair is None && stable_pool is None ==> r is None,
    {
        match pair {
            Some(p) => Some(Pool::Pair(p)),
            None => match stable_pool {
                Some(s) => Some(Pool::StablePool(s)),
                None => None,
            },
        }
    }

    /// A copy of the pool.
    pub fn duplicate(&self) -> (r: Self)
        ensures
            r@ == self@,
    {
        match self {
            Pool::Pair(p) => Pool::Pair(*p),
            Pool::StablePool(s) => Pool::StablePool(
                StablePool { id: s.id, tokens: copy_accounts(&s.tokens) },
            ),
        }
    }

    /// The input that a trade through the pool for `amount_out` costs, from
    /// what the pool replied to the price query.
    pub fn get_amount_in(
        &self,
        token_in: AccountId,
        token_out: AccountId,
        amount_out: u128,
        reply: PoolReply,
    ) -> (r: Result<u128, RouterV2Error>)
        ensures
            r == pool_amount_in(self@, token_in, token_out, amount_out, reply),
    {
        match (self, reply) {
            (Pool::Pair(p), PoolReply::Reserves(r0, r1)) => p.get_amount_in(
                token_in,
                token_out,
                amount_out,
                (r0, r1),
            ),
            (Pool::StablePool(s), PoolReply::Quote(q)) => s.get_amount_in(q),
            _ => Err(RouterV2Error::InvalidPoolAddress),
        }
    }

    /// The output of a trade of `amount_in` through the pool, from what the
    /// pool replied to the price query.
    pub fn get_amount_out(
        &self,
        token_in: AccountId,
        token_out: AccountId,
        amount_in: u128,
        reply: PoolReply,
    ) -> (r: Result<u128, RouterV2Error>)
        ensures
            r == pool_amount_out(self@, token_in, token_out, amount_in, reply),
    {
        match (self, reply) {
            (Pool::Pair(p), PoolReply::Reserves(r0, r1)) => p.get_amount_out(
                token_in,
                token_out,
                amount_in,
                (r0, r1),
            ),
            (Pool::StablePool(s), PoolReply::Quote(q)) => s.get_amount_out(q),
            _ => Err(RouterV2Error::InvalidPoolAddress),
        }
    }

    /// The call that makes the pool pay `amount_out` of `token_out` to `to`
    /// for the `token_in` it received.
    pub fn swap(&self, token_in: AccountId, token_out: AccountId, amount_out: u128, to: AccountId) -> (r:
        Result<SwapCall, RouterV2Error>)
        ensures
            r == pool_swap(self@, token_in, token_out, amount_out, to),
    {
        match self {
            Pool::Pair(p) => match p.swap(token_in, token_out, amount_out) {
                Ok((amount_0_out, amount_1_out)) => Ok(
                    SwapCall::Pair { pair: p.id, amount_0_out, amount_1_out, to },
                ),
                Err(e) => Err(e),
            },
            Pool::StablePool(s) => Ok(
                SwapCall::StablePool { pool: s.id, token_in, token_out, amount_out, to },
            ),
        }
    }
}

/// The router: a pair factory, the wrapped native token, and the pools it
/// has met, each under its address (a later entry for an address wins).
#[derive(Debug)]
pub struct RouterV2Contract {
    pub pair_factory: AccountId,
    pub wnative: AccountId,
    pub cached_pools: Vec<(AccountId, Pool)>,
}

/// The cached pools as a map from address to pool.
pub open spec fn cache_view(s: Seq<(AccountId, Pool)>) -> Map<AccountId, PoolView>
    decreases s.len(),
{
    if s.len() == 0 {
        Map::empty()
    } else {
        cache_view(s.drop_last()).insert(s.last().0, s.last().1@)
    }
}

proof fn lemma_cache_tail(s: Seq<(AccountId, Pool)>, id: AccountId, k: int)
    requires
        0 <= k <= s.len(),
        forall|j: int| k <= j < s.len() ==> (#[trigger] s[j]).0 != id,
    ensures
        cache_view(s).dom().contains(id) == cache_view(s.take(k)).dom().contains(id),
        cache_view(s).dom().contains(id) ==> cache_view(s)[id] == cache_view(s.take(k))[id],
    decreases s.len(),
{
    if s.len() > k {
        let t = s.drop_last();
        assert forall|j: int| k <= j < t.len() implies (#[trigger] t[j]).0 != id by {
            assert(t[j] == s[j]);
        }
        lemma_cache_tail(t, id, k);
        assert(t.take(k) =~= s.take(k));
        assert(s[s.len() - 1].0 != id);
    } else {
        assert(s.take(k) =~= s);
    }
}

/// The hop `i` of a trade along `path` ends in this token.
pub open spec fn hop_token_out(path: Seq<Step>, token_out: AccountId, i: int) -> AccountId {
    if i + 1 < path.len() {
        path[i + 1].token_in
    } else {
        token_out
    }
}

/// The hop `i` of a trade along `path` pays out to this account: the next
/// pool, or `to` at the last hop.
pub open spec fn hop_recipient(path: Seq<Step>, to: AccountId, i: int) -> AccountId {
    if i + 1 < path.len() {
        path[i + 1].pool_id
    } else {
        to
    }
}

/// The calls of the first `k` hops of a trade with `amounts` along `path`,
/// `pools[i]` being the pool of `path[i]`.
pub open spec fn swap_calls_spec(
    amounts: Seq<u128>,
    path: Seq<Step>,
    pools: Seq<PoolView>,
    token_out: AccountId,
    to: AccountId,
    k: nat,
) -> Result<Seq<SwapCall>, RouterV2Error>
    decreases k,
{
    if k == 0 {
        Ok(Seq::empty())
    } else {
        match swap_calls_spec(amounts, path, pools, token_out, to, (k - 1) as nat) {
            Err(e) => Err(e),
            Ok(calls) => {
                let i = k - 1;
                match pool_swap(
                    pools[i],
                    path[i].token_in,
                    hop_token_out(path, token_out, i),
                    amounts[i + 1],
                    hop_recipient(path, to, i),
                ) {
                    Err(e) => Err(e),
                    Ok(c) => Ok(calls.push(c)),
                }
            },
        }
    }
}

/// The account that a hop's call pays out to.
pub open spec fn call_recipient(c: SwapCall) -> AccountId {
    match c {
        SwapCall::Pair { to, .. } => to,
        SwapCall::StablePool { to, .. } => to,
    }
}

proof fn lemma_swap_calls_recipients(
    amounts: Seq<u128>,
    path: Seq<Step>,
    pools: Seq<PoolView>,
    token_out: AccountId,
    to: AccountId,
    k: nat,
)
    requires
        swap_calls_spec(amounts, path, pools, token_out, to, k) is Ok,
    ensures
        swap_calls_spec(amounts, path, pools, token_out, to, k).unwrap().len() == k,
        forall|i: int|
            0 <= i < k ==> call_recipient(
                #[trigger] swap_calls_spec(amounts, path, pools, token_out, to, k).unwrap()[i],
            ) == hop_recipient(path, to, i),
    decreases k,
{
    if k > 0 {
        lemma_swap_calls_recipients(amounts, path, pools, token_out, to, (k - 1) as nat);
        let prev = swap_calls_spec(amounts, path, pools, token_out, to, (k - 1) as nat).unwrap();
        let all = swap_calls_spec(amounts, path, pools, token_out, to, k).unwrap();
        assert forall|i: int| 0 <= i < k implies call_recipient(#[trigger] all[i]) == hop_recipient(
            path,
            to,
            i,
        ) by {
            if i < k - 1 {
                assert(all[i] == prev[i]);
            }
        }
    }
}

/// A trade pays no token to the router: hop `i` pays the next pool of the
/// path, and the last hop pays `to` (the first pool is paid by the trader
/// directly). So a router that is neither a pool of the path nor the
/// recipient ends the trade holding what it held before.
pub proof fn law_trade_pays_router_nothing(
    amounts: Seq<u128>,
    path: Seq<Step>,
    pools: Seq<PoolView>,
    token_out: AccountId,
    to: AccountId,
    router: AccountId,
)
    requires
        swap_calls_spec(amounts, path, pools, token_out, to, path.len()) is Ok,
        router != to,
        forall|i: int| 0 <= i < path.len() ==> (#[trigger] path[i]).pool_id != router,
    ensures
        forall|i: int|
            0 <= i < path.len() ==> call_recipient(
                #[trigger] swap_calls_spec(amounts, path, pools, token_out, to, path.len()).unwrap()[i],
            ) != router,
{
    lemma_swap_calls_recipients(amounts, path, pools, token_out, to, path.len());
    let calls = swap_calls_spec(amounts, path, pools, token_out, to, path.len()).unwrap();
    assert forall|i: int| 0 <= i < path.len() implies call_recipient(#[trigger] calls[i]) != router by {
        if i + 1 < path.len() {
            assert(path[i + 1].pool_id != router);
        }
    }
}

proof fn lemma_swap_calls_err(
    amounts: Seq<u128>,
    path: Seq<Step>,
    pools: Seq<PoolView>,
    token_out: AccountId,
    to: AccountId,
    k: nat,
    m: nat,
)
    requires
        swap_calls_spec(amounts, path, pools, token_out, to, k) is Err,
        k <= m,
    ensures
        swap_calls_spec(amounts, path, pools, token_out, to, m) == swap_calls_spec(
            amounts,
            path,
            pools,
            token_out,
            to,
            k,
        ),
    decreases m - k,
{
    if k < m {
        lemma_swap_calls_err(amounts, path, pools, token_out, to, k, (m - 1) as nat);
    }
}

impl RouterV2Contract {
    /// A router for the pairs of `pair_factory`, with no pool cached.
    pub fn new(pair_factory: AccountId, wnative: AccountId) -> (r: Self)
        ensures
            r.pair_factory == pair_factory,
            r.wnative == wnative,
            cache_view(r.cached_pools@) == Map::<AccountId, PoolView>::empty(),
    {
        RouterV2Contract { pair_factory, wnative, cached_pools: Vec::new() }
    }

    /// The pair factory.
    pub fn pair_factory(&self) -> (r: AccountId)
        ensures
            r == self.pair_factory,
    {
        self.pair_factory
    }

    /// The wrapped native token.
    pub fn wnative(&self) -> (r: AccountId)
        ensures
            r == self.wnative,
    {
        self.wnative
    }

    /// The cached pool at `pool_id`.
    pub fn read_cached_pool(&self, pool_id: AccountId) -> (r: Option<Pool>)
        ensures
            cache_view(self.cached_pools@).dom().contains(pool_id) <==> r is Some,
            r is Some ==> r.unwrap()@ == cache_view(self.cached_pools@)[pool_id],
    {
        let ghost s = self.cached_pools@;
        let mut i: usize = self.cached_pools.len();
        while i > 0
            invariant
                s == self.cached_pools@,
                i <= s.len(),
                forall|j: int| i <= j < s.len() ==> (#[trigger] s[j]).0 != pool_id,
            decreases i,
        {
            if self.cached_pools[i - 1].0 == pool_id {
                proof {
                    lemma_cache_tail(s, pool_id, i as int);
                    assert(s.take(i as int).drop_last() =~= s.take(i - 1));
                }
                return Some(self.cached_pools[i - 1].1.duplicate());
            }
            i = i - 1;
        }
        proof {
            lemma_cache_tail(s, pool_id, 0);
        }
        None
    }

    /// The pool at `pool_id`: the cached one, else the one that `probed`
    /// found at that address, which is then cached; `InvalidPoolAddress`
    /// when neither is there.
    pub fn get_and_cache_pool(&mut self, pool_id: AccountId, probed: Option<Pool>) -> (r: Result<
        Pool,
        RouterV2Error,
    >)
        ensures
            final(self).pair_factory == old(self).pair_factory,
            final(self).wnative == old(self).wnative,
            cache_view(old(self).cached_pools@).dom().contains(pool_id) ==> {
                &&& r is Ok
                &&& r.unwrap()@ == cache_view(old(self).cached_pools@)[pool_id]
                &&& cache_view(final(self).cached_pools@) == cache_view(old(self).cached_pools@)
            },
            !cache_view(old(self).cached_pools@).dom().contains(pool_id) && probed is Some ==> {
                &&& r is Ok
                &&& r.unwrap()@ == probed.unwrap()@
                &&& cache_view(final(self).cached_pools@) == cache_view(
                    old(self).cached_pools@,
                ).insert(pool_id, probed.unwrap()@)
            },
            !cache_view(old(self).cached_pools@).dom().contains(pool_id) && probed is None ==> {
                &&& r == Err::<Pool, RouterV2Error>(RouterV2Error::InvalidPoolAddress)
                &&& cache_view(final(self).cached_pools@) == cache_view(old(self).cached_pools@)
            },
    {
        match self.read_cached_pool(pool_id) {
            Some(pool) => Ok(pool),
            None => match probed {
                Some(pool) => {
                    let copy = pool.duplicate();
                    let ghost before = self.cached_pools@;
                    self.cached_pools.push((pool_id, pool));
                    proof {
                        assert(self.cached_pools@.drop_last() =~= before);
                    }
                    Ok(copy)
                },
                None => Err(RouterV2Error::InvalidPoolAddress),
            },
        }
    }

    /// Like `get_and_cache_pool`, for a pool that must be a stable pool.
    pub fn get_and_cache_stable_pool(&mut self, pool_id: AccountId, probed: Option<Pool>) -> (r:
        Result<StablePool, RouterV2Error>)
        ensures
            final(self).pair_factory == old(self).pair_factory,
            final(self).wnative == old(self).wnative,
            ({
                let found = if cache_view(old(self).cached_pools@).dom().contains(pool_id) {
                    Some(cache_view(old(self).cached_pools@)[pool_id])
                } else {
                    match probed {
                        Some(p) => Some(p@),
                        None => None,
                    }
                };
                match found {
                    None => r == Err::<StablePool, RouterV2Error>(
                        RouterV2Error::InvalidPoolAddress,
                    ),
                    Some(PoolView::Pair(_)) => r == Err::<StablePool, RouterV2Error>(
                        RouterV2Error::InvalidPoolAddress,
                    ),
                    Some(PoolView::StablePool(id, tokens)) => r is Ok && r.unwrap().id == id
                        && r.unwrap().tokens@ == tokens,
                }
            }),
    {
        match self.get_and_cache_pool(pool_id, probed) {
            Ok(Pool::StablePool(pool)) => Ok(pool),
            Ok(Pool::Pair(_)) => Err(RouterV2Error::InvalidPoolAddress),
            Err(e) => Err(e),
        }
    }

    /// Like `get_and_cache_pool`, for a pool that must be a pair; `pool_id`
    /// is the given pair or the one that the factory just created.
    pub fn get_and_cache_pair(&mut self, pool_id: AccountId, probed: Option<Pool>) -> (r: Result<
        Pair,
        RouterV2Error,
    >)
        ensures
            final(self).pair_factory == old(self).pair_factory,
            final(self).wnative == old(self).wnative,
            ({
                let found = if cache_view(old(self).cached_pools@).dom().contains(pool_id) {
                    Some(cache_view(old(self).cached_pools@)[pool_id])
                } else {
                    match probed {
                        Some(p) => Some(p@),
                        None => None,
                    }
                };
                match found {
                    None => r == Err::<Pair, RouterV2Error>(RouterV2Error::InvalidPoolAddress),
                    Some(PoolView::StablePool(_, _)) => r == Err::<Pair, RouterV2Error>(
                        RouterV2Error::InvalidPoolAddress,
                    ),
                    Some(PoolView::Pair(p)) => r == Ok::<Pair, RouterV2Error>(p),
                }
            }),
    {
        match self.get_and_cache_pool(pool_id, probed) {
            Ok(Pool::Pair(pair)) => Ok(pair),
            Ok(Pool::StablePool(_)) => Err(RouterV2Error::InvalidPoolAddress),
            Err(e) => Err(e),
        }
    }

    /// The calls that carry out a trade with `amounts` along `path`, ending
    /// in `token_out` paid to `to`; `pools[i]` is the pool of `path[i]`.
    pub fn swap(
        &self,
        amounts: &Vec<u128>,
        path: &Vec<Step>,
        pools: &Vec<Pool>,
        token_out: AccountId,
        to: AccountId,
    ) -> (r: Result<Vec<SwapCall>, RouterV2Error>)
        requires
            path@.len() >= 1,
            amounts@.len() == path@.len() + 1,
            pools@.len() == path@.len(),
        ensures
            ({
                let views = pools@.map_values(|p: Pool| p@);
                match swap_calls_spec(amounts@, path@, views, token_out, to, path@.len()) {
                    Ok(calls) => r is Ok && r.unwrap()@ == calls,
                    Err(e) => r == Err::<Vec<SwapCall>, RouterV2Error>(e),
                }
            }),
    {
        let ghost views = pools@.map_values(|p: Pool| p@);
        let n = path.len();
        let mut calls: Vec<SwapCall> = Vec::new();
        let mut i: usize = 0;
        while i < n
            invariant
                n == path@.len(),
                amounts@.len() == n + 1,
                pools@.len() == n,
                views == pools@.map_values(|p: Pool| p@),
                i <= n,
                swap_calls_spec(amounts@, path@, views, token_out, to, i as nat) == Ok::<
                    Seq<SwapCall>,
                    RouterV2Error,
                >(calls@),
            decreases n - i,
        {
            let (next_token, recipient) = if i + 1 < n {
                (path[i + 1].token_in, path[i + 1].pool_id)
            } else {
                (token_out, to)
            };
            proof {
                assert(views[i as int] == pools@[i as int]@);
            }
            match pools[i].swap(path[i].token_in, next_token, amounts[i + 1], recipient) {
                Ok(c) => calls.push(c),
                Err(e) => {
                    proof {
                        lemma_swap_calls_err(
                            amounts@,
                            path@,
                            views,
                            token_out,
                            to,
                            (i + 1) as nat,
                            n as nat,
                        );
                    }
                    return Err(e);
                },
            }
            i = i + 1;
        }
        Ok(calls)
    }
}

/// The last of the computed `amounts` must reach `amount_out_min`.
pub fn check_amount_out_min(amounts: &Vec<u128>, amount_out_min: u128) -> (r: Result<
    (),
    RouterV2Error,
>)
    ensures
        amounts@.len() == 0 ==> r == Err::<(), RouterV2Error>(RouterV2Error::EmptyAmounts),
        amounts@.len() > 0 && amounts@.last() < amount_out_min ==> r == Err::<(), RouterV2Error>(
            RouterV2Error::InsufficientOutputAmount,
        ),
        amounts@.len() > 0 && amounts@.last() >= amount_out_min ==> r is Ok,
{
    if amounts.len() == 0 {
        return Err(RouterV2Error::EmptyAmounts);
    }
    if !(amounts[amounts.len() - 1] >= amount_out_min) {
        return Err(RouterV2Error::InsufficientOutputAmount);
    }
    Ok(())
}

/// The first of the computed `amounts` must not exceed `amount_in_max`.
pub fn check_amount_in_max(amounts: &Vec<u128>, amount_in_max: u128) -> (r: Result<
    (),
    RouterV2Error,
>)
    requires
        amounts@.len() > 0,
    ensures
        amounts@[0] <= amount_in_max ==> r is Ok,
        amounts@[0] > amount_in_max ==> r == Err::<(), RouterV2Error>(
            RouterV2Error::ExcessiveInputAmount,
        ),
{
    if !(amounts[0] <= amount_in_max) {
        return Err(RouterV2Error::ExcessiveInputAmount);
    }
    Ok(())
}

/// A trade paid in the native token must start with the wrapped native token.
pub fn check_native_in(path: &Vec<Step>, wnative: AccountId) -> (r: Result<(), RouterV2Error>)
    requires
        path@.len() > 0,
    ensures
        path@[0].token_in == wnative ==> r is Ok,
        path@[0].token_in != wnative ==> r == Err::<(), RouterV2Error>(
            RouterV2Error::InvalidToken,
        ),
{
    if !(path[0].token_in == wnative) {
        return Err(RouterV2Error::InvalidToken);
    }
    Ok(())
}

/// What a trade for exactly `amount_out` paid with `received_native` needs
/// of it (`amounts[0]`), and what goes back to the caller.
pub fn native_in_and_refund(amounts: &Vec<u128>, received_native: u128) -> (r: Result<
    (u128, u128),
    RouterV2Error,
>)
    requires
        amounts@.len() > 0,
    ensures
        amounts@[0] > received_native ==> r == Err::<(u128, u128), RouterV2Error>(
            RouterV2Error::ExcessiveInputAmount,
        ),
        amounts@[0] <= received_native ==> r == Ok::<(u128, u128), RouterV2Error>(
            (amounts@[0], (received_native - amounts@[0]) as u128),
        ),
{
    let native_in = amounts[0];
    if !(native_in <= received_native) {
        return Err(RouterV2Error::ExcessiveInputAmount);
    }
    Ok((native_in, received_native - native_in))
}

/// Whatever a pair's fee, paying what `get_amount_in` asks for an output
/// buys at least that output from `get_amount_out`, whenever both succeed.
pub proof fn law_pair_amount_in_buys_amount_out(amount_out: u128, r_in: u128, r_out: u128, fee: u8)
    requires
        pair_amount_in(amount_out, r_in, r_out, fee) is Ok,
        pair_amount_out(pair_amount_in(amount_out, r_in, r_out, fee).unwrap(), r_in, r_out, fee) is Ok,
    ensures
        pair_amount_out(pair_amount_in(amount_out, r_in, r_out, fee).unwrap(), r_in, r_out, fee).unwrap()
            >= amount_out,
{
    let a = amount_in_formula(amount_out as nat, r_in as nat, r_out as nat, fee_num(fee));
    assert(a < two_pow_128());
    let x = pair_amount_in(amount_out, r_in, r_out, fee).unwrap();
    assert(x as nat == a);
    lemma_amount_in_buys_amount_out(amount_out as nat, r_in as nat, r_out as nat, fee_num(fee));
    lemma_amount_out_below_reserve(a, r_in as nat, r_out as nat, fee_num(fee));
}

/// The next step of computing the amounts of a trade of exactly
/// `amounts[0]` along `path`: the hop after the last amount, priced by its
/// pool `pool` from the pool's `reply`, appends its output.
pub fn push_amount_out(
    amounts: &mut Vec<u128>,
    path: &Vec<Step>,
    token_out: AccountId,
    pool: &Pool,
    reply: PoolReply,
) -> (r: Result<(), RouterV2Error>)
    requires
        1 <= old(amounts)@.len() <= path@.len(),
    ensures
        ({
            let i = old(amounts)@.len() - 1;
            let hop = pool_amount_out(
                pool@,
                path@[i].token_in,
                hop_token_out(path@, token_out, i),
                old(amounts)@[i],
                reply,
            );
            match hop {
                Ok(x) => r is Ok && final(amounts)@ == old(amounts)@.push(x),
                Err(e) => r == Err::<(), RouterV2Error>(e) && final(amounts)@ == old(amounts)@,
            }
        }),
{
    let i = amounts.len() - 1;
    let next = if i + 1 < path.len() {
        path[i + 1].token_in
    } else {
        token_out
    };
    match pool.get_amount_out(path[i].token_in, next, amounts[i], reply) {
        Ok(x) => {
            amounts.push(x);
            Ok(())
        },
        Err(e) => Err(e),
    }
}

/// The next step of computing the amounts of a trade for exactly
/// `amounts[path.len()]`, from the last hop back: hop `i` (whose output
/// `amounts[i + 1]` is known), priced by its pool from the pool's `reply`,
/// sets the input `amounts[i]`.
pub fn set_amount_in(
    amounts: &mut Vec<u128>,
    i: usize,
    path: &Vec<Step>,
    token_out: AccountId,
    pool: &Pool,
    reply: PoolReply,
) -> (r: Result<(), RouterV2Error>)
    requires
        old(amounts)@.len() == path@.len() + 1,
        i < path@.len(),
    ensures
        ({
            let hop = pool_amount_in(
                pool@,
                path@[i as int].token_in,
                hop_token_out(path@, token_out, i as int),
                old(amounts)@[i + 1],
                reply,
            );
            match hop {
                Ok(x) => r is Ok && final(amounts)@ == old(amounts)@.update(i as int, x),
                Err(e) => r == Err::<(), RouterV2Error>(e) && final(amounts)@ == old(amounts)@,
            }
        }),
{
    let next = if i < path.len() - 1 {
        path[i + 1].token_in
    } else {
        token_out
    };
    match pool.get_amount_in(path[i].token_in, next, amounts[i + 1], reply) {
        Ok(x) => {
            amounts.set(i, x);
            Ok(())
        },
        Err(e) => Err(e),
    }
}

} // verus!
