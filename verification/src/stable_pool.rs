//! The stable-swap pool contract: its tokens, their precisions and rates,
//! its reserves, fees and amplification coefficient, and its liquidity
//! token.
//!
//! The stable-swap invariant arithmetic (how much a trade yields or a
//! deposit mints) is computed outside this module; its results are handed
//! in, and this module decides what the pool does with them.
use crate::account::AccountId;
use crate::amp_coef::{amp_at, ramp_check, AmpCoef};
use crate::constants::stable_pool::{
    FEE_DENOM, MAX_COINS, MAX_PROTOCOL_FEE, MAX_TRADE_FEE, RATE_PRECISION, TOKEN_TARGET_DECIMALS,
};
use crate::errors::{MathError, Ownable2StepError, PSP22Error, StablePoolError};
use crate::ledger::{
    ledger_balance, ledger_balance_of, ledger_balances, ledger_burn, ledger_burned, ledger_mint, ledger_minted,
    ledger_new, ledger_supply, ledger_total_supply, lp_minted, supply_overflow,
};
use crate::ownable::Ownable2StepData;
use crate::token_rate::{token_rate_update, TokenRate};
use crate::u256::{
    casted_mul, u256_checked_div, u256_from_u128, u256_try_into_u128,
};
use vstd::prelude::*;

verus! {

/// The trade fee and the protocol's share of it, both in parts of
/// `FEE_DENOM`.
#[derive(Debug, Clone, Copy, PartialEq, Eq)]
pub struct Fees {
    pub trade_fee: u32,
    pub protocol_fee: u32,
}

impl Fees {
    /// Both fees within their limits.
    pub open spec fn wf(self) -> bool {
        self.trade_fee <= MAX_TRADE_FEE && self.protocol_fee <= MAX_PROTOCOL_FEE
    }

    /// The fees, when both are within their limits.
    pub fn new(trade_fee: u32, protocol_fee: u32) -> (r: Option<Fees>)
        ensures
            trade_fee <= MAX_TRADE_FEE && protocol_fee <= MAX_PROTOCOL_FEE ==> r == Some(
                Fees { trade_fee, protocol_fee },
            ),
            !(trade_fee <= MAX_TRADE_FEE && protocol_fee <= MAX_PROTOCOL_FEE) ==> r is None,
    {
        if trade_fee <= MAX_TRADE_FEE && protocol_fee <= MAX_PROTOCOL_FEE {
            Some(Fees { trade_fee, protocol_fee })
        } else {
            None
        }
    }

    /// The protocol's part of a trade fee `fee`: `fee * protocol_fee / FEE_DENOM`.
    pub fn protocol_trade_fee(&self, fee: u128) -> (r: u128)
        requires
            self.wf(),
        ensures
            r == (fee as nat) * (self.protocol_fee as nat) / (FEE_DENOM as nat),
            r <= fee,
    {
        let product = casted_mul(fee, self.protocol_fee as u128);
        let ghost q = (fee as nat) * (self.protocol_fee as nat) / (FEE_DENOM as nat);
        proof {
            assert(q <= fee) by (nonlinear_arith)
                requires
                    q == (fee as nat) * (self.protocol_fee as nat) / (FEE_DENOM as nat),
                    self.protocol_fee <= FEE_DENOM,
                    FEE_DENOM > 0,
            {
                assert((fee as nat) * (self.protocol_fee as nat) <= (fee as nat) * (
                FEE_DENOM as nat));
            }
        }
        match u256_checked_div(product, u256_from_u128(FEE_DENOM as u128)) {
            Some(quotient) => match u256_try_into_u128(quotient) {
                Some(v) => v,
                None => {
                    proof {
                        assert(false);
                    }
                    0
                },
            },
            None => {
                proof {
                    assert(false);
                }
                0
            },
        }
    }
}

/// 10 to the power `n`.
pub open spec fn pow10(n: nat) -> nat
    decreases n,
{
    if n == 0 {
        1
    } else {
        10 * pow10((n - 1) as nat)
    }
}

proof fn lemma_pow10_mono(n: nat, m: nat)
    requires
        n <= m,
    ensures
        1 <= pow10(n) <= pow10(m),
    decreases m,
{
    if n < m {
        lemma_pow10_mono(n, (m - 1) as nat);
    } else if n > 0 {
        lemma_pow10_mono((n - 1) as nat, (n - 1) as nat);
    }
}

proof fn lemma_pow10_18()
    ensures
        pow10(18) == 1_000_000_000_000_000_000,
{
    reveal_with_fuel(pow10, 19);
}

/// No address occurs twice.
pub open spec fn distinct_accounts(s: Seq<AccountId>) -> bool {
    forall|i: int, j: int| 0 <= i < j < s.len() ==> s[i] != s[j]
}

/// The factor that brings an amount with `decimals` decimals to
/// `TOKEN_TARGET_DECIMALS` decimals.
pub open spec fn precision_of(decimals: u8) -> nat {
    pow10((TOKEN_TARGET_DECIMALS - decimals) as nat)
}

/// The checks of `new_pool`, in order.
pub open spec fn new_pool_check(
    tokens: Seq<AccountId>,
    tokens_decimals: Seq<u8>,
    rates_count: nat,
    amp_coef: u128,
    fees: Option<Fees>,
) -> Result<(), StablePoolError> {
    if !distinct_accounts(tokens) {
        Err(StablePoolError::IdenticalTokenId)
    } else if !(tokens.len() == tokens_decimals.len() && tokens.len() == rates_count && 2
        <= tokens.len() <= MAX_COINS) {
        Err(StablePoolError::IncorrectTokenCount)
    } else if exists|i: int| 0 <= i < tokens_decimals.len() && #[trigger] tokens_decimals[i]
        > TOKEN_TARGET_DECIMALS {
        Err(StablePoolError::TooLargeTokenDecimal)
    } else if amp_coef < crate::constants::stable_pool::MIN_AMP {
        Err(StablePoolError::AmpCoefTooLow)
    } else if amp_coef > crate::constants::stable_pool::MAX_AMP {
        Err(StablePoolError::AmpCoefTooHigh)
    } else if fees is None {
        Err(StablePoolError::InvalidFee)
    } else {
        Ok(())
    }
}

/// What the pool holds besides its owner and its liquidity token.
#[derive(Debug)]
pub struct StablePoolData {
    /// List of tokens.
    pub tokens: Vec<AccountId>,
    /// Tokens precision factors used for normalization.
    pub precisions: Vec<u128>,
    /// Reserves of tokens
    pub reserves: Vec<u128>,
    /// Means of getting token rates, either constant or external contract call.
    pub token_rates: Vec<TokenRate>,
    /// Amplification coefficient.
    pub amp_coef: AmpCoef,
    /// Fees
    pub fees: Fees,
    /// Who receives protocol fees (if any).
    pub fee_receiver: Option<AccountId>,
}

impl StablePoolData {
    /// Between 2 and `MAX_COINS` distinct tokens, one precision (a power of
    /// ten up to 10^18), reserve and rate each; a valid coefficient and fees.
    pub open spec fn wf(&self) -> bool {
        let n = self.tokens@.len();
        &&& 2 <= n <= MAX_COINS
        &&& self.precisions@.len() == n
        &&& self.reserves@.len() == n
        &&& self.token_rates@.len() == n
        &&& distinct_accounts(self.tokens@)
        &&& forall|i: int| 0 <= i < n ==> 1 <= #[trigger] self.precisions@[i] <= pow10(18)
        &&& self.amp_coef.wf()
        &&& self.fees.wf()
    }
}

/// The stable-swap pool: its owner, its data and its liquidity token.
/// The ledger's balances and allowances live in the storage of the running
/// contract, so a process runs one such value per contract.
pub struct StablePoolContract {
    pub ownable: Ownable2StepData,
    pub pool: StablePoolData,
    pub psp22: psp22::PSP22Data,
}

/// Whether the addresses of `tokens` are distinct, by comparing each pair.
fn accounts_distinct(tokens: &Vec<AccountId>) -> (r: bool)
    ensures
        r == distinct_accounts(tokens@),
{
    let n = tokens.len();
    let mut i: usize = 0;
    while i < n
        invariant
            n == tokens@.len(),
            i <= n,
            forall|a: int, b: int| 0 <= a < b < n && a < i ==> tokens@[a] != tokens@[b],
        decreases n - i,
    {
        let mut j: usize = i + 1;
        while j < n
            invariant
                n == tokens@.len(),
                i < n,
                i + 1 <= j <= n,
                forall|a: int, b: int| 0 <= a < b < n && a < i ==> tokens@[a] != tokens@[b],
                forall|b: int| i < b < j ==> tokens@[i as int] != tokens@[b],
            decreases n - j,
        {
            if tokens[i] == tokens[j] {
                return false;
            }
            j = j + 1;
        }
        i = i + 1;
    }
    true
}

/// `10^n` for `n <= 18`.
fn pow10_u128(n: u8) -> (r: u128)
    requires
        n <= 18,
    ensures
        r == pow10(n as nat),
        1 <= r <= pow10(18),
{
    proof {
        lemma_pow10_18();
        lemma_pow10_mono(n as nat, 18);
    }
    let mut r: u128 = 1;
    let mut k: u8 = 0;
    while k < n
        invariant
            k <= n <= 18,
            r == pow10(k as nat),
            pow10(18) == 1_000_000_000_000_000_000,
        decreases n - k,
    {
        proof {
            lemma_pow10_mono((k + 1) as nat, 18);
        }
        r = r * 10;
        k = k + 1;
    }
    r
}

impl StablePoolContract {
    /// A pool of `tokens` with the given decimals, rates, coefficient, owner,
    /// fees (`None` when they were out of bounds) and fee receiver, holding
    /// nothing. Fails when a token occurs twice, the counts differ or are
    /// outside `2..=MAX_COINS`, a token has more than `TOKEN_TARGET_DECIMALS`
    /// decimals, the coefficient is out of bounds, or there are no fees.
    pub fn new_pool(
        tokens: Vec<AccountId>,
        tokens_decimals: Vec<u8>,
        token_rates: Vec<TokenRate>,
        amp_coef: u128,
        owner: AccountId,
        fees: Option<Fees>,
        fee_receiver: Option<AccountId>,
    ) -> (r: Result<Self, StablePoolError>)
        requires
            fees is Some ==> fees.unwrap().wf(),
        ensures
            ({
                let check = new_pool_check(
                    tokens@,
                    tokens_decimals@,
                    token_rates@.len(),
                    amp_coef,
                    fees,
                );
                match check {
                    Err(e) => r matches Err(f) && f == e,
                    Ok(()) => r matches Ok(c) && {
                        &&& c.pool.wf()
                        &&& c.pool.tokens@ == tokens@
                        &&& c.pool.token_rates@ == token_rates@
                        &&& c.pool.reserves@ == Seq::new(tokens@.len(), |i: int| 0u128)
                        &&& forall|i: int|
                            0 <= i < tokens@.len() ==> c.pool.precisions@[i] == precision_of(
                                #[trigger] tokens_decimals@[i],
                            )
                        &&& c.pool.amp_coef == (AmpCoef {
                            init_amp_coef: amp_coef,
                            future_amp_coef: amp_coef,
                            init_time: 0,
                            future_time: 0,
                        })
                        &&& c.pool.fees == fees.unwrap()
                        &&& c.pool.fee_receiver == fee_receiver
                        &&& c.ownable == (Ownable2StepData { owner, pending_owner: None })
                        &&& ledger_supply(c.psp22) == 0
                    },
                }
            }),
    {
        let token_count = tokens.len();
        if !accounts_distinct(&tokens) {
            return Err(StablePoolError::IdenticalTokenId);
        }
        if !(token_count == tokens_decimals.len() && token_count == token_rates.len() && 2
            <= token_count && token_count <= MAX_COINS) {
            return Err(StablePoolError::IncorrectTokenCount);
        }
        let mut i: usize = 0;
        while i < token_count
            invariant
                token_count == tokens_decimals@.len(),
                token_count == tokens@.len(),
                token_count == token_rates@.len(),
                2 <= token_count <= MAX_COINS,
                distinct_accounts(tokens@),
                i <= token_count,
                forall|k: int| 0 <= k < i ==> #[trigger] tokens_decimals@[k] <= TOKEN_TARGET_DECIMALS,
            decreases token_count - i,
        {
            if tokens_decimals[i] > TOKEN_TARGET_DECIMALS {
                proof {
                    assert(tokens_decimals@[i as int] > TOKEN_TARGET_DECIMALS);
                }
                return Err(StablePoolError::TooLargeTokenDecimal);
            }
            i = i + 1;
        }
        let mut precisions: Vec<u128> = Vec::new();
        let mut reserves: Vec<u128> = Vec::new();
        let mut i: usize = 0;
        while i < token_count
            invariant
                token_count == tokens_decimals@.len(),
                i <= token_count,
                forall|k: int| 0 <= k < token_count ==> #[trigger] tokens_decimals@[k] <= TOKEN_TARGET_DECIMALS,
                precisions@.len() == i,
                reserves@.len() == i,
                forall|k: int| 0 <= k < i ==> #[trigger] reserves@[k] == 0,
                forall|k: int|
                    0 <= k < i ==> #[trigger] precisions@[k] == precision_of(tokens_decimals@[k])
                        && 1 <= precisions@[k] <= pow10(18),
            decreases token_count - i,
        {
            precisions.push(pow10_u128(TOKEN_TARGET_DECIMALS - tokens_decimals[i]));
            reserves.push(0);
            i = i + 1;
        }
        let amp = match AmpCoef::new(amp_coef) {
            Ok(a) => a,
            Err(e) => return Err(e),
        };
        let fees = match fees {
            Some(f) => f,
            None => return Err(StablePoolError::InvalidFee),
        };
        proof {
            assert(reserves@ =~= Seq::new(tokens@.len(), |i: int| 0u128));
        }
        Ok(StablePoolContract {
            ownable: Ownable2StepData::new(owner),
            pool: StablePoolData {
                tokens,
                precisions,
                reserves,
                token_rates,
                amp_coef: amp,
                fees,
                fee_receiver,
            },
            psp22: ledger_new(),
        })
    }
}

/// Reserves plus `amounts`, index by index, when no sum passes `u128::MAX`.
pub open spec fn reserves_plus(reserves: Seq<u128>, amounts: Seq<u128>) -> Option<Seq<u128>> {
    if forall|i: int| 0 <= i < amounts.len() ==> reserves[i] + amounts[i] <= u128::MAX {
        Some(
            Seq::new(
                reserves.len(),
                |i: int|
                    if i < amounts.len() {
                        (reserves[i] + amounts[i]) as u128
                    } else {
                        reserves[i]
                    },
            ),
        )
    } else {
        None
    }
}

/// Reserves minus `amounts`, index by index, when no amount exceeds its reserve.
pub open spec fn reserves_minus(reserves: Seq<u128>, amounts: Seq<u128>) -> Option<Seq<u128>> {
    if forall|i: int| 0 <= i < amounts.len() ==> amounts[i] <= reserves[i] {
        Some(
            Seq::new(
                reserves.len(),
                |i: int|
                    if i < amounts.len() {
                        (reserves[i] - amounts[i]) as u128
                    } else {
                        reserves[i]
                    },
            ),
        )
    } else {
        None
    }
}

/// `new` is `old` with only the reserves replaced by `reserves`.
pub open spec fn only_reserves_changed(
    old: &StablePoolContract,
    new: &StablePoolContract,
    reserves: Seq<u128>,
) -> bool {
    &&& new.pool.reserves@ == reserves
    &&& new.pool.tokens@ == old.pool.tokens@
    &&& new.pool.precisions@ == old.pool.precisions@
    &&& new.pool.token_rates@ == old.pool.token_rates@
    &&& new.pool.amp_coef == old.pool.amp_coef
    &&& new.pool.fees == old.pool.fees
    &&& new.pool.fee_receiver == old.pool.fee_receiver
    &&& new.ownable == old.ownable
    &&& new.psp22 == old.psp22
}

/// `new` is `old` with only the liquidity ledger replaced.
pub open spec fn only_ledger_changed(old: &StablePoolContract, new: &StablePoolContract) -> bool {
    &&& new.pool.reserves@ == old.pool.reserves@
    &&& new.pool.tokens@ == old.pool.tokens@
    &&& new.pool.precisions@ == old.pool.precisions@
    &&& new.pool.token_rates@ == old.pool.token_rates@
    &&& new.pool.amp_coef == old.pool.amp_coef
    &&& new.pool.fees == old.pool.fees
    &&& new.pool.fee_receiver == old.pool.fee_receiver
    &&& new.ownable == old.ownable
}

/// The rate of token `i` scaled by its precision, after the rate was read
/// with `queried` as the provider's answer; `None` when it passes `u128::MAX`.
pub open spec fn scaled_rate(t: TokenRate, precision: u128, block: u32, queried: u128) -> Option<
    u128,
> {
    let rate = token_rate_update(t, block, queried).0;
    if rate * precision > u128::MAX {
        None
    } else {
        Some((rate * precision) as u128)
    }
}

/// The index of the first occurrence of `token`.
pub open spec fn first_index(tokens: Seq<AccountId>, token: AccountId, i: int) -> bool {
    &&& 0 <= i < tokens.len()
    &&& tokens[i] == token
    &&& forall|j: int| 0 <= j < i ==> tokens[j] != token
}

impl StablePoolContract {
    /// A pool whose tokens all have the constant rate `RATE_PRECISION`.
    pub fn new_stable(
        tokens: Vec<AccountId>,
        tokens_decimals: Vec<u8>,
        init_amp_coef: u128,
        owner: AccountId,
        trade_fee: u32,
        protocol_fee: u32,
        fee_receiver: Option<AccountId>,
    ) -> (r: Result<Self, StablePoolError>)
        ensures
            ({
                let fees = if trade_fee <= MAX_TRADE_FEE && protocol_fee <= MAX_PROTOCOL_FEE {
                    Some(Fees { trade_fee, protocol_fee })
                } else {
                    None
                };
                match new_pool_check(
                    tokens@,
                    tokens_decimals@,
                    tokens@.len(),
                    init_amp_coef,
                    fees,
                ) {
                    Err(e) => r matches Err(f) && f == e,
                    Ok(()) => r matches Ok(c) && c.pool.wf() && c.pool.tokens@ == tokens@
                        && c.pool.fees == fees.unwrap() && c.pool.fee_receiver == fee_receiver
                        && c.ownable.owner == owner && c.pool.token_rates@ == Seq::new(
                        tokens@.len(),
                        |i: int| TokenRate::Constant(RATE_PRECISION),
                    ),
                }
            }),
    {
        let n = tokens.len();
        let mut token_rates: Vec<TokenRate> = Vec::new();
        let mut i: usize = 0;
        while i < n
            invariant
                i <= n,
                token_rates@ == Seq::new(i as nat, |k: int| TokenRate::Constant(RATE_PRECISION)),
            decreases n - i,
        {
            token_rates.push(TokenRate::new_constant(RATE_PRECISION));
            i = i + 1;
            assert(token_rates@ =~= Seq::new(i as nat, |k: int| TokenRate::Constant(RATE_PRECISION)));
        }
        StablePoolContract::new_pool(
            tokens,
            tokens_decimals,
            token_rates,
            init_amp_coef,
            owner,
            Fees::new(trade_fee, protocol_fee),
            fee_receiver,
        )
    }

    /// A pool whose token `i` has its rate from `external_rates[i]` when that
    /// is a rate provider, and the constant `RATE_PRECISION` otherwise.
    pub fn new_rated(
        tokens: Vec<AccountId>,
        tokens_decimals: Vec<u8>,
        external_rates: Vec<Option<AccountId>>,
        init_amp_coef: u128,
        owner: AccountId,
        trade_fee: u32,
        protocol_fee: u32,
        fee_receiver: Option<AccountId>,
    ) -> (r: Result<Self, StablePoolError>)
        ensures
            ({
                let fees = if trade_fee <= MAX_TRADE_FEE && protocol_fee <= MAX_PROTOCOL_FEE {
                    Some(Fees { trade_fee, protocol_fee })
                } else {
                    None
                };
                match new_pool_check(
                    tokens@,
                    tokens_decimals@,
                    external_rates@.len(),
                    init_amp_coef,
                    fees,
                ) {
                    Err(e) => r matches Err(f) && f == e,
                    Ok(()) => r matches Ok(c) && c.pool.wf() && c.pool.tokens@ == tokens@
                        && c.pool.fees == fees.unwrap() && c.pool.fee_receiver == fee_receiver
                        && c.ownable.owner == owner && forall|i: int|
                        0 <= i < tokens@.len() ==> #[trigger] c.pool.token_rates@[i] == match external_rates@[i] {
                            Some(p) => TokenRate::External(
                                crate::token_rate::ExternalTokenRate {
                                    rate_provider: p,
                                    cached_token_rate: 0,
                                    last_update_block_no: 0,
                                },
                            ),
                            None => TokenRate::Constant(RATE_PRECISION),
                        },
                }
            }),
    {
        let n = external_rates.len();
        let mut token_rates: Vec<TokenRate> = Vec::new();
        let mut i: usize = 0;
        while i < n
            invariant
                n == external_rates@.len(),
                i <= n,
                token_rates@.len() == i,
                forall|k: int|
                    0 <= k < i ==> #[trigger] token_rates@[k] == match external_rates@[k] {
                        Some(p) => TokenRate::External(
                            crate::token_rate::ExternalTokenRate {
                                rate_provider: p,
                                cached_token_rate: 0,
                                last_update_block_no: 0,
                            },
                        ),
                        None => TokenRate::Constant(RATE_PRECISION),
                    },
            decreases n - i,
        {
            let rate = match external_rates[i] {
                Some(contract) => TokenRate::new_external(contract),
                None => TokenRate::new_constant(RATE_PRECISION),
            };
            token_rates.push(rate);
            i = i + 1;
        }
        StablePoolContract::new_pool(
            tokens,
            tokens_decimals,
            token_rates,
            init_amp_coef,
            owner,
            Fees::new(trade_fee, protocol_fee),
            fee_receiver,
        )
    }

    /// The rates of the tokens multiplied by their precisions, read at block
    /// `current_block_no`; `queried_rates[i]` is what the rate provider of
    /// token `i` answers, read only when its cached rate is older than the
    /// block. Fails with `MulOverflow(104)` when a product passes `u128::MAX`.
    pub fn get_scaled_rates(&mut self, current_block_no: u32, queried_rates: &Vec<u128>) -> (r:
        Result<Vec<u128>, MathError>)
        requires
            old(self).pool.wf(),
            queried_rates@.len() == old(self).pool.tokens@.len(),
        ensures
            final(self).pool.wf(),
            ({
                let n = old(self).pool.tokens@.len();
                let ok = forall|i: int|
                    0 <= i < n ==> (#[trigger] scaled_rate(
                        old(self).pool.token_rates@[i],
                        old(self).pool.precisions@[i],
                        current_block_no,
                        queried_rates@[i],
                    )) is Some;
                &&& ok ==> r is Ok && r.unwrap()@.len() == n && forall|i: int|
                    0 <= i < n ==> #[trigger] r.unwrap()@[i] == scaled_rate(
                        old(self).pool.token_rates@[i],
                        old(self).pool.precisions@[i],
                        current_block_no,
                        queried_rates@[i],
                    ).unwrap()
                &&& !ok ==> r == Err::<Vec<u128>, MathError>(MathError::MulOverflow(104))
                &&& r is Ok ==> final(self).pool.token_rates@ == Seq::new(
                    n,
                    |i: int|
                        token_rate_update(
                            old(self).pool.token_rates@[i],
                            current_block_no,
                            queried_rates@[i],
                        ).1,
                )
                &&& r is Err ==> exists|k: int|
                    0 <= k < n && (#[trigger] scaled_rate(
                        old(self).pool.token_rates@[k],
                        old(self).pool.precisions@[k],
                        current_block_no,
                        queried_rates@[k],
                    )) is None && final(self).pool.token_rates@ == Seq::new(
                        n,
                        |j: int|
                            if j <= k {
                                token_rate_update(
                                    old(self).pool.token_rates@[j],
                                    current_block_no,
                                    queried_rates@[j],
                                ).1
                            } else {
                                old(self).pool.token_rates@[j]
                            },
                    )
            }),
            final(self).pool.tokens@ == old(self).pool.tokens@,
            final(self).pool.precisions@ == old(self).pool.precisions@,
            final(self).pool.reserves@ == old(self).pool.reserves@,
            final(self).pool.token_rates@.len() == old(self).pool.token_rates@.len(),
            final(self).pool.amp_coef == old(self).pool.amp_coef,
            final(self).pool.fees == old(self).pool.fees,
            final(self).pool.fee_receiver == old(self).pool.fee_receiver,
            final(self).ownable == old(self).ownable,
            final(self).psp22 == old(self).psp22,
    {
        let n = self.pool.tokens.len();
        let ghost old_rates = self.pool.token_rates@;
        let mut scaled: Vec<u128> = Vec::new();
        let mut i: usize = 0;
        while i < n
            invariant
                n == self.pool.tokens@.len(),
                self.pool.wf(),
                queried_rates@.len() == n,
                old_rates.len() == n,
                i <= n,
                scaled@.len() == i,
                forall|k: int|
                    0 <= k < i ==> (#[trigger] scaled_rate(
                        old_rates[k],
                        self.pool.precisions@[k],
                        current_block_no,
                        queried_rates@[k],
                    )) is Some && scaled@[k] == scaled_rate(
                        old_rates[k],
                        self.pool.precisions@[k],
                        current_block_no,
                        queried_rates@[k],
                    ).unwrap(),
                forall|k: int|
                    0 <= k < i ==> #[trigger] self.pool.token_rates@[k] == token_rate_update(
                        old_rates[k],
                        current_block_no,
                        queried_rates@[k],
                    ).1,
                forall|k: int| i <= k < n ==> #[trigger] self.pool.token_rates@[k] == old_rates[k],
                self.pool.tokens@ == old(self).pool.tokens@,
                self.pool.precisions@ == old(self).pool.precisions@,
                self.pool.reserves@ == old(self).pool.reserves@,
                self.pool.amp_coef == old(self).pool.amp_coef,
                self.pool.fees == old(self).pool.fees,
                self.pool.fee_receiver == old(self).pool.fee_receiver,
                self.ownable == old(self).ownable,
                self.psp22 == old(self).psp22,
                old_rates == old(self).pool.token_rates@,
            decreases n - i,
        {
            let mut t = self.pool.token_rates[i];
            let rate = t.get_rate(current_block_no, queried_rates[i]);
            self.pool.token_rates.set(i, t);
            match rate.checked_mul(self.pool.precisions[i]) {
                Some(v) => scaled.push(v),
                None => {
                    proof {
                        assert(scaled_rate(
                            old_rates[i as int],
                            self.pool.precisions@[i as int],
                            current_block_no,
                            queried_rates@[i as int],
                        ) is None);
                        assert(self.pool.token_rates@ =~= Seq::new(
                            n as nat,
                            |j: int|
                                if j <= i {
                                    token_rate_update(old_rates[j], current_block_no, queried_rates@[j]).1
                                } else {
                                    old_rates[j]
                                },
                        ));
                    }
                    return Err(MathError::MulOverflow(104));
                },
            }
            i = i + 1;
        }
        proof {
            assert(self.pool.token_rates@ =~= Seq::new(
                n as nat,
                |i: int| token_rate_update(old_rates[i], current_block_no, queried_rates@[i]).1,
            ));
        }
        Ok(scaled)
    }

    /// The index of `token` among the pool's tokens, or `InvalidTokenId`.
    pub fn token_id(&self, token: AccountId) -> (r: Result<usize, StablePoolError>)
        ensures
            r is Ok ==> first_index(self.pool.tokens@, token, r.unwrap() as int),
            r is Err ==> r == Err::<usize, StablePoolError>(StablePoolError::InvalidTokenId(token)),
            r is Err <==> !self.pool.tokens@.contains(token),
    {
        let mut i: usize = 0;
        while i < self.pool.tokens.len()
            invariant
                i <= self.pool.tokens@.len(),
                forall|j: int| 0 <= j < i ==> self.pool.tokens@[j] != token,
            decreases self.pool.tokens@.len() - i,
        {
            if self.pool.tokens[i] == token {
                return Ok(i);
            }
            i = i + 1;
        }
        Err(StablePoolError::InvalidTokenId(token))
    }

    /// The indices of `token_in` and `token_out`, which must differ.
    pub fn check_tokens(&self, token_in: AccountId, token_out: AccountId) -> (r: Result<
        (usize, usize),
        StablePoolError,
    >)
        ensures
            token_in == token_out ==> r == Err::<(usize, usize), StablePoolError>(
                StablePoolError::IdenticalTokenId,
            ),
            token_in != token_out && !self.pool.tokens@.contains(token_in) ==> r == Err::<
                (usize, usize),
                StablePoolError,
            >(StablePoolError::InvalidTokenId(token_in)),
            token_in != token_out && self.pool.tokens@.contains(token_in)
                && !self.pool.tokens@.contains(token_out) ==> r == Err::<
                (usize, usize),
                StablePoolError,
            >(StablePoolError::InvalidTokenId(token_out)),
            r is Ok ==> token_in != token_out && first_index(
                self.pool.tokens@,
                token_in,
                r.unwrap().0 as int,
            ) && first_index(self.pool.tokens@, token_out, r.unwrap().1 as int),
            token_in != token_out && self.pool.tokens@.contains(token_in)
                && self.pool.tokens@.contains(token_out) ==> r is Ok,
    {
        if !(token_in != token_out) {
            return Err(StablePoolError::IdenticalTokenId);
        }
        let token_in_id = match self.token_id(token_in) {
            Ok(i) => i,
            Err(e) => return Err(e),
        };
        let token_out_id = match self.token_id(token_out) {
            Ok(i) => i,
            Err(e) => return Err(e),
        };
        Ok((token_in_id, token_out_id))
    }

    /// Adds `amount` to the reserve of token `token_id`; `AddOverflow(101)`
    /// with nothing changed when it would pass `u128::MAX`.
    pub fn increase_reserve(&mut self, token_id: usize, amount: u128) -> (r: Result<
        (),
        StablePoolError,
    >)
        requires
            token_id < old(self).pool.reserves@.len(),
        ensures
            old(self).pool.reserves@[token_id as int] + amount > u128::MAX ==> r == Err::<
                (),
                StablePoolError,
            >(StablePoolError::MathError(MathError::AddOverflow(101)))
                && only_reserves_changed(old(self), final(self), old(self).pool.reserves@),
            old(self).pool.reserves@[token_id as int] + amount <= u128::MAX ==> r is Ok
                && only_reserves_changed(
                old(self),
                final(self),
                old(self).pool.reserves@.update(
                    token_id as int,
                    (old(self).pool.reserves@[token_id as int] + amount) as u128,
                ),
            ),
    {
        match self.pool.reserves[token_id].checked_add(amount) {
            Some(v) => {
                self.pool.reserves.set(token_id, v);
                Ok(())
            },
            None => Err(StablePoolError::MathError(MathError::AddOverflow(101))),
        }
    }

    /// Takes `amount` from the reserve of token `token_id`;
    /// `SubUnderflow(101)` with nothing changed when the reserve is smaller.
    pub fn decrease_reserve(&mut self, token_id: usize, amount: u128) -> (r: Result<
        (),
        StablePoolError,
    >)
        requires
            token_id < old(self).pool.reserves@.len(),
        ensures
            old(self).pool.reserves@[token_id as int] < amount ==> r == Err::<
                (),
                StablePoolError,
            >(StablePoolError::MathError(MathError::SubUnderflow(101)))
                && only_reserves_changed(old(self), final(self), old(self).pool.reserves@),
            old(self).pool.reserves@[token_id as int] >= amount ==> r is Ok
                && only_reserves_changed(
                old(self),
                final(self),
                old(self).pool.reserves@.update(
                    token_id as int,
                    (old(self).pool.reserves@[token_id as int] - amount) as u128,
                ),
            ),
    {
        match self.pool.reserves[token_id].checked_sub(amount) {
            Some(v) => {
                self.pool.reserves.set(token_id, v);
                Ok(())
            },
            None => Err(StablePoolError::MathError(MathError::SubUnderflow(101))),
        }
    }

    /// Adds `amounts` to the reserves, all or nothing: `AddOverflow(101)`
    /// when a sum would pass `u128::MAX`.
    pub fn increase_reserves(&mut self, amounts: &Vec<u128>) -> (r: Result<(), StablePoolError>)
        requires
            amounts@.len() <= old(self).pool.reserves@.len(),
        ensures
            reserves_plus(old(self).pool.reserves@, amounts@) is None ==> r == Err::<
                (),
                StablePoolError,
            >(StablePoolError::MathError(MathError::AddOverflow(101)))
                && only_reserves_changed(old(self), final(self), old(self).pool.reserves@),
            reserves_plus(old(self).pool.reserves@, amounts@) is Some ==> r is Ok
                && only_reserves_changed(
                old(self),
                final(self),
                reserves_plus(old(self).pool.reserves@, amounts@).unwrap(),
            ),
    {
        let n = amounts.len();
        let mut i: usize = 0;
        while i < n
            invariant
                n == amounts@.len(),
                n <= self.pool.reserves@.len(),
                i <= n,
                forall|k: int| 0 <= k < i ==> self.pool.reserves@[k] + amounts@[k] <= u128::MAX,
            decreases n - i,
        {
            if self.pool.reserves[i].checked_add(amounts[i]).is_none() {
                return Err(StablePoolError::MathError(MathError::AddOverflow(101)));
            }
            i = i + 1;
        }
        let ghost before = self.pool.reserves@;
        let mut i: usize = 0;
        while i < n
            invariant
                n == amounts@.len(),
                n <= before.len(),
                i <= n,
                forall|k: int| 0 <= k < n ==> before[k] + amounts@[k] <= u128::MAX,
                self.pool.reserves@.len() == before.len(),
                forall|k: int|
                    0 <= k < before.len() ==> #[trigger] self.pool.reserves@[k] == if k < i {
                        (before[k] + amounts@[k]) as u128
                    } else {
                        before[k]
                    },
                only_reserves_changed(old(self), self, self.pool.reserves@),
            decreases n - i,
        {
            let v = self.pool.reserves[i] + amounts[i];
            self.pool.reserves.set(i, v);
            i = i + 1;
        }
        proof {
            assert(self.pool.reserves@ =~= reserves_plus(before, amounts@).unwrap());
        }
        Ok(())
    }

    /// Whether each of `amounts` is at most its reserve.
    pub fn reserves_cover(&self, amounts: &Vec<u128>) -> (r: bool)
        requires
            amounts@.len() <= self.pool.reserves@.len(),
        ensures
            r <==> reserves_minus(self.pool.reserves@, amounts@) is Some,
    {
        let n = amounts.len();
        let mut i: usize = 0;
        while i < n
            invariant
                n == amounts@.len(),
                n <= self.pool.reserves@.len(),
                i <= n,
                forall|k: int| 0 <= k < i ==> amounts@[k] <= self.pool.reserves@[k],
            decreases n - i,
        {
            if self.pool.reserves[i] < amounts[i] {
                return false;
            }
            i = i + 1;
        }
        true
    }

    /// Takes `amounts` from the reserves, all or nothing: `SubUnderflow(101)`
    /// when an amount exceeds its reserve.
    pub fn decrease_reserves(&mut self, amounts: &Vec<u128>) -> (r: Result<(), StablePoolError>)
        requires
            amounts@.len() <= old(self).pool.reserves@.len(),
        ensures
            reserves_minus(old(self).pool.reserves@, amounts@) is None ==> r == Err::<
                (),
                StablePoolError,
            >(StablePoolError::MathError(MathError::SubUnderflow(101)))
                && only_reserves_changed(old(self), final(self), old(self).pool.reserves@),
            reserves_minus(old(self).pool.reserves@, amounts@) is Some ==> r is Ok
                && only_reserves_changed(
                old(self),
                final(self),
                reserves_minus(old(self).pool.reserves@, amounts@).unwrap(),
            ),
    {
        let n = amounts.len();
        let mut i: usize = 0;
        while i < n
            invariant
                n == amounts@.len(),
                n <= self.pool.reserves@.len(),
                i <= n,
                forall|k: int| 0 <= k < i ==> amounts@[k] <= self.pool.reserves@[k],
            decreases n - i,
        {
            if self.pool.reserves[i] < amounts[i] {
                return Err(StablePoolError::MathError(MathError::SubUnderflow(101)));
            }
            i = i + 1;
        }
        let ghost before = self.pool.reserves@;
        let mut i: usize = 0;
        while i < n
            invariant
                n == amounts@.len(),
                n <= before.len(),
                i <= n,
                forall|k: int| 0 <= k < n ==> amounts@[k] <= before[k],
                self.pool.reserves@.len() == before.len(),
                forall|k: int|
                    0 <= k < before.len() ==> #[trigger] self.pool.reserves@[k] == if k < i {
                        (before[k] - amounts@[k]) as u128
                    } else {
                        before[k]
                    },
                only_reserves_changed(old(self), self, self.pool.reserves@),
            decreases n - i,
        {
            let v = self.pool.reserves[i] - amounts[i];
            self.pool.reserves.set(i, v);
            i = i + 1;
        }
        proof {
            assert(self.pool.reserves@ =~= reserves_minus(before, amounts@).unwrap());
        }
        Ok(())
    }
}

/// `new` is `old` after `value` liquidity tokens of `from` were burned
/// (nothing changes for 0).
pub open spec fn lp_burned(old: psp22::PSP22Data, new: psp22::PSP22Data, from: AccountId, value: nat) -> bool {
    if value == 0 {
        new == old
    } else {
        ledger_burned(old, new, from, value)
    }
}

/// `new` is `old` after `shares` were minted to `to` and then `part` to the
/// fee receiver (nothing when there is none).
pub open spec fn minted_then_minted(
    old: psp22::PSP22Data,
    new: psp22::PSP22Data,
    to: AccountId,
    shares: nat,
    fee_receiver: Option<AccountId>,
    part: nat,
) -> bool {
    exists|mid: psp22::PSP22Data|
        lp_minted(old, mid, to, shares) && #[trigger] lp_minted(mid, new, fee_receiver.unwrap(), part)
}

/// `new` is `old` after `shares` of `from` were burned and then `part` was
/// minted to the fee receiver (nothing when there is none).
pub open spec fn burned_then_minted(
    old: psp22::PSP22Data,
    new: psp22::PSP22Data,
    from: AccountId,
    shares: nat,
    fee_receiver: Option<AccountId>,
    part: nat,
) -> bool {
    exists|mid: psp22::PSP22Data|
        lp_burned(old, mid, from, shares) && #[trigger] lp_minted(mid, new, fee_receiver.unwrap(), part)
}

/// The protocol's part of the trade fee `fee_part` that goes to the fee
/// receiver: 0 when there is none.
pub open spec fn protocol_part(fee_receiver: Option<AccountId>, fees: Fees, fee_part: u128) -> nat {
    match fee_receiver {
        Some(_) => (fee_part as nat) * (fees.protocol_fee as nat) / (FEE_DENOM as nat),
        None => 0,
    }
}

/// Some amount is positive.
pub open spec fn some_positive(amounts: Seq<u128>) -> bool {
    exists|i: int| 0 <= i < amounts.len() && #[trigger] amounts[i] > 0
}

/// Each amount reaches its minimum, as far as both lists go.
pub open spec fn all_reach(amounts: Seq<u128>, mins: Seq<u128>) -> bool {
    forall|i: int| 0 <= i < amounts.len() && i < mins.len() ==> #[trigger] amounts[i] >= mins[i]
}

/// Whether some amount is positive.
fn any_positive(amounts: &Vec<u128>) -> (r: bool)
    ensures
        r == some_positive(amounts@),
{
    let mut i: usize = 0;
    while i < amounts.len()
        invariant
            i <= amounts@.len(),
            forall|k: int| 0 <= k < i ==> amounts@[k] == 0,
        decreases amounts@.len() - i,
    {
        if amounts[i] > 0 {
            return true;
        }
        i = i + 1;
    }
    false
}

/// Whether each amount reaches its minimum, as far as both lists go.
fn all_reach_min(amounts: &Vec<u128>, mins: &Vec<u128>) -> (r: bool)
    ensures
        r == all_reach(amounts@, mins@),
{
    let mut i: usize = 0;
    while i < amounts.len() && i < mins.len()
        invariant
            i <= amounts@.len(),
            forall|k: int| 0 <= k < i && k < mins@.len() ==> amounts@[k] >= mins@[k],
        decreases amounts@.len() - i,
    {
        if amounts[i] < mins[i] {
            return false;
        }
        i = i + 1;
    }
    true
}

/// What a trade brings in, given the reserve of the token in: `amount` when
/// the trader sends it with the trade, else what the pool's balance holds
/// beyond the reserve; it must be positive.
pub open spec fn amount_in_of(reserve: u128, amount: Option<u128>, balance: u128) -> Result<
    u128,
    StablePoolError,
> {
    match amount {
        Some(a) => if a > 0 {
            Ok(a)
        } else {
            Err(StablePoolError::InsufficientInputAmount)
        },
        None => if balance < reserve {
            Err(StablePoolError::MathError(MathError::SubUnderflow(103)))
        } else if balance == reserve {
            Err(StablePoolError::InsufficientInputAmount)
        } else {
            Ok((balance - reserve) as u128)
        },
    }
}

/// Trading `x` sent with the trade (`swap_exact_in`) and trading the `x`
/// that reached the pool before it (`swap_received`, the pool's balance
/// being its reserve plus `x`) bring the same amount in, so two pools in the
/// same state given the same arithmetic end the same way; with nothing
/// beyond the reserve, `swap_received` fails with `InsufficientInputAmount`.
pub proof fn law_received_equals_exact_in(reserve: u128, x: u128, balance_unused: u128)
    requires
        x > 0,
        reserve + x <= u128::MAX,
    ensures
        amount_in_of(reserve, None, (reserve + x) as u128) == amount_in_of(
            reserve,
            Some(x),
            balance_unused,
        ),
        amount_in_of(reserve, Some(x), balance_unused) == Ok::<u128, StablePoolError>(x),
        amount_in_of(reserve, None, reserve) == Err::<u128, StablePoolError>(
            StablePoolError::InsufficientInputAmount,
        ),
{
}

impl StablePoolContract {
    /// Mints `value` liquidity tokens to `to`.
    fn mint_lp(&mut self, to: AccountId, value: u128) -> (r: Result<(), StablePoolError>)
        ensures
            only_ledger_changed(old(self), final(self)),
            final(self).pool.reserves@ == old(self).pool.reserves@,
            ledger_supply(old(self).psp22) + value > u128::MAX && value > 0 ==> (r matches Err(
                StablePoolError::PSP22Error(PSP22Error::Custom(_)),
            )) && final(self).psp22 == old(self).psp22,
            ledger_supply(old(self).psp22) + value <= u128::MAX || value == 0 ==> r is Ok
                && lp_minted(old(self).psp22, final(self).psp22, to, value as nat),
    {
        match ledger_mint(&mut self.psp22, to, value) {
            Ok(_) => Ok(()),
            Err(e) => Err(StablePoolError::PSP22Error(e)),
        }
    }

    /// Burns `value` liquidity tokens of `from`.
    fn burn_lp(&mut self, from: AccountId, value: u128) -> (r: Result<(), StablePoolError>)
        ensures
            only_ledger_changed(old(self), final(self)),
            final(self).pool.reserves@ == old(self).pool.reserves@,
            ledger_balance(old(self).psp22, from) < value && value > 0 ==> r == Err::<
                (),
                StablePoolError,
            >(StablePoolError::PSP22Error(PSP22Error::InsufficientBalance))
                && final(self).psp22 == old(self).psp22,
            ledger_balance(old(self).psp22, from) >= value || value == 0 ==> r is Ok && lp_burned(
                old(self).psp22,
                final(self).psp22,
                from,
                value as nat,
            ),
    {
        match ledger_burn(&mut self.psp22, from, value) {
            Ok(_) => Ok(()),
            Err(e) => Err(StablePoolError::PSP22Error(e)),
        }
    }

    /// The protocol's part of the trade fee `fee_part`: 0 without a fee
    /// receiver.
    fn protocol_part_of(&self, fee_part: u128) -> (r: u128)
        requires
            self.pool.wf(),
        ensures
            r == protocol_part(self.pool.fee_receiver, self.pool.fees, fee_part),
    {
        match self.pool.fee_receiver {
            Some(_) => self.pool.fees.protocol_trade_fee(fee_part),
            None => 0,
        }
    }

    /// Mints the protocol's part of the trade fee `fee_part` to the fee
    /// receiver, if there is one and the part is positive.
    fn mint_protocol_fee_part(&mut self, fee_part: u128) -> (r: Result<(), StablePoolError>)
        requires
            old(self).pool.wf(),
        ensures
            only_ledger_changed(old(self), final(self)),
            final(self).pool.reserves@ == old(self).pool.reserves@,
            ledger_supply(old(self).psp22) + protocol_part(old(self).pool.fee_receiver, old(self).pool.fees, fee_part) > u128::MAX
                && protocol_part(old(self).pool.fee_receiver, old(self).pool.fees, fee_part) > 0 ==> (r matches Err(
                StablePoolError::PSP22Error(PSP22Error::Custom(_)),
            )) && final(self).psp22 == old(self).psp22,
            ledger_supply(old(self).psp22) + protocol_part(old(self).pool.fee_receiver, old(self).pool.fees, fee_part) <= u128::MAX
                || protocol_part(old(self).pool.fee_receiver, old(self).pool.fees, fee_part) == 0 ==> r is Ok && lp_minted(
                old(self).psp22,
                final(self).psp22,
                old(self).pool.fee_receiver.unwrap(),
                protocol_part(old(self).pool.fee_receiver, old(self).pool.fees, fee_part),
            ),
    {
        match self.pool.fee_receiver {
            Some(fee_to) => {
                let protocol_fee = self.pool.fees.protocol_trade_fee(fee_part);
                if protocol_fee > 0 {
                    self.mint_lp(fee_to, protocol_fee)
                } else {
                    Ok(())
                }
            },
            None => Ok(()),
        }
    }

    /// What a trade in brings: `amount` when given (taken from the caller by
    /// a transfer), else what the pool holds of token `token_id` (`balance`)
    /// beyond its reserve; it must be positive.
    pub fn transfer_in_amount(&self, token_id: usize, amount: Option<u128>, balance: u128) -> (r:
        Result<u128, StablePoolError>)
        requires
            token_id < self.pool.reserves@.len(),
        ensures
            r == amount_in_of(self.pool.reserves@[token_id as int], amount, balance),
    {
        let amount = match amount {
            Some(token_amount) => token_amount,
            None => match balance.checked_sub(self.pool.reserves[token_id]) {
                Some(v) => v,
                None => return Err(StablePoolError::MathError(MathError::SubUnderflow(103))),
            },
        };
        if !(amount > 0) {
            return Err(StablePoolError::InsufficientInputAmount);
        }
        Ok(amount)
    }

    /// Moves `amount_in` into the reserve of token `token_in_id` and
    /// `amount_out` out of that of `token_out_id`, both or neither:
    /// `AddOverflow(101)`, then `SubUnderflow(101)`.
    fn move_reserves(
        &mut self,
        token_in_id: usize,
        amount_in: u128,
        token_out_id: usize,
        amount_out: u128,
    ) -> (r: Result<(), StablePoolError>)
        requires
            token_in_id < old(self).pool.reserves@.len(),
            token_out_id < old(self).pool.reserves@.len(),
            token_in_id != token_out_id,
        ensures
            ({
                let res = old(self).pool.reserves@;
                if res[token_in_id as int] + amount_in > u128::MAX {
                    r == Err::<(), StablePoolError>(
                        StablePoolError::MathError(MathError::AddOverflow(101)),
                    ) && only_reserves_changed(old(self), final(self), res)
                } else if res[token_out_id as int] < amount_out {
                    r == Err::<(), StablePoolError>(
                        StablePoolError::MathError(MathError::SubUnderflow(101)),
                    ) && only_reserves_changed(old(self), final(self), res)
                } else {
                    r is Ok && only_reserves_changed(
                        old(self),
                        final(self),
                        res.update(
                            token_in_id as int,
                            (res[token_in_id as int] + amount_in) as u128,
                        ).update(token_out_id as int, (res[token_out_id as int] - amount_out) as u128),
                    )
                }
            }),
    {
        if self.pool.reserves[token_in_id].checked_add(amount_in).is_none() {
            return Err(StablePoolError::MathError(MathError::AddOverflow(101)));
        }
        if self.pool.reserves[token_out_id] < amount_out {
            return Err(StablePoolError::MathError(MathError::SubUnderflow(101)));
        }
        match self.increase_reserve(token_in_id, amount_in) {
            Ok(()) => {},
            Err(e) => return Err(e),
        }
        self.decrease_reserve(token_out_id, amount_out)
    }

    /// A trade of `token_in_amount` of token `token_in_id` for token
    /// `token_out_id`, given what the stable-swap arithmetic yields for it
    /// (`swap_result`: the amount out and the fee): the output must reach
    /// `min_token_out_amount`, and the reserves move. Returns the amount out
    /// and the fee.
    pub fn apply_swap_exact_in(
        &mut self,
        token_in_id: usize,
        token_out_id: usize,
        token_in_amount: u128,
        min_token_out_amount: u128,
        swap_result: Result<(u128, u128), MathError>,
    ) -> (r: Result<(u128, u128), StablePoolError>)
        requires
            token_in_id < old(self).pool.reserves@.len(),
            token_out_id < old(self).pool.reserves@.len(),
            token_in_id != token_out_id,
        ensures
            ({
                let res = old(self).pool.reserves@;
                match swap_result {
                    Err(e) => r == Err::<(u128, u128), StablePoolError>(StablePoolError::MathError(e))
                        && only_reserves_changed(old(self), final(self), res),
                    Ok((out, fee)) => if out < min_token_out_amount {
                        r == Err::<(u128, u128), StablePoolError>(
                            StablePoolError::InsufficientOutputAmount,
                        ) && only_reserves_changed(old(self), final(self), res)
                    } else if res[token_in_id as int] + token_in_amount > u128::MAX {
                        r == Err::<(u128, u128), StablePoolError>(
                            StablePoolError::MathError(MathError::AddOverflow(101)),
                        ) && only_reserves_changed(old(self), final(self), res)
                    } else if res[token_out_id as int] < out {
                        r == Err::<(u128, u128), StablePoolError>(
                            StablePoolError::MathError(MathError::SubUnderflow(101)),
                        ) && only_reserves_changed(old(self), final(self), res)
                    } else {
                        r == Ok::<(u128, u128), StablePoolError>((out, fee)) && only_reserves_changed(
                            old(self),
                            final(self),
                            res.update(
                                token_in_id as int,
                                (res[token_in_id as int] + token_in_amount) as u128,
                            ).update(token_out_id as int, (res[token_out_id as int] - out) as u128),
                        )
                    },
                }
            }),
    {
        let (token_out_amount, fee) = match swap_result {
            Ok(v) => v,
            Err(e) => return Err(StablePoolError::MathError(e)),
        };
        if !(token_out_amount >= min_token_out_amount) {
            return Err(StablePoolError::InsufficientOutputAmount);
        }
        match self.move_reserves(token_in_id, token_in_amount, token_out_id, token_out_amount) {
            Ok(()) => {},
            Err(e) => return Err(e),
        }
        Ok((token_out_amount, fee))
    }

    /// The first check of a trade for exactly `token_out_amount`: it must be
    /// positive.
    pub fn check_swap_exact_out(token_out_amount: u128) -> (r: Result<(), StablePoolError>)
        ensures
            token_out_amount > 0 ==> r is Ok,
            token_out_amount == 0 ==> r == Err::<(), StablePoolError>(
                StablePoolError::InsufficientOutputAmount,
            ),
    {
        if !(token_out_amount > 0) {
            return Err(StablePoolError::InsufficientOutputAmount);
        }
        Ok(())
    }

    /// A trade for exactly `token_out_amount` of token `token_out_id`, given
    /// what the stable-swap arithmetic says it costs (`swap_result`: the
    /// amount in and the fee): the input must not exceed
    /// `max_token_in_amount`, and the reserves move. Returns the amount in
    /// and the fee.
    pub fn apply_swap_exact_out(
        &mut self,
        token_in_id: usize,
        token_out_id: usize,
        token_out_amount: u128,
        max_token_in_amount: u128,
        swap_result: Result<(u128, u128), MathError>,
    ) -> (r: Result<(u128, u128), StablePoolError>)
        requires
            token_in_id < old(self).pool.reserves@.len(),
            token_out_id < old(self).pool.reserves@.len(),
            token_in_id != token_out_id,
        ensures
            ({
                let res = old(self).pool.reserves@;
                match swap_result {
                    Err(e) => r == Err::<(u128, u128), StablePoolError>(StablePoolError::MathError(e))
                        && only_reserves_changed(old(self), final(self), res),
                    Ok((amount_in, fee)) => if amount_in > max_token_in_amount {
                        r == Err::<(u128, u128), StablePoolError>(
                            StablePoolError::InsufficientInputAmount,
                        ) && only_reserves_changed(old(self), final(self), res)
                    } else if res[token_in_id as int] + amount_in > u128::MAX {
                        r == Err::<(u128, u128), StablePoolError>(
                            StablePoolError::MathError(MathError::AddOverflow(101)),
                        ) && only_reserves_changed(old(self), final(self), res)
                    } else if res[token_out_id as int] < token_out_amount {
                        r == Err::<(u128, u128), StablePoolError>(
                            StablePoolError::MathError(MathError::SubUnderflow(101)),
                        ) && only_reserves_changed(old(self), final(self), res)
                    } else {
                        r == Ok::<(u128, u128), StablePoolError>((amount_in, fee))
                            && only_reserves_changed(
                            old(self),
                            final(self),
                            res.update(
                                token_in_id as int,
                                (res[token_in_id as int] + amount_in) as u128,
                            ).update(
                                token_out_id as int,
                                (res[token_out_id as int] - token_out_amount) as u128,
                            ),
                        )
                    },
                }
            }),
    {
        let (token_in_amount, fee) = match swap_result {
            Ok(v) => v,
            Err(e) => return Err(StablePoolError::MathError(e)),
        };
        if !(token_in_amount <= max_token_in_amount) {
            return Err(StablePoolError::InsufficientInputAmount);
        }
        match self.move_reserves(token_in_id, token_in_amount, token_out_id, token_out_amount) {
            Ok(()) => {},
            Err(e) => return Err(e),
        }
        Ok((token_in_amount, fee))
    }

    /// What the stable-swap arithmetic needs to price the protocol's part of
    /// a trade fee `fee` paid in token `token_id` in liquidity tokens: that
    /// part as a deposit of token `token_id`, and the reserves without it.
    /// `None` when there is no fee receiver or the part is 0.
    pub fn protocol_fee_deposit(&self, fee: u128, token_id: usize) -> (r: Result<
        Option<(Vec<u128>, Vec<u128>)>,
        StablePoolError,
    >)
        requires
            self.pool.wf(),
            token_id < self.pool.tokens@.len(),
        ensures
            ({
                let part = protocol_part(self.pool.fee_receiver, self.pool.fees, fee);
                let res = self.pool.reserves@;
                let n = self.pool.tokens@.len();
                if part == 0 {
                    r == Ok::<Option<(Vec<u128>, Vec<u128>)>, StablePoolError>(None)
                } else if res[token_id as int] < part {
                    r == Err::<Option<(Vec<u128>, Vec<u128>)>, StablePoolError>(
                        StablePoolError::MathError(MathError::SubUnderflow(102)),
                    )
                } else {
                    r matches Ok(Some((deposit, reserves))) && deposit@ == Seq::new(
                        n,
                        |i: int| 0u128,
                    ).update(token_id as int, part as u128) && reserves@ == res.update(
                        token_id as int,
                        (res[token_id as int] - part) as u128,
                    )
                }
            }),
    {
        if self.pool.fee_receiver.is_none() {
            return Ok(None);
        }
        let protocol_fee = self.pool.fees.protocol_trade_fee(fee);
        if protocol_fee == 0 {
            return Ok(None);
        }
        let n = self.pool.tokens.len();
        let mut deposit: Vec<u128> = Vec::new();
        let mut reserves: Vec<u128> = Vec::new();
        let mut i: usize = 0;
        while i < n
            invariant
                n == self.pool.tokens@.len(),
                self.pool.wf(),
                i <= n,
                deposit@ == Seq::new(i as nat, |k: int| 0u128),
                reserves@ == self.pool.reserves@.take(i as int),
            decreases n - i,
        {
            deposit.push(0);
            reserves.push(self.pool.reserves[i]);
            i = i + 1;
            proof {
                assert(deposit@ =~= Seq::new(i as nat, |k: int| 0u128));
                assert(reserves@ =~= self.pool.reserves@.take(i as int));
            }
        }
        proof {
            assert(reserves@ =~= self.pool.reserves@);
        }
        deposit.set(token_id, protocol_fee);
        let left = match reserves[token_id].checked_sub(protocol_fee) {
            Some(v) => v,
            None => return Err(StablePoolError::MathError(MathError::SubUnderflow(102))),
        };
        reserves.set(token_id, left);
        Ok(Some((deposit, reserves)))
    }

    /// Mints to the fee receiver the liquidity tokens that the stable-swap
    /// arithmetic priced the protocol's part of a fee at (`lp_result`: the
    /// liquidity and a fee, unused here).
    pub fn mint_protocol_fee(&mut self, lp_result: Result<(u128, u128), MathError>) -> (r: Result<
        (),
        StablePoolError,
    >)
        requires
            old(self).pool.fee_receiver is Some,
        ensures
            only_ledger_changed(old(self), final(self)),
            final(self).pool.reserves@ == old(self).pool.reserves@,
            match lp_result {
                Err(e) => r == Err::<(), StablePoolError>(StablePoolError::MathError(e))
                    && final(self).psp22 == old(self).psp22,
                Ok((lp, _)) => if ledger_supply(old(self).psp22) + lp > u128::MAX && lp > 0 {
                    (r matches Err(StablePoolError::PSP22Error(PSP22Error::Custom(_))))
                        && final(self).psp22 == old(self).psp22
                } else {
                    r is Ok && lp_minted(
                        old(self).psp22,
                        final(self).psp22,
                        old(self).pool.fee_receiver.unwrap(),
                        lp as nat,
                    )
                },
            },
    {
        let (protocol_fee_lp, _) = match lp_result {
            Ok(v) => v,
            Err(e) => return Err(StablePoolError::MathError(e)),
        };
        let fee_to = match self.pool.fee_receiver {
            Some(f) => f,
            None => return Ok(()),
        };
        self.mint_lp(fee_to, protocol_fee_lp)
    }
}


/// The tokens that move, with their amounts, for `amounts` (one per token
/// of `tokens`): those with a positive amount, in the order of the tokens.
pub open spec fn positive_amounts(tokens: Seq<AccountId>, amounts: Seq<u128>) -> Seq<(AccountId, u128)>
    decreases amounts.len(),
{
    if amounts.len() == 0 {
        Seq::empty()
    } else {
        let i = amounts.len() - 1;
        let rest = positive_amounts(tokens, amounts.drop_last());
        if amounts[i] > 0 {
            rest.push((tokens[i], amounts[i]))
        } else {
            rest
        }
    }
}

impl StablePoolContract {
    /// The token transfers of a deposit or a withdrawal of `amounts`: each
    /// token with a positive amount, in the order of the tokens.
    pub fn token_transfers(&self, amounts: &Vec<u128>) -> (r: Vec<(AccountId, u128)>)
        requires
            amounts@.len() <= self.pool.tokens@.len(),
        ensures
            r@ == positive_amounts(self.pool.tokens@, amounts@),
    {
        let n = amounts.len();
        let mut moves: Vec<(AccountId, u128)> = Vec::new();
        let mut i: usize = 0;
        while i < n
            invariant
                n == amounts@.len(),
                n <= self.pool.tokens@.len(),
                i <= n,
                moves@ == positive_amounts(self.pool.tokens@, amounts@.take(i as int)),
            decreases n - i,
        {
            proof {
                assert(amounts@.take(i as int + 1).drop_last() =~= amounts@.take(i as int));
            }
            if amounts[i] > 0 {
                moves.push((self.pool.tokens[i], amounts[i]));
            }
            i = i + 1;
        }
        proof {
            assert(amounts@.take(n as int) =~= amounts@);
        }
        moves
    }
}

/// What the stable-swap arithmetic reads of a pool to price a deposit or a
/// withdrawal by amounts.
#[derive(Debug)]
pub struct MathInputs {
    /// The scaled rates of the tokens.
    pub rates: Vec<u128>,
    pub reserves: Vec<u128>,
    pub total_supply: u128,
    pub fees: Fees,
    /// The amplification coefficient at the block time.
    pub amp_coef: u128,
}

impl StablePoolContract {
    /// The inputs of the stable-swap arithmetic at block `current_block_no`
    /// and block time `now`: the scaled rates (see `get_scaled_rates`, with
    /// the providers' answers `queried_rates`), the reserves, the supply of
    /// liquidity tokens, the fees and the amplification coefficient. The
    /// rates are read first, so their error comes first.
    pub fn math_inputs(&mut self, current_block_no: u32, queried_rates: &Vec<u128>, now: u64) -> (r:
        Result<MathInputs, StablePoolError>)
        requires
            old(self).pool.wf(),
            queried_rates@.len() == old(self).pool.tokens@.len(),
        ensures
            final(self).pool.wf(),
            final(self).pool.tokens@ == old(self).pool.tokens@,
            final(self).pool.precisions@ == old(self).pool.precisions@,
            final(self).pool.reserves@ == old(self).pool.reserves@,
            final(self).pool.amp_coef == old(self).pool.amp_coef,
            final(self).pool.fees == old(self).pool.fees,
            final(self).pool.fee_receiver == old(self).pool.fee_receiver,
            final(self).ownable == old(self).ownable,
            final(self).psp22 == old(self).psp22,
            ({
                let n = old(self).pool.tokens@.len();
                let ok = forall|i: int|
                    0 <= i < n ==> (#[trigger] scaled_rate(
                        old(self).pool.token_rates@[i],
                        old(self).pool.precisions@[i],
                        current_block_no,
                        queried_rates@[i],
                    )) is Some;
                let amp = amp_at(old(self).pool.amp_coef, now);
                &&& !ok ==> r == Err::<MathInputs, StablePoolError>(
                    StablePoolError::MathError(MathError::MulOverflow(104)),
                )
                &&& ok && amp is Err ==> r == Err::<MathInputs, StablePoolError>(
                    StablePoolError::MathError(amp->Err_0),
                )
                &&& ok && amp is Ok ==> {
                    &&& r is Ok
                    &&& r.unwrap().rates@.len() == n
                    &&& forall|i: int|
                        0 <= i < n ==> #[trigger] r.unwrap().rates@[i] == scaled_rate(
                            old(self).pool.token_rates@[i],
                            old(self).pool.precisions@[i],
                            current_block_no,
                            queried_rates@[i],
                        ).unwrap()
                    &&& r.unwrap().reserves@ == old(self).pool.reserves@
                    &&& r.unwrap().total_supply == ledger_supply(old(self).psp22)
                    &&& r.unwrap().fees == old(self).pool.fees
                    &&& r.unwrap().amp_coef == amp->Ok_0
                }
            }),
    {
        let rates = match self.get_scaled_rates(current_block_no, queried_rates) {
            Ok(v) => v,
            Err(e) => return Err(StablePoolError::MathError(e)),
        };
        let amp_coef = match self.amp_coef(now) {
            Ok(a) => a,
            Err(e) => return Err(e),
        };
        Ok(
            MathInputs {
                rates,
                reserves: self.reserves(),
                total_supply: ledger_total_supply(&self.psp22),
                fees: self.pool.fees,
                amp_coef,
            },
        )
    }
}

impl StablePoolContract {
    /// A deposit of `amounts` (one per token, some positive) that the
    /// stable-swap arithmetic says mints `lp_result` (shares and a fee part):
    /// the shares must reach `min_share_amount`; they are minted to `to`, the
    /// protocol's part of the fee part to the fee receiver, and the reserves
    /// grow by `amounts`. Returns the shares and the fee part.
    pub fn add_liquidity(
        &mut self,
        min_share_amount: u128,
        amounts: &Vec<u128>,
        to: AccountId,
        lp_result: Result<(u128, u128), MathError>,
    ) -> (r: Result<(u128, u128), StablePoolError>)
        requires
            old(self).pool.wf(),
        ensures
            final(self).pool.wf(),
            final(self).pool.tokens@ == old(self).pool.tokens@,
            final(self).pool.precisions@ == old(self).pool.precisions@,
            final(self).pool.token_rates@ == old(self).pool.token_rates@,
            final(self).pool.amp_coef == old(self).pool.amp_coef,
            final(self).pool.fees == old(self).pool.fees,
            final(self).pool.fee_receiver == old(self).pool.fee_receiver,
            final(self).ownable == old(self).ownable,
            amounts@.len() != old(self).pool.tokens@.len() ==> r == Err::<
                (u128, u128),
                StablePoolError,
            >(StablePoolError::IncorrectAmountsCount) && final(self).psp22 == old(self).psp22
                && final(self).pool.reserves@ == old(self).pool.reserves@,
            amounts@.len() == old(self).pool.tokens@.len() && !some_positive(amounts@) ==> r
                == Err::<(u128, u128), StablePoolError>(StablePoolError::ZeroAmounts)
                && final(self).psp22 == old(self).psp22 && final(self).pool.reserves@ == old(self).pool.reserves@,
            amounts@.len() == old(self).pool.tokens@.len() && some_positive(amounts@)
                && lp_result is Err ==> r == Err::<(u128, u128), StablePoolError>(
                StablePoolError::MathError(lp_result->Err_0),
            ) && final(self).psp22 == old(self).psp22 && final(self).pool.reserves@ == old(self).pool.reserves@,
            amounts@.len() == old(self).pool.tokens@.len() && some_positive(amounts@) && (
            lp_result matches Ok((shares, _)) && shares < min_share_amount) ==> r == Err::<
                (u128, u128),
                StablePoolError,
            >(StablePoolError::InsufficientLiquidityMinted) && final(self).psp22 == old(self).psp22 && final(self).pool.reserves@ == old(self).pool.reserves@,
            r is Ok ==> lp_result is Ok && r == Ok::<(u128, u128), StablePoolError>(lp_result->Ok_0)
                && amounts@.len() == old(self).pool.tokens@.len() && some_positive(amounts@)
                && lp_result->Ok_0.0 >= min_share_amount && reserves_plus(old(self).pool.reserves@, amounts@)
                == Some(final(self).pool.reserves@) && minted_then_minted(
                old(self).psp22,
                final(self).psp22,
                to,
                lp_result->Ok_0.0 as nat,
                old(self).pool.fee_receiver,
                protocol_part(old(self).pool.fee_receiver, old(self).pool.fees, lp_result->Ok_0.1),
            ),
            r is Err ==> final(self).pool.reserves@ == old(self).pool.reserves@ && final(self).psp22
                == old(self).psp22,
            ({
                let shares = lp_result->Ok_0.0;
                let part = protocol_part(old(self).pool.fee_receiver, old(self).pool.fees, lp_result->Ok_0.1);
                let supply = ledger_supply(old(self).psp22);
                amounts@.len() == old(self).pool.tokens@.len() && some_positive(amounts@)
                    && lp_result is Ok && shares >= min_share_amount ==> (r is Ok <==> (
                (shares == 0 || supply + shares <= u128::MAX) && (part == 0 || supply + shares
                    + part <= u128::MAX) && reserves_plus(old(self).pool.reserves@, amounts@) is Some))
            }),
            ({
                let shares = lp_result->Ok_0.0;
                let part = protocol_part(old(self).pool.fee_receiver, old(self).pool.fees, lp_result->Ok_0.1);
                let supply = ledger_supply(old(self).psp22);
                let first_ok = shares == 0 || supply + shares <= u128::MAX;
                let second_ok = part == 0 || supply + shares + part <= u128::MAX;
                amounts@.len() == old(self).pool.tokens@.len() && some_positive(amounts@)
                    && lp_result is Ok && shares >= min_share_amount ==> {
                    &&& !first_ok ==> (r matches Err(
                        StablePoolError::PSP22Error(PSP22Error::Custom(_)),
                    ))
                    &&& first_ok && !second_ok ==> (r matches Err(
                        StablePoolError::PSP22Error(PSP22Error::Custom(_)),
                    ))
                    &&& first_ok && second_ok && reserves_plus(old(self).pool.reserves@, amounts@)
                        is None ==> r == Err::<(u128, u128), StablePoolError>(
                        StablePoolError::MathError(MathError::AddOverflow(101)),
                    )
                }
            }),
    {
        if !(amounts.len() == self.pool.tokens.len()) {
            return Err(StablePoolError::IncorrectAmountsCount);
        }
        if !any_positive(amounts) {
            return Err(StablePoolError::ZeroAmounts);
        }
        let (shares, fee_part) = match lp_result {
            Ok(v) => v,
            Err(e) => return Err(StablePoolError::MathError(e)),
        };
        if !(shares >= min_share_amount) {
            return Err(StablePoolError::InsufficientLiquidityMinted);
        }
        let supply = ledger_total_supply(&self.psp22);
        if shares > 0 && supply > u128::MAX - shares {
            return Err(StablePoolError::PSP22Error(supply_overflow()));
        }
        let part = self.protocol_part_of(fee_part);
        if part > 0 && supply + shares > u128::MAX - part {
            return Err(StablePoolError::PSP22Error(supply_overflow()));
        }
        match self.increase_reserves(amounts) {
            Ok(()) => {},
            Err(e) => return Err(e),
        }
        let ghost before = self.psp22;
        match self.mint_lp(to, shares) {
            Ok(()) => {},
            Err(e) => return Err(e),
        }
        let ghost mid = self.psp22;
        match self.mint_protocol_fee_part(fee_part) {
            Ok(()) => {},
            Err(e) => return Err(e),
        }
        proof {
            assert(lp_minted(before, mid, to, shares as nat));
            assert(reserves_plus(old(self).pool.reserves@, amounts@) == Some(self.pool.reserves@));
            assert(minted_then_minted(
                before,
                self.psp22,
                to,
                shares as nat,
                old(self).pool.fee_receiver,
                protocol_part(old(self).pool.fee_receiver, old(self).pool.fees, fee_part),
            ));
        }
        Ok((shares, fee_part))
    }

    /// A withdrawal of `shares` liquidity tokens of `caller`, for which the
    /// stable-swap arithmetic gives `amounts_result` (one amount per token):
    /// each amount must reach its minimum in `min_amounts` and some must be
    /// positive; the reserves shrink by the amounts and the shares are
    /// burned. Returns the amounts.
    pub fn remove_liquidity_by_shares(
        &mut self,
        shares: u128,
        min_amounts: &Vec<u128>,
        caller: AccountId,
        amounts_result: Result<Vec<u128>, MathError>,
    ) -> (r: Result<Vec<u128>, StablePoolError>)
        requires
            old(self).pool.wf(),
            amounts_result is Ok ==> amounts_result->Ok_0@.len() <= old(self).pool.tokens@.len(),
        ensures
            final(self).pool.wf(),
            final(self).pool.tokens@ == old(self).pool.tokens@,
            final(self).pool.precisions@ == old(self).pool.precisions@,
            final(self).pool.token_rates@ == old(self).pool.token_rates@,
            final(self).pool.amp_coef == old(self).pool.amp_coef,
            final(self).pool.fees == old(self).pool.fees,
            final(self).pool.fee_receiver == old(self).pool.fee_receiver,
            final(self).ownable == old(self).ownable,
            match amounts_result {
                Err(e) => r == Err::<Vec<u128>, StablePoolError>(StablePoolError::MathError(e))
                    && final(self).psp22 == old(self).psp22 && final(self).pool.reserves@ == old(self).pool.reserves@,
                Ok(amounts) => if !all_reach(amounts@, min_amounts@) {
                    r == Err::<Vec<u128>, StablePoolError>(
                        StablePoolError::InsufficientOutputAmount,
                    ) && final(self).psp22 == old(self).psp22 && final(self).pool.reserves@ == old(self).pool.reserves@
                } else if !some_positive(amounts@) {
                    r == Err::<Vec<u128>, StablePoolError>(StablePoolError::ZeroAmounts)
                        && final(self).psp22 == old(self).psp22 && final(self).pool.reserves@
                        == old(self).pool.reserves@
                } else if reserves_minus(old(self).pool.reserves@, amounts@) is None {
                    r == Err::<Vec<u128>, StablePoolError>(
                        StablePoolError::MathError(MathError::SubUnderflow(101)),
                    ) && final(self).psp22 == old(self).psp22 && final(self).pool.reserves@ == old(self).pool.reserves@
                } else if shares > 0 && ledger_balance(old(self).psp22, caller) < shares {
                    r == Err::<Vec<u128>, StablePoolError>(
                        StablePoolError::PSP22Error(PSP22Error::InsufficientBalance),
                    ) && final(self).psp22 == old(self).psp22 && final(self).pool.reserves@
                        == old(self).pool.reserves@
                } else {
                    &&& final(self).pool.reserves@ == reserves_minus(
                        old(self).pool.reserves@,
                        amounts@,
                    ).unwrap()
                    &&& r is Ok && r.unwrap()@ == amounts@ && lp_burned(
                        old(self).psp22,
                        final(self).psp22,
                        caller,
                        shares as nat,
                    )
                },
            },
    {
        let amounts = match amounts_result {
            Ok(v) => v,
            Err(e) => return Err(StablePoolError::MathError(e)),
        };
        if !all_reach_min(&amounts, min_amounts) {
            return Err(StablePoolError::InsufficientOutputAmount);
        }
        if !any_positive(&amounts) {
            return Err(StablePoolError::ZeroAmounts);
        }
        if !self.reserves_cover(&amounts) {
            return Err(StablePoolError::MathError(MathError::SubUnderflow(101)));
        }
        if shares > 0 && ledger_balance_of(&self.psp22, caller) < shares {
            return Err(StablePoolError::PSP22Error(PSP22Error::InsufficientBalance));
        }
        match self.decrease_reserves(&amounts) {
            Ok(()) => {},
            Err(e) => return Err(e),
        }
        match self.burn_lp(caller, shares) {
            Ok(()) => {},
            Err(e) => return Err(e),
        }
        Ok(amounts)
    }

    /// A withdrawal of `amounts` (one per token, some positive) that the
    /// stable-swap arithmetic says costs `lp_result` (shares and a fee part)
    /// of `caller`'s liquidity tokens: the shares must not exceed
    /// `max_share_amount`; they are burned, the protocol's part of the fee
    /// part is minted to the fee receiver, and the reserves shrink by
    /// `amounts`. Returns the shares and the fee part.
    pub fn remove_liquidity_by_amounts(
        &mut self,
        max_share_amount: u128,
        amounts: &Vec<u128>,
        caller: AccountId,
        lp_result: Result<(u128, u128), MathError>,
    ) -> (r: Result<(u128, u128), StablePoolError>)
        requires
            old(self).pool.wf(),
        ensures
            final(self).pool.wf(),
            final(self).pool.tokens@ == old(self).pool.tokens@,
            final(self).pool.precisions@ == old(self).pool.precisions@,
            final(self).pool.token_rates@ == old(self).pool.token_rates@,
            final(self).pool.amp_coef == old(self).pool.amp_coef,
            final(self).pool.fees == old(self).pool.fees,
            final(self).pool.fee_receiver == old(self).pool.fee_receiver,
            final(self).ownable == old(self).ownable,
            r is Err ==> final(self).pool.reserves@ == old(self).pool.reserves@ && final(self).psp22
                == old(self).psp22,
            amounts@.len() != old(self).pool.tokens@.len() ==> r == Err::<
                (u128, u128),
                StablePoolError,
            >(StablePoolError::IncorrectAmountsCount) && final(self).psp22 == old(self).psp22,
            amounts@.len() == old(self).pool.tokens@.len() && !some_positive(amounts@) ==> r
                == Err::<(u128, u128), StablePoolError>(StablePoolError::ZeroAmounts)
                && final(self).psp22 == old(self).psp22,
            amounts@.len() == old(self).pool.tokens@.len() && some_positive(amounts@)
                && lp_result is Err ==> r == Err::<(u128, u128), StablePoolError>(
                StablePoolError::MathError(lp_result->Err_0),
            ) && final(self).psp22 == old(self).psp22,
            amounts@.len() == old(self).pool.tokens@.len() && some_positive(amounts@) && (
            lp_result matches Ok((shares, _)) && shares > max_share_amount) ==> r == Err::<
                (u128, u128),
                StablePoolError,
            >(StablePoolError::InsufficientLiquidityBurned) && final(self).psp22 == old(self).psp22,
            r is Ok ==> lp_result is Ok && r == Ok::<(u128, u128), StablePoolError>(lp_result->Ok_0)
                && amounts@.len() == old(self).pool.tokens@.len() && some_positive(amounts@)
                && lp_result->Ok_0.0 <= max_share_amount && reserves_minus(old(self).pool.reserves@, amounts@)
                == Some(final(self).pool.reserves@) && burned_then_minted(
                old(self).psp22,
                final(self).psp22,
                caller,
                lp_result->Ok_0.0 as nat,
                old(self).pool.fee_receiver,
                protocol_part(old(self).pool.fee_receiver, old(self).pool.fees, lp_result->Ok_0.1),
            ),
            ({
                let shares = lp_result->Ok_0.0;
                amounts@.len() == old(self).pool.tokens@.len() && some_positive(amounts@)
                    && lp_result is Ok && shares <= max_share_amount && shares > 0
                    && ledger_balance(old(self).psp22, caller) < shares ==> r == Err::<
                    (u128, u128),
                    StablePoolError,
                >(StablePoolError::PSP22Error(PSP22Error::InsufficientBalance))
                    && final(self).psp22 == old(self).psp22
            }),
            ({
                let shares = lp_result->Ok_0.0;
                let part = protocol_part(old(self).pool.fee_receiver, old(self).pool.fees, lp_result->Ok_0.1);
                let supply = ledger_supply(old(self).psp22);
                let burn_ok = shares == 0 || ledger_balance(old(self).psp22, caller) >= shares;
                let supply_after = if shares == 0 {
                    supply
                } else if supply >= shares {
                    (supply - shares) as nat
                } else {
                    0
                };
                let mint_ok = part == 0 || supply_after + part <= u128::MAX;
                amounts@.len() == old(self).pool.tokens@.len() && some_positive(amounts@)
                    && lp_result is Ok && shares <= max_share_amount ==> {
                    &&& burn_ok && !mint_ok ==> (r matches Err(
                        StablePoolError::PSP22Error(PSP22Error::Custom(_)),
                    ))
                    &&& burn_ok && mint_ok && reserves_minus(old(self).pool.reserves@, amounts@)
                        is None ==> r == Err::<(u128, u128), StablePoolError>(
                        StablePoolError::MathError(MathError::SubUnderflow(101)),
                    )
                    &&& burn_ok && mint_ok && reserves_minus(old(self).pool.reserves@, amounts@)
                        is Some ==> r is Ok
                }
            }),
    {
        if !(amounts.len() == self.pool.tokens.len()) {
            return Err(StablePoolError::IncorrectAmountsCount);
        }
        if !any_positive(amounts) {
            return Err(StablePoolError::ZeroAmounts);
        }
        let (shares_to_burn, fee_part) = match lp_result {
            Ok(v) => v,
            Err(e) => return Err(StablePoolError::MathError(e)),
        };
        if !(shares_to_burn <= max_share_amount) {
            return Err(StablePoolError::InsufficientLiquidityBurned);
        }
        if shares_to_burn > 0 && ledger_balance_of(&self.psp22, caller) < shares_to_burn {
            return Err(StablePoolError::PSP22Error(PSP22Error::InsufficientBalance));
        }
        let supply = ledger_total_supply(&self.psp22);
        let supply_after = if supply >= shares_to_burn {
            supply - shares_to_burn
        } else {
            0
        };
        let part = self.protocol_part_of(fee_part);
        if part > 0 && supply_after > u128::MAX - part {
            return Err(StablePoolError::PSP22Error(supply_overflow()));
        }
        match self.decrease_reserves(amounts) {
            Ok(()) => {},
            Err(e) => return Err(e),
        }
        let ghost before = self.psp22;
        match self.burn_lp(caller, shares_to_burn) {
            Ok(()) => {},
            Err(e) => return Err(e),
        }
        let ghost mid = self.psp22;
        match self.mint_protocol_fee_part(fee_part) {
            Ok(()) => {},
            Err(e) => return Err(e),
        }
        proof {
            assert(lp_burned(before, mid, caller, shares_to_burn as nat));
            assert(reserves_minus(old(self).pool.reserves@, amounts@) == Some(self.pool.reserves@));
            assert(burned_then_minted(
                before,
                self.psp22,
                caller,
                shares_to_burn as nat,
                old(self).pool.fee_receiver,
                protocol_part(old(self).pool.fee_receiver, old(self).pool.fees, fee_part),
            ));
        }
        Ok((shares_to_burn, fee_part))
    }
}

/// The owner started a transfer of ownership to `new_owner`.
#[derive(Debug, Clone, Copy, PartialEq, Eq)]
pub struct TransferOwnershipInitiated {
    pub new_owner: AccountId,
}

/// `new_owner` accepted the ownership.
#[derive(Debug, Clone, Copy, PartialEq, Eq)]
pub struct TransferOwnershipAccepted {
    pub new_owner: AccountId,
}

/// The owner gave the pool to itself.
#[derive(Debug, Clone, Copy, PartialEq, Eq)]
pub struct OwnershipRenounced {}

/// The receiver of protocol fees changed.
#[derive(Debug, Clone, Copy, PartialEq, Eq)]
pub struct FeeReceiverChanged {
    pub new_fee_receiver: Option<AccountId>,
}

/// A ramp of the amplification coefficient started.
#[derive(Debug, Clone, Copy, PartialEq, Eq)]
pub struct AmpCoefChange {
    pub init_amp_coef: u128,
    pub future_amp_coef: u128,
    pub init_time: u64,
    pub future_time: u64,
}

/// A ramp of the amplification coefficient stopped at `amp_coef`.
#[derive(Debug, Clone, Copy, PartialEq, Eq)]
pub struct AmpCoefChangeStop {
    pub amp_coef: u128,
    pub time: u64,
}

/// The fees changed.
#[derive(Debug, Clone, Copy, PartialEq, Eq)]
pub struct FeeChanged {
    pub trade_fee: u32,
    pub protocol_fee: u32,
}

/// A trade.
#[derive(Debug, Clone, Copy, PartialEq, Eq)]
pub struct Swap {
    pub sender: AccountId,
    pub token_in: AccountId,
    pub amount_in: u128,
    pub token_out: AccountId,
    pub amount_out: u128,
    pub to: AccountId,
}

/// An allowance of liquidity tokens was set.
#[derive(Debug, Clone, Copy, PartialEq, Eq)]
pub struct Approval {
    pub owner: AccountId,
    pub spender: AccountId,
    pub amount: u128,
}

/// Liquidity tokens moved; `None` stands for minting or burning.
#[derive(Debug, Clone, Copy, PartialEq, Eq)]
pub struct Transfer {
    pub from: Option<AccountId>,
    pub to: Option<AccountId>,
    pub value: u128,
}

/// A deposit of liquidity.
#[derive(Debug)]
pub struct AddLiquidity {
    pub provider: AccountId,
    pub token_amounts: Vec<u128>,
    pub shares: u128,
    pub to: AccountId,
}

/// A withdrawal of liquidity.
#[derive(Debug)]
pub struct RemoveLiquidity {
    pub provider: AccountId,
    pub token_amounts: Vec<u128>,
    pub shares: u128,
    pub to: AccountId,
}

/// The reserves after a change.
#[derive(Debug)]
pub struct Sync {
    pub reserves: Vec<u128>,
}

/// A copy of the numbers in `v`.
fn copy_amounts(v: &Vec<u128>) -> (r: Vec<u128>)
    ensures
        r@ == v@,
{
    let mut r: Vec<u128> = Vec::new();
    let mut i: usize = 0;
    while i < v.len()
        invariant
            i <= v@.len(),
            r@ == v@.take(i as int),
        decreases v@.len() - i,
    {
        r.push(v[i]);
        i = i + 1;
        assert(r@ =~= v@.take(i as int));
    }
    assert(v@.take(v@.len() as int) =~= v@);
    r
}

impl StablePoolContract {
    /// The owner `caller` sets the receiver of protocol fees.
    pub fn set_fee_receiver(&mut self, caller: AccountId, fee_receiver: Option<AccountId>) -> (r:
        Result<FeeReceiverChanged, StablePoolError>)
        requires
            old(self).pool.wf(),
        ensures
            final(self).pool.wf(),
            caller != old(self).ownable.owner ==> r == Err::<FeeReceiverChanged, StablePoolError>(
                StablePoolError::Ownable2StepError(Ownable2StepError::CallerNotOwner(caller)),
            ) && final(self).pool.fee_receiver == old(self).pool.fee_receiver,
            caller == old(self).ownable.owner ==> r == Ok::<FeeReceiverChanged, StablePoolError>(
                FeeReceiverChanged { new_fee_receiver: fee_receiver },
            ) && final(self).pool.fee_receiver == fee_receiver,
            final(self).pool.tokens@ == old(self).pool.tokens@,
            final(self).pool.precisions@ == old(self).pool.precisions@,
            final(self).pool.reserves@ == old(self).pool.reserves@,
            final(self).pool.token_rates@ == old(self).pool.token_rates@,
            final(self).pool.amp_coef == old(self).pool.amp_coef,
            final(self).pool.fees == old(self).pool.fees,
            final(self).ownable == old(self).ownable,
            final(self).psp22 == old(self).psp22,
    {
        match self.ownable.ensure_owner(caller) {
            Ok(()) => {},
            Err(e) => return Err(StablePoolError::Ownable2StepError(e)),
        }
        self.pool.fee_receiver = fee_receiver;
        Ok(FeeReceiverChanged { new_fee_receiver: fee_receiver })
    }

    /// The owner `caller` sets the fees, which must be within their limits.
    pub fn set_fees(&mut self, caller: AccountId, trade_fee: u32, protocol_fee: u32) -> (r: Result<
        FeeChanged,
        StablePoolError,
    >)
        requires
            old(self).pool.wf(),
        ensures
            final(self).pool.wf(),
            caller != old(self).ownable.owner ==> r == Err::<FeeChanged, StablePoolError>(
                StablePoolError::Ownable2StepError(Ownable2StepError::CallerNotOwner(caller)),
            ) && final(self).pool.fees == old(self).pool.fees,
            caller == old(self).ownable.owner && !(trade_fee <= MAX_TRADE_FEE && protocol_fee
                <= MAX_PROTOCOL_FEE) ==> r == Err::<FeeChanged, StablePoolError>(
                StablePoolError::InvalidFee,
            ) && final(self).pool.fees == old(self).pool.fees,
            caller == old(self).ownable.owner && trade_fee <= MAX_TRADE_FEE && protocol_fee
                <= MAX_PROTOCOL_FEE ==> r == Ok::<FeeChanged, StablePoolError>(
                FeeChanged { trade_fee, protocol_fee },
            ) && final(self).pool.fees == (Fees { trade_fee, protocol_fee }),
            final(self).pool.tokens@ == old(self).pool.tokens@,
            final(self).pool.precisions@ == old(self).pool.precisions@,
            final(self).pool.reserves@ == old(self).pool.reserves@,
            final(self).pool.token_rates@ == old(self).pool.token_rates@,
            final(self).pool.amp_coef == old(self).pool.amp_coef,
            final(self).pool.fee_receiver == old(self).pool.fee_receiver,
            final(self).ownable == old(self).ownable,
            final(self).psp22 == old(self).psp22,
    {
        match self.ownable.ensure_owner(caller) {
            Ok(()) => {},
            Err(e) => return Err(StablePoolError::Ownable2StepError(e)),
        }
        let fees = match Fees::new(trade_fee, protocol_fee) {
            Some(f) => f,
            None => return Err(StablePoolError::InvalidFee),
        };
        self.pool.fees = fees;
        Ok(FeeChanged { trade_fee, protocol_fee })
    }

    /// The owner `caller` starts a ramp of the amplification coefficient at
    /// block time `now` towards `future_amp_coef`, reached at `future_time`.
    pub fn ramp_amp_coef(
        &mut self,
        caller: AccountId,
        future_amp_coef: u128,
        future_time: u64,
        now: u64,
    ) -> (r: Result<AmpCoefChange, StablePoolError>)
        requires
            old(self).pool.wf(),
        ensures
            final(self).pool.wf(),
            caller != old(self).ownable.owner ==> r == Err::<AmpCoefChange, StablePoolError>(
                StablePoolError::Ownable2StepError(Ownable2StepError::CallerNotOwner(caller)),
            ) && final(self).pool.amp_coef == old(self).pool.amp_coef,
            caller == old(self).ownable.owner && amp_at(old(self).pool.amp_coef, now) is Err ==> r
                == Err::<AmpCoefChange, StablePoolError>(
                StablePoolError::MathError(amp_at(old(self).pool.amp_coef, now)->Err_0),
            ) && final(self).pool.amp_coef == old(self).pool.amp_coef,
            caller == old(self).ownable.owner && amp_at(old(self).pool.amp_coef, now) is Ok ==> match ramp_check(
                old(self).pool.amp_coef,
                future_amp_coef,
                future_time,
                now,
            ) {
                Err(e) => r == Err::<AmpCoefChange, StablePoolError>(e) && final(self).pool.amp_coef
                    == old(self).pool.amp_coef,
                Ok(current) => r == Ok::<AmpCoefChange, StablePoolError>(
                    AmpCoefChange {
                        init_amp_coef: current,
                        future_amp_coef,
                        init_time: now,
                        future_time,
                    },
                ) && final(self).pool.amp_coef == (AmpCoef {
                    init_amp_coef: current,
                    future_amp_coef,
                    init_time: now,
                    future_time,
                }),
            },
            final(self).pool.tokens@ == old(self).pool.tokens@,
            final(self).pool.precisions@ == old(self).pool.precisions@,
            final(self).pool.reserves@ == old(self).pool.reserves@,
            final(self).pool.token_rates@ == old(self).pool.token_rates@,
            final(self).pool.fees == old(self).pool.fees,
            final(self).pool.fee_receiver == old(self).pool.fee_receiver,
            final(self).ownable == old(self).ownable,
            final(self).psp22 == old(self).psp22,
    {
        match self.ownable.ensure_owner(caller) {
            Ok(()) => {},
            Err(e) => return Err(StablePoolError::Ownable2StepError(e)),
        }
        let init_amp_coef = match self.amp_coef(now) {
            Ok(a) => a,
            Err(e) => return Err(e),
        };
        match self.pool.amp_coef.ramp_amp_coef(future_amp_coef, future_time, now) {
            Ok(()) => {},
            Err(e) => return Err(e),
        }
        Ok(AmpCoefChange { init_amp_coef, future_amp_coef, init_time: now, future_time })
    }

    /// The owner `caller` stops a ramp of the amplification coefficient at
    /// block time `now`; the coefficient stays where it is.
    pub fn stop_ramp_amp_coef(&mut self, caller: AccountId, now: u64) -> (r: Result<
        AmpCoefChangeStop,
        StablePoolError,
    >)
        requires
            old(self).pool.wf(),
        ensures
            final(self).pool.wf(),
            caller != old(self).ownable.owner ==> r == Err::<AmpCoefChangeStop, StablePoolError>(
                StablePoolError::Ownable2StepError(Ownable2StepError::CallerNotOwner(caller)),
            ) && final(self).pool.amp_coef == old(self).pool.amp_coef,
            caller == old(self).ownable.owner ==> match amp_at(old(self).pool.amp_coef, now) {
                Err(e) => r == Err::<AmpCoefChangeStop, StablePoolError>(
                    StablePoolError::MathError(e),
                ) && final(self).pool.amp_coef == old(self).pool.amp_coef,
                Ok(current) => r == Ok::<AmpCoefChangeStop, StablePoolError>(
                    AmpCoefChangeStop { amp_coef: current, time: now },
                ) && final(self).pool.amp_coef == (AmpCoef {
                    init_amp_coef: current,
                    future_amp_coef: current,
                    init_time: now,
                    future_time: now,
                }),
            },
            final(self).pool.tokens@ == old(self).pool.tokens@,
            final(self).pool.precisions@ == old(self).pool.precisions@,
            final(self).pool.reserves@ == old(self).pool.reserves@,
            final(self).pool.token_rates@ == old(self).pool.token_rates@,
            final(self).pool.fees == old(self).pool.fees,
            final(self).pool.fee_receiver == old(self).pool.fee_receiver,
            final(self).ownable == old(self).ownable,
            final(self).psp22 == old(self).psp22,
    {
        match self.ownable.ensure_owner(caller) {
            Ok(()) => {},
            Err(e) => return Err(StablePoolError::Ownable2StepError(e)),
        }
        match self.pool.amp_coef.stop_ramp_amp_coef(now) {
            Ok(()) => {},
            Err(e) => return Err(e),
        }
        let amp_coef = match self.amp_coef(now) {
            Ok(a) => a,
            Err(e) => return Err(e),
        };
        Ok(AmpCoefChangeStop { amp_coef, time: now })
    }

    /// The tokens of the pool.
    pub fn tokens(&self) -> (r: Vec<AccountId>)
        ensures
            r@ == self.pool.tokens@,
    {
        let mut r: Vec<AccountId> = Vec::new();
        let mut i: usize = 0;
        while i < self.pool.tokens.len()
            invariant
                i <= self.pool.tokens@.len(),
                r@ == self.pool.tokens@.take(i as int),
            decreases self.pool.tokens@.len() - i,
        {
            r.push(self.pool.tokens[i]);
            i = i + 1;
            assert(r@ =~= self.pool.tokens@.take(i as int));
        }
        assert(self.pool.tokens@.take(self.pool.tokens@.len() as int) =~= self.pool.tokens@);
        r
    }

    /// The reserves of the tokens.
    pub fn reserves(&self) -> (r: Vec<u128>)
        ensures
            r@ == self.pool.reserves@,
    {
        copy_amounts(&self.pool.reserves)
    }

    /// The amplification coefficient at block time `now`.
    pub fn amp_coef(&self, now: u64) -> (r: Result<u128, StablePoolError>)
        ensures
            match amp_at(self.pool.amp_coef, now) {
                Ok(a) => r == Ok::<u128, StablePoolError>(a),
                Err(e) => r == Err::<u128, StablePoolError>(StablePoolError::MathError(e)),
            },
    {
        match self.pool.amp_coef.compute_amp_coef(now) {
            Ok(a) => Ok(a),
            Err(e) => Err(StablePoolError::MathError(e)),
        }
    }

    /// The target and end time of a ramp in progress at block time `now`.
    pub fn future_amp_coef(&self, now: u64) -> (r: Option<(u128, u64)>)
        ensures
            now < self.pool.amp_coef.future_time ==> r == Some(
                (self.pool.amp_coef.future_amp_coef, self.pool.amp_coef.future_time),
            ),
            now >= self.pool.amp_coef.future_time ==> r is None,
    {
        self.pool.amp_coef.future_amp_coef(now)
    }

    /// The trade and protocol fees, in parts of `FEE_DENOM`.
    pub fn fees(&self) -> (r: (u32, u32))
        ensures
            r == (self.pool.fees.trade_fee, self.pool.fees.protocol_fee),
    {
        (self.pool.fees.trade_fee, self.pool.fees.protocol_fee)
    }

    /// The receiver of protocol fees, if any.
    pub fn fee_receiver(&self) -> (r: Option<AccountId>)
        ensures
            r == self.pool.fee_receiver,
    {
        self.pool.fee_receiver
    }

    /// The rate provider of each token, `None` for a constant rate.
    pub fn token_rates_providers(&self) -> (r: Vec<Option<AccountId>>)
        ensures
            r@.len() == self.pool.token_rates@.len(),
            forall|i: int|
                0 <= i < r@.len() ==> #[trigger] r@[i] == match self.pool.token_rates@[i] {
                    TokenRate::External(e) => Some(e.rate_provider),
                    TokenRate::Constant(_) => None::<AccountId>,
                },
    {
        let mut r: Vec<Option<AccountId>> = Vec::new();
        let mut i: usize = 0;
        while i < self.pool.token_rates.len()
            invariant
                i <= self.pool.token_rates@.len(),
                r@.len() == i,
                forall|k: int|
                    0 <= k < i ==> #[trigger] r@[k] == match self.pool.token_rates@[k] {
                        TokenRate::External(e) => Some(e.rate_provider),
                        TokenRate::Constant(_) => None::<AccountId>,
                    },
            decreases self.pool.token_rates@.len() - i,
        {
            r.push(self.pool.token_rates[i].get_rate_provider());
            i = i + 1;
        }
        r
    }

    /// The rates of the tokens at block `current_block_no`, updating the
    /// caches; `queried_rates[i]` is what the rate provider of token `i`
    /// answers, read only when its cached rate is older than the block.
    pub fn token_rates(&mut self, current_block_no: u32, queried_rates: &Vec<u128>) -> (r: Vec<u128>)
        requires
            queried_rates@.len() == old(self).pool.token_rates@.len(),
        ensures
            r@.len() == old(self).pool.token_rates@.len(),
            forall|i: int|
                0 <= i < r@.len() ==> #[trigger] r@[i] == token_rate_update(
                    old(self).pool.token_rates@[i],
                    current_block_no,
                    queried_rates@[i],
                ).0,
            final(self).pool.token_rates@ == Seq::new(
                old(self).pool.token_rates@.len(),
                |i: int|
                    token_rate_update(
                        old(self).pool.token_rates@[i],
                        current_block_no,
                        queried_rates@[i],
                    ).1,
            ),
            final(self).pool.tokens@ == old(self).pool.tokens@,
            final(self).pool.precisions@ == old(self).pool.precisions@,
            final(self).pool.reserves@ == old(self).pool.reserves@,
            final(self).pool.amp_coef == old(self).pool.amp_coef,
            final(self).pool.fees == old(self).pool.fees,
            final(self).pool.fee_receiver == old(self).pool.fee_receiver,
            final(self).ownable == old(self).ownable,
            final(self).psp22 == old(self).psp22,
    {
        let n = self.pool.token_rates.len();
        let ghost old_rates = self.pool.token_rates@;
        let mut r: Vec<u128> = Vec::new();
        let mut i: usize = 0;
        while i < n
            invariant
                n == self.pool.token_rates@.len(),
                n == old_rates.len(),
                queried_rates@.len() == n,
                i <= n,
                r@.len() == i,
                forall|k: int|
                    0 <= k < i ==> #[trigger] r@[k] == token_rate_update(
                        old_rates[k],
                        current_block_no,
                        queried_rates@[k],
                    ).0,
                forall|k: int|
                    0 <= k < n ==> #[trigger] self.pool.token_rates@[k] == if k < i {
                        token_rate_update(old_rates[k], current_block_no, queried_rates@[k]).1
                    } else {
                        old_rates[k]
                    },
                old_rates == old(self).pool.token_rates@,
                self.pool.tokens@ == old(self).pool.tokens@,
                self.pool.precisions@ == old(self).pool.precisions@,
                self.pool.reserves@ == old(self).pool.reserves@,
                self.pool.amp_coef == old(self).pool.amp_coef,
                self.pool.fees == old(self).pool.fees,
                self.pool.fee_receiver == old(self).pool.fee_receiver,
                self.ownable == old(self).ownable,
                self.psp22 == old(self).psp22,
            decreases n - i,
        {
            let mut t = self.pool.token_rates[i];
            let rate = t.get_rate(current_block_no, queried_rates[i]);
            self.pool.token_rates.set(i, t);
            r.push(rate);
            i = i + 1;
        }
        proof {
            assert(self.pool.token_rates@ =~= Seq::new(
                n as nat,
                |i: int| token_rate_update(old_rates[i], current_block_no, queried_rates@[i]).1,
            ));
        }
        r
    }

    /// The checks before the stable-swap arithmetic prices a deposit or a
    /// withdrawal of `amounts`: one amount per token.
    pub fn check_amounts_count(&self, amounts: &Vec<u128>) -> (r: Result<(), StablePoolError>)
        ensures
            amounts@.len() == self.pool.tokens@.len() ==> r is Ok,
            amounts@.len() != self.pool.tokens@.len() ==> r == Err::<(), StablePoolError>(
                StablePoolError::IncorrectAmountsCount,
            ),
    {
        if !(amounts.len() == self.pool.tokens.len()) {
            return Err(StablePoolError::IncorrectAmountsCount);
        }
        Ok(())
    }

    /// The check before the stable-swap arithmetic prices a burn of
    /// `liquidity`: it cannot exceed the supply.
    pub fn check_liquidity_burn(&self, liquidity: u128) -> (r: Result<(), StablePoolError>)
        ensures
            liquidity <= ledger_supply(self.psp22) ==> r is Ok,
            liquidity > ledger_supply(self.psp22) ==> r == Err::<(), StablePoolError>(
                StablePoolError::InsufficientLiquidity,
            ),
    {
        if !(liquidity <= ledger_total_supply(&self.psp22)) {
            return Err(StablePoolError::InsufficientLiquidity);
        }
        Ok(())
    }

    /// The supply of liquidity tokens.
    pub fn total_supply(&self) -> (r: u128)
        ensures
            r == ledger_supply(self.psp22),
    {
        ledger_total_supply(&self.psp22)
    }

    /// The liquidity tokens of `owner`.
    pub fn balance_of(&self, owner: AccountId) -> (r: u128)
        ensures
            r == ledger_balance(self.psp22, owner),
    {
        ledger_balance_of(&self.psp22, owner)
    }

    /// The name of the liquidity token.
    pub fn token_name(&self) -> (r: Option<String>)
        ensures
            r is Some && r.unwrap()@ == "CommonStableSwap"@,
    {
        Some("CommonStableSwap".to_owned())
    }

    /// The symbol of the liquidity token.
    pub fn token_symbol(&self) -> (r: Option<String>)
        ensures
            r is Some && r.unwrap()@ == "CMNSS"@,
    {
        Some("CMNSS".to_owned())
    }

    /// The decimals of the liquidity token.
    pub fn token_decimals(&self) -> (r: u8)
        ensures
            r == TOKEN_TARGET_DECIMALS,
    {
        TOKEN_TARGET_DECIMALS
    }

    /// The owner.
    pub fn get_owner(&self) -> (r: Result<AccountId, Ownable2StepError>)
        ensures
            r == Ok::<AccountId, Ownable2StepError>(self.ownable.owner),
    {
        self.ownable.get_owner()
    }

    /// The pending owner, or `NoPendingOwner`.
    pub fn get_pending_owner(&self) -> (r: Result<AccountId, Ownable2StepError>)
        ensures
            self.ownable.pending_owner is Some ==> r == Ok::<AccountId, Ownable2StepError>(
                self.ownable.pending_owner.unwrap(),
            ),
            self.ownable.pending_owner is None ==> r == Err::<AccountId, Ownable2StepError>(
                Ownable2StepError::NoPendingOwner,
            ),
    {
        self.ownable.get_pending_owner()
    }

    /// The owner `caller` names `new_owner` as pending owner.
    pub fn transfer_ownership(&mut self, caller: AccountId, new_owner: AccountId) -> (r: Result<
        TransferOwnershipInitiated,
        Ownable2StepError,
    >)
        ensures
            ({
                let (res, s) = crate::ownable::transfer_ownership_spec(
                    old(self).ownable,
                    caller,
                    new_owner,
                );
                &&& final(self).ownable == s
                &&& res is Ok ==> r == Ok::<TransferOwnershipInitiated, Ownable2StepError>(
                    TransferOwnershipInitiated { new_owner },
                )
                &&& res is Err ==> r == Err::<TransferOwnershipInitiated, Ownable2StepError>(
                    res->Err_0,
                )
            }),
    {
        match self.ownable.transfer_ownership(caller, new_owner) {
            Ok(()) => Ok(TransferOwnershipInitiated { new_owner }),
            Err(e) => Err(e),
        }
    }

    /// The pending owner `caller` accepts the ownership.
    pub fn accept_ownership(&mut self, caller: AccountId) -> (r: Result<
        TransferOwnershipAccepted,
        Ownable2StepError,
    >)
        ensures
            ({
                let (res, s) = crate::ownable::accept_ownership_spec(old(self).ownable, caller);
                &&& final(self).ownable == s
                &&& res is Ok ==> r == Ok::<TransferOwnershipAccepted, Ownable2StepError>(
                    TransferOwnershipAccepted { new_owner: caller },
                )
                &&& res is Err ==> r == Err::<TransferOwnershipAccepted, Ownable2StepError>(
                    res->Err_0,
                )
            }),
    {
        match self.ownable.accept_ownership(caller) {
            Ok(()) => Ok(TransferOwnershipAccepted { new_owner: caller }),
            Err(e) => Err(e),
        }
    }

    /// The owner `caller` gives the pool, at `contract_address`, to itself.
    pub fn renounce_ownership(&mut self, caller: AccountId, contract_address: AccountId) -> (r:
        Result<OwnershipRenounced, Ownable2StepError>)
        ensures
            ({
                let (res, s) = crate::ownable::renounce_ownership_spec(
                    old(self).ownable,
                    caller,
                    contract_address,
                );
                &&& final(self).ownable == s
                &&& res is Ok ==> r == Ok::<OwnershipRenounced, Ownable2StepError>(
                    OwnershipRenounced {},
                )
                &&& res is Err ==> r == Err::<OwnershipRenounced, Ownable2StepError>(res->Err_0)
            }),
    {
        match self.ownable.renounce_ownership(caller, contract_address) {
            Ok(()) => Ok(OwnershipRenounced {}),
            Err(e) => Err(e),
        }
    }

    /// Fails unless `caller` is the owner.
    pub fn ensure_owner(&self, caller: AccountId) -> (r: Result<(), Ownable2StepError>)
        ensures
            caller == self.ownable.owner ==> r is Ok,
            caller != self.ownable.owner ==> r == Err::<(), Ownable2StepError>(
                Ownable2StepError::CallerNotOwner(caller),
            ),
    {
        self.ownable.ensure_owner(caller)
    }
}

impl StablePoolContract {
    /// The allowance that `owner` gave `spender`.
    pub fn allowance(&self, owner: AccountId, spender: AccountId) -> (r: u128)
        ensures
            r == crate::ledger::ledger_allowance(self.psp22, owner, spender),
    {
        crate::ledger::ledger_allowance_of(&self.psp22, owner, spender)
    }

    /// `caller` sends `value` tokens to `to`; returns the ledger's events.
    pub fn transfer(&mut self, caller: AccountId, to: AccountId, value: u128) -> (r: Result<
        Vec<psp22::PSP22Event>,
        PSP22Error,
    >)
        ensures
            crate::ledger::transfer_spec(old(self).psp22, final(self).psp22, r, caller, to, value),
            final(self).pool.tokens@ == old(self).pool.tokens@,
            final(self).pool.precisions@ == old(self).pool.precisions@,
            final(self).pool.reserves@ == old(self).pool.reserves@,
            final(self).pool.token_rates@ == old(self).pool.token_rates@,
            final(self).pool.amp_coef == old(self).pool.amp_coef,
            final(self).pool.fees == old(self).pool.fees,
            final(self).pool.fee_receiver == old(self).pool.fee_receiver,
            final(self).ownable == old(self).ownable,
    {
        crate::ledger::ledger_transfer(&mut self.psp22, caller, to, value)
    }

    /// `caller` sends `value` tokens of `from` to `to` under the allowance
    /// `from` gave it; returns the ledger's events.
    pub fn transfer_from(
        &mut self,
        caller: AccountId,
        from: AccountId,
        to: AccountId,
        value: u128,
    ) -> (r: Result<Vec<psp22::PSP22Event>, PSP22Error>)
        ensures
            crate::ledger::transfer_from_spec(
                old(self).psp22,
                final(self).psp22,
                r,
                caller,
                from,
                to,
                value,
            ),
            final(self).pool.tokens@ == old(self).pool.tokens@,
            final(self).pool.precisions@ == old(self).pool.precisions@,
            final(self).pool.reserves@ == old(self).pool.reserves@,
            final(self).pool.token_rates@ == old(self).pool.token_rates@,
            final(self).pool.amp_coef == old(self).pool.amp_coef,
            final(self).pool.fees == old(self).pool.fees,
            final(self).pool.fee_receiver == old(self).pool.fee_receiver,
            final(self).ownable == old(self).ownable,
    {
        crate::ledger::ledger_transfer_from(&mut self.psp22, caller, from, to, value)
    }

    /// `caller` lets `spender` send up to `value` of its tokens; returns the
    /// ledger's events.
    pub fn approve(&mut self, caller: AccountId, spender: AccountId, value: u128) -> (r: Result<
        Vec<psp22::PSP22Event>,
        PSP22Error,
    >)
        ensures
            crate::ledger::approve_spec(old(self).psp22, final(self).psp22, r, caller, spender, value),
            final(self).pool.tokens@ == old(self).pool.tokens@,
            final(self).pool.precisions@ == old(self).pool.precisions@,
            final(self).pool.reserves@ == old(self).pool.reserves@,
            final(self).pool.token_rates@ == old(self).pool.token_rates@,
            final(self).pool.amp_coef == old(self).pool.amp_coef,
            final(self).pool.fees == old(self).pool.fees,
            final(self).pool.fee_receiver == old(self).pool.fee_receiver,
            final(self).ownable == old(self).ownable,
    {
        crate::ledger::ledger_approve(&mut self.psp22, caller, spender, value)
    }

    /// `caller` raises the allowance of `spender` by `delta_value`; returns
    /// the ledger's events.
    pub fn increase_allowance(&mut self, caller: AccountId, spender: AccountId, delta_value: u128) -> (r:
        Result<Vec<psp22::PSP22Event>, PSP22Error>)
        ensures
            crate::ledger::increase_allowance_spec(
                old(self).psp22,
                final(self).psp22,
                r,
                caller,
                spender,
                delta_value,
            ),
            final(self).pool.tokens@ == old(self).pool.tokens@,
            final(self).pool.precisions@ == old(self).pool.precisions@,
            final(self).pool.reserves@ == old(self).pool.reserves@,
            final(self).pool.token_rates@ == old(self).pool.token_rates@,
            final(self).pool.amp_coef == old(self).pool.amp_coef,
            final(self).pool.fees == old(self).pool.fees,
            final(self).pool.fee_receiver == old(self).pool.fee_receiver,
            final(self).ownable == old(self).ownable,
    {
        crate::ledger::ledger_increase_allowance(&mut self.psp22, caller, spender, delta_value)
    }

    /// `caller` lowers the allowance of `spender` by `delta_value`; returns
    /// the ledger's events.
    pub fn decrease_allowance(&mut self, caller: AccountId, spender: AccountId, delta_value: u128) -> (r:
        Result<Vec<psp22::PSP22Event>, PSP22Error>)
        ensures
            crate::ledger::decrease_allowance_spec(
                old(self).psp22,
                final(self).psp22,
                r,
                caller,
                spender,
                delta_value,
            ),
            final(self).pool.tokens@ == old(self).pool.tokens@,
            final(self).pool.precisions@ == old(self).pool.precisions@,
            final(self).pool.reserves@ == old(self).pool.reserves@,
            final(self).pool.token_rates@ == old(self).pool.token_rates@,
            final(self).pool.amp_coef == old(self).pool.amp_coef,
            final(self).pool.fees == old(self).pool.fees,
            final(self).pool.fee_receiver == old(self).pool.fee_receiver,
            final(self).ownable == old(self).ownable,
    {
        crate::ledger::ledger_decrease_allowance(&mut self.psp22, caller, spender, delta_value)
    }
}

} // verus!
