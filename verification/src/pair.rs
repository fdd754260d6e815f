//! The constant-product `Pair` pool (UniswapV2 core): liquidity minting and
//! burning, swaps checked against the constant-product invariant, the
//! protocol fee, and the time-weighted price accumulators.
//!
//! The pool's own state lives in [`PairContract`]; token balances of the
//! pool, the factory's fee recipient and the block time are read by the
//! contract shell and handed in, and the events to emit are handed back.
use crate::account::AccountId;
use crate::constants::{burn_address, spec_burn_address, MINIMUM_LIQUIDITY};
use crate::errors::{MathError, PairError, PSP22Error};
use crate::ledger::{
    ledger_burned, ledger_minted, ledger_balance, ledger_balance_of, ledger_balances, ledger_burn, ledger_mint,
    ledger_new, ledger_supply, ledger_total_supply, lp_minted, supply_overflow,
};
use crate::u256::{
    casted_mul, lemma_u128_product_fits, lemma_u256_value_bound, two_pow_128, two_pow_256, u256_checked_add,
    u256_checked_div, u256_checked_mul, u256_checked_sub, u256_from_u128, u256_ge,
    u256_integer_sqrt, u256_saturating_mul, u256_try_into_u128, u256_value, u256_wrapping_add,
    U256, WrappedU256,
};
use vstd::prelude::*;

verus! {

/// 2^112
pub const Q112: u128 = 5192296858534827628530496329220096;

/// Reserves never exceed 2^112 - 1, so that the products in `swap` fit in 256 bits.
pub const RESERVES_UPPER_BOUND: u128 = 5192296858534827628530496329220095;

/// Whitepaper 3.2.1, equation (11): balances are scaled by 1000 ...
pub const TRADING_FEE_ADJ_RESERVES: u128 = 1000;

/// ... and 3 per mille of the input is kept as the trading fee.
pub const TRADING_FEE_ADJ_AMOUNTS: u128 = 3;

/// Whitepaper 2.4, equation (7): the protocol takes 1/6 of the growth of sqrt(k).
pub const PROTOCOL_FEE_ADJ_DENOM: u128 = 5;

/// 2^32
pub const TWO_POW_32: u64 = 4294967296;

/// `r` is the integer square root of `x`.
pub open spec fn is_isqrt(x: nat, r: nat) -> bool {
    r * r <= x && x < (r + 1) * (r + 1)
}

/// The integer square root: the largest `r` with `r * r <= x`.
pub open spec fn isqrt(x: nat) -> nat {
    choose|r: nat| #[trigger] is_isqrt(x, r)
}

pub proof fn lemma_isqrt_unique(x: nat, r: nat)
    requires
        r * r <= x,
        x < (r + 1) * (r + 1),
    ensures
        isqrt(x) == r,
{
    assert(is_isqrt(x, r));
    let c = isqrt(x);
    assert(c * c <= x && x < (c + 1) * (c + 1));
    if c < r {
        assert((c + 1) * (c + 1) <= r * r) by (nonlinear_arith)
            requires
                c < r,
        ;
    }
    if r < c {
        assert((r + 1) * (r + 1) <= c * c) by (nonlinear_arith)
            requires
                r < c,
        ;
    }
}

/// The square root of a number below 2^256 is below 2^128.
pub proof fn lemma_isqrt_bound(x: nat, r: nat)
    requires
        r * r <= x,
        x < two_pow_256(),
    ensures
        r < two_pow_128(),
{
    let t = two_pow_128();
    if r >= t {
        assert(r * r >= t * t) by (nonlinear_arith)
            requires
                r >= t,
        ;
    }
}

/// The fixed-point number `num / denom` with 112 fractional bits, rounded down.
pub open spec fn uq112x112(num: nat, denom: nat) -> nat {
    num * (Q112 as nat) / denom
}

/// The accumulated price after `elapsed` more seconds at the price
/// `num / denom`, wrapping at 2^256.
pub open spec fn cumulative_after(last: nat, num: nat, denom: nat, elapsed: nat) -> nat {
    (uq112x112(num, denom) * elapsed + last) % two_pow_256()
}

/// Fixed-point numbers with 112 integer and 112 fractional bits.
pub struct UQ112x112;

impl UQ112x112 {
    /// `num / denom` as a fixed-point number; `None` when either does not fit
    /// in 112 bits.
    pub fn from_frac(num: u128, denom: u128) -> (r: Option<U256>)
        requires
            !(num < Q112 && denom < Q112 && denom == 0),
        ensures
            r.is_none() <==> (num >= Q112 || denom >= Q112),
            r.is_some() ==> u256_value(r.unwrap()) == uq112x112(num as nat, denom as nat),
    {
        if num >= Q112 || denom >= Q112 {
            None
        } else {
            let n = u256_from_u128(num);
            let q = u256_from_u128(Q112);
            proof {
                lemma_u128_product_fits(num, Q112);
            }
            let p = match u256_checked_mul(n, q) {
                Some(p) => p,
                None => {
                    proof {
                        assert(false);
                    }
                    n
                },
            };
            let d = u256_from_u128(denom);
            match u256_checked_div(p, d) {
                Some(v) => Some(v),
                None => {
                    proof {
                        assert(false);
                    }
                    None
                },
            }
        }
    }
}

proof fn lemma_price_step_fits(num: nat, denom: nat, t: nat)
    requires
        num < Q112,
        denom > 0,
        t < 0x1_0000_0000,
    ensures
        uq112x112(num, denom) * t < two_pow_256(),
{
    let q = Q112 as nat;
    let f = uq112x112(num, denom);
    assert(f <= num * q) by (nonlinear_arith)
        requires
            denom > 0,
            f == num * q / denom,
    ;
    assert(num * q < q * q) by (nonlinear_arith)
        requires
            num < q,
    ;
    assert(f * t < q * q * 0x1_0000_0000) by (nonlinear_arith)
        requires
            f < q * q,
            t < 0x1_0000_0000,
    ;
    assert(q * q * 0x1_0000_0000 == two_pow_256());
}

/// The price accumulator after `time_elapsed_seconds` more seconds at the
/// price `num / denom`; it wraps at 2^256, so readers take differences
/// modulo 2^256.
pub fn price_cumulative(num: u128, denom: u128, time_elapsed_seconds: u32, last_price: WrappedU256) -> (r:
    Result<U256, PairError>)
    requires
        !(num < Q112 && denom < Q112 && denom == 0),
    ensures
        r.is_err() <==> (num >= Q112 || denom >= Q112),
        r.is_err() ==> r == Err::<U256, PairError>(PairError::ReservesOverflow),
        r.is_ok() ==> u256_value(r.unwrap()) == cumulative_after(
            u256_value(last_price.0),
            num as nat,
            denom as nat,
            time_elapsed_seconds as nat,
        ),
{
    match UQ112x112::from_frac(num, denom) {
        None => Err(PairError::ReservesOverflow),
        Some(f) => {
            proof {
                lemma_price_step_fits(num as nat, denom as nat, time_elapsed_seconds as nat);
            }
            let step = u256_saturating_mul(f, u256_from_u128(time_elapsed_seconds as u128));
            Ok(u256_wrapping_add(step, last_price.0))
        },
    }
}

/// A deposit of liquidity.
#[derive(Clone, Copy, Debug, PartialEq, Eq)]
pub struct Mint {
    pub sender: AccountId,
    pub amount_0: u128,
    pub amount_1: u128,
}

/// A withdrawal of liquidity.
#[derive(Clone, Copy, Debug, PartialEq, Eq)]
pub struct Burn {
    pub sender: AccountId,
    pub amount_0: u128,
    pub amount_1: u128,
    pub to: AccountId,
}

/// A trade.
#[derive(Clone, Copy, Debug, PartialEq, Eq)]
pub struct Swap {
    pub sender: AccountId,
    pub amount_0_in: u128,
    pub amount_1_in: u128,
    pub amount_0_out: u128,
    pub amount_1_out: u128,
    pub to: AccountId,
}

/// New reserves.
#[derive(Clone, Copy, Debug, PartialEq, Eq)]
pub struct Sync {
    pub reserve_0: u128,
    pub reserve_1: u128,
}

/// A movement of liquidity tokens (`None` for minting or burning).
#[derive(Clone, Copy, Debug, PartialEq, Eq)]
pub struct Transfer {
    pub from: Option<AccountId>,
    pub to: Option<AccountId>,
    pub value: u128,
}

/// A new allowance of liquidity tokens.
#[derive(Clone, Copy, Debug, PartialEq, Eq)]
pub struct Approval {
    pub owner: AccountId,
    pub spender: AccountId,
    pub amount: u128,
}

/// What a pair operation asks the contract to emit, in order.
pub enum PairEvent {
    Mint(Mint),
    Burn(Burn),
    Swap(Swap),
    Sync(Sync),
    /// The events of the liquidity-token ledger.
    Ledger(Vec<psp22::PSP22Event>),
}

/// The state of a pair besides its liquidity token.
#[derive(Clone, Copy, Debug)]
pub struct PairData {
    pub factory: AccountId,
    pub token_0: AccountId,
    pub token_1: AccountId,
    pub reserve_0: u128,
    pub reserve_1: u128,
    pub block_timestamp_last: u32,
    pub price_0_cumulative_last: WrappedU256,
    pub price_1_cumulative_last: WrappedU256,
    pub k_last: Option<WrappedU256>,
}

impl PairData {
    /// A pair with no reserves, no recorded price and no recorded `k`.
    pub fn new(token_0: AccountId, token_1: AccountId, factory: AccountId) -> (r: Self)
        ensures
            r.factory == factory,
            r.token_0 == token_0,
            r.token_1 == token_1,
            r.reserve_0 == 0,
            r.reserve_1 == 0,
            r.block_timestamp_last == 0,
            u256_value(r.price_0_cumulative_last.0) == 0,
            u256_value(r.price_1_cumulative_last.0) == 0,
            r.k_last.is_none(),
    {
        PairData {
            factory,
            token_0,
            token_1,
            reserve_0: 0,
            reserve_1: 0,
            block_timestamp_last: 0,
            price_0_cumulative_last: WrappedU256(u256_from_u128(0)),
            price_1_cumulative_last: WrappedU256(u256_from_u128(0)),
            k_last: None,
        }
    }
}

/// The block time in seconds, modulo 2^32, of a block time in milliseconds.
pub open spec fn now_seconds(now_ms: u64) -> u32 {
    ((now_ms / 1000) % 0x1_0000_0000) as u32
}

/// Seconds from `last` to `now`, across the 2^32 wrap.
pub open spec fn seconds_elapsed(now: u32, last: u32) -> nat {
    if now >= last {
        (now - last) as nat
    } else {
        (now + 0x1_0000_0000 - last) as nat
    }
}

/// `new` is `old` after its reserves were set to `(b0, b1)` at `now_ms`,
/// the previous reserves being `(r0, r1)`: when time has passed and both
/// previous reserves are positive, each price accumulator advances by the
/// previous price times the elapsed seconds.
pub open spec fn updated(
    old: PairData,
    new: PairData,
    b0: nat,
    b1: nat,
    r0: nat,
    r1: nat,
    now_ms: u64,
) -> bool {
    let now = now_seconds(now_ms);
    let elapsed = seconds_elapsed(now, old.block_timestamp_last);
    let moved = elapsed > 0 && r0 > 0 && r1 > 0;
    &&& new.factory == old.factory
    &&& new.token_0 == old.token_0
    &&& new.token_1 == old.token_1
    &&& new.k_last == old.k_last
    &&& new.reserve_0 == b0
    &&& new.reserve_1 == b1
    &&& new.block_timestamp_last == now
    &&& u256_value(new.price_0_cumulative_last.0) == if moved {
        cumulative_after(u256_value(old.price_0_cumulative_last.0), r1, r0, elapsed)
    } else {
        u256_value(old.price_0_cumulative_last.0)
    }
    &&& u256_value(new.price_1_cumulative_last.0) == if moved {
        cumulative_after(u256_value(old.price_1_cumulative_last.0), r0, r1, elapsed)
    } else {
        u256_value(old.price_1_cumulative_last.0)
    }
}

/// The liquidity minted to the protocol for the growth of `sqrt(k)` from
/// `sqrt(k_last)` to `sqrt(r0 * r1)`: 1/6 of the growth, as a share of
/// `total_supply`.
pub open spec fn fee_liquidity(total_supply: nat, r0: nat, r1: nat, k_last: nat) -> nat {
    let rk = isqrt(r0 * r1);
    let rkl = isqrt(k_last);
    if rk > rkl {
        total_supply * ((rk - rkl) as nat) / (rk * 5 + rkl)
    } else {
        0
    }
}

/// The protocol fee liquidity that `mint_fee` mints for a pair in state `p`
/// with `total_supply` liquidity tokens and reserves `(r0, r1)`.
pub open spec fn protocol_fee(
    p: PairData,
    total_supply: nat,
    r0: nat,
    r1: nat,
    fee_to: Option<AccountId>,
) -> nat {
    match (fee_to, p.k_last) {
        (Some(_), Some(k)) => fee_liquidity(total_supply, r0, r1, u256_value(k.0)),
        _ => 0,
    }
}


/// The supply of liquidity tokens once `mint_fee` has minted the protocol fee.
pub open spec fn supply_after_fee(s: PairContract, fee_to: Option<AccountId>) -> nat {
    s.supply() + protocol_fee(s.pair, s.supply(), s.pair.reserve_0 as nat, s.pair.reserve_1 as nat, fee_to)
}

/// Minting the protocol fee would push the supply past `u128::MAX`.
pub open spec fn fee_mint_overflows(s: PairContract, fee_to: Option<AccountId>) -> bool {
    let fee = protocol_fee(s.pair, s.supply(), s.pair.reserve_0 as nat, s.pair.reserve_1 as nat, fee_to);
    fee > 0 && s.supply() + fee > u128::MAX
}

/// The liquidity minted for a deposit of `(a0, a1)` into reserves
/// `(r0, r1)` with `total_supply` tokens: at the first deposit the geometric
/// mean less the locked minimum, later the smaller of the two proportional
/// shares.
pub open spec fn mint_amount(a0: nat, a1: nat, total_supply: nat, r0: nat, r1: nat) -> int {
    if total_supply == 0 {
        isqrt(a0 * a1) - MINIMUM_LIQUIDITY
    } else {
        let l0 = a0 * total_supply / r0;
        let l1 = a1 * total_supply / r1;
        if l0 <= l1 {
            l0 as int
        } else {
            l1 as int
        }
    }
}

/// `mint` succeeds on the pair `s` with balances `(b0, b1)`.
pub open spec fn mint_succeeds(s: PairContract, b0: nat, b1: nat, fee_to: Option<AccountId>) -> bool {
    let r0 = s.pair.reserve_0 as nat;
    let r1 = s.pair.reserve_1 as nat;
    let a0 = (b0 - r0) as nat;
    let a1 = (b1 - r1) as nat;
    let ts = supply_after_fee(s, fee_to);
    let liq = mint_amount(a0, a1, ts, r0, r1);
    &&& b0 >= r0
    &&& b1 >= r1
    &&& !fee_mint_overflows(s, fee_to)
    &&& ts == 0 ==> isqrt(a0 * a1) >= MINIMUM_LIQUIDITY
    &&& ts > 0 ==> r0 > 0 && r1 > 0 && a0 * ts / r0 < two_pow_128() && a1 * ts / r1
        < two_pow_128()
    &&& liq > 0
    &&& ts + (if ts == 0 {
        MINIMUM_LIQUIDITY as int
    } else {
        0
    }) + liq <= u128::MAX
    &&& b0 <= RESERVES_UPPER_BOUND
    &&& b1 <= RESERVES_UPPER_BOUND
}

/// The liquidity locked at the burn address by a deposit into a pair with
/// `total_supply` tokens: `MINIMUM_LIQUIDITY` at the first deposit.
pub open spec fn locked_liquidity(total_supply: nat) -> nat {
    if total_supply == 0 {
        MINIMUM_LIQUIDITY as nat
    } else {
        0
    }
}

/// The three mints of a deposit, through the ledgers `a` and `b`: `fee` to
/// the fee recipient, `locked` to the burn address and `liq` to `to`.
pub open spec fn mint_steps(
    old: psp22::PSP22Data,
    a: psp22::PSP22Data,
    b: psp22::PSP22Data,
    new: psp22::PSP22Data,
    fee_to: Option<AccountId>,
    fee: nat,
    locked: nat,
    to: AccountId,
    liq: nat,
) -> bool {
    &&& lp_minted(old, a, fee_to.unwrap(), fee)
    &&& lp_minted(a, b, spec_burn_address(), locked)
    &&& lp_minted(b, new, to, liq)
}

/// `new` is `old` after a deposit minted `fee` to the fee recipient, then
/// `locked` to the burn address, then `liq` to `to`.
pub open spec fn mint_ledger(
    old: psp22::PSP22Data,
    new: psp22::PSP22Data,
    fee_to: Option<AccountId>,
    fee: nat,
    locked: nat,
    to: AccountId,
    liq: nat,
) -> bool {
    exists|a: psp22::PSP22Data, b: psp22::PSP22Data|
        #[trigger] mint_steps(old, a, b, new, fee_to, fee, locked, to, liq)
}

/// `new` is `old` after `fee` was minted to the fee recipient and then
/// `value` tokens of `from` were burned.
pub open spec fn fee_then_burned(
    old: psp22::PSP22Data,
    new: psp22::PSP22Data,
    fee_to: Option<AccountId>,
    fee: nat,
    from: AccountId,
    value: nat,
) -> bool {
    exists|mid: psp22::PSP22Data|
        #[trigger] lp_minted(old, mid, fee_to.unwrap(), fee) && ledger_burned(mid, new, from, value)
}

/// `new` is `old` followed by `n` events of the liquidity-token ledger.
pub open spec fn ledger_events_pushed(old: Seq<PairEvent>, new: Seq<PairEvent>, n: nat) -> bool {
    &&& new.len() == old.len() + n
    &&& new.subrange(0, old.len() as int) == old
    &&& forall|i: int| old.len() <= i < new.len() ==> (#[trigger] new[i]) is Ledger
}

/// How many ledger events a deposit emits: one per mint of a positive
/// amount (the fee, the locked liquidity) and one for the depositor.
pub open spec fn mint_ledger_count(fee: nat, locked: nat) -> nat {
    (if fee > 0 {
        1nat
    } else {
        0nat
    }) + (if locked > 0 {
        1nat
    } else {
        0nat
    }) + 1
}

proof fn lemma_ledger_events_step(a: Seq<PairEvent>, b: Seq<PairEvent>, n: nat, m: nat, c: Seq<PairEvent>)
    requires
        ledger_events_pushed(a, b, n),
        ledger_events_pushed(b, c, m),
    ensures
        ledger_events_pushed(a, c, n + m),
{
    assert(c.subrange(0, a.len() as int) =~= b.subrange(0, a.len() as int)) by {
        assert forall|i: int| 0 <= i < a.len() implies c.subrange(0, a.len() as int)[i] == b.subrange(
            0,
            a.len() as int,
        )[i] by {
            assert(c[i] == c.subrange(0, b.len() as int)[i]);
        }
    }
    assert forall|i: int| a.len() <= i < c.len() implies (#[trigger] c[i]) is Ledger by {
        if i < b.len() {
            assert(c[i] == c.subrange(0, b.len() as int)[i]);
            assert(b[i] is Ledger);
        }
    }
}

proof fn lemma_ledger_events_none(a: Seq<PairEvent>)
    ensures
        ledger_events_pushed(a, a, 0),
{
    assert(a.subrange(0, a.len() as int) =~= a);
}

proof fn lemma_ledger_events_one(a: Seq<PairEvent>, e: PairEvent)
    requires
        e is Ledger,
    ensures
        ledger_events_pushed(a, a.push(e), 1),
{
    assert(a.push(e).subrange(0, a.len() as int) =~= a);
}

/// A pair pool: its liquidity-token ledger and its state.
/// The ledger's balances and allowances live in the storage of the running
/// contract, so a process runs one such value per contract.
pub struct PairContract {
    pub psp22: psp22::PSP22Data,
    pub pair: PairData,
}

proof fn lemma_div_le_numerator_factor(a: nat, b: nat, c: nat)
    requires
        b <= c,
        c > 0,
    ensures
        a * b / c <= a,
{
    assert(a * b <= a * c) by (nonlinear_arith)
        requires
            b <= c,
    ;
    assert(a * b / c <= a * c / c) by (nonlinear_arith)
        requires
            a * b <= a * c,
            c > 0,
    ;
    assert(a * c / c == a) by (nonlinear_arith)
        requires
            c > 0,
    ;
}

impl PairContract {
    /// The reserves stay below 2^112.
    pub open spec fn wf(&self) -> bool {
        &&& self.pair.reserve_0 <= RESERVES_UPPER_BOUND
        &&& self.pair.reserve_1 <= RESERVES_UPPER_BOUND
    }

    /// The supply of liquidity tokens.
    pub open spec fn supply(&self) -> nat {
        ledger_supply(self.psp22)
    }

    /// A new pair of `token_0` and `token_1` created by `factory`.
    pub fn new(token_0: AccountId, token_1: AccountId, factory: AccountId) -> (r: Self)
        ensures
            r.wf(),
            r.pair.factory == factory,
            r.pair.token_0 == token_0,
            r.pair.token_1 == token_1,
            r.pair.reserve_0 == 0,
            r.pair.reserve_1 == 0,
            r.pair.block_timestamp_last == 0,
            u256_value(r.pair.price_0_cumulative_last.0) == 0,
            u256_value(r.pair.price_1_cumulative_last.0) == 0,
            r.pair.k_last.is_none(),
            r.supply() == 0,
    {
        PairContract { psp22: ledger_new(), pair: PairData::new(token_0, token_1, factory) }
    }

    /// Sets the reserves to the balances `(balance_0, balance_1)` and
    /// advances the price accumulators, the previous reserves being
    /// `(reserve_0, reserve_1)`; fails when a balance is above
    /// `RESERVES_UPPER_BOUND`.
    fn update(
        &mut self,
        balance_0: u128,
        balance_1: u128,
        reserve_0: u128,
        reserve_1: u128,
        now_ms: u64,
        events: &mut Vec<PairEvent>,
    ) -> (r: Result<(), PairError>)
        requires
            reserve_0 <= RESERVES_UPPER_BOUND,
            reserve_1 <= RESERVES_UPPER_BOUND,
        ensures
            (balance_0 > RESERVES_UPPER_BOUND || balance_1 > RESERVES_UPPER_BOUND) ==> r == Err::<
                (),
                PairError,
            >(PairError::ReservesOverflow) && final(self).pair == old(self).pair
                && final(events)@ == old(events)@,
            (balance_0 <= RESERVES_UPPER_BOUND && balance_1 <= RESERVES_UPPER_BOUND) ==> r is Ok
                && updated(
                old(self).pair,
                final(self).pair,
                balance_0 as nat,
                balance_1 as nat,
                reserve_0 as nat,
                reserve_1 as nat,
                now_ms,
            ) && final(events)@ == old(events)@.push(
                PairEvent::Sync(Sync { reserve_0: balance_0, reserve_1: balance_1 }),
            ),
            final(self).psp22 == old(self).psp22,
    {
        if !(balance_0 <= RESERVES_UPPER_BOUND && balance_1 <= RESERVES_UPPER_BOUND) {
            return Err(PairError::ReservesOverflow);
        }
        let now_seconds: u32 = ((now_ms / 1000) % TWO_POW_32) as u32;
        let time_elapsed: u32 = now_seconds.wrapping_sub(self.pair.block_timestamp_last);
        if time_elapsed > 0 && reserve_0 > 0 && reserve_1 > 0 {
            let p0 = match price_cumulative(
                reserve_1,
                reserve_0,
                time_elapsed,
                self.pair.price_0_cumulative_last,
            ) {
                Ok(v) => v,
                Err(e) => return Err(e),
            };
            let p1 = match price_cumulative(
                reserve_0,
                reserve_1,
                time_elapsed,
                self.pair.price_1_cumulative_last,
            ) {
                Ok(v) => v,
                Err(e) => return Err(e),
            };
            self.pair.price_0_cumulative_last = WrappedU256(p0);
            self.pair.price_1_cumulative_last = WrappedU256(p1);
        }
        self.pair.reserve_0 = balance_0;
        self.pair.reserve_1 = balance_1;
        self.pair.block_timestamp_last = now_seconds;
        events.push(PairEvent::Sync(Sync { reserve_0: balance_0, reserve_1: balance_1 }));
        Ok(())
    }

    /// The protocol fee that `mint_fee` mints: the share of the growth of
    /// `sqrt(k)` since `k_last` at reserves `(reserve_0, reserve_1)`; 0
    /// without a fee recipient or a recorded `k_last`.
    fn fee_due(&self, reserve_0: u128, reserve_1: u128, fee_to: Option<AccountId>) -> (r: Result<
        u128,
        PairError,
    >)
        ensures
            r is Ok,
            r.unwrap() == protocol_fee(
                self.pair,
                self.supply(),
                reserve_0 as nat,
                reserve_1 as nat,
                fee_to,
            ),
    {
        if fee_to.is_none() {
            return Ok(0);
        }
        if let Some(k_last) = self.pair.k_last {
            let k_last = k_last.0;
            let prod = casted_mul(reserve_0, reserve_1);
            let root_k = u256_integer_sqrt(prod);
            let root_k_last = u256_integer_sqrt(k_last);
            proof {
                lemma_isqrt_unique(u256_value(prod), u256_value(root_k));
                lemma_isqrt_unique(u256_value(k_last), u256_value(root_k_last));
                lemma_u256_value_bound(prod);
                lemma_u256_value_bound(k_last);
                lemma_isqrt_bound(u256_value(prod), u256_value(root_k));
                lemma_isqrt_bound(u256_value(k_last), u256_value(root_k_last));
            }
            if !u256_ge(root_k_last, root_k) {
                let ts = ledger_total_supply(&self.psp22);
                let total_supply = u256_from_u128(ts);
                let diff = match u256_checked_sub(root_k, root_k_last) {
                    Some(v) => v,
                    None => return Err(PairError::MathError(MathError::SubUnderflow(1))),
                };
                let ghost rk = u256_value(root_k);
                let ghost rkl = u256_value(root_k_last);
                proof {
                    assert((ts as nat) * ((rk - rkl) as nat) < two_pow_256()) by (
                    nonlinear_arith)
                        requires
                            (ts as nat) < two_pow_128(),
                            ((rk - rkl) as nat) < two_pow_128(),
                            two_pow_128() * two_pow_128() == two_pow_256(),
                    {
                        assert((ts as nat) * ((rk - rkl) as nat) <= (ts as nat)
                            * two_pow_128());
                    }
                }
                let numerator = match u256_checked_mul(total_supply, diff) {
                    Some(v) => v,
                    None => return Err(PairError::MathError(MathError::MulOverflow(1))),
                };
                let five = u256_from_u128(PROTOCOL_FEE_ADJ_DENOM);
                let scaled = match u256_checked_mul(root_k, five) {
                    Some(v) => v,
                    None => return Err(PairError::MathError(MathError::MulOverflow(2))),
                };
                let denominator = match u256_checked_add(scaled, root_k_last) {
                    Some(v) => v,
                    None => return Err(PairError::MathError(MathError::AddOverflow(1))),
                };
                let quotient = match u256_checked_div(numerator, denominator) {
                    Some(v) => v,
                    None => return Err(PairError::MathError(MathError::DivByZero(1))),
                };
                proof {
                    lemma_div_le_numerator_factor(
                        ts as nat,
                        (rk - rkl) as nat,
                        rk * 5 + rkl,
                    );
                }
                let liquidity = match u256_try_into_u128(quotient) {
                    Some(v) => v,
                    None => return Err(PairError::MathError(MathError::CastOverflow(1))),
                };
                return Ok(liquidity);
            }
        }
        Ok(0)
    }

    /// With a fee recipient, mints the protocol's share of the growth of
    /// `sqrt(k)` since `k_last` to it and answers `true`; without one,
    /// forgets `k_last` and answers `false`.
    fn mint_fee(
        &mut self,
        reserve_0: u128,
        reserve_1: u128,
        fee_to: Option<AccountId>,
        events: &mut Vec<PairEvent>,
    ) -> (r: Result<bool, PairError>)
        ensures
            ({
                let liq = protocol_fee(
                    old(self).pair,
                    old(self).supply(),
                    reserve_0 as nat,
                    reserve_1 as nat,
                    fee_to,
                );
                &&& fee_to is None ==> r == Ok::<bool, PairError>(false) && final(self).psp22
                    == old(self).psp22 && final(events)@ == old(events)@
                &&& fee_to is Some && liq == 0 ==> r == Ok::<bool, PairError>(true)
                    && final(self).psp22 == old(self).psp22 && final(events)@ == old(events)@
                &&& fee_to is Some && liq > 0 && old(self).supply() + liq <= u128::MAX ==> {
                    &&& r == Ok::<bool, PairError>(true)
                    &&& ledger_minted(old(self).psp22, final(self).psp22, fee_to.unwrap(), liq)
                    &&& final(events)@.len() == old(events)@.len() + 1
                    &&& final(events)@.drop_last() == old(events)@
                    &&& final(events)@.last() is Ledger
                }
                &&& fee_to is Some && liq > 0 && old(self).supply() + liq > u128::MAX ==> (r matches Err(
                    PairError::PSP22Error(PSP22Error::Custom(_)),
                ))
            }),
            fee_to is None ==> final(self).pair == (PairData { k_last: None, ..old(self).pair }),
            fee_to is Some ==> final(self).pair == old(self).pair,
    {
        match fee_to {
            Some(fee_to) => {
                let liquidity = match self.fee_due(reserve_0, reserve_1, Some(fee_to)) {
                    Ok(v) => v,
                    Err(e) => return Err(e),
                };
                if liquidity > 0 {
                    match ledger_mint(&mut self.psp22, fee_to, liquidity) {
                        Ok(evs) => events.push(PairEvent::Ledger(evs)),
                        Err(e) => return Err(PairError::PSP22Error(e)),
                    }
                }
                Ok(true)
            },
            None => {
                if self.pair.k_last.is_some() {
                    self.pair.k_last = None;
                }
                Ok(false)
            },
        }
    }

    /// Mints liquidity tokens to `to` for the tokens deposited since the
    /// last update: the pair's balances `(balance_0, balance_1)` less its
    /// reserves. Mints the protocol fee first (see `mint_fee`), and at the
    /// first deposit locks `MINIMUM_LIQUIDITY` at the burn address. Returns
    /// the liquidity minted to `to`. On an error nothing changes.
    pub fn mint(
        &mut self,
        balance_0: u128,
        balance_1: u128,
        fee_to: Option<AccountId>,
        to: AccountId,
        caller: AccountId,
        now_ms: u64,
        events: &mut Vec<PairEvent>,
    ) -> (r: Result<u128, PairError>)
        requires
            old(self).wf(),
        ensures
            final(self).wf(),
            r is Ok <==> mint_succeeds(*old(self), balance_0 as nat, balance_1 as nat, fee_to),
            balance_0 < old(self).pair.reserve_0 ==> r == Err::<u128, PairError>(
                PairError::MathError(MathError::SubUnderflow(2)),
            ),
            balance_0 >= old(self).pair.reserve_0 && balance_1 < old(self).pair.reserve_1 ==> r
                == Err::<u128, PairError>(PairError::MathError(MathError::SubUnderflow(3))),
            balance_0 >= old(self).pair.reserve_0 && balance_1 >= old(self).pair.reserve_1
                && fee_mint_overflows(*old(self), fee_to) ==> (r matches Err(
                PairError::PSP22Error(PSP22Error::Custom(_)),
            )),
            r is Err ==> *final(self) == *old(self) && final(events)@ == old(events)@,
            r is Ok ==> ({
                let r0 = old(self).pair.reserve_0 as nat;
                let r1 = old(self).pair.reserve_1 as nat;
                let a0 = (balance_0 - r0) as nat;
                let a1 = (balance_1 - r1) as nat;
                let ts = supply_after_fee(*old(self), fee_to);
                let fee = protocol_fee(old(self).pair, old(self).supply(), r0, r1, fee_to);
                let liq = r.unwrap();
                &&& liq == mint_amount(a0, a1, ts, r0, r1)
                &&& mint_ledger(
                    old(self).psp22,
                    final(self).psp22,
                    fee_to,
                    fee,
                    locked_liquidity(ts),
                    to,
                    liq as nat,
                )
                &&& final(self).supply() == ts + liq + (if ts == 0 {
                    MINIMUM_LIQUIDITY as nat
                } else {
                    0
                })
                &&& updated(
                    old(self).pair.k_last_dropped(fee_to),
                    final(self).pair.k_last_dropped(fee_to),
                    balance_0 as nat,
                    balance_1 as nat,
                    r0,
                    r1,
                    now_ms,
                )
                &&& fee_to is Some ==> final(self).pair.k_last is Some && u256_value(
                    final(self).pair.k_last.unwrap().0,
                ) == balance_0 * balance_1
                &&& fee_to is None ==> final(self).pair.k_last is None
                &&& final(events)@.len() >= 2
                &&& ledger_events_pushed(
                    old(events)@,
                    final(events)@.drop_last().drop_last(),
                    mint_ledger_count(fee, locked_liquidity(ts)),
                )
                &&& final(events)@[final(events)@.len() - 2] == PairEvent::Sync(
                    Sync { reserve_0: balance_0, reserve_1: balance_1 },
                )
                &&& final(events)@.last() == PairEvent::Mint(
                    Mint { sender: caller, amount_0: a0 as u128, amount_1: a1 as u128 },
                )
            }),
            ({
                let r0 = old(self).pair.reserve_0 as nat;
                let r1 = old(self).pair.reserve_1 as nat;
                let a0 = (balance_0 - r0) as nat;
                let a1 = (balance_1 - r1) as nat;
                let ts = supply_after_fee(*old(self), fee_to);
                balance_0 >= r0 && balance_1 >= r1 && !fee_mint_overflows(*old(self), fee_to) ==> {
                    &&& ts == 0 && isqrt(a0 * a1) < MINIMUM_LIQUIDITY ==> r == Err::<u128, PairError>(
                        PairError::MathError(MathError::SubUnderflow(4)),
                    )
                    &&& ts > 0 && r0 == 0 ==> r == Err::<u128, PairError>(
                        PairError::MathError(MathError::DivByZero(2)),
                    )
                    &&& (ts == 0 ==> isqrt(a0 * a1) >= MINIMUM_LIQUIDITY) && (ts > 0 ==> r0 > 0
                        && r1 > 0 && a0 * ts / r0 < two_pow_128() && a1 * ts / r1 < two_pow_128())
                        && mint_amount(a0, a1, ts, r0, r1) == 0 ==> r == Err::<u128, PairError>(
                        PairError::InsufficientLiquidityMinted,
                    )
                }
            }),
    {
        let ghost before = *self;
        let reserve_0 = self.pair.reserve_0;
        let reserve_1 = self.pair.reserve_1;
        let amount_0 = match balance_0.checked_sub(reserve_0) {
            Some(v) => v,
            None => return Err(PairError::MathError(MathError::SubUnderflow(2))),
        };
        let amount_1 = match balance_1.checked_sub(reserve_1) {
            Some(v) => v,
            None => return Err(PairError::MathError(MathError::SubUnderflow(3))),
        };
        let fee = match self.fee_due(reserve_0, reserve_1, fee_to) {
            Ok(v) => v,
            Err(e) => return Err(e),
        };
        let supply = ledger_total_supply(&self.psp22);
        if fee > 0 && supply > u128::MAX - fee {
            return Err(PairError::PSP22Error(supply_overflow()));
        }
        let total_supply = supply + fee;
        assert(total_supply == supply_after_fee(before, fee_to));
        let liquidity: u128 = if total_supply == 0 {
            let product = casted_mul(amount_0, amount_1);
            let root = u256_integer_sqrt(product);
            proof {
                lemma_isqrt_unique(u256_value(product), u256_value(root));
                lemma_u256_value_bound(product);
                lemma_isqrt_bound(u256_value(product), u256_value(root));
            }
            let root = match u256_try_into_u128(root) {
                Some(v) => v,
                None => return Err(PairError::MathError(MathError::CastOverflow(2))),
            };
            match root.checked_sub(MINIMUM_LIQUIDITY) {
                Some(v) => v,
                None => return Err(PairError::MathError(MathError::SubUnderflow(4))),
            }
        } else {
            let l0 = match u256_checked_div(
                casted_mul(amount_0, total_supply),
                u256_from_u128(reserve_0),
            ) {
                Some(v) => v,
                None => return Err(PairError::MathError(MathError::DivByZero(2))),
            };
            let l0 = match u256_try_into_u128(l0) {
                Some(v) => v,
                None => return Err(PairError::MathError(MathError::CastOverflow(3))),
            };
            let l1 = match u256_checked_div(
                casted_mul(amount_1, total_supply),
                u256_from_u128(reserve_1),
            ) {
                Some(v) => v,
                None => return Err(PairError::MathError(MathError::DivByZero(3))),
            };
            let l1 = match u256_try_into_u128(l1) {
                Some(v) => v,
                None => return Err(PairError::MathError(MathError::CastOverflow(4))),
            };
            if l0 <= l1 {
                l0
            } else {
                l1
            }
        };
        if !(liquidity > 0) {
            return Err(PairError::InsufficientLiquidityMinted);
        }
        let locked: u128 = if total_supply == 0 {
            MINIMUM_LIQUIDITY
        } else {
            0
        };
        if total_supply + locked > u128::MAX - liquidity {
            return Err(PairError::PSP22Error(supply_overflow()));
        }
        if !(balance_0 <= RESERVES_UPPER_BOUND && balance_1 <= RESERVES_UPPER_BOUND) {
            return Err(PairError::ReservesOverflow);
        }
        let ghost ev0 = events@;
        let fee_on = match self.mint_fee(reserve_0, reserve_1, fee_to, events) {
            Ok(b) => b,
            Err(e) => return Err(e),
        };
        let ghost ev1 = events@;
        proof {
            if fee > 0 {
                assert(ev1 =~= ev0.push(ev1.last()));
                lemma_ledger_events_one(ev0, ev1.last());
            } else {
                lemma_ledger_events_none(ev0);
            }
        }
        let ghost after_fee = self.psp22;
        if locked > 0 {
            match ledger_mint(&mut self.psp22, burn_address(), locked) {
                Ok(evs) => events.push(PairEvent::Ledger(evs)),
                Err(e) => return Err(PairError::PSP22Error(e)),
            }
        }
        let ghost ev2 = events@;
        proof {
            if locked > 0 {
                lemma_ledger_events_one(ev1, ev2.last());
                assert(ev2 =~= ev1.push(ev2.last()));
            } else {
                lemma_ledger_events_none(ev1);
            }
            lemma_ledger_events_step(ev0, ev1, (if fee > 0 { 1nat } else { 0nat }), (if locked > 0 { 1nat } else { 0nat }), ev2);
        }
        let ghost after_lock = self.psp22;
        match ledger_mint(&mut self.psp22, to, liquidity) {
            Ok(evs) => events.push(PairEvent::Ledger(evs)),
            Err(e) => return Err(PairError::PSP22Error(e)),
        }
        let ghost ev3 = events@;
        proof {
            lemma_ledger_events_one(ev2, ev3.last());
            assert(ev3 =~= ev2.push(ev3.last()));
            lemma_ledger_events_step(
                ev0,
                ev2,
                (if fee > 0 { 1nat } else { 0nat }) + (if locked > 0 { 1nat } else { 0nat }),
                1,
                ev3,
            );
        }
        proof {
            assert(mint_steps(
                before.psp22,
                after_fee,
                after_lock,
                self.psp22,
                fee_to,
                fee as nat,
                locked as nat,
                to,
                liquidity as nat,
            ));
        }
        match self.update(balance_0, balance_1, reserve_0, reserve_1, now_ms, events) {
            Ok(()) => {},
            Err(e) => return Err(e),
        }
        if fee_on {
            self.pair.k_last = Some(WrappedU256(casted_mul(self.pair.reserve_0, self.pair.reserve_1)));
        }
        events.push(PairEvent::Mint(Mint { sender: caller, amount_0, amount_1 }));
        proof {
            assert(events@.drop_last().drop_last() =~= ev3);
        }
        Ok(liquidity)
    }
}


/// What `burn` leaves for `burn_settle`: the token amounts to pay out and
/// whether the protocol fee is on.
#[derive(Clone, Copy, Debug, PartialEq, Eq)]
pub struct BurnPlan {
    pub amount_0: u128,
    pub amount_1: u128,
    pub fee_on: bool,
}

/// The checks that `swap` makes before any token leaves the pair.
pub open spec fn swap_precheck(p: PairData, out0: u128, out1: u128, to: AccountId) -> Result<
    (),
    PairError,
> {
    if !(out0 > 0 || out1 > 0) {
        Err(PairError::InsufficientOutputAmount)
    } else if !(out0 < p.reserve_0 && out1 < p.reserve_1) {
        Err(PairError::InsufficientLiquidity)
    } else if to == p.token_0 || to == p.token_1 {
        Err(PairError::InvalidTo)
    } else {
        Ok(())
    }
}

/// The amount of token 0 that came in during a swap: what the balance holds
/// beyond the reserve left after paying out `out`.
pub open spec fn amount_in(reserve: nat, out: nat, balance: nat) -> nat {
    if balance > reserve - out {
        (balance - (reserve - out)) as nat
    } else {
        0
    }
}

/// `swap` succeeds on the pair `p` that paid out `(out0, out1)` to `to` and
/// then holds `(b0, b1)`: the checks pass, something came in, and with 3
/// per mille of each input kept as fee the product of the balances is not
/// below the product of the reserves.
pub open spec fn swap_succeeds(p: PairData, out0: u128, out1: u128, to: AccountId, b0: u128, b1: u128) -> bool {
    let in0 = amount_in(p.reserve_0 as nat, out0 as nat, b0 as nat);
    let in1 = amount_in(p.reserve_1 as nat, out1 as nat, b1 as nat);
    let adj0 = b0 * 1000 - in0 * 3;
    let adj1 = b1 * 1000 - in1 * 3;
    &&& swap_precheck(p, out0, out1, to) is Ok
    &&& in0 > 0 || in1 > 0
    &&& b0 * 1000 <= u128::MAX
    &&& b1 * 1000 <= u128::MAX
    &&& adj0 * adj1 >= p.reserve_0 * p.reserve_1 * 1_000_000
    &&& b0 <= RESERVES_UPPER_BOUND
    &&& b1 <= RESERVES_UPPER_BOUND
}

/// A call that the pair makes, in order, while a swap is under way.
#[derive(Clone, Copy, Debug, PartialEq, Eq)]
pub enum SwapStep {
    /// `token` transfers `value` from the pair to `to`.
    Transfer { token: AccountId, to: AccountId, value: u128 },
    /// The callee `to` is told that `sender` received the amounts out (with
    /// the data that came with the swap).
    Callback { to: AccountId, sender: AccountId, amount_0_out: u128, amount_1_out: u128 },
    /// The pair reads its balances of both tokens, which `swap` settles with.
    ReadBalances,
}

/// The calls of a swap that passed its checks: each positive amount out is
/// transferred to `to` (token 0 first), then the callee is called when the
/// swap came with data, and then the pair reads its balances.
pub open spec fn swap_steps(
    p: PairData,
    out0: u128,
    out1: u128,
    to: AccountId,
    sender: AccountId,
    with_data: bool,
) -> Seq<SwapStep> {
    let pay0 = if out0 > 0 {
        seq![SwapStep::Transfer { token: p.token_0, to, value: out0 }]
    } else {
        Seq::empty()
    };
    let pay1 = if out1 > 0 {
        seq![SwapStep::Transfer { token: p.token_1, to, value: out1 }]
    } else {
        Seq::empty()
    };
    let call = if with_data {
        seq![SwapStep::Callback { to, sender, amount_0_out: out0, amount_1_out: out1 }]
    } else {
        Seq::empty()
    };
    pay0 + pay1 + call + seq![SwapStep::ReadBalances]
}

impl PairContract {
    /// The checks that come before the pair pays out in a swap.
    pub fn swap_check(&self, amount_0_out: u128, amount_1_out: u128, to: AccountId) -> (r: Result<
        (),
        PairError,
    >)
        ensures
            r == swap_precheck(self.pair, amount_0_out, amount_1_out, to),
    {
        if !(amount_0_out > 0 || amount_1_out > 0) {
            return Err(PairError::InsufficientOutputAmount);
        }
        if !(amount_0_out < self.pair.reserve_0 && amount_1_out < self.pair.reserve_1) {
            return Err(PairError::InsufficientLiquidity);
        }
        if to == self.pair.token_0 || to == self.pair.token_1 {
            return Err(PairError::InvalidTo);
        }
        Ok(())
    }

    /// The checks of a swap and then the calls that it makes before it
    /// settles: `with_data` says whether the swap came with data for the
    /// callee `to`; `sender` is the account that called the swap.
    pub fn swap_plan(
        &self,
        amount_0_out: u128,
        amount_1_out: u128,
        to: AccountId,
        sender: AccountId,
        with_data: bool,
    ) -> (r: Result<Vec<SwapStep>, PairError>)
        ensures
            match swap_precheck(self.pair, amount_0_out, amount_1_out, to) {
                Err(e) => r == Err::<Vec<SwapStep>, PairError>(e),
                Ok(_) => r is Ok && r.unwrap()@ == swap_steps(
                    self.pair,
                    amount_0_out,
                    amount_1_out,
                    to,
                    sender,
                    with_data,
                ),
            },
    {
        match self.swap_check(amount_0_out, amount_1_out, to) {
            Ok(()) => {},
            Err(e) => return Err(e),
        }
        let mut steps: Vec<SwapStep> = Vec::new();
        if amount_0_out > 0 {
            steps.push(SwapStep::Transfer { token: self.pair.token_0, to, value: amount_0_out });
        }
        if amount_1_out > 0 {
            steps.push(SwapStep::Transfer { token: self.pair.token_1, to, value: amount_1_out });
        }
        if with_data {
            steps.push(SwapStep::Callback { to, sender, amount_0_out, amount_1_out });
        }
        steps.push(SwapStep::ReadBalances);
        proof {
            assert(steps@ =~= swap_steps(
                self.pair,
                amount_0_out,
                amount_1_out,
                to,
                sender,
                with_data,
            ));
        }
        Ok(steps)
    }

    /// Settles a swap that paid out `(amount_0_out, amount_1_out)` to `to`,
    /// the pair's balances being `(balance_0, balance_1)` afterwards: the
    /// inputs are what the balances hold beyond the reserves left, and with
    /// 3 per mille of each input kept as fee the product of the balances
    /// must not fall below the product of the reserves.
    pub fn swap(
        &mut self,
        amount_0_out: u128,
        amount_1_out: u128,
        to: AccountId,
        balance_0: u128,
        balance_1: u128,
        caller: AccountId,
        now_ms: u64,
        events: &mut Vec<PairEvent>,
    ) -> (r: Result<(), PairError>)
        requires
            old(self).wf(),
        ensures
            final(self).wf(),
            final(self).psp22 == old(self).psp22,
            r is Err ==> final(self).pair == old(self).pair && final(events)@ == old(events)@,
            ({
                let p = old(self).pair;
                let in0 = amount_in(p.reserve_0 as nat, amount_0_out as nat, balance_0 as nat);
                let in1 = amount_in(p.reserve_1 as nat, amount_1_out as nat, balance_1 as nat);
                let adj0 = balance_0 * 1000 - in0 * 3;
                let adj1 = balance_1 * 1000 - in1 * 3;
                let pre = swap_precheck(p, amount_0_out, amount_1_out, to);
                &&& pre is Err ==> r == pre
                &&& pre is Ok && in0 == 0 && in1 == 0 ==> r == Err::<(), PairError>(
                    PairError::InsufficientInputAmount,
                )
                &&& pre is Ok && (in0 > 0 || in1 > 0) && balance_0 * 1000 > u128::MAX ==> r == Err::<
                    (),
                    PairError,
                >(PairError::MathError(MathError::MulOverflow(3)))
                &&& pre is Ok && (in0 > 0 || in1 > 0) && balance_0 * 1000 <= u128::MAX && balance_1
                    * 1000 > u128::MAX ==> r == Err::<(), PairError>(
                    PairError::MathError(MathError::MulOverflow(5)),
                )
                &&& pre is Ok && (in0 > 0 || in1 > 0) && balance_0 * 1000 <= u128::MAX && balance_1
                    * 1000 <= u128::MAX && adj0 * adj1 < p.reserve_0 * p.reserve_1 * 1_000_000
                    ==> r == Err::<(), PairError>(PairError::KInvariantChanged)
                &&& r is Ok <==> swap_succeeds(p, amount_0_out, amount_1_out, to, balance_0, balance_1)
                &&& r is Ok ==> {
                    &&& updated(
                        p,
                        final(self).pair,
                        balance_0 as nat,
                        balance_1 as nat,
                        p.reserve_0 as nat,
                        p.reserve_1 as nat,
                        now_ms,
                    )
                    &&& final(events)@ == old(events)@.push(
                        PairEvent::Sync(Sync { reserve_0: balance_0, reserve_1: balance_1 }),
                    ).push(
                        PairEvent::Swap(
                            Swap {
                                sender: caller,
                                amount_0_in: in0 as u128,
                                amount_1_in: in1 as u128,
                                amount_0_out,
                                amount_1_out,
                                to,
                            },
                        ),
                    )
                    &&& final(self).pair.reserve_0 * final(self).pair.reserve_1 >= p.reserve_0
                        * p.reserve_1
                }
            }),
    {
        match self.swap_check(amount_0_out, amount_1_out, to) {
            Ok(()) => {},
            Err(e) => return Err(e),
        }
        let reserve_0 = self.pair.reserve_0;
        let reserve_1 = self.pair.reserve_1;
        let liquidity_depth_0 = match reserve_0.checked_sub(amount_0_out) {
            Some(v) => v,
            None => return Err(PairError::MathError(MathError::SubUnderflow(5))),
        };
        let amount_0_in = if balance_0 > liquidity_depth_0 {
            match balance_0.checked_sub(liquidity_depth_0) {
                Some(v) => v,
                None => return Err(PairError::MathError(MathError::SubUnderflow(6))),
            }
        } else {
            0
        };
        let liquidity_depth_1 = match reserve_1.checked_sub(amount_1_out) {
            Some(v) => v,
            None => return Err(PairError::MathError(MathError::SubUnderflow(7))),
        };
        let amount_1_in = if balance_1 > liquidity_depth_1 {
            match balance_1.checked_sub(liquidity_depth_1) {
                Some(v) => v,
                None => return Err(PairError::MathError(MathError::SubUnderflow(8))),
            }
        } else {
            0
        };
        if !(amount_0_in > 0 || amount_1_in > 0) {
            return Err(PairError::InsufficientInputAmount);
        }
        let scaled_0 = match balance_0.checked_mul(TRADING_FEE_ADJ_RESERVES) {
            Some(v) => v,
            None => return Err(PairError::MathError(MathError::MulOverflow(3))),
        };
        let fee_0 = match amount_0_in.checked_mul(TRADING_FEE_ADJ_AMOUNTS) {
            Some(v) => v,
            None => return Err(PairError::MathError(MathError::MulOverflow(4))),
        };
        let balance_0_adjusted = match scaled_0.checked_sub(fee_0) {
            Some(v) => v,
            None => return Err(PairError::MathError(MathError::SubUnderflow(9))),
        };
        let scaled_1 = match balance_1.checked_mul(TRADING_FEE_ADJ_RESERVES) {
            Some(v) => v,
            None => return Err(PairError::MathError(MathError::MulOverflow(5))),
        };
        let fee_1 = match amount_1_in.checked_mul(TRADING_FEE_ADJ_AMOUNTS) {
            Some(v) => v,
            None => return Err(PairError::MathError(MathError::MulOverflow(6))),
        };
        let balance_1_adjusted = match scaled_1.checked_sub(fee_1) {
            Some(v) => v,
            None => return Err(PairError::MathError(MathError::SubUnderflow(10))),
        };
        let lhs = casted_mul(balance_0_adjusted, balance_1_adjusted);
        proof {
            lemma_reserve_product_fits(reserve_0, reserve_1);
        }
        let rhs = match u256_checked_mul(
            casted_mul(reserve_0, reserve_1),
            u256_from_u128(TRADING_FEE_ADJ_RESERVES * TRADING_FEE_ADJ_RESERVES),
        ) {
            Some(v) => v,
            None => return Err(PairError::MathError(MathError::MulOverflow(7))),
        };
        if !u256_ge(lhs, rhs) {
            return Err(PairError::KInvariantChanged);
        }
        proof {
            lemma_k_grows(
                balance_0 as nat,
                balance_1 as nat,
                balance_0_adjusted as nat,
                balance_1_adjusted as nat,
                reserve_0 as nat,
                reserve_1 as nat,
            );
        }
        match self.update(balance_0, balance_1, reserve_0, reserve_1, now_ms, events) {
            Ok(()) => {},
            Err(e) => return Err(e),
        }
        events.push(
            PairEvent::Swap(
                Swap {
                    sender: caller,
                    amount_0_in,
                    amount_1_in,
                    amount_0_out,
                    amount_1_out,
                    to,
                },
            ),
        );
        Ok(())
    }

    /// The excess of the balances over the reserves, which `skim` sends away.
    pub fn skim(&self, balance_0: u128, balance_1: u128) -> (r: Result<(u128, u128), PairError>)
        ensures
            balance_0 < self.pair.reserve_0 ==> r == Err::<(u128, u128), PairError>(
                PairError::MathError(MathError::SubUnderflow(11)),
            ),
            balance_0 >= self.pair.reserve_0 && balance_1 < self.pair.reserve_1 ==> r == Err::<
                (u128, u128),
                PairError,
            >(PairError::MathError(MathError::SubUnderflow(12))),
            balance_0 >= self.pair.reserve_0 && balance_1 >= self.pair.reserve_1 ==> r == Ok::<
                (u128, u128),
                PairError,
            >(((balance_0 - self.pair.reserve_0) as u128, (balance_1 - self.pair.reserve_1) as u128)),
    {
        let amount_0 = match balance_0.checked_sub(self.pair.reserve_0) {
            Some(v) => v,
            None => return Err(PairError::MathError(MathError::SubUnderflow(11))),
        };
        let amount_1 = match balance_1.checked_sub(self.pair.reserve_1) {
            Some(v) => v,
            None => return Err(PairError::MathError(MathError::SubUnderflow(12))),
        };
        Ok((amount_0, amount_1))
    }

    /// Sets the reserves to the balances `(balance_0, balance_1)`.
    pub fn sync(&mut self, balance_0: u128, balance_1: u128, now_ms: u64, events: &mut Vec<PairEvent>) -> (r:
        Result<(), PairError>)
        requires
            old(self).wf(),
        ensures
            final(self).wf(),
            final(self).psp22 == old(self).psp22,
            (balance_0 > RESERVES_UPPER_BOUND || balance_1 > RESERVES_UPPER_BOUND) ==> r == Err::<
                (),
                PairError,
            >(PairError::ReservesOverflow) && final(self).pair == old(self).pair,
            (balance_0 <= RESERVES_UPPER_BOUND && balance_1 <= RESERVES_UPPER_BOUND) ==> r is Ok
                && updated(
                old(self).pair,
                final(self).pair,
                balance_0 as nat,
                balance_1 as nat,
                old(self).pair.reserve_0 as nat,
                old(self).pair.reserve_1 as nat,
                now_ms,
            ) && final(events)@ == old(events)@.push(
                PairEvent::Sync(Sync { reserve_0: balance_0, reserve_1: balance_1 }),
            ),
    {
        let reserve_0 = self.pair.reserve_0;
        let reserve_1 = self.pair.reserve_1;
        self.update(balance_0, balance_1, reserve_0, reserve_1, now_ms, events)
    }
}

/// The liquidity-token balance of `who` once `mint_fee` has minted the
/// protocol fee.
pub open spec fn balance_after_fee(s: PairContract, fee_to: Option<AccountId>, who: AccountId) -> nat {
    let fee = protocol_fee(s.pair, s.supply(), s.pair.reserve_0 as nat, s.pair.reserve_1 as nat, fee_to);
    let b = ledger_balance(s.psp22, who);
    if fee > 0 && fee_to == Some(who) {
        if b + fee > u128::MAX {
            u128::MAX as nat
        } else {
            b + fee
        }
    } else {
        b
    }
}

/// `burn` succeeds on the pair `s` when `liquidity` tokens are to be burned
/// against balances `(b0, b1)`.
pub open spec fn burn_succeeds(
    s: PairContract,
    liquidity: nat,
    b0: nat,
    b1: nat,
    fee_to: Option<AccountId>,
) -> bool {
    let ts = supply_after_fee(s, fee_to);
    &&& !fee_mint_overflows(s, fee_to)
    &&& ts > 0
    &&& liquidity * b0 / ts < two_pow_128()
    &&& liquidity * b1 / ts < two_pow_128()
    &&& liquidity * b0 / ts > 0
    &&& liquidity * b1 / ts > 0
}

impl PairContract {
    /// Burns the liquidity tokens held by the pair itself (`contract`) and
    /// computes the share of the balances `(balance_0, balance_1)` that they
    /// stand for; mints the protocol fee first (see `mint_fee`). The
    /// contract pays the amounts out and then calls `burn_settle`. On an
    /// error nothing changes.
    pub fn burn(
        &mut self,
        contract: AccountId,
        balance_0: u128,
        balance_1: u128,
        fee_to: Option<AccountId>,
        events: &mut Vec<PairEvent>,
    ) -> (r: Result<BurnPlan, PairError>)
        requires
            old(self).wf(),
        ensures
            final(self).wf(),
            final(self).pair.reserve_0 == old(self).pair.reserve_0,
            final(self).pair.reserve_1 == old(self).pair.reserve_1,
            r is Err ==> *final(self) == *old(self) && final(events)@ == old(events)@,
            ({
                let liquidity = ledger_balance(old(self).psp22, contract);
                let ts = supply_after_fee(*old(self), fee_to);
                let fee = protocol_fee(
                    old(self).pair,
                    old(self).supply(),
                    old(self).pair.reserve_0 as nat,
                    old(self).pair.reserve_1 as nat,
                    fee_to,
                );
                &&& r is Ok <==> burn_succeeds(
                    *old(self),
                    liquidity,
                    balance_0 as nat,
                    balance_1 as nat,
                    fee_to,
                )
                &&& fee_mint_overflows(*old(self), fee_to) ==> (r matches Err(
                    PairError::PSP22Error(PSP22Error::Custom(_)),
                ))
                &&& !fee_mint_overflows(*old(self), fee_to) && ts == 0 ==> r == Err::<
                    BurnPlan,
                    PairError,
                >(PairError::MathError(MathError::DivByZero(4)))
                &&& !fee_mint_overflows(*old(self), fee_to) && ts > 0 && liquidity * (balance_0 as nat) / ts
                    < two_pow_128() && liquidity * (balance_1 as nat) / ts < two_pow_128() && (liquidity
                    * (balance_0 as nat) / ts == 0 || liquidity * (balance_1 as nat) / ts == 0) ==> r == Err::<
                    BurnPlan,
                    PairError,
                >(PairError::InsufficientLiquidityBurned)
                &&& r is Ok ==> {
                    &&& ledger_events_pushed(
                        old(events)@,
                        final(events)@,
                        (if fee > 0 {
                            1nat
                        } else {
                            0nat
                        }) + 1,
                    )
                    &&& fee_then_burned(
                        old(self).psp22,
                        final(self).psp22,
                        fee_to,
                        fee,
                        contract,
                        liquidity,
                    )
                    &&& r.unwrap().amount_0 == liquidity * (balance_0 as nat) / ts
                    &&& r.unwrap().amount_1 == liquidity * (balance_1 as nat) / ts
                    &&& r.unwrap().fee_on == fee_to is Some
                    &&& final(self).supply() == (if ts >= liquidity {
                        (ts - liquidity) as nat
                    } else {
                        0
                    })
                    &&& ledger_balance(final(self).psp22, contract) == balance_after_fee(
                        *old(self),
                        fee_to,
                        contract,
                    ) - liquidity
                    &&& final(self).pair == (if fee_to is None {
                        PairData { k_last: None, ..old(self).pair }
                    } else {
                        old(self).pair
                    })
                }
            }),
    {
        let reserve_0 = self.pair.reserve_0;
        let reserve_1 = self.pair.reserve_1;
        let liquidity = ledger_balance_of(&self.psp22, contract);
        let ghost before = *self;
        let fee = match self.fee_due(reserve_0, reserve_1, fee_to) {
            Ok(v) => v,
            Err(e) => return Err(e),
        };
        let supply = ledger_total_supply(&self.psp22);
        if fee > 0 && supply > u128::MAX - fee {
            return Err(PairError::PSP22Error(supply_overflow()));
        }
        let ts = supply + fee;
        let total_supply = u256_from_u128(ts);
        let amount_0 = match u256_checked_div(casted_mul(liquidity, balance_0), total_supply) {
            Some(v) => v,
            None => return Err(PairError::MathError(MathError::DivByZero(4))),
        };
        let amount_0 = match u256_try_into_u128(amount_0) {
            Some(v) => v,
            None => return Err(PairError::MathError(MathError::CastOverflow(5))),
        };
        let amount_1 = match u256_checked_div(casted_mul(liquidity, balance_1), total_supply) {
            Some(v) => v,
            None => return Err(PairError::MathError(MathError::DivByZero(5))),
        };
        let amount_1 = match u256_try_into_u128(amount_1) {
            Some(v) => v,
            None => return Err(PairError::MathError(MathError::CastOverflow(6))),
        };
        if !(amount_0 > 0 && amount_1 > 0) {
            return Err(PairError::InsufficientLiquidityBurned);
        }
        let ghost ev0 = events@;
        let fee_on = match self.mint_fee(reserve_0, reserve_1, fee_to, events) {
            Ok(b) => b,
            Err(e) => return Err(e),
        };
        let ghost ev1 = events@;
        proof {
            if fee > 0 {
                assert(ev1 =~= ev0.push(ev1.last()));
                lemma_ledger_events_one(ev0, ev1.last());
            } else {
                lemma_ledger_events_none(ev0);
            }
        }
        let ghost mid = self.psp22;
        match ledger_burn(&mut self.psp22, contract, liquidity) {
            Ok(evs) => events.push(PairEvent::Ledger(evs)),
            Err(e) => return Err(PairError::PSP22Error(e)),
        }
        proof {
            lemma_ledger_events_one(ev1, events@.last());
            assert(events@ =~= ev1.push(events@.last()));
            lemma_ledger_events_step(ev0, ev1, (if fee > 0 { 1nat } else { 0nat }), 1, events@);
        }
        proof {
            assert(lp_minted(before.psp22, mid, fee_to.unwrap(), fee as nat));
        }
        Ok(BurnPlan { amount_0, amount_1, fee_on })
    }

    /// Completes a burn once the amounts of `plan` were paid out to `to`,
    /// the pair's balances being `(balance_0, balance_1)` afterwards: sets
    /// the reserves to the balances and, with the protocol fee on, records
    /// the product of the new reserves as `k_last`.
    pub fn burn_settle(
        &mut self,
        plan: BurnPlan,
        balance_0: u128,
        balance_1: u128,
        caller: AccountId,
        to: AccountId,
        now_ms: u64,
        events: &mut Vec<PairEvent>,
    ) -> (r: Result<(u128, u128), PairError>)
        requires
            old(self).wf(),
        ensures
            final(self).wf(),
            final(self).psp22 == old(self).psp22,
            (balance_0 > RESERVES_UPPER_BOUND || balance_1 > RESERVES_UPPER_BOUND) ==> r == Err::<
                (u128, u128),
                PairError,
            >(PairError::ReservesOverflow),
            (balance_0 <= RESERVES_UPPER_BOUND && balance_1 <= RESERVES_UPPER_BOUND) ==> {
                &&& r == Ok::<(u128, u128), PairError>((plan.amount_0, plan.amount_1))
                &&& updated(
                    old(self).pair.k_last_dropped(None),
                    final(self).pair.k_last_dropped(None),
                    balance_0 as nat,
                    balance_1 as nat,
                    old(self).pair.reserve_0 as nat,
                    old(self).pair.reserve_1 as nat,
                    now_ms,
                )
                &&& plan.fee_on ==> final(self).pair.k_last is Some && u256_value(
                    final(self).pair.k_last.unwrap().0,
                ) == balance_0 * balance_1
                &&& !plan.fee_on ==> final(self).pair.k_last == old(self).pair.k_last
                &&& final(events)@ == old(events)@.push(
                    PairEvent::Sync(Sync { reserve_0: balance_0, reserve_1: balance_1 }),
                ).push(
                    PairEvent::Burn(
                        Burn {
                            sender: caller,
                            amount_0: plan.amount_0,
                            amount_1: plan.amount_1,
                            to,
                        },
                    ),
                )
            },
    {
        let reserve_0 = self.pair.reserve_0;
        let reserve_1 = self.pair.reserve_1;
        match self.update(balance_0, balance_1, reserve_0, reserve_1, now_ms, events) {
            Ok(()) => {},
            Err(e) => return Err(e),
        }
        if plan.fee_on {
            self.pair.k_last = Some(WrappedU256(casted_mul(self.pair.reserve_0, self.pair.reserve_1)));
        }
        events.push(
            PairEvent::Burn(
                Burn { sender: caller, amount_0: plan.amount_0, amount_1: plan.amount_1, to },
            ),
        );
        Ok((plan.amount_0, plan.amount_1))
    }
}

impl PairContract {
    /// The factory that created the pair.
    pub fn get_factory(&self) -> (r: AccountId)
        ensures
            r == self.pair.factory,
    {
        self.pair.factory
    }

    /// The liquidity locked at the first deposit.
    pub fn get_minimum_liquidity(&self) -> (r: u128)
        ensures
            r == MINIMUM_LIQUIDITY,
    {
        MINIMUM_LIQUIDITY
    }

    /// The reserves and the time of their last update (seconds, modulo 2^32).
    pub fn get_reserves(&self) -> (r: (u128, u128, u32))
        ensures
            r == (self.pair.reserve_0, self.pair.reserve_1, self.pair.block_timestamp_last),
    {
        (self.pair.reserve_0, self.pair.reserve_1, self.pair.block_timestamp_last)
    }

    /// The accumulated price of token 0 in token 1.
    pub fn price_0_cumulative_last(&self) -> (r: WrappedU256)
        ensures
            r == self.pair.price_0_cumulative_last,
    {
        self.pair.price_0_cumulative_last
    }

    /// The accumulated price of token 1 in token 0.
    pub fn price_1_cumulative_last(&self) -> (r: WrappedU256)
        ensures
            r == self.pair.price_1_cumulative_last,
    {
        self.pair.price_1_cumulative_last
    }

    /// The first token of the pair.
    pub fn get_token_0(&self) -> (r: AccountId)
        ensures
            r == self.pair.token_0,
    {
        self.pair.token_0
    }

    /// The second token of the pair.
    pub fn get_token_1(&self) -> (r: AccountId)
        ensures
            r == self.pair.token_1,
    {
        self.pair.token_1
    }

    /// The supply of liquidity tokens.
    pub fn total_supply(&self) -> (r: u128)
        ensures
            r == self.supply(),
    {
        ledger_total_supply(&self.psp22)
    }

    /// The liquidity tokens held by `owner`.
    pub fn balance_of(&self, owner: AccountId) -> (r: u128)
        ensures
            r == ledger_balance(self.psp22, owner),
    {
        ledger_balance_of(&self.psp22, owner)
    }

    /// The name of the liquidity token.
    pub fn token_name(&self) -> (r: Option<String>)
        ensures
            r is Some && r.unwrap()@ == "CommonAMM-V2"@,
    {
        Some("CommonAMM-V2".to_owned())
    }

    /// The symbol of the liquidity token.
    pub fn token_symbol(&self) -> (r: Option<String>)
        ensures
            r is Some && r.unwrap()@ == "CMNAMM-V2"@,
    {
        Some("CMNAMM-V2".to_owned())
    }

    /// The decimals of the liquidity token.
    pub fn token_decimals(&self) -> (r: u8)
        ensures
            r == 12,
    {
        12
    }
}

proof fn lemma_reserve_product_fits(r0: u128, r1: u128)
    requires
        r0 <= RESERVES_UPPER_BOUND,
        r1 <= RESERVES_UPPER_BOUND,
    ensures
        (r0 as nat) * (r1 as nat) * 1_000_000 < two_pow_256(),
{
    let q = Q112 as nat;
    assert((r0 as nat) * (r1 as nat) * 1_000_000 < q * q * 1_000_000) by (nonlinear_arith)
        requires
            (r0 as nat) < q,
            (r1 as nat) < q,
    {
        assert((r0 as nat) * (r1 as nat) < q * q) by {
            assert((r0 as nat) * (r1 as nat) <= (r0 as nat) * q);
            assert((r0 as nat) * q < q * q);
        }
    }
    assert(q * q * 1_000_000 < two_pow_256());
}

/// With the fee taken from the inputs, `adj_i <= 1000 * b_i`; so the fee-adjusted
/// product check implies that the plain product of the balances did not shrink.
proof fn lemma_k_grows(b0: nat, b1: nat, adj0: nat, adj1: nat, r0: nat, r1: nat)
    requires
        adj0 <= b0 * 1000,
        adj1 <= b1 * 1000,
        adj0 * adj1 >= r0 * r1 * 1_000_000,
    ensures
        b0 * b1 >= r0 * r1,
{
    assert(adj0 * adj1 <= (b0 * 1000) * (b1 * 1000)) by (nonlinear_arith)
        requires
            adj0 <= b0 * 1000,
            adj1 <= b1 * 1000,
    ;
    assert((b0 * 1000) * (b1 * 1000) == b0 * b1 * 1_000_000) by (nonlinear_arith);
    assert(r0 * r1 * 1_000_000 == (r0 * r1) * 1_000_000) by (nonlinear_arith);
}

impl PairData {
    /// The state with `k_last` forgotten when there is no fee recipient.
    pub open spec fn k_last_dropped(self, fee_to: Option<AccountId>) -> PairData {
        PairData { k_last: None, ..self }
    }
}

/// A deposit into a pair that already has liquidity never mints more than
/// the depositor's proportional share: the minted part of the supply is at
/// most the deposited part of either reserve.
pub proof fn law_mint_is_at_most_proportional(a0: nat, a1: nat, total_supply: nat, r0: nat, r1: nat)
    requires
        total_supply > 0,
        r0 > 0,
        r1 > 0,
    ensures
        mint_amount(a0, a1, total_supply, r0, r1) >= 0,
        mint_amount(a0, a1, total_supply, r0, r1) * r0 <= a0 * total_supply,
        mint_amount(a0, a1, total_supply, r0, r1) * r1 <= a1 * total_supply,
{
    let l0 = a0 * total_supply / r0;
    let l1 = a1 * total_supply / r1;
    assert(l0 * r0 <= a0 * total_supply) by (nonlinear_arith)
        requires
            l0 == a0 * total_supply / r0,
            r0 > 0,
    ;
    assert(l1 * r1 <= a1 * total_supply) by (nonlinear_arith)
        requires
            l1 == a1 * total_supply / r1,
            r1 > 0,
    ;
    if l0 <= l1 {
        assert(l0 * r1 <= l1 * r1) by (nonlinear_arith)
            requires
                l0 <= l1,
        ;
    } else {
        assert(l1 * r0 <= l0 * r0) by (nonlinear_arith)
            requires
                l1 <= l0,
        ;
    }
}

/// Burning `liquidity` of `total_supply` tokens pays out at most the
/// burned share of each balance, so never more than the pair holds.
pub proof fn law_burn_is_at_most_proportional(liquidity: nat, b0: nat, b1: nat, total_supply: nat)
    requires
        0 < total_supply,
        liquidity <= total_supply,
    ensures
        (liquidity * b0 / total_supply) * total_supply <= liquidity * b0,
        (liquidity * b1 / total_supply) * total_supply <= liquidity * b1,
        liquidity * b0 / total_supply <= b0,
        liquidity * b1 / total_supply <= b1,
{
    lemma_div_le_numerator_factor(b0, liquidity, total_supply);
    lemma_div_le_numerator_factor(b1, liquidity, total_supply);
    assert(liquidity * b0 == b0 * liquidity) by (nonlinear_arith);
    assert(liquidity * b1 == b1 * liquidity) by (nonlinear_arith);
    assert((liquidity * b0 / total_supply) * total_supply <= liquidity * b0) by (nonlinear_arith)
        requires
            total_supply > 0,
    ;
    assert((liquidity * b1 / total_supply) * total_supply <= liquidity * b1) by (nonlinear_arith)
        requires
            total_supply > 0,
    ;
}

impl PairContract {
    /// The allowance that `owner` gave `spender`.
    pub fn allowance(&self, owner: AccountId, spender: AccountId) -> (r: u128)
        ensures
            r == crate::ledger::ledger_allowance(self.psp22, owner, spender),
    {
        crate::ledger::ledger_allowance_of(&self.psp22, owner, spender)
    }

    /// `caller` sends `value` tokens to `to`; returns the ledger's events.
    pub fn transfer(&mut self, caller: AccountId, to: AccountId, value: u128) -> (r: Result<
        Vec<psp22::PSP22Event>,
        PSP22Error,
    >)
        ensures
            crate::ledger::transfer_spec(old(self).psp22, final(self).psp22, r, caller, to, value),
            final(self).pair == old(self).pair,
    {
        crate::ledger::ledger_transfer(&mut self.psp22, caller, to, value)
    }

    /// `caller` sends `value` tokens of `from` to `to` under the allowance
    /// `from` gave it; returns the ledger's events.
    pub fn transfer_from(
        &mut self,
        caller: AccountId,
        from: AccountId,
        to: AccountId,
        value: u128,
    ) -> (r: Result<Vec<psp22::PSP22Event>, PSP22Error>)
        ensures
            crate::ledger::transfer_from_spec(
                old(self).psp22,
                final(self).psp22,
                r,
                caller,
                from,
                to,
                value,
            ),
            final(self).pair == old(self).pair,
    {
        crate::ledger::ledger_transfer_from(&mut self.psp22, caller, from, to, value)
    }

    /// `caller` lets `spender` send up to `value` of its tokens; returns the
    /// ledger's events.
    pub fn approve(&mut self, caller: AccountId, spender: AccountId, value: u128) -> (r: Result<
        Vec<psp22::PSP22Event>,
        PSP22Error,
    >)
        ensures
            crate::ledger::approve_spec(old(self).psp22, final(self).psp22, r, caller, spender, value),
            final(self).pair == old(self).pair,
    {
        crate::ledger::ledger_approve(&mut self.psp22, caller, spender, value)
    }

    /// `caller` raises the allowance of `spender` by `delta_value`; returns
    /// the ledger's events.
    pub fn increase_allowance(&mut self, caller: AccountId, spender: AccountId, delta_value: u128) -> (r:
        Result<Vec<psp22::PSP22Event>, PSP22Error>)
        ensures
            crate::ledger::increase_allowance_spec(
                old(self).psp22,
                final(self).psp22,
                r,
                caller,
                spender,
                delta_value,
            ),
            final(self).pair == old(self).pair,
    {
        crate::ledger::ledger_increase_allowance(&mut self.psp22, caller, spender, delta_value)
    }

    /// `caller` lowers the allowance of `spender` by `delta_value`; returns
    /// the ledger's events.
    pub fn decrease_allowance(&mut self, caller: AccountId, spender: AccountId, delta_value: u128) -> (r:
        Result<Vec<psp22::PSP22Event>, PSP22Error>)
        ensures
            crate::ledger::decrease_allowance_spec(
                old(self).psp22,
                final(self).psp22,
                r,
                caller,
                spender,
                delta_value,
            ),
            final(self).pair == old(self).pair,
    {
        crate::ledger::ledger_decrease_allowance(&mut self.psp22, caller, spender, delta_value)
    }
}

/// The protocol fee is at most one sixth of the growth of `sqrt(k)`: after
/// it is minted, the protocol's part of the supply, `fee / (supply + fee)`,
/// is at most `(sqrt(k) - sqrt(k_last)) / (6 sqrt(k))` (equal to it but for
/// rounding down).
pub proof fn law_protocol_fee_is_one_sixth_of_growth(total_supply: nat, r0: nat, r1: nat, k_last: nat)
    requires
        isqrt(r0 * r1) > isqrt(k_last),
    ensures
        ({
            let fee = fee_liquidity(total_supply, r0, r1, k_last);
            let rk = isqrt(r0 * r1);
            let growth = (rk - isqrt(k_last)) as nat;
            fee * (6 * rk) <= growth * (total_supply + fee)
        }),
{
    let rk = isqrt(r0 * r1);
    let rkl = isqrt(k_last);
    let d = (rk - rkl) as nat;
    let den = rk * 5 + rkl;
    let fee = total_supply * d / den;
    assert(den > 0);
    assert(fee * den <= total_supply * d) by (nonlinear_arith)
        requires
            fee == total_supply * d / den,
            den > 0,
    ;
    assert(6 * rk == den + d);
    assert(fee * (6 * rk) == fee * den + fee * d) by (nonlinear_arith)
        requires
            6 * rk == den + d,
    ;
    assert(d * (total_supply + fee) == total_supply * d + fee * d) by (nonlinear_arith);
}

/// Right after `k_last` was recorded as the product of the reserves (as
/// `mint` and `burn_settle` do with the fee on), `sqrt(k)` has not grown, so
/// the next deposit or withdrawal mints no protocol fee.
pub proof fn law_no_fee_without_growth(p: PairData, total_supply: nat, fee_to: Option<AccountId>)
    requires
        p.k_last is Some,
        u256_value(p.k_last.unwrap().0) == p.reserve_0 * p.reserve_1,
    ensures
        protocol_fee(p, total_supply, p.reserve_0 as nat, p.reserve_1 as nat, fee_to) == 0,
{
}

/// What came in on a side of a swap is what the balance holds beyond the
/// reserve that the payout left: with `out` paid out of `reserve`, the input
/// and the reserve left add up to the balance, and nothing came in when the
/// balance is not above the reserve left.
pub proof fn law_input_is_balance_beyond_reserve_left(reserve: nat, out: nat, balance: nat)
    requires
        out <= reserve,
    ensures
        balance >= reserve - out ==> amount_in(reserve, out, balance) + (reserve - out) == balance,
        balance <= reserve - out ==> amount_in(reserve, out, balance) == 0,
{
}

/// Everything that a swap finds beyond the reserves left after its payout
/// counts as input and pays the 0.3% fee: after a successful swap, with
/// `x0` and `x1` those excesses, `(b0 * 1000 - 3 * x0) * (b1 * 1000 - 3 * x1)`
/// is at least `r0 * r1 * 10^6`.
pub proof fn law_swap_keeps_fee_adjusted_product(
    p: PairData,
    out0: u128,
    out1: u128,
    to: AccountId,
    b0: u128,
    b1: u128,
)
    requires
        swap_succeeds(p, out0, out1, to, b0, b1),
    ensures
        ({
            let left0 = p.reserve_0 - out0;
            let left1 = p.reserve_1 - out1;
            let x0 = if b0 > left0 {
                b0 - left0
            } else {
                0
            };
            let x1 = if b1 > left1 {
                b1 - left1
            } else {
                0
            };
            (b0 * 1000 - 3 * x0) * (b1 * 1000 - 3 * x1) >= p.reserve_0 * p.reserve_1 * 1_000_000
        }),
{
}

/// A flash swap of `out` of token 1 that sends back `repay` of token 1 and
/// nothing of token 0 succeeds only when `repay` covers the loan and the
/// 0.3% fee on all of it: `997 * repay >= 1000 * out`.
pub proof fn law_flash_swap_1_pays_the_fee(p: PairData, out: u128, to: AccountId, repay: u128)
    requires
        out < p.reserve_1,
        p.reserve_1 - out + repay <= u128::MAX,
        swap_succeeds(p, 0, out, to, p.reserve_0, (p.reserve_1 - out + repay) as u128),
    ensures
        997 * repay >= 1000 * out,
{
    let r0 = p.reserve_0 as int;
    let r1 = p.reserve_1 as int;
    let b1 = r1 - out + repay;
    assert(amount_in(p.reserve_0 as nat, 0, p.reserve_0 as nat) == 0);
    assert(amount_in(p.reserve_1 as nat, out as nat, b1 as nat) == repay);
    let adj1 = b1 * 1000 - repay * 3;
    assert(r0 > 0);
    assert((r0 * 1000) * adj1 >= r0 * r1 * 1_000_000);
    assert(adj1 >= r1 * 1000) by (nonlinear_arith)
        requires
            r0 > 0,
            (r0 * 1000) * adj1 >= r0 * r1 * 1_000_000,
    ;
}

/// A flash swap of `out` of token 0 that sends back `repay` of token 0 and
/// nothing of token 1 succeeds only when `997 * repay >= 1000 * out`.
pub proof fn law_flash_swap_0_pays_the_fee(p: PairData, out: u128, to: AccountId, repay: u128)
    requires
        out < p.reserve_0,
        p.reserve_0 - out + repay <= u128::MAX,
        swap_succeeds(p, out, 0, to, (p.reserve_0 - out + repay) as u128, p.reserve_1),
    ensures
        997 * repay >= 1000 * out,
{
    let r0 = p.reserve_0 as int;
    let r1 = p.reserve_1 as int;
    let b0 = r0 - out + repay;
    assert(amount_in(p.reserve_1 as nat, 0, p.reserve_1 as nat) == 0);
    assert(amount_in(p.reserve_0 as nat, out as nat, b0 as nat) == repay);
    let adj0 = b0 * 1000 - repay * 3;
    assert(r1 > 0);
    assert(adj0 * (r1 * 1000) >= r0 * r1 * 1_000_000);
    assert(adj0 >= r0 * 1000) by (nonlinear_arith)
        requires
            r1 > 0,
            adj0 * (r1 * 1000) >= r0 * r1 * 1_000_000,
    ;
}

/// Conversely, a flash swap of token 1 whose repayment covers the loan and
/// its fee (`997 * repay >= 1000 * out`) succeeds, when the other checks
/// pass and the amounts stay in range.
pub proof fn law_flash_swap_1_with_fee_succeeds(p: PairData, out: u128, to: AccountId, repay: u128)
    requires
        0 < out < p.reserve_1,
        0 < p.reserve_0,
        to != p.token_0 && to != p.token_1,
        997 * repay >= 1000 * out,
        (p.reserve_1 - out + repay) * 1000 <= u128::MAX,
        p.reserve_0 * 1000 <= u128::MAX,
        p.reserve_0 <= RESERVES_UPPER_BOUND,
        p.reserve_1 - out + repay <= RESERVES_UPPER_BOUND,
    ensures
        swap_succeeds(p, 0, out, to, p.reserve_0, (p.reserve_1 - out + repay) as u128),
{
    let r0 = p.reserve_0 as int;
    let r1 = p.reserve_1 as int;
    let b1 = r1 - out + repay;
    assert(amount_in(p.reserve_0 as nat, 0, p.reserve_0 as nat) == 0);
    assert(amount_in(p.reserve_1 as nat, out as nat, b1 as nat) == repay);
    let adj1 = b1 * 1000 - repay * 3;
    assert(adj1 >= r1 * 1000);
    assert((r0 * 1000) * adj1 >= r0 * r1 * 1_000_000) by (nonlinear_arith)
        requires
            r0 > 0,
            adj1 >= r1 * 1000,
    ;
}

} // verus!
