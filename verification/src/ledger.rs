//! The PSP22 liquidity-token ledger of a pool: `psp22::PSP22Data`, seen
//! through the names of its contents.
use crate::account::AccountId;
use crate::errors::PSP22Error;
use ink::primitives::AccountId as InkAccount;
use vstd::prelude::*;

verus! {

#[verifier::external_type_specification]
#[verifier::external_body]
pub struct ExPSP22Data(psp22::PSP22Data);

#[verifier::external_type_specification]
#[verifier::external_body]
pub struct ExPSP22Event(psp22::PSP22Event);


/// The balances that a `PSP22Data` reads and writes: an account that is not
/// in the domain holds nothing. A `PSP22Data` keeps its balances under a
/// storage key of the running contract, not inside the value; the library
/// holds one ledger per contract, so this map is that contract's ledger.
pub uninterp spec fn ledger_balances(data: psp22::PSP22Data) -> Map<AccountId, u128>;

/// The total supply that a `PSP22Data` records.
pub uninterp spec fn ledger_supply(data: psp22::PSP22Data) -> nat;

/// The allowances that a `PSP22Data` reads and writes, by (owner, spender):
/// a pair that is not in the domain has none. Like the balances, they live
/// under a storage key of the running contract.
pub uninterp spec fn ledger_allowances(data: psp22::PSP22Data) -> Map<(AccountId, AccountId), u128>;

/// The balance of `who` in `data`.
pub open spec fn ledger_balance(data: psp22::PSP22Data, who: AccountId) -> nat {
    balance_in(ledger_balances(data), who)
}

/// The allowance that `owner` gave `spender` in `data`.
pub open spec fn ledger_allowance(data: psp22::PSP22Data, owner: AccountId, spender: AccountId) -> nat {
    if ledger_allowances(data).contains_key((owner, spender)) {
        ledger_allowances(data)[(owner, spender)] as nat
    } else {
        0
    }
}

/// `new` is `old` after `value` tokens were minted to `to`: the supply grows
/// by `value` and the balance of `to` by `value`, saturating at `u128::MAX`.
pub open spec fn ledger_minted(
    old: psp22::PSP22Data,
    new: psp22::PSP22Data,
    to: AccountId,
    value: nat,
) -> bool {
    &&& ledger_allowances(new) == ledger_allowances(old)
    &&& ledger_supply(new) == ledger_supply(old) + value
    &&& ledger_balances(new) == ledger_balances(old).insert(
        to,
        (if ledger_balance(old, to) + value > u128::MAX {
            u128::MAX as nat
        } else {
            (ledger_balance(old, to) + value) as nat
        }) as u128,
    )
}

/// `new` is `old` after `value` liquidity tokens were minted to `to`
/// (nothing changes for 0).
pub open spec fn lp_minted(old: psp22::PSP22Data, new: psp22::PSP22Data, to: AccountId, value: nat) -> bool {
    if value == 0 {
        new == old
    } else {
        ledger_minted(old, new, to, value)
    }
}

/// `new` is `old` after `value` tokens of `from`, who holds at least that
/// many, were burned: the balance drops by `value` (an emptied balance
/// leaves the map) and so does the supply, saturating at 0.
pub open spec fn ledger_burned(
    old: psp22::PSP22Data,
    new: psp22::PSP22Data,
    from: AccountId,
    value: nat,
) -> bool {
    &&& ledger_allowances(new) == ledger_allowances(old)
    &&& ledger_supply(new) == (if ledger_supply(old) >= value {
        (ledger_supply(old) - value) as nat
    } else {
        0
    })
    &&& ledger_balances(new) == if ledger_balance(old, from) == value {
        ledger_balances(old).remove(from)
    } else {
        ledger_balances(old).insert(from, (ledger_balance(old, from) - value) as u128)
    }
}

/// `value` tokens move from `from`, who holds at least that many, to
/// `to`, another account: an emptied balance leaves the map, and the
/// balance of `to` grows by `value`, saturating at `u128::MAX`.
pub open spec fn ledger_moved(
    old: Map<AccountId, u128>,
    new: Map<AccountId, u128>,
    from: AccountId,
    to: AccountId,
    value: nat,
) -> bool {
    let from_balance: nat = if old.contains_key(from) {
        old[from] as nat
    } else {
        0
    };
    let to_balance: nat = if old.contains_key(to) {
        old[to] as nat
    } else {
        0
    };
    let debited = if from_balance == value {
        old.remove(from)
    } else {
        old.insert(from, (from_balance - value) as u128)
    };
    new == debited.insert(
        to,
        (if to_balance + value > u128::MAX {
            u128::MAX as nat
        } else {
            to_balance + value
        }) as u128,
    )
}

/// `PSP22Data::default()`: a ledger whose supply field is 0. Its balances
/// and allowances are storage entries of the running contract, which this
/// call neither reads nor clears, so nothing is said of them here: a new
/// contract starts with empty storage, but that is a fact of the chain, not
/// of this call. Reading them off-chain also needs a callee set in the
/// test environment.
#[verifier::external_body]
pub(crate) fn ledger_new() -> (r: psp22::PSP22Data)
    ensures
        ledger_supply(r) == 0,
{
    psp22::PSP22Data::default()
}

/// The error that `PSP22Data::mint` gives when the supply would pass
/// `u128::MAX`; a message that must leave nothing changed returns it before
/// it writes anything.
pub(crate) fn supply_overflow() -> (r: PSP22Error)
    ensures
        r is Custom,
{
    PSP22Error::Custom("Max PSP22 supply exceeded. Max supply limited to 2^128-1.".to_owned())
}

/// `PSP22Data::total_supply`.
#[verifier::external_body]
pub(crate) fn ledger_total_supply(data: &psp22::PSP22Data) -> (r: u128)
    ensures
        r == ledger_supply(*data),
{
    data.total_supply()
}

/// `PSP22Data::balance_of`: the stored balance, or 0 for an account with none.
#[verifier::external_body]
pub(crate) fn ledger_balance_of(data: &psp22::PSP22Data, owner: AccountId) -> (r: u128)
    ensures
        r == balance_in(ledger_balances(*data), owner),
{
    data.balance_of(InkAccount::from(owner.0))
}

/// `PSP22Data::mint`: with `value` 0 nothing changes and no event is
/// returned; otherwise the supply grows by `value` (a `Custom` error when it
/// would pass `u128::MAX`, with nothing changed) and the balance of `to` grows by
/// `value`, saturating, with one `Transfer` event returned. What the event
/// holds is not stated here.
#[verifier::external_body]
pub(crate) fn ledger_mint(data: &mut psp22::PSP22Data, to: AccountId, value: u128) -> (r: Result<
    Vec<psp22::PSP22Event>,
    PSP22Error,
>)
    ensures
        value == 0 ==> r.is_ok() && r.unwrap()@.len() == 0 && *final(data) == *old(data),
        value > 0 && ledger_supply(*old(data)) + value > u128::MAX ==> (r matches Err(PSP22Error::Custom(_)))
            && *final(data) == *old(data),
        value > 0 && ledger_supply(*old(data)) + value <= u128::MAX ==> r.is_ok() && r.unwrap()@.len()
            == 1 && ledger_minted(*old(data), *final(data), to, value as nat),
{
    match data.mint(InkAccount::from(to.0), value) {
        Ok(events) => Ok(events),
        Err(e) => Err(match e {
            psp22::PSP22Error::Custom(s) => PSP22Error::Custom(s),
            psp22::PSP22Error::InsufficientBalance => PSP22Error::InsufficientBalance,
            psp22::PSP22Error::InsufficientAllowance => PSP22Error::InsufficientAllowance,
            psp22::PSP22Error::ZeroRecipientAddress => PSP22Error::ZeroRecipientAddress,
            psp22::PSP22Error::ZeroSenderAddress => PSP22Error::ZeroSenderAddress,
            psp22::PSP22Error::SafeTransferCheckFailed(s) => PSP22Error::SafeTransferCheckFailed(s),
        }),
    }
}

/// `PSP22Data::burn`: with `value` 0 nothing changes and no event is
/// returned; a balance below `value` is an `InsufficientBalance` error with nothing
/// changed;
/// otherwise the balance of `from` and the supply (saturating at 0) drop by
/// `value`, an emptied balance leaves the map, and one `Transfer` event is
/// returned. What the event holds is not stated here.
#[verifier::external_body]
pub(crate) fn ledger_burn(data: &mut psp22::PSP22Data, from: AccountId, value: u128) -> (r: Result<
    Vec<psp22::PSP22Event>,
    PSP22Error,
>)
    ensures
        value == 0 ==> r.is_ok() && r.unwrap()@.len() == 0 && *final(data) == *old(data),
        value > 0 && ledger_balance(*old(data), from) < value ==> (r matches Err(PSP22Error::InsufficientBalance))
            && *final(data) == *old(data),
        value > 0 && ledger_balance(*old(data), from) >= value ==> r.is_ok() && r.unwrap()@.len()
            == 1 && ledger_burned(*old(data), *final(data), from, value as nat),
{
    match data.burn(InkAccount::from(from.0), value) {
        Ok(events) => Ok(events),
        Err(e) => Err(match e {
            psp22::PSP22Error::Custom(s) => PSP22Error::Custom(s),
            psp22::PSP22Error::InsufficientBalance => PSP22Error::InsufficientBalance,
            psp22::PSP22Error::InsufficientAllowance => PSP22Error::InsufficientAllowance,
            psp22::PSP22Error::ZeroRecipientAddress => PSP22Error::ZeroRecipientAddress,
            psp22::PSP22Error::ZeroSenderAddress => PSP22Error::ZeroSenderAddress,
            psp22::PSP22Error::SafeTransferCheckFailed(s) => PSP22Error::SafeTransferCheckFailed(s),
        }),
    }
}

/// `PSP22Data::allowance`: the stored allowance, or 0.
#[verifier::external_body]
pub(crate) fn ledger_allowance_of(data: &psp22::PSP22Data, owner: AccountId, spender: AccountId) -> (r:
    u128)
    ensures
        ledger_allowances(*data).contains_key((owner, spender)) ==> r == ledger_allowances(
            *data,
        )[(owner, spender)],
        !ledger_allowances(*data).contains_key((owner, spender)) ==> r == 0,
{
    data.allowance(InkAccount::from(owner.0), InkAccount::from(spender.0))
}

/// What `PSP22Data::transfer` does: nothing, with no event, when `caller`
/// is `to` or `value` is 0; an `InsufficientBalance` error with nothing
/// changed when `caller` holds less than `value`; otherwise `value` moves
/// from `caller` to `to` and one event is returned. Supply and allowances
/// stay.
pub open spec fn transfer_spec(
    old: psp22::PSP22Data,
    new: psp22::PSP22Data,
    r: Result<Vec<psp22::PSP22Event>, PSP22Error>,
    caller: AccountId,
    to: AccountId,
    value: u128,
) -> bool {
    if caller == to || value == 0 {
        r is Ok && r->Ok_0@.len() == 0 && new == old
    } else if ledger_balance(old, caller) < value {
        r == Err::<Vec<psp22::PSP22Event>, PSP22Error>(PSP22Error::InsufficientBalance) && new == old
    } else {
        &&& r is Ok && r->Ok_0@.len() == 1
        &&& ledger_supply(new) == ledger_supply(old)
        &&& ledger_allowances(new) == ledger_allowances(old)
        &&& ledger_moved(ledger_balances(old), ledger_balances(new), caller, to, value as nat)
    }
}

/// What `PSP22Data::transfer_from` does: nothing, with no event, when
/// `from` is `to` or `value` is 0; `transfer` when `caller` is `from`;
/// otherwise an `InsufficientAllowance` error when the allowance of `from`
/// to `caller` is below `value`, then an `InsufficientBalance` error when
/// `from` holds less, with nothing changed; else the allowance drops by
/// `value` (an emptied one leaves the map), `value` moves from `from` to
/// `to`, and two events are returned. The supply stays.
pub open spec fn transfer_from_spec(
    old: psp22::PSP22Data,
    new: psp22::PSP22Data,
    r: Result<Vec<psp22::PSP22Event>, PSP22Error>,
    caller: AccountId,
    from: AccountId,
    to: AccountId,
    value: u128,
) -> bool {
    let allowance = ledger_allowance(old, from, caller);
    if from == to || value == 0 {
        r is Ok && r->Ok_0@.len() == 0 && new == old
    } else if caller == from {
        transfer_spec(old, new, r, caller, to, value)
    } else if allowance < value {
        r == Err::<Vec<psp22::PSP22Event>, PSP22Error>(PSP22Error::InsufficientAllowance) && new == old
    } else if ledger_balance(old, from) < value {
        r == Err::<Vec<psp22::PSP22Event>, PSP22Error>(PSP22Error::InsufficientBalance) && new == old
    } else {
        &&& r is Ok && r->Ok_0@.len() == 2
        &&& ledger_supply(new) == ledger_supply(old)
        &&& ledger_allowances(new) == if allowance == value {
            ledger_allowances(old).remove((from, caller))
        } else {
            ledger_allowances(old).insert((from, caller), (allowance - value) as u128)
        }
        &&& ledger_moved(ledger_balances(old), ledger_balances(new), from, to, value as nat)
    }
}

/// What `PSP22Data::approve` does: nothing, with no event, when `owner` is
/// `spender`; otherwise the allowance becomes `value` (0 leaves the map) and
/// one event is returned. Balances and supply stay.
pub open spec fn approve_spec(
    old: psp22::PSP22Data,
    new: psp22::PSP22Data,
    r: Result<Vec<psp22::PSP22Event>, PSP22Error>,
    owner: AccountId,
    spender: AccountId,
    value: u128,
) -> bool {
    if owner == spender {
        r is Ok && r->Ok_0@.len() == 0 && new == old
    } else {
        &&& r is Ok && r->Ok_0@.len() == 1
        &&& ledger_supply(new) == ledger_supply(old)
        &&& ledger_balances(new) == ledger_balances(old)
        &&& ledger_allowances(new) == if value == 0 {
            ledger_allowances(old).remove((owner, spender))
        } else {
            ledger_allowances(old).insert((owner, spender), value)
        }
    }
}

/// What `PSP22Data::increase_allowance` does: nothing, with no event, when
/// `owner` is `spender` or `delta_value` is 0; otherwise the allowance grows
/// by `delta_value`, saturating at `u128::MAX`, and one event is returned.
/// Balances and supply stay.
pub open spec fn increase_allowance_spec(
    old: psp22::PSP22Data,
    new: psp22::PSP22Data,
    r: Result<Vec<psp22::PSP22Event>, PSP22Error>,
    owner: AccountId,
    spender: AccountId,
    delta_value: u128,
) -> bool {
    let allowance = ledger_allowance(old, owner, spender);
    if owner == spender || delta_value == 0 {
        r is Ok && r->Ok_0@.len() == 0 && new == old
    } else {
        &&& r is Ok && r->Ok_0@.len() == 1
        &&& ledger_supply(new) == ledger_supply(old)
        &&& ledger_balances(new) == ledger_balances(old)
        &&& ledger_allowances(new) == ledger_allowances(old).insert(
            (owner, spender),
            (if allowance + delta_value > u128::MAX {
                u128::MAX as int
            } else {
                allowance + delta_value
            }) as u128,
        )
    }
}

/// What `PSP22Data::decrease_allowance` does: nothing, with no event, when
/// `owner` is `spender` or `delta_value` is 0; an `InsufficientAllowance`
/// error with nothing changed when the allowance is below `delta_value`;
/// otherwise the allowance drops by `delta_value` (an emptied one leaves the
/// map) and one event is returned. Balances and supply stay.
pub open spec fn decrease_allowance_spec(
    old: psp22::PSP22Data,
    new: psp22::PSP22Data,
    r: Result<Vec<psp22::PSP22Event>, PSP22Error>,
    owner: AccountId,
    spender: AccountId,
    delta_value: u128,
) -> bool {
    let allowance = ledger_allowance(old, owner, spender);
    if owner == spender || delta_value == 0 {
        r is Ok && r->Ok_0@.len() == 0 && new == old
    } else if allowance < delta_value {
        r == Err::<Vec<psp22::PSP22Event>, PSP22Error>(PSP22Error::InsufficientAllowance) && new == old
    } else {
        &&& r is Ok && r->Ok_0@.len() == 1
        &&& ledger_supply(new) == ledger_supply(old)
        &&& ledger_balances(new) == ledger_balances(old)
        &&& ledger_allowances(new) == if allowance == delta_value {
            ledger_allowances(old).remove((owner, spender))
        } else {
            ledger_allowances(old).insert((owner, spender), (allowance - delta_value) as u128)
        }
    }
}

/// `PSP22Data::transfer`, as `transfer_spec` says.
#[verifier::external_body]
pub(crate) fn ledger_transfer(data: &mut psp22::PSP22Data, caller: AccountId, to: AccountId, value: u128) -> (r:
    Result<Vec<psp22::PSP22Event>, PSP22Error>)
    ensures
        transfer_spec(*old(data), *final(data), r, caller, to, value),
{
    match data.transfer(InkAccount::from(caller.0), InkAccount::from(to.0), value) {
        Ok(events) => Ok(events),
        Err(psp22::PSP22Error::Custom(s)) => Err(PSP22Error::Custom(s)),
        Err(psp22::PSP22Error::InsufficientBalance) => Err(PSP22Error::InsufficientBalance),
        Err(psp22::PSP22Error::InsufficientAllowance) => Err(PSP22Error::InsufficientAllowance),
        Err(psp22::PSP22Error::ZeroRecipientAddress) => Err(PSP22Error::ZeroRecipientAddress),
        Err(psp22::PSP22Error::ZeroSenderAddress) => Err(PSP22Error::ZeroSenderAddress),
        Err(psp22::PSP22Error::SafeTransferCheckFailed(s)) => Err(PSP22Error::SafeTransferCheckFailed(s)),
    }
}

/// `PSP22Data::transfer_from`, as `transfer_from_spec` says.
#[verifier::external_body]
pub(crate) fn ledger_transfer_from(
    data: &mut psp22::PSP22Data,
    caller: AccountId,
    from: AccountId,
    to: AccountId,
    value: u128,
) -> (r: Result<Vec<psp22::PSP22Event>, PSP22Error>)
    ensures
        transfer_from_spec(*old(data), *final(data), r, caller, from, to, value),
{
    match data.transfer_from(InkAccount::from(caller.0), InkAccount::from(from.0), InkAccount::from(to.0), value) {
        Ok(events) => Ok(events),
        Err(psp22::PSP22Error::Custom(s)) => Err(PSP22Error::Custom(s)),
        Err(psp22::PSP22Error::InsufficientBalance) => Err(PSP22Error::InsufficientBalance),
        Err(psp22::PSP22Error::InsufficientAllowance) => Err(PSP22Error::InsufficientAllowance),
        Err(psp22::PSP22Error::ZeroRecipientAddress) => Err(PSP22Error::ZeroRecipientAddress),
        Err(psp22::PSP22Error::ZeroSenderAddress) => Err(PSP22Error::ZeroSenderAddress),
        Err(psp22::PSP22Error::SafeTransferCheckFailed(s)) => Err(PSP22Error::SafeTransferCheckFailed(s)),
    }
}

/// `PSP22Data::approve`, as `approve_spec` says.
#[verifier::external_body]
pub(crate) fn ledger_approve(data: &mut psp22::PSP22Data, owner: AccountId, spender: AccountId, value: u128) -> (r:
    Result<Vec<psp22::PSP22Event>, PSP22Error>)
    ensures
        approve_spec(*old(data), *final(data), r, owner, spender, value),
{
    match data.approve(InkAccount::from(owner.0), InkAccount::from(spender.0), value) {
        Ok(events) => Ok(events),
        Err(psp22::PSP22Error::Custom(s)) => Err(PSP22Error::Custom(s)),
        Err(psp22::PSP22Error::InsufficientBalance) => Err(PSP22Error::InsufficientBalance),
        Err(psp22::PSP22Error::InsufficientAllowance) => Err(PSP22Error::InsufficientAllowance),
        Err(psp22::PSP22Error::ZeroRecipientAddress) => Err(PSP22Error::ZeroRecipientAddress),
        Err(psp22::PSP22Error::ZeroSenderAddress) => Err(PSP22Error::ZeroSenderAddress),
        Err(psp22::PSP22Error::SafeTransferCheckFailed(s)) => Err(PSP22Error::SafeTransferCheckFailed(s)),
    }
}

/// `PSP22Data::increase_allowance`, as `increase_allowance_spec` says.
#[verifier::external_body]
pub(crate) fn ledger_increase_allowance(
    data: &mut psp22::PSP22Data,
    owner: AccountId,
    spender: AccountId,
    delta_value: u128,
) -> (r: Result<Vec<psp22::PSP22Event>, PSP22Error>)
    ensures
        increase_allowance_spec(*old(data), *final(data), r, owner, spender, delta_value),
{
    match data.increase_allowance(InkAccount::from(owner.0), InkAccount::from(spender.0), delta_value) {
        Ok(events) => Ok(events),
        Err(psp22::PSP22Error::Custom(s)) => Err(PSP22Error::Custom(s)),
        Err(psp22::PSP22Error::InsufficientBalance) => Err(PSP22Error::InsufficientBalance),
        Err(psp22::PSP22Error::InsufficientAllowance) => Err(PSP22Error::InsufficientAllowance),
        Err(psp22::PSP22Error::ZeroRecipientAddress) => Err(PSP22Error::ZeroRecipientAddress),
        Err(psp22::PSP22Error::ZeroSenderAddress) => Err(PSP22Error::ZeroSenderAddress),
        Err(psp22::PSP22Error::SafeTransferCheckFailed(s)) => Err(PSP22Error::SafeTransferCheckFailed(s)),
    }
}

/// `PSP22Data::decrease_allowance`, as `decrease_allowance_spec` says.
#[verifier::external_body]
pub(crate) fn ledger_decrease_allowance(
    data: &mut psp22::PSP22Data,
    owner: AccountId,
    spender: AccountId,
    delta_value: u128,
) -> (r: Result<Vec<psp22::PSP22Event>, PSP22Error>)
    ensures
        decrease_allowance_spec(*old(data), *final(data), r, owner, spender, delta_value),
{
    match data.decrease_allowance(InkAccount::from(owner.0), InkAccount::from(spender.0), delta_value) {
        Ok(events) => Ok(events),
        Err(psp22::PSP22Error::Custom(s)) => Err(PSP22Error::Custom(s)),
        Err(psp22::PSP22Error::InsufficientBalance) => Err(PSP22Error::InsufficientBalance),
        Err(psp22::PSP22Error::InsufficientAllowance) => Err(PSP22Error::InsufficientAllowance),
        Err(psp22::PSP22Error::ZeroRecipientAddress) => Err(PSP22Error::ZeroRecipientAddress),
        Err(psp22::PSP22Error::ZeroSenderAddress) => Err(PSP22Error::ZeroSenderAddress),
        Err(psp22::PSP22Error::SafeTransferCheckFailed(s)) => Err(PSP22Error::SafeTransferCheckFailed(s)),
    }
}

/// The balance that a map of balances gives `who`.
pub open spec fn balance_in(m: Map<AccountId, u128>, who: AccountId) -> nat {
    if m.contains_key(who) {
        m[who] as nat
    } else {
        0
    }
}

/// A transfer moves exactly `value` from `from` to `to` (when the balance of
/// `to` does not saturate) and touches no other balance; sending the same
/// value back restores both balances.
pub proof fn law_transfer_moves_exactly(
    before: Map<AccountId, u128>,
    mid: Map<AccountId, u128>,
    after: Map<AccountId, u128>,
    from: AccountId,
    to: AccountId,
    value: nat,
)
    requires
        from != to,
        balance_in(before, from) >= value,
        balance_in(before, to) + value <= u128::MAX,
        ledger_moved(before, mid, from, to, value),
        ledger_moved(mid, after, to, from, value),
    ensures
        balance_in(mid, from) == balance_in(before, from) - value,
        balance_in(mid, to) == balance_in(before, to) + value,
        forall|other: AccountId|
            other != from && other != to ==> balance_in(mid, other) == balance_in(before, other),
        balance_in(after, from) == balance_in(before, from),
        balance_in(after, to) == balance_in(before, to),
        forall|other: AccountId| balance_in(after, other) == balance_in(before, other),
{
    assert(balance_in(mid, to) == balance_in(before, to) + value);
    assert(balance_in(mid, from) == balance_in(before, from) - value);
    assert forall|other: AccountId| balance_in(after, other) == balance_in(before, other) by {
        if other != from && other != to {
            assert(balance_in(mid, other) == balance_in(before, other));
        }
    }
}

} // verus!
