//! The wrapped native token: a PSP22 token minted one for one against the
//! native value deposited, and burned when it is withdrawn.
//!
//! Sending the native value back is done by the contract shell after a
//! successful `withdraw`.
use crate::account::AccountId;
use crate::errors::PSP22Error;
use crate::ledger::{
    ledger_balance, ledger_balance_of, ledger_burn, ledger_burned, ledger_mint, ledger_minted,
    ledger_new, ledger_supply, ledger_total_supply,
};
use vstd::prelude::*;

verus! {

/// An allowance of wrapped tokens was set.
#[derive(Debug, Clone, Copy, PartialEq, Eq)]
pub struct Approval {
    pub owner: AccountId,
    pub spender: AccountId,
    pub amount: u128,
}

/// Wrapped tokens moved; `None` stands for minting or burning.
#[derive(Debug, Clone, Copy, PartialEq, Eq)]
pub struct Transfer {
    pub from: Option<AccountId>,
    pub to: Option<AccountId>,
    pub value: u128,
}

/// A payment of `value` in the native currency to `to`.
#[derive(Debug, Clone, Copy, PartialEq, Eq)]
pub struct NativeTransfer {
    pub to: AccountId,
    pub value: u128,
}

/// The ledger of the wrapped token.
/// The ledger's balances and allowances live in the storage of the running
/// contract, so a process runs one such value per contract.
pub struct WnativeContract {
    pub data: psp22::PSP22Data,
}

impl WnativeContract {
    /// A ledger with no supply.
    pub fn new() -> (r: Self)
        ensures
            ledger_supply(r.data) == 0,
    {
        WnativeContract { data: ledger_new() }
    }

    /// `caller` sent `transferred_value` of the native token: as many wrapped
    /// tokens are minted to it. Fails, changing nothing, when the supply would
    /// pass `u128::MAX`.
    pub fn deposit(&mut self, caller: AccountId, transferred_value: u128) -> (r: Result<
        (),
        PSP22Error,
    >)
        ensures
            transferred_value == 0 ==> r is Ok && final(self).data == old(self).data,
            transferred_value > 0 && ledger_supply(old(self).data) + transferred_value > u128::MAX
                ==> (r matches Err(PSP22Error::Custom(_))) && final(self).data == old(self).data,
            transferred_value > 0 && ledger_supply(old(self).data) + transferred_value
                <= u128::MAX ==> r is Ok && ledger_minted(
                old(self).data,
                final(self).data,
                caller,
                transferred_value as nat,
            ),
    {
        match ledger_mint(&mut self.data, caller, transferred_value) {
            Ok(_) => Ok(()),
            Err(e) => Err(e),
        }
    }

    /// `caller` hands back `value` wrapped tokens, which are burned; the same
    /// native value is then sent to it. Fails, changing nothing, when it
    /// holds fewer.
    pub fn withdraw(&mut self, caller: AccountId, value: u128) -> (r: Result<(), PSP22Error>)
        ensures
            value == 0 ==> r is Ok && final(self).data == old(self).data,
            value > 0 && ledger_balance(old(self).data, caller) < value ==> r == Err::<
                (),
                PSP22Error,
            >(PSP22Error::InsufficientBalance) && final(self).data == old(self).data,
            value > 0 && ledger_balance(old(self).data, caller) >= value ==> r is Ok
                && ledger_burned(old(self).data, final(self).data, caller, value as nat),
    {
        match ledger_burn(&mut self.data, caller, value) {
            Ok(_) => Ok(()),
            Err(e) => Err(e),
        }
    }

    /// The native payment that completes a withdrawal of `value` by
    /// `caller`: the same value, to the caller.
    pub fn withdraw_payout(&self, caller: AccountId, value: u128) -> (r: NativeTransfer)
        ensures
            r == (NativeTransfer { to: caller, value }),
    {
        NativeTransfer { to: caller, value }
    }

    /// What a withdrawal answers once its native payment was attempted
    /// (`sent` says whether it went through): a failed payment fails the
    /// withdrawal with the wrapper's own error, and the chain then undoes
    /// the burn.
    pub fn withdraw_settled(&self, sent: bool) -> (r: Result<(), PSP22Error>)
        ensures
            sent ==> r == Ok::<(), PSP22Error>(()),
            !sent ==> (r matches Err(PSP22Error::Custom(m)) && m@ == "Wrapper AZERO: withdraw failed"@),
    {
        if sent {
            Ok(())
        } else {
            Err(PSP22Error::Custom("Wrapper AZERO: withdraw failed".to_owned()))
        }
    }

    /// The supply of wrapped tokens.
    pub fn total_supply(&self) -> (r: u128)
        ensures
            r == ledger_supply(self.data),
    {
        ledger_total_supply(&self.data)
    }

    /// The wrapped tokens of `owner`.
    pub fn balance_of(&self, owner: AccountId) -> (r: u128)
        ensures
            r == ledger_balance(self.data, owner),
    {
        ledger_balance_of(&self.data, owner)
    }

    /// The name of the wrapped token.
    pub fn token_name(&self) -> (r: Option<String>)
        ensures
            r is Some && r.unwrap()@ == "Wrapped AZERO"@,
    {
        Some("Wrapped AZERO".to_owned())
    }

    /// The symbol of the wrapped token.
    pub fn token_symbol(&self) -> (r: Option<String>)
        ensures
            r is Some && r.unwrap()@ == "WAZERO"@,
    {
        Some("WAZERO".to_owned())
    }

    /// The decimals of the wrapped token.
    pub fn token_decimals(&self) -> (r: u8)
        ensures
            r == 12,
    {
        12
    }
}

/// A deposit followed by a withdrawal of the same value by the same account
/// leaves its balance and the supply as they were (when its balance plus
/// the value fits in `u128`).
pub proof fn law_deposit_then_withdraw(
    before: psp22::PSP22Data,
    mid: psp22::PSP22Data,
    after: psp22::PSP22Data,
    who: AccountId,
    value: nat,
)
    requires
        ledger_minted(before, mid, who, value),
        ledger_burned(mid, after, who, value),
        ledger_balance(before, who) + value <= u128::MAX,
    ensures
        ledger_balance(after, who) == ledger_balance(before, who),
        ledger_supply(after) == ledger_supply(before),
        forall|other: AccountId|
            other != who ==> ledger_balance(after, other) == ledger_balance(before, other),
{
    assert(ledger_balance(mid, who) == ledger_balance(before, who) + value);
}

impl WnativeContract {
    /// The allowance that `owner` gave `spender`.
    pub fn allowance(&self, owner: AccountId, spender: AccountId) -> (r: u128)
        ensures
            r == crate::ledger::ledger_allowance(self.data, owner, spender),
    {
        crate::ledger::ledger_allowance_of(&self.data, owner, spender)
    }

    /// `caller` sends `value` tokens to `to`; returns the ledger's events.
    pub fn transfer(&mut self, caller: AccountId, to: AccountId, value: u128) -> (r: Result<
        Vec<psp22::PSP22Event>,
        PSP22Error,
    >)
        ensures
            crate::ledger::transfer_spec(old(self).data, final(self).data, r, caller, to, value),
    {
        crate::ledger::ledger_transfer(&mut self.data, caller, to, value)
    }

    /// `caller` sends `value` tokens of `from` to `to` under the allowance
    /// `from` gave it; returns the ledger's events.
    pub fn transfer_from(
        &mut self,
        caller: AccountId,
        from: AccountId,
        to: AccountId,
        value: u128,
    ) -> (r: Result<Vec<psp22::PSP22Event>, PSP22Error>)
        ensures
            crate::ledger::transfer_from_spec(
                old(self).data,
                final(self).data,
                r,
                caller,
                from,
                to,
                value,
            ),
    {
        crate::ledger::ledger_transfer_from(&mut self.data, caller, from, to, value)
    }

    /// `caller` lets `spender` send up to `value` of its tokens; returns the
    /// ledger's events.
    pub fn approve(&mut self, caller: AccountId, spender: AccountId, value: u128) -> (r: Result<
        Vec<psp22::PSP22Event>,
        PSP22Error,
    >)
        ensures
            crate::ledger::approve_spec(old(self).data, final(self).data, r, caller, spender, value),
    {
        crate::ledger::ledger_approve(&mut self.data, caller, spender, value)
    }

    /// `caller` raises the allowance of `spender` by `delta_value`; returns
    /// the ledger's events.
    pub fn increase_allowance(&mut self, caller: AccountId, spender: AccountId, delta_value: u128) -> (r:
        Result<Vec<psp22::PSP22Event>, PSP22Error>)
        ensures
            crate::ledger::increase_allowance_spec(
                old(self).data,
                final(self).data,
                r,
                caller,
                spender,
                delta_value,
            ),
    {
        crate::ledger::ledger_increase_allowance(&mut self.data, caller, spender, delta_value)
    }

    /// `caller` lowers the allowance of `spender` by `delta_value`; returns
    /// the ledger's events.
    pub fn decrease_allowance(&mut self, caller: AccountId, spender: AccountId, delta_value: u128) -> (r:
        Result<Vec<psp22::PSP22Event>, PSP22Error>)
        ensures
            crate::ledger::decrease_allowance_spec(
                old(self).data,
                final(self).data,
                r,
                caller,
                spender,
                delta_value,
            ),
    {
        crate::ledger::ledger_decrease_allowance(&mut self.data, caller, spender, delta_value)
    }
}

} // verus!
