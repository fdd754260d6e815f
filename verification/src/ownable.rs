//! Two-step transfer of ownership: the owner names a pending owner, who
//! then accepts; or the owner hands the contract to itself (renounces).
use crate::account::AccountId;
use crate::errors::Ownable2StepError;
use vstd::prelude::*;

verus! {

/// The owner and the account that may accept ownership next, if any.
#[derive(Clone, Copy, Debug, PartialEq, Eq)]
pub struct Ownable2StepData {
    pub owner: AccountId,
    pub pending_owner: Option<AccountId>,
}

/// `transfer_ownership` on plain values: the result and the new state.
pub open spec fn transfer_ownership_spec(s: Ownable2StepData, caller: AccountId, new_owner: AccountId) -> (
    Result<(), Ownable2StepError>,
    Ownable2StepData,
) {
    if caller != s.owner {
        (Err(Ownable2StepError::CallerNotOwner(caller)), s)
    } else {
        (Ok(()), Ownable2StepData { owner: s.owner, pending_owner: Some(new_owner) })
    }
}

/// `accept_ownership` on plain values: the result and the new state.
pub open spec fn accept_ownership_spec(s: Ownable2StepData, caller: AccountId) -> (
    Result<(), Ownable2StepError>,
    Ownable2StepData,
) {
    match s.pending_owner {
        None => (Err(Ownable2StepError::NoPendingOwner), s),
        Some(p) => if p != caller {
            (Err(Ownable2StepError::CallerNotPendingOwner(caller)), s)
        } else {
            (Ok(()), Ownable2StepData { owner: caller, pending_owner: None })
        },
    }
}

/// `renounce_ownership` on plain values: the result and the new state.
pub open spec fn renounce_ownership_spec(
    s: Ownable2StepData,
    caller: AccountId,
    contract_address: AccountId,
) -> (Result<(), Ownable2StepError>, Ownable2StepData) {
    if caller != s.owner {
        (Err(Ownable2StepError::CallerNotOwner(caller)), s)
    } else {
        match s.pending_owner {
            None => (Err(Ownable2StepError::NoPendingOwner), s),
            Some(p) => if p != contract_address {
                (Err(Ownable2StepError::ContractNotPendingOwner(p)), s)
            } else {
                (Ok(()), Ownable2StepData { owner: contract_address, pending_owner: None })
            },
        }
    }
}

impl Ownable2StepData {
    /// `owner` owns; nobody is pending.
    pub fn new(owner: AccountId) -> (r: Self)
        ensures
            r.owner == owner,
            r.pending_owner is None,
    {
        Ownable2StepData { owner, pending_owner: None }
    }

    /// The owner `caller` names `new_owner` as pending owner, replacing any
    /// earlier one.
    pub fn transfer_ownership(&mut self, caller: AccountId, new_owner: AccountId) -> (r: Result<
        (),
        Ownable2StepError,
    >)
        ensures
            (r, *final(self)) == transfer_ownership_spec(*old(self), caller, new_owner),
    {
        match self.ensure_owner(caller) {
            Ok(()) => {},
            Err(e) => return Err(e),
        }
        self.pending_owner = Some(new_owner);
        Ok(())
    }

    /// The pending owner `caller` becomes the owner.
    pub fn accept_ownership(&mut self, caller: AccountId) -> (r: Result<(), Ownable2StepError>)
        ensures
            (r, *final(self)) == accept_ownership_spec(*old(self), caller),
    {
        let pending_owner = match self.get_pending_owner() {
            Ok(p) => p,
            Err(e) => return Err(e),
        };
        if caller != pending_owner {
            return Err(Ownable2StepError::CallerNotPendingOwner(caller));
        }
        self.owner = pending_owner;
        self.pending_owner = None;
        Ok(())
    }

    /// The owner `caller` gives the contract to itself, once it has named
    /// `contract_address` as pending owner.
    pub fn renounce_ownership(&mut self, caller: AccountId, contract_address: AccountId) -> (r:
        Result<(), Ownable2StepError>)
        ensures
            (r, *final(self)) == renounce_ownership_spec(*old(self), caller, contract_address),
    {
        match self.ensure_owner(caller) {
            Ok(()) => {},
            Err(e) => return Err(e),
        }
        let pending_owner = match self.get_pending_owner() {
            Ok(p) => p,
            Err(e) => return Err(e),
        };
        if pending_owner != contract_address {
            return Err(Ownable2StepError::ContractNotPendingOwner(pending_owner));
        }
        self.owner = contract_address;
        self.pending_owner = None;
        Ok(())
    }

    /// The owner.
    pub fn get_owner(&self) -> (r: Result<AccountId, Ownable2StepError>)
        ensures
            r == Ok::<AccountId, Ownable2StepError>(self.owner),
    {
        Ok(self.owner)
    }

    /// The pending owner, or `NoPendingOwner`.
    pub fn get_pending_owner(&self) -> (r: Result<AccountId, Ownable2StepError>)
        ensures
            self.pending_owner is Some ==> r == Ok::<AccountId, Ownable2StepError>(
                self.pending_owner.unwrap(),
            ),
            self.pending_owner is None ==> r == Err::<AccountId, Ownable2StepError>(
                Ownable2StepError::NoPendingOwner,
            ),
    {
        match self.pending_owner {
            Some(p) => Ok(p),
            None => Err(Ownable2StepError::NoPendingOwner),
        }
    }

    /// Fails with `CallerNotOwner` unless `caller` is the owner.
    pub fn ensure_owner(&self, caller: AccountId) -> (r: Result<(), Ownable2StepError>)
        ensures
            caller == self.owner ==> r is Ok,
            caller != self.owner ==> r == Err::<(), Ownable2StepError>(
                Ownable2StepError::CallerNotOwner(caller),
            ),
    {
        if caller != self.owner {
            Err(Ownable2StepError::CallerNotOwner(caller))
        } else {
            Ok(())
        }
    }
}

/// A transfer started by the owner and accepted by the named account makes
/// that account the owner, with nobody pending.
pub proof fn law_transfer_then_accept(s: Ownable2StepData, new_owner: AccountId)
    ensures
        ({
            let (r1, mid) = transfer_ownership_spec(s, s.owner, new_owner);
            let (r2, end) = accept_ownership_spec(mid, new_owner);
            &&& r1 is Ok && r2 is Ok
            &&& end.owner == new_owner
            &&& end.pending_owner is None
        }),
{
}

/// An account that is neither the owner nor the pending owner changes
/// nothing: each of the three steps fails for it and leaves the state as
/// it was.
pub proof fn law_strangers_change_nothing(
    s: Ownable2StepData,
    caller: AccountId,
    new_owner: AccountId,
    contract_address: AccountId,
)
    requires
        caller != s.owner,
        s.pending_owner != Some(caller),
    ensures
        transfer_ownership_spec(s, caller, new_owner).0 is Err,
        transfer_ownership_spec(s, caller, new_owner).1 == s,
        accept_ownership_spec(s, caller).0 is Err,
        accept_ownership_spec(s, caller).1 == s,
        renounce_ownership_spec(s, caller, contract_address).0 is Err,
        renounce_ownership_spec(s, caller, contract_address).1 == s,
{
}

/// Once renounced, the contract itself is the owner and nobody is pending,
/// so no other account can start a transfer or accept one.
pub proof fn law_renounced_is_final(
    s: Ownable2StepData,
    contract_address: AccountId,
    caller: AccountId,
    new_owner: AccountId,
)
    requires
        renounce_ownership_spec(s, s.owner, contract_address).0 is Ok,
        caller != contract_address,
    ensures
        ({
            let end = renounce_ownership_spec(s, s.owner, contract_address).1;
            &&& end.owner == contract_address
            &&& transfer_ownership_spec(end, caller, new_owner).0 is Err
            &&& accept_ownership_spec(end, caller).0 is Err
        }),
{
}

} // verus!
