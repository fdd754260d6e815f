//! The pair factory: one pair per unordered pair of tokens, the list of all
//! pairs in the order of creation, and the receiver of protocol fees.
//!
//! Instantiating a pair contract is done by the contract shell; its result
//! is handed in here.
use crate::account::{account_lt, AccountId};
use crate::errors::FactoryError;
use ink::primitives::AccountId as InkAccount;
use vstd::prelude::*;

verus! {

/// A pair was created for `token_0 < token_1`; `pair_len` is the number of
/// pairs after it.
#[derive(Debug, Clone, Copy, PartialEq, Eq)]
pub struct PairCreated {
    pub token_0: AccountId,
    pub token_1: AccountId,
    pub pair: AccountId,
    pub pair_len: u64,
}

/// The factory's state: `pairs[i]` is the `i`-th pair created, with its
/// two tokens in order.
#[derive(Debug)]
pub struct FactoryContract {
    pub pairs: Vec<(AccountId, AccountId, AccountId)>,
    pub all_pairs_length: u64,
    pub pair_contract_code_hash: [u8; 32],
    pub fee_to: Option<AccountId>,
    pub fee_to_setter: AccountId,
}

/// The pair of `a` and `b` among `pairs`, looked up in either order.
pub open spec fn pair_of(pairs: Seq<(AccountId, AccountId, AccountId)>, a: AccountId, b: AccountId) -> Option<
    AccountId,
>
    decreases pairs.len(),
{
    if pairs.len() == 0 {
        None
    } else {
        let (t0, t1, p) = pairs.last();
        if (t0 == a && t1 == b) || (t0 == b && t1 == a) {
            Some(p)
        } else {
            pair_of(pairs.drop_last(), a, b)
        }
    }
}

/// The tokens of `a` and `b` in order.
pub open spec fn sorted(a: AccountId, b: AccountId) -> (AccountId, AccountId) {
    if account_lt(a, b) {
        (a, b)
    } else {
        (b, a)
    }
}

/// `create_pair` on plain values, before a pair is instantiated.
pub open spec fn create_pair_check(
    pairs: Seq<(AccountId, AccountId, AccountId)>,
    token_0: AccountId,
    token_1: AccountId,
) -> Result<(AccountId, AccountId), FactoryError> {
    if token_0 == token_1 {
        Err(FactoryError::IdenticalAddresses)
    } else if pair_of(pairs, token_0, token_1) is Some {
        Err(FactoryError::PairExists)
    } else {
        Ok(sorted(token_0, token_1))
    }
}

proof fn lemma_pair_of_symmetric(
    pairs: Seq<(AccountId, AccountId, AccountId)>,
    a: AccountId,
    b: AccountId,
)
    ensures
        pair_of(pairs, a, b) == pair_of(pairs, b, a),
    decreases pairs.len(),
{
    if pairs.len() > 0 {
        lemma_pair_of_symmetric(pairs.drop_last(), a, b);
    }
}

/// The BLAKE2 hash with 256-bit output of `bytes`.
pub uninterp spec fn blake2x256(bytes: Seq<u8>) -> Seq<u8>;

/// `ink::env::hash_encoded::<Blake2x256, _>` of the two addresses as a
/// tuple, whose SCALE encoding is the 32 bytes of the first followed by the
/// 32 bytes of the second: the BLAKE2-256 hash of those 64 bytes.
#[verifier::external_body]
fn hash_token_pair(token_0: AccountId, token_1: AccountId) -> (r: [u8; 32])
    ensures
        r@ == blake2x256(token_0.0@ + token_1.0@),
{
    let mut output = [0u8; 32];
    let pair = (InkAccount::from(token_0.0), InkAccount::from(token_1.0));
    ink::env::hash_encoded::<ink::env::hash::Blake2x256, _>(&pair, &mut output);
    output
}

impl FactoryContract {
    /// The number of pairs is the stored length.
    pub open spec fn wf(&self) -> bool {
        self.all_pairs_length == self.pairs@.len()
    }

    /// A factory with no pairs whose fee setter is `fee_to_setter`.
    pub fn new(fee_to_setter: AccountId, pair_code_hash: [u8; 32]) -> (r: Self)
        ensures
            r.wf(),
            r.pairs@.len() == 0,
            r.pair_contract_code_hash == pair_code_hash,
            r.fee_to is None,
            r.fee_to_setter == fee_to_setter,
    {
        FactoryContract {
            pairs: Vec::new(),
            all_pairs_length: 0,
            pair_contract_code_hash: pair_code_hash,
            fee_to: None,
            fee_to_setter,
        }
    }

    /// The pair created as number `pid`.
    pub fn all_pairs(&self, pid: u64) -> (r: Option<AccountId>)
        requires
            self.wf(),
        ensures
            pid < self.pairs@.len() ==> r == Some(self.pairs@[pid as int].2),
            pid >= self.pairs@.len() ==> r is None,
    {
        let n: usize = self.pairs.len();
        if pid < self.all_pairs_length {
            assert(pid < n);
            let i = pid as usize;
            assert(i == pid);
            Some(self.pairs[i].2)
        } else {
            None
        }
    }

    /// The number of pairs.
    pub fn all_pairs_length(&self) -> (r: u64)
        ensures
            r == self.all_pairs_length,
    {
        self.all_pairs_length
    }

    /// The code hash that pairs are instantiated from.
    pub fn pair_contract_code_hash(&self) -> (r: [u8; 32])
        ensures
            r == self.pair_contract_code_hash,
    {
        self.pair_contract_code_hash
    }

    /// The pair of `token_0` and `token_1`, in either order.
    pub fn get_pair(&self, token_0: AccountId, token_1: AccountId) -> (r: Option<AccountId>)
        ensures
            r == pair_of(self.pairs@, token_0, token_1),
    {
        let mut i: usize = self.pairs.len();
        assert(self.pairs@.take(i as int) =~= self.pairs@);
        while i > 0
            invariant
                i <= self.pairs@.len(),
                pair_of(self.pairs@, token_0, token_1) == pair_of(
                    self.pairs@.take(i as int),
                    token_0,
                    token_1,
                ),
            decreases i,
        {
            let (t0, t1, p) = self.pairs[i - 1];
            assert(self.pairs@.take(i as int).drop_last() =~= self.pairs@.take(i - 1));
            if (t0 == token_0 && t1 == token_1) || (t0 == token_1 && t1 == token_0) {
                return Some(p);
            }
            i = i - 1;
        }
        None
    }

    /// The checks of `create_pair` before a pair is instantiated: two
    /// different tokens without a pair yet. Returns the tokens in order.
    pub fn check_new_pair(&self, token_0: AccountId, token_1: AccountId) -> (r: Result<
        (AccountId, AccountId),
        FactoryError,
    >)
        ensures
            r == create_pair_check(self.pairs@, token_0, token_1),
    {
        if !(token_0 != token_1) {
            return Err(FactoryError::IdenticalAddresses);
        }
        let token_pair = if token_0.lt(&token_1) {
            (token_0, token_1)
        } else {
            (token_1, token_0)
        };
        if !self.get_pair(token_pair.0, token_pair.1).is_none() {
            proof {
                lemma_pair_of_symmetric(self.pairs@, token_0, token_1);
            }
            return Err(FactoryError::PairExists);
        }
        proof {
            lemma_pair_of_symmetric(self.pairs@, token_0, token_1);
        }
        Ok(token_pair)
    }

    /// The salt that the pair of the ordered tokens `(token_0, token_1)` is
    /// instantiated with: the hash of their encoding.
    pub fn pair_salt(&self, token_0: AccountId, token_1: AccountId) -> (r: [u8; 32])
        ensures
            r@ == blake2x256(token_0.0@ + token_1.0@),
    {
        hash_token_pair(token_0, token_1)
    }

    /// Creates the pair of `token_0` and `token_1`; `instantiated` is the
    /// address of the pair contract that was instantiated for the tokens in
    /// order, or `None` when that failed. Returns the pair and the event.
    pub fn create_pair(
        &mut self,
        token_0: AccountId,
        token_1: AccountId,
        instantiated: Option<AccountId>,
    ) -> (r: Result<(AccountId, PairCreated), FactoryError>)
        requires
            old(self).wf(),
            old(self).all_pairs_length < u64::MAX,
        ensures
            final(self).wf(),
            final(self).pair_contract_code_hash == old(self).pair_contract_code_hash,
            final(self).fee_to == old(self).fee_to,
            final(self).fee_to_setter == old(self).fee_to_setter,
            match create_pair_check(old(self).pairs@, token_0, token_1) {
                Err(e) => r == Err::<(AccountId, PairCreated), FactoryError>(e) && final(self).pairs@ == old(self).pairs@,
                Ok((t0, t1)) => match instantiated {
                    None => r == Err::<(AccountId, PairCreated), FactoryError>(
                        FactoryError::PairInstantiationFailed,
                    ) && final(self).pairs@ == old(self).pairs@,
                    Some(p) => r == Ok::<(AccountId, PairCreated), FactoryError>(
                        (
                            p,
                            PairCreated {
                                token_0: t0,
                                token_1: t1,
                                pair: p,
                                pair_len: (old(self).all_pairs_length + 1) as u64,
                            },
                        ),
                    ) && final(self).pairs@ == old(self).pairs@.push((t0, t1, p)),
                },
            },
    {
        let (t0, t1) = match self.check_new_pair(token_0, token_1) {
            Ok(v) => v,
            Err(e) => return Err(e),
        };
        let pair = match instantiated {
            Some(p) => p,
            None => return Err(FactoryError::PairInstantiationFailed),
        };
        self.pairs.push((t0, t1, pair));
        self.all_pairs_length = self.all_pairs_length + 1;
        Ok((pair, PairCreated { token_0: t0, token_1: t1, pair, pair_len: self.all_pairs_length }))
    }

    /// Fails unless `caller` is the fee setter.
    fn only_fee_setter(&self, caller: AccountId) -> (r: Result<(), FactoryError>)
        ensures
            caller == self.fee_to_setter ==> r is Ok,
            caller != self.fee_to_setter ==> r == Err::<(), FactoryError>(
                FactoryError::CallerIsNotFeeSetter,
            ),
    {
        if caller != self.fee_to_setter {
            return Err(FactoryError::CallerIsNotFeeSetter);
        }
        Ok(())
    }

    /// The fee setter `caller` sets the receiver of protocol fees.
    pub fn set_fee_to(&mut self, caller: AccountId, fee_to: AccountId) -> (r: Result<
        (),
        FactoryError,
    >)
        ensures
            final(self).pairs@ == old(self).pairs@,
            final(self).all_pairs_length == old(self).all_pairs_length,
            final(self).pair_contract_code_hash == old(self).pair_contract_code_hash,
            final(self).fee_to_setter == old(self).fee_to_setter,
            caller == old(self).fee_to_setter ==> r is Ok && final(self).fee_to == Some(fee_to),
            caller != old(self).fee_to_setter ==> r == Err::<(), FactoryError>(
                FactoryError::CallerIsNotFeeSetter,
            ) && final(self).fee_to == old(self).fee_to,
    {
        match self.only_fee_setter(caller) {
            Ok(()) => {},
            Err(e) => return Err(e),
        }
        self.fee_to = Some(fee_to);
        Ok(())
    }

    /// The fee setter `caller` hands its role to `fee_to_setter`.
    pub fn set_fee_to_setter(&mut self, caller: AccountId, fee_to_setter: AccountId) -> (r: Result<
        (),
        FactoryError,
    >)
        ensures
            final(self).pairs@ == old(self).pairs@,
            final(self).all_pairs_length == old(self).all_pairs_length,
            final(self).pair_contract_code_hash == old(self).pair_contract_code_hash,
            final(self).fee_to == old(self).fee_to,
            caller == old(self).fee_to_setter ==> r is Ok && final(self).fee_to_setter
                == fee_to_setter,
            caller != old(self).fee_to_setter ==> r == Err::<(), FactoryError>(
                FactoryError::CallerIsNotFeeSetter,
            ) && final(self).fee_to_setter == old(self).fee_to_setter,
    {
        match self.only_fee_setter(caller) {
            Ok(()) => {},
            Err(e) => return Err(e),
        }
        self.fee_to_setter = fee_to_setter;
        Ok(())
    }

    /// The receiver of protocol fees, if any.
    pub fn fee_to(&self) -> (r: Option<AccountId>)
        ensures
            r == self.fee_to,
    {
        self.fee_to
    }

    /// The fee setter.
    pub fn fee_to_setter(&self) -> (r: AccountId)
        ensures
            r == self.fee_to_setter,
    {
        self.fee_to_setter
    }
}

/// The factory answers the same pair for two tokens in either order.
pub proof fn law_get_pair_symmetric(
    pairs: Seq<(AccountId, AccountId, AccountId)>,
    a: AccountId,
    b: AccountId,
)
    ensures
        pair_of(pairs, a, b) == pair_of(pairs, b, a),
{
    lemma_pair_of_symmetric(pairs, a, b);
}

/// After the pair of two tokens is created, the factory finds it in either
/// order, lists it last, and refuses to create it again.
pub proof fn law_created_pair_is_found(
    pairs: Seq<(AccountId, AccountId, AccountId)>,
    token_0: AccountId,
    token_1: AccountId,
    p: AccountId,
)
    requires
        create_pair_check(pairs, token_0, token_1) is Ok,
    ensures
        ({
            let (t0, t1) = create_pair_check(pairs, token_0, token_1).unwrap();
            let after = pairs.push((t0, t1, p));
            &&& pair_of(after, token_0, token_1) == Some(p)
            &&& pair_of(after, token_1, token_0) == Some(p)
            &&& after.last().2 == p
            &&& create_pair_check(after, token_0, token_1) == Err::<
                (AccountId, AccountId),
                FactoryError,
            >(FactoryError::PairExists)
            &&& create_pair_check(after, token_1, token_0) == Err::<
                (AccountId, AccountId),
                FactoryError,
            >(FactoryError::PairExists)
        }),
{
    let (t0, t1) = create_pair_check(pairs, token_0, token_1).unwrap();
    let after = pairs.push((t0, t1, p));
    assert(after.drop_last() =~= pairs);
}

} // verus!
