//! Decoded contract events, as an off-chain client reads them, and the
//! filters that pick events of one kind.
use crate::account::AccountId;
use vstd::prelude::*;

verus! {

#[verifier::external_type_specification]
#[verifier::external_body]
pub struct ExCodecError(parity_scale_codec::Error);

/// An event of the pair contract.
#[allow(inconsistent_fields)]
#[derive(Clone, Copy, Debug, PartialEq, Eq)]
pub enum Event {
    Mint { sender: AccountId, amount_0: u128, amount_1: u128 },
    Burn { sender: AccountId, amount_0: u128, amount_1: u128, to: AccountId },
    Swap {
        sender: AccountId,
        amount_0_in: u128,
        amount_1_in: u128,
        amount_0_out: u128,
        amount_1_out: u128,
        to: AccountId,
    },
    Sync { reserve_0: u128, reserve_1: u128 },
    Transfer { from: Option<AccountId>, to: Option<AccountId>, value: u128 },
    Approval { owner: AccountId, spender: AccountId, value: u128 },
}

/// The events that decoded, in order.
pub open spec fn decoded<T, E>(s: Seq<Result<T, E>>) -> Seq<T>
    decreases s.len(),
{
    if s.len() == 0 {
        Seq::empty()
    } else {
        let rest = decoded(s.drop_last());
        match s.last() {
            Ok(t) => rest.push(t),
            Err(_) => rest,
        }
    }
}

/// The events that decoded and satisfy `keep`, in order.
pub open spec fn decoded_where(s: Seq<Result<Event, parity_scale_codec::Error>>, keep: spec_fn(Event) -> bool) -> Seq<
    Event,
>
    decreases s.len(),
{
    if s.len() == 0 {
        Seq::empty()
    } else {
        let rest = decoded_where(s.drop_last(), keep);
        match s.last() {
            Ok(t) => if keep(t) {
                rest.push(t)
            } else {
                rest
            },
            Err(_) => rest,
        }
    }
}

/// The events that decoded; those that failed to decode are dropped.
pub fn get_events<T: Copy>(contract_events: Vec<Result<T, parity_scale_codec::Error>>) -> (r: Vec<T>)
    ensures
        r@ == decoded(contract_events@),
{
    let mut out: Vec<T> = Vec::new();
    let mut i: usize = 0;
    while i < contract_events.len()
        invariant
            i <= contract_events@.len(),
            out@ == decoded(contract_events@.take(i as int)),
        decreases contract_events@.len() - i,
    {
        assert(contract_events@.take(i + 1).drop_last() =~= contract_events@.take(i as int));
        match &contract_events[i] {
            Ok(e) => out.push(*e),
            Err(_) => {},
        }
        i = i + 1;
    }
    assert(contract_events@.take(contract_events@.len() as int) =~= contract_events@);
    out
}

/// The decoded events that satisfy `keep`.
fn filter_events(
    contract_events: Vec<Result<Event, parity_scale_codec::Error>>,
    kind: u8,
    keep: Ghost<spec_fn(Event) -> bool>,
) -> (r: Vec<Event>)
    requires
        forall|e: Event| #[trigger] keep@(e) == event_kind_is(e, kind),
    ensures
        r@ == decoded_where(contract_events@, keep@),
{
    let mut out: Vec<Event> = Vec::new();
    let mut i: usize = 0;
    while i < contract_events.len()
        invariant
            i <= contract_events@.len(),
            forall|e: Event| #[trigger] keep@(e) == event_kind_is(e, kind),
            out@ == decoded_where(contract_events@.take(i as int), keep@),
        decreases contract_events@.len() - i,
    {
        assert(contract_events@.take(i + 1).drop_last() =~= contract_events@.take(i as int));
        match &contract_events[i] {
            Ok(e) => {
                if event_kind(e) == kind {
                    out.push(*e);
                }
            },
            Err(_) => {},
        }
        i = i + 1;
    }
    assert(contract_events@.take(contract_events@.len() as int) =~= contract_events@);
    out
}

/// 0 for `Mint`, 1 for `Burn`, 2 for `Swap`, 3 otherwise.
pub open spec fn event_kind_is(e: Event, kind: u8) -> bool {
    match e {
        Event::Mint { .. } => kind == 0,
        Event::Burn { .. } => kind == 1,
        Event::Swap { .. } => kind == 2,
        _ => kind == 3,
    }
}

fn event_kind(e: &Event) -> (r: u8)
    ensures
        event_kind_is(*e, r),
{
    match e {
        Event::Mint { .. } => 0,
        Event::Burn { .. } => 1,
        Event::Swap { .. } => 2,
        _ => 3,
    }
}

/// The decoded `Mint` events.
pub fn get_mint_events(contract_events: Vec<Result<Event, parity_scale_codec::Error>>) -> (r: Vec<
    Event,
>)
    ensures
        r@ == decoded_where(contract_events@, |e: Event| e is Mint),
{
    filter_events(contract_events, 0, Ghost(|e: Event| e is Mint))
}

/// The decoded `Swap` events.
pub fn get_swap_events(contract_events: Vec<Result<Event, parity_scale_codec::Error>>) -> (r: Vec<
    Event,
>)
    ensures
        r@ == decoded_where(contract_events@, |e: Event| e is Swap),
{
    filter_events(contract_events, 2, Ghost(|e: Event| e is Swap))
}

/// The decoded `Burn` events.
pub fn get_burn_events(contract_events: Vec<Result<Event, parity_scale_codec::Error>>) -> (r: Vec<
    Event,
>)
    ensures
        r@ == decoded_where(contract_events@, |e: Event| e is Burn),
{
    filter_events(contract_events, 1, Ghost(|e: Event| e is Burn))
}

/// The decoded `PairCreated` events of the factory.
pub fn get_pair_created_events(
    contract_events: Vec<Result<crate::factory::PairCreated, parity_scale_codec::Error>>,
) -> (r: Vec<crate::factory::PairCreated>)
    ensures
        r@ == decoded(contract_events@),
{
    get_events(contract_events)
}

} // verus!
