use common_amm::account::AccountId;
use common_amm::errors::FactoryError;
use common_amm::events::get_pair_created_events;
use common_amm::factory::{FactoryContract, PairCreated};

fn acc(b: u8) -> AccountId {
    AccountId([b; 32])
}

#[test]
fn factory_starts_empty() {
    let factory = FactoryContract::new(acc(1), [7; 32]);
    assert_eq!(factory.fee_to(), None);
    assert_eq!(factory.fee_to_setter(), acc(1));
    assert_eq!(factory.all_pairs_length(), 0);
    assert_eq!(factory.all_pairs(0), None);
    assert_eq!(factory.pair_contract_code_hash(), [7; 32]);
}

#[test]
fn create_pair_records_both_orders() {
    let mut factory = FactoryContract::new(acc(1), [0; 32]);
    assert_eq!(
        factory.create_pair(acc(5), acc(5), Some(acc(90))),
        Err(FactoryError::IdenticalAddresses)
    );
    assert_eq!(
        factory.create_pair(acc(6), acc(5), None),
        Err(FactoryError::PairInstantiationFailed)
    );
    assert_eq!(factory.all_pairs_length(), 0);
    let (pair, event) = factory.create_pair(acc(6), acc(5), Some(acc(90))).unwrap();
    assert_eq!(pair, acc(90));
    assert_eq!(
        event,
        PairCreated { token_0: acc(5), token_1: acc(6), pair: acc(90), pair_len: 1 }
    );
    assert_eq!(factory.get_pair(acc(5), acc(6)), Some(acc(90)));
    assert_eq!(factory.get_pair(acc(6), acc(5)), Some(acc(90)));
    assert_eq!(factory.get_pair(acc(5), acc(7)), None);
    assert_eq!(factory.all_pairs(0), Some(acc(90)));
    assert_eq!(factory.all_pairs_length(), 1);
    assert_eq!(
        factory.create_pair(acc(5), acc(6), Some(acc(91))),
        Err(FactoryError::PairExists)
    );
    let (_, event) = factory.create_pair(acc(7), acc(5), Some(acc(91))).unwrap();
    assert_eq!(event.pair_len, 2);
    assert_eq!(factory.all_pairs(1), Some(acc(91)));
}

#[test]
fn only_fee_setter_sets_fees() {
    let mut factory = FactoryContract::new(acc(1), [0; 32]);
    assert_eq!(factory.set_fee_to(acc(2), acc(3)), Err(FactoryError::CallerIsNotFeeSetter));
    assert_eq!(factory.set_fee_to(acc(1), acc(3)), Ok(()));
    assert_eq!(factory.fee_to(), Some(acc(3)));
    assert_eq!(factory.set_fee_to_setter(acc(2), acc(2)), Err(FactoryError::CallerIsNotFeeSetter));
    assert_eq!(factory.set_fee_to_setter(acc(1), acc(2)), Ok(()));
    assert_eq!(factory.fee_to_setter(), acc(2));
    assert_eq!(factory.set_fee_to(acc(1), acc(4)), Err(FactoryError::CallerIsNotFeeSetter));
}

#[test]
fn pair_created_events_keep_decoded() {
    let event = PairCreated { token_0: acc(5), token_1: acc(6), pair: acc(90), pair_len: 1 };
    let events = vec![Ok(event), Err(parity_scale_codec::Error::from("bad")), Ok(event)];
    assert_eq!(get_pair_created_events(events), vec![event, event]);
}

#[test]
fn pair_salt_hashes_the_ordered_tokens() {
    let factory = FactoryContract::new(acc(1), [0; 32]);
    let mut expected = [0u8; 32];
    let pair = (
        ink::primitives::AccountId::from([5u8; 32]),
        ink::primitives::AccountId::from([6u8; 32]),
    );
    ink::env::hash_encoded::<ink::env::hash::Blake2x256, _>(&pair, &mut expected);
    let salt = factory.pair_salt(acc(5), acc(6));
    assert_eq!(salt, expected);
    assert_ne!(salt, [0u8; 32]);
    assert_ne!(salt, factory.pair_salt(acc(6), acc(5)));
}
