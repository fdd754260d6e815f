use common_amm::account::AccountId;
use common_amm::events::{get_burn_events, get_events, get_mint_events, get_swap_events, Event};

fn acc(b: u8) -> AccountId {
    AccountId([b; 32])
}

fn bad() -> parity_scale_codec::Error {
    parity_scale_codec::Error::from("could not decode")
}

fn sample() -> Vec<Result<Event, parity_scale_codec::Error>> {
    vec![
        Ok(Event::Mint { sender: acc(1), amount_0: 10, amount_1: 20 }),
        Err(bad()),
        Ok(Event::Sync { reserve_0: 10, reserve_1: 20 }),
        Ok(Event::Swap {
            sender: acc(2),
            amount_0_in: 5,
            amount_1_in: 0,
            amount_0_out: 0,
            amount_1_out: 9,
            to: acc(3),
        }),
        Ok(Event::Burn { sender: acc(1), amount_0: 1, amount_1: 2, to: acc(4) }),
        Ok(Event::Mint { sender: acc(5), amount_0: 7, amount_1: 8 }),
    ]
}

#[test]
fn events_keep_decoded_in_order() {
    let all = get_events(sample());
    assert_eq!(all.len(), 5);
    assert_eq!(all[1], Event::Sync { reserve_0: 10, reserve_1: 20 });
    let nums: Vec<u8> = get_events(vec![Ok(1u8), Err(bad()), Ok(3u8)]);
    assert_eq!(nums, vec![1, 3]);
}

#[test]
fn events_of_one_kind() {
    assert_eq!(
        get_mint_events(sample()),
        vec![
            Event::Mint { sender: acc(1), amount_0: 10, amount_1: 20 },
            Event::Mint { sender: acc(5), amount_0: 7, amount_1: 8 },
        ]
    );
    assert_eq!(get_swap_events(sample()).len(), 1);
    assert_eq!(
        get_burn_events(sample()),
        vec![Event::Burn { sender: acc(1), amount_0: 1, amount_1: 2, to: acc(4) }]
    );
    assert!(get_mint_events(vec![Err(bad())]).is_empty());
}
