//! Property purchase, the mortgage state machine, and building
//! progression.

use monopoly_core::entities::Property;
use monopoly_core::session::GameSession;
use monopoly_core::types::Error;

const NOW: i64 = 1_700_000_000;

fn street(id: u64, name: &str, group: &str, price: i64) -> Property {
    Property {
        id,
        name: name.to_string(),
        group_color: group.to_string(),
        price,
        mortgage_value: price / 2,
        unmortgage_cost: price / 2 + price / 10,
        house_cost: Some(50),
        hotel_cost: Some(250),
    }
}

fn brown_pair_game() -> GameSession {
    let props = vec![street(101, "Mediterraneo", "brown", 60), street(102, "Baltica", "brown", 60)];
    let mut game = GameSession::create_game(1, 10, Vec::new(), props, NOW);
    game.join_game(20, NOW).unwrap();
    game
}

#[test]
fn test_buy_property() {
    let mut game = brown_pair_game();
    let a = game.participants[0].id;
    let jackpot_before = game.jackpot_balance;
    let pp = game.buy_property(10, 101, NOW).unwrap();
    assert_eq!(pp.participant_id, a);
    assert_eq!(pp.property_id, 101);
    assert!(!pp.is_mortgaged);
    assert_eq!((pp.house_count, pp.hotel_count), (0, 0));
    assert_eq!(game.participants[0].balance, 1440);
    assert_eq!(game.jackpot_balance, jackpot_before + 60);

    let again = game.buy_property(20, 101, NOW);
    assert_eq!(again.unwrap_err().message(), "Property is already owned");
}

#[test]
fn test_mortgage_cycle() {
    let mut game = brown_pair_game();
    game.buy_property(10, 101, NOW).unwrap();
    let after_buy = game.participants[0].balance;

    let pp = game.mortgage_property(10, 101, NOW).unwrap();
    assert!(pp.is_mortgaged);
    assert_eq!(game.participants[0].balance, after_buy + 30);

    let twice = game.mortgage_property(10, 101, NOW);
    assert_eq!(twice.unwrap_err(), Error::AlreadyMortgaged);

    let pp = game.unmortgage_property(10, 101, NOW).unwrap();
    assert!(!pp.is_mortgaged);
    assert_eq!(game.participants[0].balance, after_buy + 30 - 36);

    let not_mortgaged = game.unmortgage_property(10, 101, NOW);
    assert_eq!(not_mortgaged.unwrap_err(), Error::NotMortgaged);
}

#[test]
fn test_building_progression() {
    let mut game = brown_pair_game();
    game.buy_property(10, 101, NOW).unwrap();

    // The whole colour group must be owned before the first house.
    let incomplete = game.buy_building(10, 101, NOW);
    assert_eq!(
        incomplete.unwrap_err().message(),
        "You must own all properties of this color group to build!"
    );

    game.buy_property(10, 102, NOW).unwrap();

    // Nothing in the group may be mortgaged.
    game.mortgage_property(10, 102, NOW).unwrap();
    let mortgaged = game.buy_building(10, 101, NOW);
    assert_eq!(mortgaged.unwrap_err(), Error::GroupMortgaged);
    game.unmortgage_property(10, 102, NOW).unwrap();

    // Four houses, then the hotel upgrade; never both at once.
    for expected_houses in 1..=4 {
        let pp = game.buy_building(10, 101, NOW).unwrap();
        assert_eq!(pp.house_count, expected_houses);
        assert_eq!(pp.hotel_count, 0);
    }
    let hotel = game.buy_building(10, 101, NOW).unwrap();
    assert_eq!(hotel.house_count, 0);
    assert_eq!(hotel.hotel_count, 1);

    // The hotel caps construction.
    let capped = game.buy_building(10, 101, NOW);
    assert_eq!(capped.unwrap_err().message(), "Maximum buildings reached (Hotel)");

    // A mortgage is refused while buildings stand.
    let blocked = game.mortgage_property(10, 101, NOW);
    assert_eq!(blocked.unwrap_err().message(), "Must sell buildings first");
}

#[test]
fn test_sell_building_refunds_half() {
    let mut game = brown_pair_game();
    game.buy_property(10, 101, NOW).unwrap();
    game.buy_property(10, 102, NOW).unwrap();
    for _ in 0..5 {
        game.buy_building(10, 101, NOW).unwrap();
    }
    let before = game.participants[0].balance;

    // Selling the hotel demotes it to four houses for half its cost.
    let pp = game.sell_building(10, 101, NOW).unwrap();
    assert_eq!((pp.house_count, pp.hotel_count), (4, 0));
    assert_eq!(game.participants[0].balance, before + 125);

    // Selling a house refunds half the house cost.
    let pp = game.sell_building(10, 101, NOW).unwrap();
    assert_eq!(pp.house_count, 3);
    assert_eq!(game.participants[0].balance, before + 125 + 25);

    for _ in 0..3 {
        game.sell_building(10, 101, NOW).unwrap();
    }
    let empty = game.sell_building(10, 101, NOW);
    assert_eq!(empty.unwrap_err().message(), "No buildings to sell");
}
