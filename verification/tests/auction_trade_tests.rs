//! Auctions and trades: exclusivity, settlement, atomic multi-asset
//! acceptance.

use monopoly_core::entities::{AuctionStatus, Property, TradeStatus};
use monopoly_core::session::GameSession;
use monopoly_core::types::Error;

const NOW: i64 = 1_700_000_000;

fn street(id: u64, name: &str, group: &str, price: i64) -> Property {
    Property {
        id,
        name: name.to_string(),
        group_color: group.to_string(),
        price,
        mortgage_value: price / 2,
        unmortgage_cost: price / 2 + price / 10,
        house_cost: Some(50),
        hotel_cost: Some(250),
    }
}

fn two_player_game() -> GameSession {
    let props = vec![street(101, "Q", "brown", 60), street(102, "R", "brown", 60)];
    let mut game = GameSession::create_game(1, 10, Vec::new(), props, NOW);
    game.join_game(20, NOW).unwrap();
    game
}

#[test]
fn test_auction_settlement() {
    // Auction on P starts at the floor of 10; X bids 50; ending it
    // debits X by 50, assigns P to X, and finishes the auction.
    let mut game = two_player_game();
    let x = game.participants[1].id;
    let auction = game.start_auction(101, NOW).unwrap();
    assert_eq!(auction.current_bid, 10);
    assert_eq!(auction.highest_bidder_id, None);
    assert_eq!(auction.status, AuctionStatus::Active);

    let low = game.place_bid(auction.id, 20, 10);
    assert_eq!(low.unwrap_err().message(), "Bid must be higher than current");

    let rich = game.place_bid(auction.id, 20, 5000);
    assert_eq!(rich.unwrap_err().message(), "Insufficient funds for this bid");

    let bid = game.place_bid(auction.id, 20, 50).unwrap();
    assert_eq!(bid.current_bid, 50);
    assert_eq!(bid.highest_bidder_id, Some(x));

    let ended = game.end_auction(auction.id, NOW).unwrap();
    assert_eq!(ended.status, AuctionStatus::Finished);
    assert_eq!(game.participants[1].balance, 1450);
    let owner = game.participant_properties.iter().find(|o| o.property_id == 101).unwrap();
    assert_eq!(owner.participant_id, x);

    let twice = game.end_auction(auction.id, NOW);
    assert_eq!(twice.unwrap_err(), Error::AuctionNotActive);
}

#[test]
fn test_second_auction_fails_while_active() {
    let mut game = two_player_game();
    game.start_auction(101, NOW).unwrap();
    let second = game.start_auction(102, NOW);
    assert_eq!(second.unwrap_err().message(), "There is already an active auction");
}

#[test]
fn test_auction_without_bids_leaves_property_unowned() {
    let mut game = two_player_game();
    let auction = game.start_auction(101, NOW).unwrap();
    let ended = game.end_auction(auction.id, NOW).unwrap();
    assert_eq!(ended.status, AuctionStatus::Finished);
    assert_eq!(ended.ends_at, Some(NOW));
    assert!(game.participant_properties.is_empty());
    assert_eq!(game.participants[0].balance, 1500);
    assert_eq!(game.participants[1].balance, 1500);
}

#[test]
fn test_trade_acceptance_settles_all_legs() {
    // Offering 100 cash and property Q for 50 cash and property R: on
    // acceptance the initiator nets -50, the target +50, Q and R swap
    // owners, and the trade is ACCEPTED.
    let mut game = two_player_game();
    let a = game.participants[0].id;
    let b = game.participants[1].id;
    game.buy_property(10, 101, NOW).unwrap(); // A owns Q
    game.buy_property(20, 102, NOW).unwrap(); // B owns R
    let a_before = game.participants[0].balance;
    let b_before = game.participants[1].balance;

    let trade = game
        .create_trade(a, b, 100, 50, vec![101], vec![102])
        .unwrap();
    assert_eq!(trade.status, TradeStatus::Pending);

    let not_target = game.accept_trade(trade.id, 10, NOW);
    assert_eq!(not_target.unwrap_err().message(), "You are not the target of this trade");

    let accepted = game.accept_trade(trade.id, 20, NOW).unwrap();
    assert_eq!(accepted.status, TradeStatus::Accepted);
    assert_eq!(game.participants[0].balance, a_before - 50);
    assert_eq!(game.participants[1].balance, b_before + 50);
    let q = game.participant_properties.iter().find(|o| o.property_id == 101).unwrap();
    let r = game.participant_properties.iter().find(|o| o.property_id == 102).unwrap();
    assert_eq!(q.participant_id, b);
    assert_eq!(r.participant_id, a);

    let twice = game.accept_trade(trade.id, 20, NOW);
    assert_eq!(twice.unwrap_err().message(), "Trade is not pending");
}

#[test]
fn test_trade_rejection_has_no_side_effects() {
    let mut game = two_player_game();
    let a = game.participants[0].id;
    let b = game.participants[1].id;
    let trade = game.create_trade(a, b, 100, 0, Vec::new(), Vec::new()).unwrap();

    let rejected = game.reject_trade(trade.id, 10).unwrap();
    assert_eq!(rejected.status, TradeStatus::Rejected);
    assert_eq!(game.participants[0].balance, 1500);
    assert_eq!(game.participants[1].balance, 1500);

    let accept_after = game.accept_trade(trade.id, 20, NOW);
    assert_eq!(accept_after.unwrap_err(), Error::TradeNotPending);
}
