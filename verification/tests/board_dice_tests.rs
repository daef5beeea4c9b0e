//! The static board, dice movement, events and request payloads.

use monopoly_core::board::{get_space, SpaceType};
use monopoly_core::entities::CardType;
use monopoly_core::events::GameEvent;
use monopoly_core::requests::{BuyMarketCardRequest, DrawCardRequest, JoinGameByCodeRequest};
use monopoly_core::session::GameSession;
use monopoly_core::types::Error;

const NOW: i64 = 1_700_000_000;

#[test]
fn test_get_space_names_and_wrap() {
    assert_eq!(get_space(0).name, "Salida");
    assert_eq!(get_space(0).type_, SpaceType::Corner);
    assert_eq!(get_space(39).name, "El Muelle");
    assert_eq!(get_space(39).price, Some(400));
    assert_eq!(get_space(5).type_, SpaceType::Railroad);
    assert_eq!(get_space(12).type_, SpaceType::Utility);
    assert_eq!(get_space(21).color_group, Some("red"));
    // Wrap-around, in both directions.
    assert_eq!(get_space(41).index, 1);
    assert_eq!(get_space(-1).index, 39);
    assert_eq!(get_space(80).name, "Salida");
}

#[test]
fn test_roll_dice_moves_and_records() {
    let mut game = GameSession::create_game(1, 10, Vec::new(), Vec::new(), NOW);
    let roll = game.roll_dice(10, 6, 2, false, NOW).unwrap();
    assert_eq!(roll.results.len(), 2);
    assert!(roll.results.iter().all(|v| (1..=6).contains(v)));
    assert_eq!(roll.total, roll.results.iter().sum::<i32>());
    assert_eq!(game.participants[0].position, roll.total);
}

#[test]
fn test_roll_dice_pays_salary_past_start() {
    let mut game = GameSession::create_game(1, 10, Vec::new(), Vec::new(), NOW);
    game.update_participant_position(10, 39).unwrap();
    let balance_before = game.participants[0].balance;
    let roll = game.roll_dice(10, 6, 1, true, NOW).unwrap();
    // From 39 any roll passes the start corner.
    assert_eq!(game.participants[0].balance, balance_before + 200);
    let landed = game.participants[0].position;
    let expected = (39 + roll.total) % 40;
    let expected = if expected == 30 { 10 } else { expected };
    assert_eq!(landed, expected);
    assert_eq!(
        game.transactions.last().unwrap().description.as_deref(),
        Some("Salary (Passed Go)")
    );
}

#[test]
fn test_roll_dice_without_seat_records_only() {
    let mut game = GameSession::create_game(1, 10, Vec::new(), Vec::new(), NOW);
    let roll = game.roll_dice(99, 6, 2, true, NOW).unwrap();
    assert_eq!(roll.user_id, 99);
    assert_eq!(game.participants[0].position, 0);
}

#[test]
fn test_event_game_id() {
    let ev = GameEvent::MarketUpdated { game_id: 7 };
    assert_eq!(ev.game_id(), 7);
    let ev = GameEvent::TurnUpdated { game_id: 9, current_turn_user_id: 3 };
    assert_eq!(ev.game_id(), 9);
    let ev = GameEvent::GameUpdated { id: 4, status: "FINISHED".to_string() };
    assert_eq!(ev.game_id(), 4);
}

#[test]
fn test_draw_request_names_deck() {
    let req = DrawCardRequest { card_type: "arca".to_string() };
    assert_eq!(req.deck(), Some(CardType::Arca));
    let req = DrawCardRequest { card_type: "fortuna".to_string() };
    assert_eq!(req.deck(), Some(CardType::Fortuna));
    let req = DrawCardRequest { card_type: "tarot".to_string() };
    assert_eq!(req.deck(), None);
}

#[test]
fn test_request_payloads_carry_fields() {
    let buy = BuyMarketCardRequest { slot_index: 2 };
    assert_eq!(buy.slot_index, 2);
    let join = JoinGameByCodeRequest { code: "ABCD".to_string() };
    let mut game = GameSession::create_game(1, 10, Vec::new(), Vec::new(), NOW);
    let r = game.join_game_with_code(&join.code, 20, NOW);
    // The random code of this fresh game is almost surely different.
    if game.code != join.code {
        assert_eq!(r.unwrap_err(), Error::GameNotFound);
    }
}
