//! Decks, the boveda market, inventories and special actions.

use monopoly_core::entities::{Card, CardAction, CardType, ParticipantCard, SpecialAction};
use monopoly_core::session::GameSession;
use monopoly_core::types::{Error, GameStatus};

const NOW: i64 = 1_700_000_000;

fn arca(id: u64, title: &str) -> Card {
    Card {
        id,
        type_: CardType::Arca,
        title: title.to_string(),
        description: String::new(),
        cost: None,
        color: None,
        action_type: None,
        action_value: None,
    }
}

fn boveda(id: u64, title: &str, cost: i64) -> Card {
    Card {
        id,
        type_: CardType::Boveda,
        title: title.to_string(),
        description: String::new(),
        cost: Some(cost),
        color: Some("yellow".to_string()),
        action_type: None,
        action_value: None,
    }
}

fn give_card(game: &mut GameSession, participant_id: u64, card_id: u64) -> u64 {
    let row_id = game.next_id;
    game.next_id += 1;
    game.participant_cards.push(ParticipantCard {
        id: row_id,
        participant_id,
        card_id,
    });
    row_id
}

#[test]
fn test_sixteen_draws_without_reshuffle_are_distinct() {
    // An arca deck of 16: 16 draws yield 16 distinct cards; the 17th
    // reshuffles and still succeeds.
    let cards: Vec<Card> = (1..=16).map(|i| arca(i, &format!("arca {i}"))).collect();
    let mut game = GameSession::create_game(1, 10, cards, Vec::new(), NOW);
    let mut seen: Vec<u64> = Vec::new();
    for _ in 0..16 {
        let c = game.draw_card(10, CardType::Arca, NOW).unwrap();
        assert!(!seen.contains(&c.id), "a card repeated before the reshuffle");
        seen.push(c.id);
    }
    let again = game.draw_card(10, CardType::Arca, NOW).unwrap();
    assert!(seen.contains(&again.id));
}

#[test]
fn test_draw_from_undefined_deck_fails() {
    let mut game = GameSession::create_game(1, 10, Vec::new(), Vec::new(), NOW);
    let r = game.draw_card(10, CardType::Arca, NOW);
    assert_eq!(r.unwrap_err(), Error::EmptyDeck);
}

#[test]
fn test_draw_keep_card_enters_inventory() {
    let mut keeper = arca(5, "Sal de la Carcel");
    keeper.action_type = Some(CardAction::Keep);
    let mut game = GameSession::create_game(1, 10, vec![keeper], Vec::new(), NOW);
    let me = game.participants[0].id;
    let c = game.draw_card(10, CardType::Arca, NOW).unwrap();
    assert_eq!(c.id, 5);
    assert_eq!(game.participant_cards.len(), 1);
    assert_eq!(game.participant_cards[0].participant_id, me);
    assert_eq!(game.participant_cards[0].card_id, 5);
}

#[test]
fn test_draw_pay_bank_card_moves_money() {
    let mut payer = arca(5, "Impuesto");
    payer.action_type = Some(CardAction::PayBank);
    payer.action_value = Some(75);
    let mut game = GameSession::create_game(1, 10, vec![payer], Vec::new(), NOW);
    let jackpot_before = game.jackpot_balance;
    game.draw_card(10, CardType::Arca, NOW).unwrap();
    assert_eq!(game.participants[0].balance, 1425);
    assert_eq!(game.jackpot_balance, jackpot_before + 75);
    assert_eq!(game.transactions.last().unwrap().description.as_deref(), Some("Impuesto"));
}

#[test]
fn test_market_fills_three_unique_slots() {
    let cards: Vec<Card> = (1..=5).map(|i| boveda(i, &format!("poder {i}"), 100)).collect();
    let mut game = GameSession::create_game(1, 10, cards, Vec::new(), NOW);
    let rows = game.refresh_boveda_market().unwrap();
    assert_eq!(rows.len(), 3);
    let mut ids: Vec<u64> = rows.iter().map(|r| r.card_id).collect();
    ids.sort();
    ids.dedup();
    assert_eq!(ids.len(), 3, "market slots repeated a boveda card");
}

#[test]
fn test_buy_market_card_keeps_uniqueness() {
    let cards: Vec<Card> = (1..=5).map(|i| boveda(i, &format!("poder {i}"), 100)).collect();
    let mut game = GameSession::create_game(1, 10, cards, Vec::new(), NOW);
    game.refresh_boveda_market().unwrap();
    let bought = game.buy_market_card(10, 0, NOW).unwrap();
    // The buyer paid the bank (no vault owner): 1500 - 100.
    assert_eq!(game.participants[0].balance, 1400);
    // The vacated slot was refilled, and no card stands in two places.
    let mut everywhere: Vec<u64> = game.market.iter().flatten().copied().collect();
    everywhere.extend(game.participant_cards.iter().map(|r| r.card_id));
    let total = everywhere.len();
    everywhere.sort();
    everywhere.dedup();
    assert_eq!(everywhere.len(), total, "a boveda card appeared twice");
    assert!(game.participant_cards.iter().any(|r| r.id == bought.id));
}

#[test]
fn test_exchange_market_card_rotates_slot() {
    let cards: Vec<Card> = (1..=3).map(|i| boveda(i, &format!("poder {i}"), 100)).collect();
    let mut game = GameSession::create_game(1, 10, cards, Vec::new(), NOW);
    game.refresh_boveda_market().unwrap();
    let rows = game.exchange_market_card(1).unwrap();
    assert_eq!(rows.len(), 3);
    let mut ids: Vec<u64> = rows.iter().map(|r| r.card_id).collect();
    ids.sort();
    ids.dedup();
    assert_eq!(ids.len(), 3);
}

#[test]
fn test_use_instant_win_card_finishes_game() {
    let winner = boveda(7, "Casa del Exito", 350);
    let mut game = GameSession::create_game(1, 10, vec![winner], Vec::new(), NOW);
    let me = game.participants[0].id;
    let row = give_card(&mut game, me, 7);
    game.use_card(10, row, NOW).unwrap();
    assert_eq!(game.status, GameStatus::FINISHED);
    // The winning card stays in the inventory.
    assert_eq!(game.participant_cards.len(), 1);
    assert_eq!(game.card_usage.len(), 1);
}

#[test]
fn test_use_passive_card_rejected() {
    let passive = boveda(7, "El Banco", 400);
    let mut game = GameSession::create_game(1, 10, vec![passive], Vec::new(), NOW);
    let me = game.participants[0].id;
    let row = give_card(&mut game, me, 7);
    let r = game.use_card(10, row, NOW);
    assert_eq!(
        r.unwrap_err().message(),
        "Passive cards cannot be used manually. They are always active."
    );
    assert_eq!(game.participant_cards.len(), 1);
    assert_eq!(game.card_usage.len(), 0);
}

#[test]
fn test_use_consumable_card_removes_it() {
    let mut game = GameSession::create_game(1, 10, vec![arca(3, "Multa")], Vec::new(), NOW);
    let me = game.participants[0].id;
    let row = give_card(&mut game, me, 3);
    game.use_card(10, row, NOW).unwrap();
    assert_eq!(game.participant_cards.len(), 0);
    assert_eq!(game.card_usage.len(), 1);
}

#[test]
fn test_discard_card() {
    let mut game = GameSession::create_game(1, 10, vec![boveda(4, "poder", 100)], Vec::new(), NOW);
    let me = game.participants[0].id;
    let row = give_card(&mut game, me, 4);
    game.discard_card(10, row, NOW).unwrap();
    assert_eq!(game.participant_cards.len(), 0);
    assert_eq!(game.card_usage.len(), 1);
    let gone = game.discard_card(10, row, NOW);
    assert_eq!(gone.unwrap_err(), Error::CardNotInInventory);
}

#[test]
fn test_special_action_steal_and_exchange() {
    let cards = vec![boveda(4, "poder a", 100), boveda(5, "poder b", 100)];
    let mut game = GameSession::create_game(1, 10, cards, Vec::new(), NOW);
    game.join_game(20, NOW).unwrap();
    let a = game.participants[0].id;
    let b = game.participants[1].id;
    let b_row = give_card(&mut game, b, 4);

    // Steal: the row moves from B to A, free of charge.
    game.execute_special_action(10, SpecialAction::Buy, b_row, None, NOW).unwrap();
    assert_eq!(game.participant_cards.len(), 1);
    assert_eq!(game.participant_cards[0].participant_id, a);
    assert_eq!(game.participant_cards[0].card_id, 4);

    // Exchange: both rows swap owners.
    let a_row = game.participant_cards[0].id;
    let b_row2 = give_card(&mut game, b, 5);
    game.execute_special_action(10, SpecialAction::Exchange, b_row2, Some(a_row), NOW).unwrap();
    let holder_of_5 = game.participant_cards.iter().find(|r| r.card_id == 5).unwrap();
    let holder_of_4 = game.participant_cards.iter().find(|r| r.card_id == 4).unwrap();
    assert_eq!(holder_of_5.participant_id, a);
    assert_eq!(holder_of_4.participant_id, b);

    // Destroy removes the target outright.
    let target = holder_of_4.id;
    game.execute_special_action(10, SpecialAction::Destroy, target, None, NOW).unwrap();
    assert!(game.participant_cards.iter().all(|r| r.card_id != 4));
}

#[test]
fn test_get_inventory_lists_own_rows() {
    let cards = vec![boveda(4, "poder a", 100), boveda(5, "poder b", 100)];
    let mut game = GameSession::create_game(1, 10, cards, Vec::new(), NOW);
    game.join_game(20, NOW).unwrap();
    let a = game.participants[0].id;
    let b = game.participants[1].id;
    give_card(&mut game, a, 4);
    give_card(&mut game, b, 5);
    let mine = game.get_inventory(10).unwrap();
    assert_eq!(mine.len(), 1);
    assert_eq!(mine[0].card_id, 4);
}
