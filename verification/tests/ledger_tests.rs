//! The transfer engine: conservation, bank-owner redirection, reversal,
//! and jackpot claims.

use monopoly_core::entities::{CardType, Card, ParticipantCard};
use monopoly_core::session::GameSession;
use monopoly_core::types::Error;

const NOW: i64 = 1_700_000_000;

fn bank_card(id: u64) -> Card {
    Card {
        id,
        type_: CardType::Boveda,
        title: "El Banco".to_string(),
        description: String::new(),
        cost: Some(400),
        color: Some("yellow".to_string()),
        action_type: None,
        action_value: None,
    }
}

fn two_player_game(cards: Vec<Card>) -> GameSession {
    let mut game = GameSession::create_game(1, 10, cards, Vec::new(), NOW);
    game.join_game(20, NOW).unwrap();
    game
}

fn give_card(game: &mut GameSession, participant_id: u64, card_id: u64) {
    let row_id = game.next_id;
    game.next_id += 1;
    game.participant_cards.push(ParticipantCard {
        id: row_id,
        participant_id,
        card_id,
    });
}

fn balance_of(game: &GameSession, pid: u64) -> i64 {
    game.participants.iter().find(|p| p.id == pid).unwrap().balance
}

#[test]
fn test_payment_to_bank_feeds_jackpot() {
    // Participant A (balance 1500) pays 200 to the bank; no bank-owner
    // card exists: A ends at 1300 and the jackpot grows by 200.
    let mut game = two_player_game(Vec::new());
    let a = game.participants[0].id;
    let jackpot_before = game.jackpot_balance;
    let txn = game.transfer(Some(a), None, 200, Some("tax".to_string()), NOW).unwrap();
    assert_eq!(balance_of(&game, a), 1300);
    assert_eq!(game.jackpot_balance, jackpot_before + 200);
    assert_eq!(txn.from_participant_id, Some(a));
    assert_eq!(txn.to_participant_id, None);
    assert_eq!(txn.amount, 200);
}

#[test]
fn test_conservation_across_transfers() {
    // Transfers that touch neither the bank nor the jackpot keep the
    // sum of all balances.
    let mut game = two_player_game(Vec::new());
    let a = game.participants[0].id;
    let b = game.participants[1].id;
    let sum_before: i64 = game.participants.iter().map(|p| p.balance).sum();
    game.transfer(Some(a), Some(b), 700, None, NOW).unwrap();
    game.transfer(Some(b), Some(a), 150, None, NOW).unwrap();
    game.transfer(Some(a), Some(b), 2500, None, NOW).unwrap(); // into debt
    let sum_after: i64 = game.participants.iter().map(|p| p.balance).sum();
    assert_eq!(sum_before, sum_after);
    assert_eq!(balance_of(&game, a), 1500 - 700 + 150 - 2500);
}

#[test]
fn test_bank_owner_redirection() {
    // A holds "El Banco"; B pays 200 to the bank: B loses 200, A gains
    // 200, and the jackpot still grows by 200.
    let mut game = two_player_game(vec![bank_card(900)]);
    let a = game.participants[0].id;
    let b = game.participants[1].id;
    give_card(&mut game, a, 900);
    let jackpot_before = game.jackpot_balance;
    let txn = game.transfer(Some(b), None, 200, None, NOW).unwrap();
    assert_eq!(balance_of(&game, b), 1300);
    assert_eq!(balance_of(&game, a), 1700);
    assert_eq!(game.jackpot_balance, jackpot_before + 200);
    assert_eq!(txn.to_participant_id, Some(a));
}

#[test]
fn test_bank_owner_pays_nothing() {
    // The holder of "El Banco" pays to the bank: their balance is
    // untouched, yet the jackpot grows by the full amount.
    let mut game = two_player_game(vec![bank_card(900)]);
    let a = game.participants[0].id;
    give_card(&mut game, a, 900);
    let jackpot_before = game.jackpot_balance;
    let txn = game.transfer(Some(a), None, 200, None, NOW).unwrap();
    assert_eq!(balance_of(&game, a), 1500);
    assert_eq!(game.jackpot_balance, jackpot_before + 200);
    assert_eq!(txn.amount, 0);
}

#[test]
fn test_transfer_delete_round_trip() {
    // transfer then delete restores both balances exactly.
    let mut game = two_player_game(Vec::new());
    let a = game.participants[0].id;
    let b = game.participants[1].id;
    let txn = game.transfer(Some(a), Some(b), 325, None, NOW).unwrap();
    assert_eq!(balance_of(&game, a), 1175);
    assert_eq!(balance_of(&game, b), 1825);
    game.delete_transaction(txn.id).unwrap();
    assert_eq!(balance_of(&game, a), 1500);
    assert_eq!(balance_of(&game, b), 1500);
    // Deleting an id that no longer exists is a quiet success.
    assert!(game.delete_transaction(txn.id).is_ok());
}

#[test]
fn test_claim_jackpot() {
    let mut game = two_player_game(Vec::new());
    let a = game.participants[0].id;

    let empty = game.claim_jackpot(10, NOW);
    assert_eq!(empty.unwrap_err().message(), "Jackpot is empty");

    game.transfer(Some(a), None, 300, None, NOW).unwrap();
    assert_eq!(game.jackpot_balance, 300);

    let outsider = game.claim_jackpot(99, NOW);
    assert_eq!(outsider.unwrap_err(), Error::ParticipantNotFound);

    let txn = game.claim_jackpot(10, NOW).unwrap();
    assert_eq!(game.jackpot_balance, 0);
    assert_eq!(balance_of(&game, a), 1500);
    assert_eq!(txn.amount, 300);
    assert_eq!(txn.description.as_deref(), Some("Jackpot Win!"));
}

#[test]
fn test_transfer_to_missing_participant_rejected() {
    let mut game = two_player_game(Vec::new());
    let r = game.transfer(Some(424242), None, 10, None, NOW);
    assert_eq!(r.unwrap_err(), Error::ParticipantNotFound);
}
