//! Game lifecycle: creation, joining, leaving, turn order.

use monopoly_core::session::GameSession;
use monopoly_core::types::{Error, GameStatus};

const NOW: i64 = 1_700_000_000;

fn new_game(host: u64) -> GameSession {
    GameSession::create_game(1, host, Vec::new(), Vec::new(), NOW)
}

#[test]
fn test_create_game_success() {
    let game = new_game(10);
    assert_eq!(game.name, "New Monopoly Game");
    assert_eq!(game.code.len(), 4);
    assert_eq!(game.status, GameStatus::WAITING);
    assert_eq!(game.participants.len(), 1);
    assert_eq!(game.participants[0].user_id, 10);
    assert_eq!(game.participants[0].balance, 1500);
    // The starting grant is itself an audited transaction.
    assert_eq!(game.transactions.len(), 1);
    assert_eq!(game.transactions[0].amount, 1500);
    assert_eq!(game.transactions[0].from_participant_id, None);
}

#[test]
fn test_join_game_fails_if_active() {
    let mut game = new_game(10);
    game.status = GameStatus::ACTIVE;
    let result = game.join_game(20, NOW);
    assert!(result.is_err());
    assert_eq!(result.unwrap_err().message(), "Game is not open for joining");
}

#[test]
fn test_leave_game() {
    let mut game = new_game(10);
    game.join_game(20, NOW).unwrap();
    assert_eq!(game.participants.len(), 2);
    let result = game.leave_game(20);
    assert!(result.is_ok());
    assert_eq!(game.participants.len(), 1);
}

#[test]
fn test_join_twice_rejected() {
    let mut game = new_game(10);
    game.join_game(20, NOW).unwrap();
    let again = game.join_game(20, NOW);
    assert_eq!(again.unwrap_err(), Error::AlreadyParticipant);
}

#[test]
fn test_join_by_code() {
    let mut game = new_game(10);
    let code = game.code.clone();
    let joined = game.join_game_with_code(&code, 20, NOW);
    assert!(joined.is_ok());
    assert_eq!(joined.unwrap().balance, 1500);
    let wrong = game.join_game_with_code("....", 30, NOW);
    assert_eq!(wrong.unwrap_err(), Error::GameNotFound);
}

#[test]
fn test_start_game_rolls_turn_order() {
    let mut game = new_game(10);
    game.join_game(20, NOW).unwrap();
    game.join_game(30, NOW).unwrap();

    // Only the host may start the game.
    let not_host = game.update_game(20, None, Some(GameStatus::ACTIVE));
    assert_eq!(not_host.unwrap_err(), Error::NotHost);

    game.update_game(10, None, Some(GameStatus::ACTIVE)).unwrap();
    assert_eq!(game.status, GameStatus::ACTIVE);
    let order = game.turn_order.clone().unwrap();
    assert_eq!(order.len(), 3);
    let mut sorted = order.clone();
    sorted.sort();
    assert_eq!(sorted, vec![10, 20, 30]);
    assert_eq!(game.current_turn_user_id, Some(order[0]));
}

#[test]
fn test_end_turn_advances_circularly() {
    let mut game = new_game(10);
    game.join_game(20, NOW).unwrap();
    game.update_game(10, None, Some(GameStatus::ACTIVE)).unwrap();
    let order = game.turn_order.clone().unwrap();

    let wrong = game.end_turn(order[1]);
    assert_eq!(wrong.unwrap_err().message(), "It is not your turn!");

    game.end_turn(order[0]).unwrap();
    assert_eq!(game.current_turn_user_id, Some(order[1]));
    game.end_turn(order[1]).unwrap();
    assert_eq!(game.current_turn_user_id, Some(order[0]));
}

#[test]
fn test_update_participant_position() {
    let mut game = new_game(10);
    game.update_participant_position(10, 24).unwrap();
    assert_eq!(game.participants[0].position, 24);
}

#[test]
fn test_status_names_round_trip() {
    assert_eq!(GameStatus::FINISHED.to_string(), "FINISHED");
    assert_eq!(GameStatus::from(&"PAUSED".to_string()), GameStatus::PAUSED);
    assert_eq!(GameStatus::from(&"anything".to_string()), GameStatus::WAITING);
}
