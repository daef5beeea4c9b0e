//! Domain events: one per successful mutation, fanned out per game by
//! the delivery boundary outside this crate (best-effort, at-most-once;
//! a failed delivery never rolls the mutation back).

use vstd::prelude::*;
use crate::types::Id;
use crate::entities::{
    Transaction, DiceRoll, RouletteSpin, SpecialDiceRoll, Participant, Auction, Trade,
};

verus! {

/// A tagged domain event carrying the game it belongs to.
#[derive(Debug)]
pub enum GameEvent {
    TransactionCreated(Transaction),
    DiceRolled(DiceRoll),
    RouletteSpun(RouletteSpin),
    SpecialDiceRolled(SpecialDiceRoll),
    ParticipantUpdated(Participant),
    GameUpdated { id: Id, status: String },
    MarketUpdated { game_id: Id },
    AuctionUpdated(Auction),
    TradeUpdated(Trade),
    TurnUpdated { game_id: Id, current_turn_user_id: Id },
}

impl GameEvent {
    /// The game this event belongs to, whichever kind it is.
    pub fn game_id(&self) -> (r: Id)
        ensures
            r == self.game_id_spec(),
    {
        match self {
            GameEvent::TransactionCreated(t) => t.game_id,
            GameEvent::DiceRolled(d) => d.game_id,
            GameEvent::RouletteSpun(s) => s.game_id,
            GameEvent::SpecialDiceRolled(s) => s.game_id,
            GameEvent::ParticipantUpdated(p) => p.game_id,
            GameEvent::GameUpdated { id, .. } => *id,
            GameEvent::MarketUpdated { game_id } => *game_id,
            GameEvent::AuctionUpdated(a) => a.game_id,
            GameEvent::TradeUpdated(t) => t.game_id,
            GameEvent::TurnUpdated { game_id, .. } => *game_id,
        }
    }

    /// Specification of [`GameEvent::game_id`].
    pub open spec fn game_id_spec(&self) -> Id {
        match self {
            GameEvent::TransactionCreated(t) => t.game_id,
            GameEvent::DiceRolled(d) => d.game_id,
            GameEvent::RouletteSpun(s) => s.game_id,
            GameEvent::SpecialDiceRolled(s) => s.game_id,
            GameEvent::ParticipantUpdated(p) => p.game_id,
            GameEvent::GameUpdated { id, .. } => *id,
            GameEvent::MarketUpdated { game_id } => *game_id,
            GameEvent::AuctionUpdated(a) => a.game_id,
            GameEvent::TradeUpdated(t) => t.game_id,
            GameEvent::TurnUpdated { game_id, .. } => *game_id,
        }
    }
}

} // verus!
