//! The entities a game session owns, as plain values.
//!
//! Identifiers are numbers drawn from one per-session counter; money is
//! whole currency units.  Catalog rows (cards, properties) are immutable
//! reference data; the other rows are owned and mutated by the session.

use vstd::prelude::*;
use crate::types::{Id, Money, UserId};

verus! {

/// A participant of a game: one row per (game, user).
#[derive(Debug, Clone, Copy, PartialEq, Eq, Structural)]
pub struct Participant {
    pub id: Id,
    pub game_id: Id,
    pub user_id: UserId,
    /// May go negative: debt is allowed, no overdraft prevention.
    pub balance: Money,
    /// Board position, `0 <= position < BOARD_SIZE`.
    pub position: i32,
}

/// A recorded money movement.  `None` on a side means the bank (or, for
/// the receiving side, the jackpot sink).  At least one side is a
/// participant.  Immutable once created, except for explicit reversal.
#[derive(Debug, PartialEq)]
pub struct Transaction {
    pub id: Id,
    pub game_id: Id,
    pub from_participant_id: Option<Id>,
    pub to_participant_id: Option<Id>,
    /// Non-negative; zero only on the waived path of a redirected payment.
    pub amount: Money,
    pub description: Option<String>,
    pub created_at: i64,
}

/// Which deck a catalog card belongs to.
#[derive(Debug, Clone, Copy, PartialEq, Eq, Structural)]
pub enum CardType {
    Arca,
    Fortuna,
    Boveda,
}

/// The immediate effect a drawn card carries, if any.
#[derive(Debug, Clone, Copy, PartialEq, Eq, Structural)]
pub enum CardAction {
    /// The card goes into the drawer's inventory.
    Keep,
    /// The drawer receives `action_value` from the bank.
    ReceiveBank,
    /// The drawer pays `action_value` to the bank.
    PayBank,
}

/// An immutable catalog card.
#[derive(Debug, PartialEq)]
pub struct Card {
    pub id: Id,
    pub type_: CardType,
    pub title: String,
    pub description: String,
    /// Purchase cost for market (boveda) cards.
    pub cost: Option<Money>,
    /// Colour tag; "yellow" marks passive cards, "red" consumable ones.
    pub color: Option<String>,
    pub action_type: Option<CardAction>,
    pub action_value: Option<Money>,
}

/// An inventory row: a card held by a participant.
#[derive(Debug, Clone, Copy, PartialEq, Eq, Structural)]
pub struct ParticipantCard {
    pub id: Id,
    pub participant_id: Id,
    pub card_id: Id,
}

/// A filled slot of the boveda market, as handed to callers.
#[derive(Debug, Clone, Copy, PartialEq, Eq, Structural)]
pub struct GameBovedaMarket {
    pub game_id: Id,
    pub slot_index: i32,
    pub card_id: Id,
}

/// A log row recording that a card was used, discarded, or targeted.
#[derive(Debug, Clone, PartialEq)]
pub struct CardUsageHistory {
    pub id: Id,
    pub game_id: Id,
    pub participant_id: Id,
    pub card_id: Id,
    pub action_description: Option<String>,
    pub used_at: i64,
}

/// An immutable catalog property.
#[derive(Debug, Clone, PartialEq)]
pub struct Property {
    pub id: Id,
    pub name: String,
    pub group_color: String,
    pub price: Money,
    pub mortgage_value: Money,
    pub unmortgage_cost: Money,
    /// Present only where construction is supported.
    pub house_cost: Option<Money>,
    pub hotel_cost: Option<Money>,
}

/// A per-game ownership record for a property.
#[derive(Debug, Clone, Copy, PartialEq, Eq, Structural)]
pub struct ParticipantProperty {
    pub id: Id,
    pub game_id: Id,
    pub participant_id: Id,
    pub property_id: Id,
    pub is_mortgaged: bool,
    /// `0..=4`; zero whenever a hotel stands.
    pub house_count: i32,
    /// `0` or `1`.
    pub hotel_count: i32,
}

/// Status of an auction.
#[derive(Debug, Clone, Copy, PartialEq, Eq, Structural)]
pub enum AuctionStatus {
    Active,
    Finished,
}

/// A property auction.  At most one is active per game.
#[derive(Debug, Clone, Copy, PartialEq, Eq, Structural)]
pub struct Auction {
    pub id: Id,
    pub game_id: Id,
    pub property_id: Id,
    pub current_bid: Money,
    pub highest_bidder_id: Option<Id>,
    pub status: AuctionStatus,
    pub created_at: i64,
    pub ends_at: Option<i64>,
}

/// Status of a trade.  Terminal once no longer pending.
#[derive(Debug, Clone, Copy, PartialEq, Eq, Structural)]
pub enum TradeStatus {
    Pending,
    Accepted,
    Rejected,
}

/// A bilateral trade proposal.
#[derive(Debug, PartialEq)]
pub struct Trade {
    pub id: Id,
    pub game_id: Id,
    pub initiator_id: Id,
    pub target_id: Id,
    pub offer_cash: Money,
    pub request_cash: Money,
    pub offer_properties: Vec<Id>,
    pub request_properties: Vec<Id>,
    pub status: TradeStatus,
}

/// A recorded dice roll.
#[derive(Debug, Clone, PartialEq)]
pub struct DiceRoll {
    pub id: Id,
    pub game_id: Id,
    pub user_id: UserId,
    pub dice_count: i32,
    pub dice_sides: i32,
    pub results: Vec<i32>,
    pub total: i32,
    pub created_at: i64,
}

/// A recorded roulette spin (stored as the client reports it).
#[derive(Debug, Clone, PartialEq)]
pub struct RouletteSpin {
    pub id: Id,
    pub game_id: Id,
    pub user_id: UserId,
    pub result_label: String,
    pub result_value: i32,
    pub result_type: String,
    pub created_at: i64,
}

/// A recorded roll of a themed special die.
#[derive(Debug, Clone, PartialEq)]
pub struct SpecialDiceRoll {
    pub id: Id,
    pub game_id: Id,
    pub user_id: UserId,
    pub die_name: String,
    pub die_id: String,
    pub face_label: String,
    pub face_value: Option<i32>,
    pub face_action: Option<String>,
    pub created_at: i64,
}

/// The peer actions a purchase-die card allows against another
/// participant's inventory row.
#[derive(Debug, Clone, Copy, PartialEq, Eq, Structural)]
pub enum SpecialAction {
    Destroy,
    Buy,
    Exchange,
}

} // verus!
