//! Shared plain types: identifiers, money, game status, error taxonomy,
//! and the fixed amounts the game rules use.

use vstd::prelude::*;

verus! {

/// Compares a stored string against a string slice, by content.
pub fn string_eq_str(a: &String, b: &str) -> (r: bool)
    ensures
        r == (a@ == b@),
{
    *a == b.to_owned()
}

/// Money is held in whole currency units.  Balances may go negative
/// (debt is allowed); amounts handed to operations are non-negative.
pub type Money = i64;

/// Every entity the session owns is identified by a number drawn from a
/// single per-session counter, so identifiers are unique across kinds.
pub type Id = u64;

/// Opaque caller identity, supplied by the authentication boundary.
pub type UserId = u64;

/// The amount a participant is funded with on joining a game.
pub const STARTING_BALANCE: Money = 1500;

/// Every auction opens at this fixed floor bid.
pub const AUCTION_STARTING_BID: Money = 10;

/// Salary credited when a dice move passes the starting corner.
pub const SALARY_AMOUNT: Money = 200;

/// Number of slots in the boveda card market.
pub const MARKET_SLOTS: usize = 3;

/// Number of spaces on the board.
pub const BOARD_SIZE: i32 = 40;

/// Board index of the jail corner.
pub const JAIL_POSITION: i32 = 10;

/// Board index of the "go to jail" corner.
pub const GO_TO_JAIL_POSITION: i32 = 30;

/// Lifecycle status of a game session.
#[derive(Debug, Clone, Copy, PartialEq, Eq, Structural)]
pub enum GameStatus {
    WAITING,
    ACTIVE,
    PAUSED,
    FINISHED,
    CANCELLED,
}

impl GameStatus {
    /// The wire name of the status.
    pub fn to_string(&self) -> (r: String)
        ensures
            r@ == self.name_spec(),
    {
        match self {
            GameStatus::WAITING => "WAITING".to_owned(),
            GameStatus::ACTIVE => "ACTIVE".to_owned(),
            GameStatus::PAUSED => "PAUSED".to_owned(),
            GameStatus::FINISHED => "FINISHED".to_owned(),
            GameStatus::CANCELLED => "CANCELLED".to_owned(),
        }
    }

    /// The wire name of the status, as a sequence of characters.
    pub open spec fn name_spec(self) -> Seq<char> {
        match self {
            GameStatus::WAITING => "WAITING"@,
            GameStatus::ACTIVE => "ACTIVE"@,
            GameStatus::PAUSED => "PAUSED"@,
            GameStatus::FINISHED => "FINISHED"@,
            GameStatus::CANCELLED => "CANCELLED"@,
        }
    }

    /// Parses a wire name; anything unrecognised maps to WAITING, as the
    /// storage layer did.
    pub fn from(s: &String) -> (r: GameStatus)
        ensures
            r == Self::from_spec(s@),
    {
        if *s == "ACTIVE".to_owned() {
            GameStatus::ACTIVE
        } else if *s == "PAUSED".to_owned() {
            GameStatus::PAUSED
        } else if *s == "FINISHED".to_owned() {
            GameStatus::FINISHED
        } else if *s == "CANCELLED".to_owned() {
            GameStatus::CANCELLED
        } else {
            GameStatus::WAITING
        }
    }

    /// Specification of [`GameStatus::from`].
    pub open spec fn from_spec(s: Seq<char>) -> GameStatus {
        if s == "ACTIVE"@ {
            GameStatus::ACTIVE
        } else if s == "PAUSED"@ {
            GameStatus::PAUSED
        } else if s == "FINISHED"@ {
            GameStatus::FINISHED
        } else if s == "CANCELLED"@ {
            GameStatus::CANCELLED
        } else {
            GameStatus::WAITING
        }
    }
}

/// Why an operation was refused.  Every public operation either returns
/// the updated entity or exactly one of these reasons; no partial change
/// of state is ever visible alongside an error.
#[derive(Debug, Clone, Copy, PartialEq, Eq, Structural)]
pub enum Error {
    /// The named game (or join code) does not exist.
    GameNotFound,
    /// The caller, or a referenced id, is not a participant of this game.
    ParticipantNotFound,
    /// The user already has a participant row in this game.
    AlreadyParticipant,
    /// The game is not in the WAITING state, so nobody may join.
    GameNotOpen,
    /// A finished game can no longer be left.
    GameAlreadyFinished,
    /// Only the host may perform this action.
    NotHost,
    /// A game cannot start with no participants.
    NoParticipants,
    /// Only the participant whose turn it is may end the turn.
    NotYourTurn,
    /// The game has no stored turn order yet.
    NoTurnOrder,
    /// The caller does not appear in the stored turn order.
    NotInTurnOrder,
    /// The jackpot holds nothing to claim.
    JackpotEmpty,
    /// The catalog holds no cards of the requested deck.
    EmptyDeck,
    /// The addressed market slot holds no card.
    SlotEmpty,
    /// The addressed inventory row is not in the caller's inventory.
    CardNotInInventory,
    /// Passive cards cannot be used manually.
    PassiveCard,
    /// The targeted inventory row exists in no participant's inventory.
    TargetCardNotFound,
    /// An exchange needs the caller to name one of their own cards.
    MissingExchangeCard,
    /// The named own card is not in the caller's inventory.
    NotYourCard,
    /// The property id is not in the catalog.
    PropertyNotFound,
    /// The property already has an ownership record in this game.
    PropertyAlreadyOwned,
    /// The caller has no ownership record for this property.
    NotYourProperty,
    /// The property is already mortgaged.
    AlreadyMortgaged,
    /// The property is not mortgaged.
    NotMortgaged,
    /// Buildings must be sold before mortgaging.
    BuildingsPresent,
    /// The property supports no construction.
    NotBuildable,
    /// The caller does not own the whole colour group.
    IncompleteColorGroup,
    /// A property of the colour group is mortgaged.
    GroupMortgaged,
    /// A hotel already stands: the construction cap is reached.
    HotelPresent,
    /// There is no building to sell.
    NoBuildings,
    /// The auction id does not exist.
    AuctionNotFound,
    /// An auction is already active in this game.
    AuctionAlreadyActive,
    /// The auction is not active.
    AuctionNotActive,
    /// A bid must exceed the current bid.
    BidTooLow,
    /// The bidder's balance does not cover the bid.
    InsufficientFunds,
    /// The trade id does not exist.
    TradeNotFound,
    /// The trade is no longer pending.
    TradeNotPending,
    /// Only the designated target may accept the trade.
    NotTradeTarget,
    /// Only the initiator or the target may respond to the trade.
    NotTradeParty,
    /// A balance or counter would leave the machine's integer range.
    ArithmeticLimit,
}

impl Error {
    /// A human-readable reason, for the transport layer to surface.
    pub fn message(&self) -> (r: String)
        ensures
            r@ == self.message_spec(),
    {
        match self {
            Error::GameNotFound => "Game not found".to_owned(),
            Error::ParticipantNotFound => "Participant not found".to_owned(),
            Error::AlreadyParticipant => "User is already a participant in this game".to_owned(),
            Error::GameNotOpen => "Game is not open for joining".to_owned(),
            Error::GameAlreadyFinished => "Cannot leave a finished game".to_owned(),
            Error::NotHost => "Only host can update game".to_owned(),
            Error::NoParticipants => "Cannot start game with no participants".to_owned(),
            Error::NotYourTurn => "It is not your turn!".to_owned(),
            Error::NoTurnOrder => "No turn order defined".to_owned(),
            Error::NotInTurnOrder => "User not in turn order".to_owned(),
            Error::JackpotEmpty => "Jackpot is empty".to_owned(),
            Error::EmptyDeck => "No cards of this type exist".to_owned(),
            Error::SlotEmpty => "Slot empty".to_owned(),
            Error::CardNotInInventory => "Card not in inventory".to_owned(),
            Error::PassiveCard => "Passive cards cannot be used manually. They are always active.".to_owned(),
            Error::TargetCardNotFound => "Target card not found active in game".to_owned(),
            Error::MissingExchangeCard => "Must provide my_card_id for exchange".to_owned(),
            Error::NotYourCard => "You don't own the card to exchange".to_owned(),
            Error::PropertyNotFound => "Property not found".to_owned(),
            Error::PropertyAlreadyOwned => "Property is already owned".to_owned(),
            Error::NotYourProperty => "You do not own this property".to_owned(),
            Error::AlreadyMortgaged => "Already mortgaged".to_owned(),
            Error::NotMortgaged => "Property is not mortgaged".to_owned(),
            Error::BuildingsPresent => "Must sell buildings first".to_owned(),
            Error::NotBuildable => "Cannot build on this property".to_owned(),
            Error::IncompleteColorGroup => "You must own all properties of this color group to build!".to_owned(),
            Error::GroupMortgaged => "Cannot build if any property in group is mortgaged".to_owned(),
            Error::HotelPresent => "Maximum buildings reached (Hotel)".to_owned(),
            Error::NoBuildings => "No buildings to sell".to_owned(),
            Error::AuctionNotFound => "Auction not found".to_owned(),
            Error::AuctionAlreadyActive => "There is already an active auction".to_owned(),
            Error::AuctionNotActive => "Auction is not active".to_owned(),
            Error::BidTooLow => "Bid must be higher than current".to_owned(),
            Error::InsufficientFunds => "Insufficient funds for this bid".to_owned(),
            Error::TradeNotFound => "Trade not found".to_owned(),
            Error::TradeNotPending => "Trade is not pending".to_owned(),
            Error::NotTradeTarget => "You are not the target of this trade".to_owned(),
            Error::NotTradeParty => "Only the initiator or target may respond".to_owned(),
            Error::ArithmeticLimit => "Amount out of range".to_owned(),
        }
    }

    /// Specification of [`Error::message`].
    pub open spec fn message_spec(self) -> Seq<char> {
        match self {
            Error::GameNotFound => "Game not found"@,
            Error::ParticipantNotFound => "Participant not found"@,
            Error::AlreadyParticipant => "User is already a participant in this game"@,
            Error::GameNotOpen => "Game is not open for joining"@,
            Error::GameAlreadyFinished => "Cannot leave a finished game"@,
            Error::NotHost => "Only host can update game"@,
            Error::NoParticipants => "Cannot start game with no participants"@,
            Error::NotYourTurn => "It is not your turn!"@,
            Error::NoTurnOrder => "No turn order defined"@,
            Error::NotInTurnOrder => "User not in turn order"@,
            Error::JackpotEmpty => "Jackpot is empty"@,
            Error::EmptyDeck => "No cards of this type exist"@,
            Error::SlotEmpty => "Slot empty"@,
            Error::CardNotInInventory => "Card not in inventory"@,
            Error::PassiveCard => "Passive cards cannot be used manually. They are always active."@,
            Error::TargetCardNotFound => "Target card not found active in game"@,
            Error::MissingExchangeCard => "Must provide my_card_id for exchange"@,
            Error::NotYourCard => "You don't own the card to exchange"@,
            Error::PropertyNotFound => "Property not found"@,
            Error::PropertyAlreadyOwned => "Property is already owned"@,
            Error::NotYourProperty => "You do not own this property"@,
            Error::AlreadyMortgaged => "Already mortgaged"@,
            Error::NotMortgaged => "Property is not mortgaged"@,
            Error::BuildingsPresent => "Must sell buildings first"@,
            Error::NotBuildable => "Cannot build on this property"@,
            Error::IncompleteColorGroup => "You must own all properties of this color group to build!"@,
            Error::GroupMortgaged => "Cannot build if any property in group is mortgaged"@,
            Error::HotelPresent => "Maximum buildings reached (Hotel)"@,
            Error::NoBuildings => "No buildings to sell"@,
            Error::AuctionNotFound => "Auction not found"@,
            Error::AuctionAlreadyActive => "There is already an active auction"@,
            Error::AuctionNotActive => "Auction is not active"@,
            Error::BidTooLow => "Bid must be higher than current"@,
            Error::InsufficientFunds => "Insufficient funds for this bid"@,
            Error::TradeNotFound => "Trade not found"@,
            Error::TradeNotPending => "Trade is not pending"@,
            Error::NotTradeTarget => "You are not the target of this trade"@,
            Error::NotTradeParty => "Only the initiator or target may respond"@,
            Error::ArithmeticLimit => "Amount out of range"@,
        }
    }
}

} // verus!
