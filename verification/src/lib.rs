//! Verified core of a multiplayer, Monopoly-style board game backend.
//!
//! The crate models one game session as a plain value: participants and
//! their balances, the transaction ledger and the shared jackpot, card
//! decks with a rotating market, property ownership with buildings,
//! auctions, trades, and turn order.  Every operation is a function
//! from the old state (plus the caller's inputs) to the new state, with a
//! contract that pins the outcome down.  All I/O — HTTP, persistence,
//! event delivery — lives outside this crate and hands it plain values.

pub mod types;
pub mod entities;
pub mod session;
pub mod ledger;
pub mod laws;
pub mod game;
pub mod property;
pub mod auction;
pub mod trade;
pub mod cards;
pub mod dice;
pub mod events;
pub mod requests;
mod rand_source;
pub mod board;
