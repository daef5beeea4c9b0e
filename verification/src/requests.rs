//! Request payloads of the card and game endpoints, as plain values;
//! the transport layer deserialises into its own copies and converts.

use vstd::prelude::*;
use crate::entities::CardType;

verus! {

/// Asks to draw from a deck, named "arca" or "fortuna".
#[derive(Debug, PartialEq)]
pub struct DrawCardRequest {
    pub card_type: String,
}

impl DrawCardRequest {
    /// The deck the request names, if it names one.
    pub fn deck(&self) -> (r: Option<CardType>)
        ensures
            r == (if self.card_type@ == "arca"@ {
                Some(CardType::Arca)
            } else if self.card_type@ == "fortuna"@ {
                Some(CardType::Fortuna)
            } else if self.card_type@ == "boveda"@ {
                Some(CardType::Boveda)
            } else {
                Option::<CardType>::None
            }),
    {
        if crate::types::string_eq_str(&self.card_type, "arca") {
            Some(CardType::Arca)
        } else if crate::types::string_eq_str(&self.card_type, "fortuna") {
            Some(CardType::Fortuna)
        } else if crate::types::string_eq_str(&self.card_type, "boveda") {
            Some(CardType::Boveda)
        } else {
            None
        }
    }
}

/// Asks to buy the card standing in a market slot.
#[derive(Debug, Clone, Copy, PartialEq, Eq, Structural)]
pub struct BuyMarketCardRequest {
    pub slot_index: i32,
}

/// Asks to rotate the card out of a market slot.
#[derive(Debug, Clone, Copy, PartialEq, Eq, Structural)]
pub struct ExchangeMarketCardRequest {
    pub slot_index: i32,
}

/// Asks to join the game carrying this four-character code.
#[derive(Debug, PartialEq)]
pub struct JoinGameByCodeRequest {
    pub code: String,
}

} // verus!
