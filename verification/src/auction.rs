//! The auction engine: a single-active-auction state machine with
//! bidding and atomic settlement.

use vstd::prelude::*;
use crate::types::{Id, Money, UserId, Error, AUCTION_STARTING_BID};
use crate::entities::{Auction, AuctionStatus, ParticipantProperty};
use crate::session::{
    GameSession, has_user, balance_of, property_owned, owned_idx,
};

verus! {

/// Is some auction row carrying this id?
pub open spec fn has_auction(aus: Seq<Auction>, aid: Id) -> bool {
    exists|i: int| 0 <= i < aus.len() && aus[i].id == aid
}

/// The index of the auction row with this id (unique under `wf`).
pub open spec fn auction_idx(aus: Seq<Auction>, aid: Id) -> int {
    choose|i: int| 0 <= i < aus.len() && aus[i].id == aid
}

/// Is some auction active?
pub open spec fn active_auction_exists(aus: Seq<Auction>) -> bool {
    exists|i: int| 0 <= i < aus.len() && aus[i].status == AuctionStatus::Active
}

/// The active auction, if any (unique under `wf`).
pub open spec fn active_auction_spec(aus: Seq<Auction>) -> Option<Auction> {
    if active_auction_exists(aus) {
        Some(aus[choose|i: int| 0 <= i < aus.len() && aus[i].status == AuctionStatus::Active])
    } else {
        None
    }
}

impl GameSession {
    /// The game's active auction, if one is running.
    pub fn get_active_auction(&self) -> (r: Option<Auction>)
        requires
            self.wf(),
        ensures
            r == active_auction_spec(self.auctions@),
    {
        let n = self.auctions.len();
        for i in 0..n
            invariant
                n == self.auctions@.len(),
                self.wf(),
                forall|j: int| 0 <= j < i
                    ==> (#[trigger] self.auctions@[j]).status != AuctionStatus::Active,
        {
            if matches!(self.auctions[i].status, AuctionStatus::Active) {
                proof {
                    let aus = self.auctions@;
                    assert(active_auction_exists(aus));
                    let w = choose|k: int| 0 <= k < aus.len() && aus[k].status == AuctionStatus::Active;
                    if w != i as int {
                        assert(aus[w].status != AuctionStatus::Active);
                        assert(false);
                    }
                }
                return Some(self.auctions[i]);
            }
        }
        None
    }

    /// Index of the auction row with this id.
    pub fn find_auction(&self, auction_id: Id) -> (r: Option<usize>)
        requires
            self.wf(),
        ensures
            match r {
                Some(i) => i < self.auctions@.len() && self.auctions@[i as int].id == auction_id
                    && has_auction(self.auctions@, auction_id)
                    && auction_idx(self.auctions@, auction_id) == i,
                None => !has_auction(self.auctions@, auction_id),
            },
    {
        let n = self.auctions.len();
        for i in 0..n
            invariant
                n == self.auctions@.len(),
                self.wf(),
                forall|j: int| 0 <= j < i ==> self.auctions@[j].id != auction_id,
        {
            if self.auctions[i].id == auction_id {
                proof {
                    let aus = self.auctions@;
                    assert(has_auction(aus, auction_id));
                    let w = auction_idx(aus, auction_id);
                    assert(0 <= w < aus.len() && aus[w].id == auction_id);
                    if w != i as int {
                        assert(aus[w].id != aus[i as int].id);
                        assert(false);
                    }
                }
                return Some(i);
            }
        }
        None
    }

    /// Opens an auction on a property at the fixed floor bid.  Fails
    /// always, and only, while another auction is still active.
    pub fn start_auction(&mut self, property_id: Id, now: i64) -> (r: Result<Auction, Error>)
        requires
            old(self).wf(),
        ensures
            final(self).wf(),
            r is Ok <==> (!active_auction_exists(old(self).auctions@)
                && old(self).next_id < u64::MAX),
            match r {
                Ok(a) => {
                    &&& a == (Auction {
                        id: old(self).next_id,
                        game_id: old(self).id,
                        property_id,
                        current_bid: AUCTION_STARTING_BID,
                        highest_bidder_id: None,
                        status: AuctionStatus::Active,
                        created_at: now,
                        ends_at: None,
                    })
                    &&& final(self).auctions@ == old(self).auctions@.push(a)
                    &&& final(self).next_id == old(self).next_id + 1
                    &&& final(self).participants == old(self).participants
                    &&& final(self).transactions == old(self).transactions
                    &&& final(self).jackpot_balance == old(self).jackpot_balance
                    &&& final(self).participant_properties == old(self).participant_properties
                    &&& final(self).trades == old(self).trades
                    &&& Self::non_economy_fields_unchanged(*old(self), *final(self))
                },
                Err(e) => {
                    &&& *final(self) == *old(self)
                    &&& (e == Error::AuctionAlreadyActive
                        <==> active_auction_exists(old(self).auctions@))
                    &&& (e == Error::AuctionAlreadyActive || e == Error::ArithmeticLimit)
                },
            },
    {
        match self.get_active_auction() {
            Some(_) => {
                return Err(Error::AuctionAlreadyActive);
            },
            None => {},
        }
        if self.next_id == u64::MAX {
            return Err(Error::ArithmeticLimit);
        }
        let auction = Auction {
            id: self.next_id,
            game_id: self.id,
            property_id,
            current_bid: AUCTION_STARTING_BID,
            highest_bidder_id: None,
            status: AuctionStatus::Active,
            created_at: now,
            ends_at: None,
        };
        self.next_id = self.next_id + 1;
        self.auctions.push(auction);
        proof {
            assert(self.wf());
        }
        Ok(auction)
    }

    /// Raises the bid: only on an active auction, only above the
    /// current bid, and only within the bidder's balance.
    pub fn place_bid(&mut self, auction_id: Id, bidder_user_id: UserId, amount: Money) -> (r: Result<Auction, Error>)
        requires
            old(self).wf(),
        ensures
            final(self).wf(),
            r is Ok <==> ({
                let pre = *old(self);
                let aus = pre.auctions@;
                &&& has_auction(aus, auction_id)
                &&& aus[auction_idx(aus, auction_id)].status == AuctionStatus::Active
                &&& has_user(pre.participants@, bidder_user_id)
                &&& amount > aus[auction_idx(aus, auction_id)].current_bid
                &&& balance_of(pre.participants@, pre.pid_of_user(bidder_user_id)) >= amount
            }),
            match r {
                Ok(a) => {
                    let pre = *old(self);
                    let aus = pre.auctions@;
                    let k = auction_idx(aus, auction_id);
                    &&& a == (Auction {
                        current_bid: amount,
                        highest_bidder_id: Some(pre.pid_of_user(bidder_user_id)),
                        ..aus[k]
                    })
                    &&& final(self).auctions@ == aus.update(k, a)
                    &&& final(self).next_id == pre.next_id
                    &&& final(self).participants == pre.participants
                    &&& final(self).transactions == pre.transactions
                    &&& final(self).jackpot_balance == pre.jackpot_balance
                    &&& final(self).participant_properties == pre.participant_properties
                    &&& final(self).trades == pre.trades
                    &&& Self::non_economy_fields_unchanged(pre, *final(self))
                },
                Err(e) => {
                    &&& *final(self) == *old(self)
                    &&& (e == Error::AuctionNotFound
                        <==> !has_auction(old(self).auctions@, auction_id))
                    &&& (e == Error::AuctionNotFound || e == Error::AuctionNotActive
                        || e == Error::ParticipantNotFound || e == Error::BidTooLow
                        || e == Error::InsufficientFunds)
                },
            },
    {
        let k = match self.find_auction(auction_id) {
            Some(i) => i,
            None => {
                return Err(Error::AuctionNotFound);
            },
        };
        if !matches!(self.auctions[k].status, AuctionStatus::Active) {
            return Err(Error::AuctionNotActive);
        }
        let bidder_i = match self.find_participant_by_user(bidder_user_id) {
            Some(i) => i,
            None => {
                return Err(Error::ParticipantNotFound);
            },
        };
        if amount <= self.auctions[k].current_bid {
            return Err(Error::BidTooLow);
        }
        if self.participants[bidder_i].balance < amount {
            return Err(Error::InsufficientFunds);
        }
        let a = Auction {
            current_bid: amount,
            highest_bidder_id: Some(self.participants[bidder_i].id),
            ..self.auctions[k]
        };
        self.auctions[k] = a;
        proof {
            assert(self.wf());
        }
        Ok(a)
    }

    /// The whole effect of settling an auction that found a winner:
    /// the final bid is paid toward the bank through the ledger, any
    /// stale ownership of the property is displaced, and fresh
    /// ownership is recorded for the winner.
    pub open spec fn auction_settled_post(
        pre: GameSession,
        post: GameSession,
        a: Auction,
        auction_id: Id,
        now: i64,
    ) -> bool {
        let aus = pre.auctions@;
        let k = auction_idx(aus, auction_id);
        let row = aus[k];
        let w = row.highest_bidder_id.unwrap();
        let os = pre.participant_properties@;
        let fresh = (ParticipantProperty {
            id: (pre.next_id + 1) as Id,
            game_id: pre.id,
            participant_id: w,
            property_id: row.property_id,
            is_mortgaged: false,
            house_count: 0,
            hotel_count: 0,
        });
        &&& Self::ledger_effect(pre, post, Some(w), None, row.current_bid, now)
        &&& post.participant_properties@ == if property_owned(os, row.property_id) {
            os.remove(owned_idx(os, row.property_id)).push(fresh)
        } else {
            os.push(fresh)
        }
        &&& a == (Auction { status: AuctionStatus::Finished, ends_at: Some(now), ..row })
        &&& post.auctions@ == aus.update(k, a)
        &&& post.next_id == pre.next_id + 2
        &&& post.trades == pre.trades
        &&& Self::non_economy_fields_unchanged(pre, post)
    }

    /// Ends an active auction.  With a highest bidder, settlement is
    /// atomic: payment through the ledger (redirection applies), stale
    /// ownership displaced, fresh ownership for the winner.  With no
    /// bids the property stays unowned; the auction is finished either
    /// way.
    pub fn end_auction(&mut self, auction_id: Id, now: i64) -> (r: Result<Auction, Error>)
        requires
            old(self).wf(),
        ensures
            final(self).wf(),
            r is Ok <==> ({
                let pre = *old(self);
                let aus = pre.auctions@;
                &&& has_auction(aus, auction_id)
                &&& aus[auction_idx(aus, auction_id)].status == AuctionStatus::Active
                &&& match aus[auction_idx(aus, auction_id)].highest_bidder_id {
                    Some(w) => pre.next_id + 2 <= u64::MAX
                        && !pre.transfer_missing_participant(Some(w), None)
                        && pre.transfer_fits(Some(w), None,
                            aus[auction_idx(aus, auction_id)].current_bid),
                    None => true,
                }
            }),
            match r {
                Ok(a) => {
                    let pre = *old(self);
                    let aus = pre.auctions@;
                    let k = auction_idx(aus, auction_id);
                    if aus[k].highest_bidder_id is Some {
                        Self::auction_settled_post(pre, *final(self), a, auction_id, now)
                    } else {
                        &&& a == (Auction { status: AuctionStatus::Finished, ends_at: Some(now), ..aus[k] })
                        &&& final(self).auctions@ == aus.update(k, a)
                        &&& final(self).participants == pre.participants
                        &&& final(self).transactions == pre.transactions
                        &&& final(self).jackpot_balance == pre.jackpot_balance
                        &&& final(self).participant_properties == pre.participant_properties
                        &&& final(self).next_id == pre.next_id
                        &&& final(self).trades == pre.trades
                        &&& Self::non_economy_fields_unchanged(pre, *final(self))
                    }
                },
                Err(e) => {
                    &&& *final(self) == *old(self)
                    &&& (e == Error::AuctionNotFound
                        <==> !has_auction(old(self).auctions@, auction_id))
                    &&& (e == Error::AuctionNotFound || e == Error::AuctionNotActive
                        || e == Error::ParticipantNotFound || e == Error::ArithmeticLimit)
                },
            },
    {
        let ghost pre = *self;
        let k = match self.find_auction(auction_id) {
            Some(i) => i,
            None => {
                return Err(Error::AuctionNotFound);
            },
        };
        if !matches!(self.auctions[k].status, AuctionStatus::Active) {
            return Err(Error::AuctionNotActive);
        }
        let row = self.auctions[k];
        match row.highest_bidder_id {
            Some(winner_pid) => {
                if self.next_id >= u64::MAX - 1 {
                    return Err(Error::ArithmeticLimit);
                }
                match self.transfer(Some(winner_pid), None, row.current_bid,
                        Some("Won Auction".to_owned()), now) {
                    Ok(_) => {},
                    Err(e) => {
                        return Err(e);
                    },
                }
                // Displace any stale ownership of the property, then
                // record the winner's fresh, building-free ownership.
                match self.find_ownership(row.property_id) {
                    Some(oi) => {
                        self.participant_properties.remove(oi);
                        proof {
                            let os0 = pre.participant_properties@;
                            let os1 = self.participant_properties@;
                            assert forall|i: int| 0 <= i < os1.len()
                                implies (#[trigger] os1[i]).property_id != row.property_id
                            by {
                                let oi0 = if i < oi as int { i } else { i + 1 };
                                assert(os1[i] == os0[oi0]);
                                if oi0 != oi as int {
                                    assert(os0[oi0].property_id != os0[oi as int].property_id);
                                }
                            }
                        }
                    },
                    None => {},
                }
                let fresh = ParticipantProperty {
                    id: self.next_id,
                    game_id: self.id,
                    participant_id: winner_pid,
                    property_id: row.property_id,
                    is_mortgaged: false,
                    house_count: 0,
                    hotel_count: 0,
                };
                self.next_id = self.next_id + 1;
                self.participant_properties.push(fresh);
            },
            None => {},
        }
        let a = Auction {
            status: AuctionStatus::Finished,
            ends_at: Some(now),
            ..row
        };
        self.auctions[k] = a;
        proof {
            assert(self.wf());
        }
        Ok(a)
    }
}

} // verus!
