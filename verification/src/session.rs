//! The game session aggregate: one value holding everything a game owns,
//! with the well-formedness invariant every operation preserves.

use vstd::prelude::*;
use crate::types::{Id, Money, UserId, GameStatus, MARKET_SLOTS, BOARD_SIZE};
use crate::entities::{
    Participant, Transaction, Card, CardType, ParticipantCard, CardUsageHistory,
    Property, ParticipantProperty, Auction, AuctionStatus, Trade,
};

verus! {

// ---------------------------------------------------------------------
// Specification helpers over the owned collections
// ---------------------------------------------------------------------

/// Do all participant rows carry distinct participant ids?
pub open spec fn unique_pids(ps: Seq<Participant>) -> bool {
    forall|i: int, j: int|
        0 <= i < ps.len() && 0 <= j < ps.len() && i != j ==> ps[i].id != ps[j].id
}

/// Is some participant row carrying this participant id?
pub open spec fn has_pid(ps: Seq<Participant>, pid: Id) -> bool {
    exists|i: int| 0 <= i < ps.len() && ps[i].id == pid
}

/// The index of the participant row with this id (unique under `wf`).
pub open spec fn pidx(ps: Seq<Participant>, pid: Id) -> int {
    choose|i: int| 0 <= i < ps.len() && ps[i].id == pid
}

/// Is some participant row carrying this user id?
pub open spec fn has_user(ps: Seq<Participant>, uid: UserId) -> bool {
    exists|i: int| 0 <= i < ps.len() && ps[i].user_id == uid
}

/// The index of the participant row with this user id (unique under `wf`).
pub open spec fn uidx(ps: Seq<Participant>, uid: UserId) -> int {
    choose|i: int| 0 <= i < ps.len() && ps[i].user_id == uid
}

/// The balance of the participant with this id.
pub open spec fn balance_of(ps: Seq<Participant>, pid: Id) -> int {
    ps[pidx(ps, pid)].balance as int
}

/// The sum of all participant balances.
pub open spec fn sum_balances(ps: Seq<Participant>) -> int
    decreases ps.len(),
{
    if ps.len() == 0 {
        0
    } else {
        ps[0].balance + sum_balances(ps.drop_first())
    }
}

/// How a single money movement changes one participant's balance:
/// debited if they are the `from` side, credited if they are the `to`
/// side (both, netting to zero, if the sides coincide).
pub open spec fn participant_delta(p: Participant, from: Option<Id>, to: Option<Id>, amount: int) -> int {
    (if from == Some(p.id) { -amount } else { 0 }) + (if to == Some(p.id) { amount } else { 0 })
}

/// Is some catalog card carrying this id?
pub open spec fn has_card(cards: Seq<Card>, cid: Id) -> bool {
    exists|i: int| 0 <= i < cards.len() && cards[i].id == cid
}

/// The catalog card with this id (unique under `wf`).
pub open spec fn card_of(cards: Seq<Card>, cid: Id) -> Card {
    cards[choose|i: int| 0 <= i < cards.len() && cards[i].id == cid]
}

/// Does the inventory row reference a catalog card with this title?
pub open spec fn row_matches_title(row: ParticipantCard, cards: Seq<Card>, title: Seq<char>) -> bool {
    has_card(cards, row.card_id) && card_of(cards, row.card_id).title@ == title
}

/// The participant holding the first inventory row whose card carries
/// this title, if any.  This is the single capability every "owner of
/// power card X" lookup goes through.
pub open spec fn owner_of_title_spec(rows: Seq<ParticipantCard>, cards: Seq<Card>, title: Seq<char>) -> Option<Id>
    decreases rows.len(),
{
    if rows.len() == 0 {
        None
    } else if row_matches_title(rows[0], cards, title) {
        Some(rows[0].participant_id)
    } else {
        owner_of_title_spec(rows.drop_first(), cards, title)
    }
}

/// Is some property catalog row carrying this id?
pub open spec fn has_property(props: Seq<Property>, prop_id: Id) -> bool {
    exists|i: int| 0 <= i < props.len() && props[i].id == prop_id
}

/// The property catalog row with this id (unique under `wf`).
pub open spec fn property_of(props: Seq<Property>, prop_id: Id) -> Property {
    props[choose|i: int| 0 <= i < props.len() && props[i].id == prop_id]
}

/// Is this property owned by anyone in the game?
pub open spec fn property_owned(owned: Seq<ParticipantProperty>, prop_id: Id) -> bool {
    exists|i: int| 0 <= i < owned.len() && owned[i].property_id == prop_id
}

/// The index of the ownership record of this property (unique under `wf`).
pub open spec fn owned_idx(owned: Seq<ParticipantProperty>, prop_id: Id) -> int {
    choose|i: int| 0 <= i < owned.len() && owned[i].property_id == prop_id
}

/// Is this card id standing in some market slot?
pub open spec fn in_market(market: Seq<Option<Id>>, cid: Id) -> bool {
    exists|i: int| 0 <= i < market.len() && market[i] == Some(cid)
}

/// Is this card id held in some inventory row?
pub open spec fn in_inventory(rows: Seq<ParticipantCard>, cid: Id) -> bool {
    exists|i: int| 0 <= i < rows.len() && rows[i].card_id == cid
}

// ---------------------------------------------------------------------
// The aggregate
// ---------------------------------------------------------------------

/// One game session with everything it owns.  The persistence boundary
/// loads a value of this type, applies one operation, and stores the
/// result atomically; concurrency control (row locks, isolation) lives
/// there, outside this crate.
#[derive(Debug, Clone, PartialEq)]
pub struct GameSession {
    pub id: Id,
    /// Join code, four characters.
    pub code: String,
    pub host_user_id: UserId,
    pub name: String,
    pub status: GameStatus,
    /// Non-negative; fed by payments to the bank, emptied by claims.
    pub jackpot_balance: Money,
    pub current_turn_user_id: Option<UserId>,
    /// Set once when the game starts.
    pub turn_order: Option<Vec<UserId>>,
    pub participants: Vec<Participant>,
    pub transactions: Vec<Transaction>,
    /// Immutable card catalog (shared reference data).
    pub cards: Vec<Card>,
    /// Card ids already drawn from the arca/fortuna decks.
    pub drawn_cards: Vec<Id>,
    /// The three boveda market slots.
    pub market: Vec<Option<Id>>,
    /// Inventory rows: cards held by participants.
    pub participant_cards: Vec<ParticipantCard>,
    pub card_usage: Vec<CardUsageHistory>,
    /// Immutable property catalog (shared reference data).
    pub properties: Vec<Property>,
    /// Per-game property ownership records.
    pub participant_properties: Vec<ParticipantProperty>,
    pub auctions: Vec<Auction>,
    pub trades: Vec<Trade>,
    /// Source of fresh identifiers: above every id this session owns.
    pub next_id: Id,
}

/// Is the card catalog well-formed?  Ids are unique; costs are
/// non-negative; action values are positive.
pub open spec fn cards_catalog_wf(cards: Seq<Card>) -> bool {
    &&& forall|i: int, j: int|
        0 <= i < cards.len() && 0 <= j < cards.len() && i != j ==> cards[i].id != cards[j].id
    &&& forall|i: int| 0 <= i < cards.len() ==> match #[trigger] cards[i].cost {
        Some(c) => c >= 0,
        None => true,
    }
    &&& forall|i: int| 0 <= i < cards.len() ==> match #[trigger] cards[i].action_value {
        Some(v) => v > 0,
        None => true,
    }
}

/// Is the property catalog well-formed?  Ids are unique; prices and
/// mortgage amounts are non-negative; building costs are positive.
pub open spec fn properties_catalog_wf(props: Seq<Property>) -> bool {
    &&& forall|i: int, j: int|
        0 <= i < props.len() && 0 <= j < props.len() && i != j ==> props[i].id != props[j].id
    &&& forall|i: int| 0 <= i < props.len() ==> (#[trigger] props[i]).price >= 0
    &&& forall|i: int| 0 <= i < props.len() ==> (#[trigger] props[i]).mortgage_value >= 0
    &&& forall|i: int| 0 <= i < props.len() ==> (#[trigger] props[i]).unmortgage_cost >= 0
    &&& forall|i: int| 0 <= i < props.len() ==> match #[trigger] props[i].house_cost {
        Some(c) => c > 0,
        None => true,
    }
    &&& forall|i: int| 0 <= i < props.len() ==> match #[trigger] props[i].hotel_cost {
        Some(c) => c > 0,
        None => true,
    }
}

impl GameSession {
    /// Participant rows: unique ids, unique users, positions on the board.
    pub open spec fn participants_wf(&self) -> bool {
        let ps = self.participants@;
        &&& unique_pids(ps)
        &&& forall|i: int, j: int|
            0 <= i < ps.len() && 0 <= j < ps.len() && i != j ==> ps[i].user_id != ps[j].user_id
        &&& forall|i: int| 0 <= i < ps.len() ==> (#[trigger] ps[i]).game_id == self.id
        &&& forall|i: int| 0 <= i < ps.len() ==> 0 <= (#[trigger] ps[i]).position < BOARD_SIZE
    }

    /// Ledger rows: unique ids, non-negative amounts, at least one side.
    pub open spec fn transactions_wf(&self) -> bool {
        let ts = self.transactions@;
        &&& forall|i: int, j: int|
            0 <= i < ts.len() && 0 <= j < ts.len() && i != j ==> ts[i].id != ts[j].id
        &&& forall|i: int| 0 <= i < ts.len() ==> (#[trigger] ts[i]).amount >= 0
        &&& forall|i: int| 0 <= i < ts.len()
            ==> (#[trigger] ts[i]).from_participant_id is Some || ts[i].to_participant_id is Some
        &&& forall|i: int| 0 <= i < ts.len() ==> (#[trigger] ts[i]).game_id == self.id
    }

    /// Market slots: exactly three, holding distinct boveda catalog cards.
    pub open spec fn market_wf(&self) -> bool {
        let m = self.market@;
        &&& m.len() == MARKET_SLOTS
        &&& forall|i: int| 0 <= i < m.len() ==> match #[trigger] m[i] {
            Some(cid) => has_card(self.cards@, cid) && card_of(self.cards@, cid).type_ == CardType::Boveda,
            None => true,
        }
        &&& forall|i: int, j: int|
            0 <= i < m.len() && 0 <= j < m.len() && i != j && m[i] is Some ==> m[i] != m[j]
    }

    /// Inventory rows have unique ids and reference catalog cards.
    pub open spec fn inventory_wf(&self) -> bool {
        let rows = self.participant_cards@;
        &&& forall|i: int, j: int|
            0 <= i < rows.len() && 0 <= j < rows.len() && i != j ==> rows[i].id != rows[j].id
        &&& forall|i: int| 0 <= i < rows.len()
            ==> has_card(self.cards@, (#[trigger] rows[i]).card_id)
    }

    /// Global per-game uniqueness of ownable boveda cards: no boveda card
    /// id stands both in the market and in an inventory row, in two
    /// market slots, or in two inventory rows.
    pub open spec fn boveda_unique(&self) -> bool {
        let rows = self.participant_cards@;
        &&& forall|i: int| 0 <= i < rows.len() ==> !in_market(self.market@, (#[trigger] rows[i]).card_id)
        &&& forall|i: int, j: int|
            0 <= i < rows.len() && 0 <= j < rows.len() && i != j
                && has_card(self.cards@, rows[i].card_id)
                && card_of(self.cards@, rows[i].card_id).type_ == CardType::Boveda
            ==> rows[i].card_id != rows[j].card_id
    }

    /// Drawn-card ids are distinct (the claim table's primary key).
    pub open spec fn drawn_wf(&self) -> bool {
        let d = self.drawn_cards@;
        forall|i: int, j: int| 0 <= i < d.len() && 0 <= j < d.len() && i != j ==> d[i] != d[j]
    }

    /// Usage log rows have unique ids.
    pub open spec fn usage_wf(&self) -> bool {
        let us = self.card_usage@;
        forall|i: int, j: int|
            0 <= i < us.len() && 0 <= j < us.len() && i != j ==> us[i].id != us[j].id
    }

    /// Ownership records: unique ids, at most one record per property,
    /// and the house/hotel progression bounds.
    pub open spec fn owned_wf(&self) -> bool {
        let os = self.participant_properties@;
        &&& forall|i: int, j: int|
            0 <= i < os.len() && 0 <= j < os.len() && i != j ==> os[i].id != os[j].id
        &&& forall|i: int, j: int|
            0 <= i < os.len() && 0 <= j < os.len() && i != j ==> os[i].property_id != os[j].property_id
        &&& forall|i: int| 0 <= i < os.len() ==> 0 <= (#[trigger] os[i]).house_count <= 4
        &&& forall|i: int| 0 <= i < os.len() ==> 0 <= (#[trigger] os[i]).hotel_count <= 1
        &&& forall|i: int| 0 <= i < os.len() ==> ((#[trigger] os[i]).hotel_count > 0 ==> os[i].house_count == 0)
        &&& forall|i: int| 0 <= i < os.len() ==> (#[trigger] os[i]).game_id == self.id
    }

    /// Auctions: unique ids, non-negative bids, and at most one active.
    pub open spec fn auctions_wf(&self) -> bool {
        let aus = self.auctions@;
        &&& forall|i: int, j: int|
            0 <= i < aus.len() && 0 <= j < aus.len() && i != j ==> aus[i].id != aus[j].id
        &&& forall|i: int| 0 <= i < aus.len() ==> (#[trigger] aus[i]).current_bid >= 0
        &&& forall|i: int, j: int|
            0 <= i < aus.len() && 0 <= j < aus.len() && i != j
                && aus[i].status == AuctionStatus::Active ==> aus[j].status != AuctionStatus::Active
        &&& forall|i: int| 0 <= i < aus.len() ==> (#[trigger] aus[i]).game_id == self.id
    }

    /// Trades: unique ids and non-negative cash legs.
    pub open spec fn trades_wf(&self) -> bool {
        let ts = self.trades@;
        &&& forall|i: int, j: int|
            0 <= i < ts.len() && 0 <= j < ts.len() && i != j ==> ts[i].id != ts[j].id
        &&& forall|i: int| 0 <= i < ts.len() ==> (#[trigger] ts[i]).offer_cash >= 0
        &&& forall|i: int| 0 <= i < ts.len() ==> (#[trigger] ts[i]).request_cash >= 0
        &&& forall|i: int| 0 <= i < ts.len() ==> (#[trigger] ts[i]).game_id == self.id
    }

    /// Every id this session has handed out lies below `next_id`.
    pub open spec fn ids_wf(&self) -> bool {
        &&& forall|i: int| 0 <= i < self.participants@.len()
            ==> (#[trigger] self.participants@[i]).id < self.next_id
        &&& forall|i: int| 0 <= i < self.transactions@.len()
            ==> (#[trigger] self.transactions@[i]).id < self.next_id
        &&& forall|i: int| 0 <= i < self.participant_cards@.len()
            ==> (#[trigger] self.participant_cards@[i]).id < self.next_id
        &&& forall|i: int| 0 <= i < self.card_usage@.len()
            ==> (#[trigger] self.card_usage@[i]).id < self.next_id
        &&& forall|i: int| 0 <= i < self.participant_properties@.len()
            ==> (#[trigger] self.participant_properties@[i]).id < self.next_id
        &&& forall|i: int| 0 <= i < self.auctions@.len()
            ==> (#[trigger] self.auctions@[i]).id < self.next_id
        &&& forall|i: int| 0 <= i < self.trades@.len()
            ==> (#[trigger] self.trades@[i]).id < self.next_id
    }

    /// The stored turn order, if any, is never empty and lists each
    /// user at most once.
    pub open spec fn turn_wf(&self) -> bool {
        match self.turn_order {
            Some(o) => o@.len() > 0 && (forall|i: int, j: int|
                0 <= i < o@.len() && 0 <= j < o@.len() && i != j ==> o@[i] != o@[j]),
            None => true,
        }
    }

    /// The whole well-formedness invariant: established by
    /// `create_game`, preserved by every operation.
    pub open spec fn wf(&self) -> bool {
        &&& self.participants_wf()
        &&& self.transactions_wf()
        &&& cards_catalog_wf(self.cards@)
        &&& properties_catalog_wf(self.properties@)
        &&& self.market_wf()
        &&& self.inventory_wf()
        &&& self.boveda_unique()
        &&& self.drawn_wf()
        &&& self.usage_wf()
        &&& self.owned_wf()
        &&& self.auctions_wf()
        &&& self.trades_wf()
        &&& self.ids_wf()
        &&& self.turn_wf()
        &&& self.jackpot_balance >= 0
    }

    /// Everything outside the money-and-ownership economy: fields no
    /// ledger-driven operation may touch.
    pub open spec fn non_economy_fields_unchanged(pre: GameSession, post: GameSession) -> bool {
        &&& post.id == pre.id
        &&& post.code == pre.code
        &&& post.host_user_id == pre.host_user_id
        &&& post.name == pre.name
        &&& post.status == pre.status
        &&& post.current_turn_user_id == pre.current_turn_user_id
        &&& post.turn_order == pre.turn_order
        &&& post.cards == pre.cards
        &&& post.properties == pre.properties
        &&& post.drawn_cards == pre.drawn_cards
        &&& post.market == pre.market
        &&& post.participant_cards == pre.participant_cards
        &&& post.card_usage == pre.card_usage
    }

    /// The participant, if any, holding the "El Banco" power card.
    pub open spec fn bank_owner_spec(&self) -> Option<Id> {
        owner_of_title_spec(self.participant_cards@, self.cards@, "El Banco"@)
    }

    /// The participant, if any, holding the "La Boveda" power card.
    pub open spec fn vault_owner_spec(&self) -> Option<Id> {
        owner_of_title_spec(self.participant_cards@, self.cards@, "La Boveda"@)
    }
}

// ---------------------------------------------------------------------
// Executable lookups, each tied to its specification
// ---------------------------------------------------------------------

impl GameSession {
    /// Index of the participant row with this participant id.
    pub fn find_participant_by_id(&self, pid: Id) -> (r: Option<usize>)
        requires
            self.wf(),
        ensures
            match r {
                Some(i) => i < self.participants@.len() && self.participants@[i as int].id == pid
                    && has_pid(self.participants@, pid) && pidx(self.participants@, pid) == i,
                None => !has_pid(self.participants@, pid),
            },
    {
        let n = self.participants.len();
        for i in 0..n
            invariant
                n == self.participants.len(),
                forall|j: int| 0 <= j < i ==> self.participants@[j].id != pid,
                self.wf(),
        {
            if self.participants[i].id == pid {
                proof {
                    let ps = self.participants@;
                    assert(has_pid(ps, pid));
                    let w = pidx(ps, pid);
                    assert(0 <= w < ps.len() && ps[w].id == pid);
                    if w != i as int {
                        assert(ps[w].id != ps[i as int].id);
                        assert(false);
                    }
                }
                return Some(i);
            }
        }
        None
    }

    /// Index of the participant row with this user id.
    pub fn find_participant_by_user(&self, uid: UserId) -> (r: Option<usize>)
        requires
            self.wf(),
        ensures
            match r {
                Some(i) => i < self.participants@.len() && self.participants@[i as int].user_id == uid
                    && has_user(self.participants@, uid) && uidx(self.participants@, uid) == i,
                None => !has_user(self.participants@, uid),
            },
    {
        let n = self.participants.len();
        for i in 0..n
            invariant
                n == self.participants.len(),
                forall|j: int| 0 <= j < i ==> self.participants@[j].user_id != uid,
                self.wf(),
        {
            if self.participants[i].user_id == uid {
                proof {
                    let ps = self.participants@;
                    assert(has_user(ps, uid));
                    let w = uidx(ps, uid);
                    assert(0 <= w < ps.len() && ps[w].user_id == uid);
                    if w != i as int {
                        assert(ps[w].user_id != ps[i as int].user_id);
                        assert(false);
                    }
                }
                return Some(i);
            }
        }
        None
    }

    /// Index of the catalog card with this id.
    pub fn find_card(&self, cid: Id) -> (r: Option<usize>)
        requires
            cards_catalog_wf(self.cards@),
        ensures
            match r {
                Some(i) => i < self.cards@.len() && self.cards@[i as int].id == cid
                    && has_card(self.cards@, cid) && card_of(self.cards@, cid) == self.cards@[i as int],
                None => !has_card(self.cards@, cid),
            },
    {
        let n = self.cards.len();
        for i in 0..n
            invariant
                n == self.cards.len(),
                forall|j: int| 0 <= j < i ==> self.cards@[j].id != cid,
                cards_catalog_wf(self.cards@),
        {
            if self.cards[i].id == cid {
                proof {
                    let cs = self.cards@;
                    assert(has_card(cs, cid));
                    let w = choose|k: int| 0 <= k < cs.len() && cs[k].id == cid;
                    assert(0 <= w < cs.len() && cs[w].id == cid);
                    if w != i as int {
                        assert(cs[w].id != cs[i as int].id);
                        assert(false);
                    }
                }
                return Some(i);
            }
        }
        None
    }

    /// Index of the property catalog row with this id.
    pub fn find_property(&self, prop_id: Id) -> (r: Option<usize>)
        requires
            properties_catalog_wf(self.properties@),
        ensures
            match r {
                Some(i) => i < self.properties@.len() && self.properties@[i as int].id == prop_id
                    && has_property(self.properties@, prop_id)
                    && property_of(self.properties@, prop_id) == self.properties@[i as int],
                None => !has_property(self.properties@, prop_id),
            },
    {
        let n = self.properties.len();
        for i in 0..n
            invariant
                n == self.properties.len(),
                forall|j: int| 0 <= j < i ==> self.properties@[j].id != prop_id,
                properties_catalog_wf(self.properties@),
        {
            if self.properties[i].id == prop_id {
                proof {
                    let pr = self.properties@;
                    assert(has_property(pr, prop_id));
                    let w = choose|k: int| 0 <= k < pr.len() && pr[k].id == prop_id;
                    assert(0 <= w < pr.len() && pr[w].id == prop_id);
                    if w != i as int {
                        assert(pr[w].id != pr[i as int].id);
                        assert(false);
                    }
                }
                return Some(i);
            }
        }
        None
    }

    /// Index of the ownership record for this property, if any.
    pub fn find_ownership(&self, prop_id: Id) -> (r: Option<usize>)
        requires
            self.wf(),
        ensures
            match r {
                Some(i) => i < self.participant_properties@.len()
                    && self.participant_properties@[i as int].property_id == prop_id
                    && property_owned(self.participant_properties@, prop_id)
                    && owned_idx(self.participant_properties@, prop_id) == i,
                None => !property_owned(self.participant_properties@, prop_id),
            },
    {
        let n = self.participant_properties.len();
        for i in 0..n
            invariant
                n == self.participant_properties.len(),
                forall|j: int| 0 <= j < i ==> self.participant_properties@[j].property_id != prop_id,
                self.wf(),
        {
            if self.participant_properties[i].property_id == prop_id {
                proof {
                    let os = self.participant_properties@;
                    assert(property_owned(os, prop_id));
                    let w = owned_idx(os, prop_id);
                    assert(0 <= w < os.len() && os[w].property_id == prop_id);
                    if w != i as int {
                        assert(os[w].property_id != os[i as int].property_id);
                        assert(false);
                    }
                }
                return Some(i);
            }
        }
        None
    }
}

} // verus!
