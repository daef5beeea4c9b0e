//! The card system: draw-without-replacement decks with reshuffle,
//! the three-slot boveda market with per-game uniqueness, inventories,
//! and special peer-to-peer card actions.

use vstd::prelude::*;
use crate::types::{Id, Money, UserId, Error};
use crate::entities::{
    Card, CardType, CardAction, ParticipantCard, GameBovedaMarket, CardUsageHistory,
    SpecialAction,
};
use crate::session::{
    GameSession, has_user, has_card, card_of, in_market, in_inventory,
};
use crate::ledger::clone_opt_string;
use crate::rand_source::random_below;

verus! {

/// Clones an optional text field.
fn clone_string(s: &String) -> (r: String)
    ensures
        r == *s,
{
    s.clone()
}

impl Clone for Card {
    /// Clones the catalog card, field for field.
    fn clone(&self) -> (r: Self)
        ensures
            r == *self,
    {
        Card {
            id: self.id,
            type_: self.type_,
            title: clone_string(&self.title),
            description: clone_string(&self.description),
            cost: self.cost,
            color: clone_opt_string(&self.color),
            action_type: self.action_type,
            action_value: self.action_value,
        }
    }
}

/// Is this id a catalog card of the given deck?
pub open spec fn card_type_is(cards: Seq<Card>, cid: Id, t: CardType) -> bool {
    has_card(cards, cid) && card_of(cards, cid).type_ == t
}

/// Does the catalog hold any card of this deck?
pub open spec fn deck_nonempty(cards: Seq<Card>, t: CardType) -> bool {
    exists|i: int| 0 <= i < cards.len() && cards[i].type_ == t
}

/// Has every card of this deck been drawn in this game?
pub open spec fn deck_exhausted(cards: Seq<Card>, drawn: Seq<Id>, t: CardType) -> bool {
    forall|i: int| 0 <= i < cards.len() && (#[trigger] cards[i]).type_ == t
        ==> drawn.contains(cards[i].id)
}

impl GameSession {
    /// What remains marked drawn after a draw of deck `t` that found
    /// card `c`: on a reshuffle the deck's own marks are cleared first.
    pub open spec fn drawn_after(pre: GameSession, t: CardType, c: Card) -> Seq<Id> {
        let kept = if deck_exhausted(pre.cards@, pre.drawn_cards@, t) {
            pre.drawn_cards@.filter(|cid: Id| !card_type_is(pre.cards@, cid, t))
        } else {
            pre.drawn_cards@
        };
        kept.push(c.id)
    }

    /// The whole effect of a successful draw, whatever card the random
    /// pick found.
    pub open spec fn draw_post(
        pre: GameSession,
        post: GameSession,
        c: Card,
        user_id: UserId,
        t: CardType,
        now: i64,
    ) -> bool {
        let me = pre.pid_of_user(user_id);
        &&& has_card(pre.cards@, c.id)
        &&& card_of(pre.cards@, c.id) == c
        &&& c.type_ == t
        &&& (!deck_exhausted(pre.cards@, pre.drawn_cards@, t) ==> !pre.drawn_cards@.contains(c.id))
        &&& post.drawn_cards@ == Self::drawn_after(pre, t, c)
        &&& match c.action_type {
            Some(CardAction::Keep) => {
                &&& post.participant_cards@ == pre.participant_cards@.push(
                    (ParticipantCard { id: pre.next_id, participant_id: me, card_id: c.id }))
                &&& post.participants == pre.participants
                &&& post.transactions == pre.transactions
                &&& post.jackpot_balance == pre.jackpot_balance
                &&& post.next_id == pre.next_id + 1
            },
            Some(CardAction::ReceiveBank) => {
                &&& post.participant_cards == pre.participant_cards
                &&& match c.action_value {
                    Some(v) => Self::ledger_effect(pre, post, None, Some(me), v, now)
                        && post.next_id == pre.next_id + 1,
                    None => post.participants == pre.participants
                        && post.transactions == pre.transactions
                        && post.jackpot_balance == pre.jackpot_balance
                        && post.next_id == pre.next_id,
                }
            },
            Some(CardAction::PayBank) => {
                &&& post.participant_cards == pre.participant_cards
                &&& match c.action_value {
                    Some(v) => Self::ledger_effect(pre, post, Some(me), None, v, now)
                        && post.next_id == pre.next_id + 1,
                    None => post.participants == pre.participants
                        && post.transactions == pre.transactions
                        && post.jackpot_balance == pre.jackpot_balance
                        && post.next_id == pre.next_id,
                }
            },
            None => {
                &&& post.participant_cards == pre.participant_cards
                &&& post.participants == pre.participants
                &&& post.transactions == pre.transactions
                &&& post.jackpot_balance == pre.jackpot_balance
                &&& post.next_id == pre.next_id
            },
        }
        &&& post.id == pre.id
        &&& post.code == pre.code
        &&& post.host_user_id == pre.host_user_id
        &&& post.name == pre.name
        &&& post.status == pre.status
        &&& post.current_turn_user_id == pre.current_turn_user_id
        &&& post.turn_order == pre.turn_order
        &&& post.cards == pre.cards
        &&& post.market == pre.market
        &&& post.card_usage == pre.card_usage
        &&& post.properties == pre.properties
        &&& post.participant_properties == pre.participant_properties
        &&& post.auctions == pre.auctions
        &&& post.trades == pre.trades
    }

    /// Draws a card from the arca or fortuna deck: a uniform pick from
    /// the cards of that deck not yet drawn in this game; once the deck
    /// is used up its marks are cleared first (reshuffle), so a draw
    /// succeeds whenever the deck exists at all.  A "keep" card goes to
    /// the drawer's inventory; a bank action is settled through the
    /// ledger at once, labelled with the card's title.
    #[verifier::rlimit(100)]
    pub fn draw_card(&mut self, user_id: UserId, card_type: CardType, now: i64) -> (r: Result<Card, Error>)
        requires
            old(self).wf(),
            card_type != CardType::Boveda,
        ensures
            final(self).wf(),
            match r {
                Ok(c) => Self::draw_post(*old(self), *final(self), c, user_id, card_type, now),
                Err(e) => {
                    &&& *final(self) == *old(self)
                    &&& (e == Error::EmptyDeck <==> !deck_nonempty(old(self).cards@, card_type))
                    &&& (e == Error::ParticipantNotFound ==> deck_nonempty(old(self).cards@, card_type))
                    &&& (e == Error::EmptyDeck || e == Error::ParticipantNotFound
                        || e == Error::ArithmeticLimit)
                },
            },
            (!deck_nonempty(old(self).cards@, card_type) ==> r == Err::<Card, Error>(Error::EmptyDeck)),
            (deck_nonempty(old(self).cards@, card_type)
                && !has_user(old(self).participants@, user_id)
                ==> r == Err::<Card, Error>(Error::ParticipantNotFound)),
            ({
                let pre = *old(self);
                deck_nonempty(pre.cards@, card_type)
                    && has_user(pre.participants@, user_id)
                    && pre.next_id + 2 <= u64::MAX
                    && (forall|i: int| 0 <= i < pre.cards@.len()
                        && (#[trigger] pre.cards@[i]).type_ == card_type
                        ==> pre.cards@[i].action_type == Option::<CardAction>::None
                            || pre.cards@[i].action_type == Some(CardAction::Keep))
            } ==> r is Ok),
    {
        let ghost pre = *self;

        // The deck must exist at all.
        let mut any_of_type = false;
        let mut exhausted = true;
        let mut avail: Vec<usize> = Vec::new();
        let mut all_t: Vec<usize> = Vec::new();
        let n = self.cards.len();
        for i in 0..n
            invariant
                *self == pre,
                pre.wf(),
                n == self.cards@.len(),
                any_of_type <==> exists|j: int| 0 <= j < i && self.cards@[j].type_ == card_type,
                exhausted <==> (forall|j: int| 0 <= j < i
                    && (#[trigger] self.cards@[j]).type_ == card_type
                    ==> self.drawn_cards@.contains(self.cards@[j].id)),
                all_t@.len() <= i,
                avail@.len() <= i,
                forall|k: int| 0 <= k < all_t@.len()
                    ==> (#[trigger] all_t@[k]) < n && self.cards@[all_t@[k] as int].type_ == card_type,
                forall|k: int| 0 <= k < avail@.len()
                    ==> (#[trigger] avail@[k]) < n && self.cards@[avail@[k] as int].type_ == card_type
                        && !self.drawn_cards@.contains(self.cards@[avail@[k] as int].id),
                avail@.len() > 0 ==> any_of_type && !exhausted,
                (any_of_type && !exhausted) ==> avail@.len() > 0,
                any_of_type ==> all_t@.len() > 0,
        {
            if matches!(self.cards[i].type_, CardType::Arca) == matches!(card_type, CardType::Arca)
                && matches!(self.cards[i].type_, CardType::Fortuna) == matches!(card_type, CardType::Fortuna)
                && matches!(self.cards[i].type_, CardType::Boveda) == matches!(card_type, CardType::Boveda)
            {
                any_of_type = true;
                all_t.push(i);
                let cid = self.cards[i].id;
                if !self.drawn_contains(cid) {
                    exhausted = false;
                    avail.push(i);
                }
            }
        }
        if !any_of_type {
            return Err(Error::EmptyDeck);
        }
        let me_i = match self.find_participant_by_user(user_id) {
            Some(i) => i,
            None => {
                return Err(Error::ParticipantNotFound);
            },
        };
        let me = self.participants[me_i].id;
        if self.next_id >= u64::MAX - 1 {
            return Err(Error::ArithmeticLimit);
        }

        // Pick uniformly among what the deck still offers; reshuffle
        // first if it is used up.
        let chosen_ci: usize;
        if avail.len() == 0 {
            let d = random_below(all_t.len() as u64);
            chosen_ci = all_t[d as usize];
        } else {
            let d = random_below(avail.len() as u64);
            chosen_ci = avail[d as usize];
        }
        let card = self.cards[chosen_ci].clone();
        proof {
            assert(has_card(pre.cards@, card.id) && card_of(pre.cards@, card.id) == card) by {
                let cs = pre.cards@;
                assert(cs[chosen_ci as int].id == card.id);
                assert(has_card(cs, card.id));
                let w = choose|k: int| 0 <= k < cs.len() && cs[k].id == card.id;
                if w != chosen_ci as int {
                    assert(cs[w].id != cs[chosen_ci as int].id);
                    assert(false);
                }
            }
            if avail@.len() > 0 {
                assert(!pre.drawn_cards@.contains(card.id));
            } else {
                assert(deck_exhausted(pre.cards@, pre.drawn_cards@, card_type));
            }
        }

        // Settle any bank action through the ledger before any state
        // is marked, so an arithmetic refusal leaves nothing half done.
        let is_pay = matches!(card.action_type, Some(CardAction::PayBank));
        let is_receive = matches!(card.action_type, Some(CardAction::ReceiveBank));
        if is_pay || is_receive {
            if let Some(v) = card.action_value {
                let from = if is_pay { Some(me) } else { None };
                let to = if is_receive { Some(me) } else { None };
                match self.transfer(from, to, v, Some(clone_string(&card.title)), now) {
                    Ok(_) => {},
                    Err(e) => {
                        return Err(e);
                    },
                }
            }
        }

        // A keepable card goes straight to the drawer's inventory.
        if matches!(card.action_type, Some(CardAction::Keep)) {
            let row = ParticipantCard {
                id: self.next_id,
                participant_id: me,
                card_id: card.id,
            };
            self.next_id = self.next_id + 1;
            self.participant_cards.push(row);
            proof {
                let rows1 = self.participant_cards@;
                let cs = pre.cards@;
                assert(card.type_ != CardType::Boveda);
                assert forall|i: int| 0 <= i < rows1.len()
                    implies !in_market(self.market@, (#[trigger] rows1[i]).card_id)
                by {
                    if i < rows1.len() - 1 {
                        assert(rows1[i] == pre.participant_cards@[i]);
                    } else {
                        if in_market(self.market@, card.id) {
                            let w = choose|k: int| 0 <= k < self.market@.len()
                                && self.market@[k] == Some(card.id);
                            assert(card_of(cs, card.id).type_ == CardType::Boveda);
                            assert(false);
                        }
                    }
                }
                assert(self.wf());
            }
        }

        // Mark the card drawn, clearing the deck's marks first on a
        // reshuffle.
        if avail.len() == 0 {
            let ghost old_drawn = self.drawn_cards@;
            let mut kept: Vec<Id> = Vec::new();
            let dn = self.drawn_cards.len();
            for i in 0..dn
                invariant
                    dn == self.drawn_cards@.len(),
                    self.drawn_cards@ == old_drawn,
                    old_drawn == pre.drawn_cards@,
                    pre.wf(),
                    self.cards@ == pre.cards@,
                    kept@ == old_drawn.take(i as int).filter(
                        |cid: Id| !card_type_is(pre.cards@, cid, card_type)),
            {
                let cid = self.drawn_cards[i];
                let keep: bool = match self.find_card(cid) {
                    Some(ci) => !(matches!(self.cards[ci].type_, CardType::Arca) == matches!(card_type, CardType::Arca)
                        && matches!(self.cards[ci].type_, CardType::Fortuna) == matches!(card_type, CardType::Fortuna)
                        && matches!(self.cards[ci].type_, CardType::Boveda) == matches!(card_type, CardType::Boveda)),
                    None => true,
                };
                proof {
                    assert(keep == !card_type_is(pre.cards@, cid, card_type));
                }
                if keep {
                    kept.push(cid);
                }
                proof {
                    let p = |c: Id| !card_type_is(pre.cards@, c, card_type);
                    let taken = old_drawn.take(i as int);
                    assert(old_drawn.take(i + 1).drop_last() =~= taken);
                    assert(old_drawn.take(i + 1).last() == cid);
                    reveal(Seq::filter);
                    assert(old_drawn.take(i + 1).filter(p)
                        == if p(cid) { taken.filter(p).push(cid) } else { taken.filter(p) });
                }
            }
            proof {
                assert(pre.drawn_cards@.take(dn as int) =~= pre.drawn_cards@);
            }
            kept.push(card.id);
            self.drawn_cards = kept;
            proof {
                let p = |c: Id| !card_type_is(pre.cards@, c, card_type);
                let filtered = pre.drawn_cards@.filter(p);
                assert forall|i: int, j: int|
                    0 <= i < self.drawn_cards@.len() && 0 <= j < self.drawn_cards@.len() && i != j
                    implies self.drawn_cards@[i] != self.drawn_cards@[j]
                by {
                    pre.drawn_cards@.lemma_filter_len(p);
                    if i < filtered.len() && j < filtered.len() {
                        lemma_filter_distinct(pre.drawn_cards@, p, i, j);
                    } else {
                        let o = if i < filtered.len() { i } else { j };
                        if 0 <= o < filtered.len() {
                            pre.drawn_cards@.lemma_filter_pred(p, o);
                                assert(!card_type_is(pre.cards@, filtered[o], card_type));
                            assert(card_type_is(pre.cards@, card.id, card_type));
                        }
                    }
                }
                assert(self.wf());
                assert(self.drawn_cards@ == Self::drawn_after(pre, card_type, card));
            }
        } else {
            self.drawn_cards.push(card.id);
            proof {
                assert(self.wf());
                assert(self.drawn_cards@ == Self::drawn_after(pre, card_type, card));
            }
        }

        proof {
            assert(Self::draw_post(pre, *self, card, user_id, card_type, now));
        }
        Ok(card)
    }

    /// Is this card id marked drawn?
    fn drawn_contains(&self, cid: Id) -> (r: bool)
        ensures
            r == self.drawn_cards@.contains(cid),
    {
        let n = self.drawn_cards.len();
        for i in 0..n
            invariant
                n == self.drawn_cards@.len(),
                forall|j: int| 0 <= j < i ==> self.drawn_cards@[j] != cid,
        {
            if self.drawn_cards[i] == cid {
                return true;
            }
        }
        proof {
            if self.drawn_cards@.contains(cid) {
                let w = choose|j: int| 0 <= j < self.drawn_cards@.len()
                    && self.drawn_cards@[j] == cid;
                assert(false);
            }
        }
        false
    }
}

/// Every element of a filtered sequence stands somewhere in the
/// original.
proof fn lemma_filter_in_original(s: Seq<Id>, p: spec_fn(Id) -> bool, i: int)
    requires
        0 <= i < s.filter(p).len(),
    ensures
        exists|k: int| 0 <= k < s.len() && s[k] == s.filter(p)[i],
    decreases s.len(),
{
    reveal(Seq::filter);
    if s.len() > 0 {
        let rest = s.drop_last();
        let f = s.filter(p);
        let fr = rest.filter(p);
        if p(s.last()) && i == f.len() - 1 {
            assert(s[s.len() - 1] == f[i]);
        } else {
            lemma_filter_in_original(rest, p, i);
            let w = choose|k: int| 0 <= k < rest.len() && rest[k] == fr[i];
            assert(s[w] == f[i]);
        }
    }
}

/// Two distinct positions of a filtered sequence come from two distinct
/// positions of the original, so a duplicate in the filtrate would be a
/// duplicate in the original.
proof fn lemma_filter_distinct(s: Seq<Id>, p: spec_fn(Id) -> bool, i: int, j: int)
    requires
        forall|a: int, b: int| 0 <= a < s.len() && 0 <= b < s.len() && a != b ==> s[a] != s[b],
        0 <= i < s.filter(p).len(),
        0 <= j < s.filter(p).len(),
        i != j,
    ensures
        s.filter(p)[i] != s.filter(p)[j],
    decreases s.len(),
{
    reveal(Seq::filter);
    if s.len() > 0 {
        let rest = s.drop_last();
        let f = s.filter(p);
        let fr = rest.filter(p);
        assert(forall|a: int, b: int|
            0 <= a < rest.len() && 0 <= b < rest.len() && a != b ==> rest[a] != rest[b]);
        if p(s.last()) {
            assert(f == fr.push(s.last()));
            if i < fr.len() && j < fr.len() {
                lemma_filter_distinct(rest, p, i, j);
            } else {
                let o = if i < fr.len() { i } else { j };
                assert(0 <= o < fr.len());
                lemma_filter_in_original(rest, p, o);
                let w = choose|k: int| 0 <= k < rest.len() && rest[k] == fr[o];
                assert(s[w] == fr[o]);
                assert(s[w] != s.last());
            }
        } else {
            assert(f == fr);
            lemma_filter_distinct(rest, p, i, j);
        }
    }
}

/// Is every boveda card claimed, either by a market slot or by some
/// inventory row?  While this holds, empty slots must stay empty.
pub open spec fn boveda_pool_empty(s: GameSession) -> bool {
    forall|i: int| 0 <= i < s.cards@.len() && (#[trigger] s.cards@[i]).type_ == CardType::Boveda
        ==> in_market(s.market@, s.cards@[i].id)
            || in_inventory(s.participant_cards@, s.cards@[i].id)
}

impl GameSession {
    /// Is this card id standing in some market slot?
    fn market_contains(&self, cid: Id) -> (r: bool)
        ensures
            r == in_market(self.market@, cid),
    {
        let n = self.market.len();
        for i in 0..n
            invariant
                n == self.market@.len(),
                forall|j: int| 0 <= j < i ==> self.market@[j] != Some(cid),
        {
            match self.market[i] {
                Some(c) => if c == cid {
                    return true;
                },
                None => {},
            }
        }
        proof {
            if in_market(self.market@, cid) {
                let w = choose|j: int| 0 <= j < self.market@.len() && self.market@[j] == Some(cid);
                assert(false);
            }
        }
        false
    }

    /// Is this card id held in some inventory row?
    fn inventory_contains_card(&self, cid: Id) -> (r: bool)
        ensures
            r == in_inventory(self.participant_cards@, cid),
    {
        let n = self.participant_cards.len();
        for i in 0..n
            invariant
                n == self.participant_cards@.len(),
                forall|j: int| 0 <= j < i ==> self.participant_cards@[j].card_id != cid,
        {
            if self.participant_cards[i].card_id == cid {
                return true;
            }
        }
        proof {
            if in_inventory(self.participant_cards@, cid) {
                let w = choose|j: int| 0 <= j < self.participant_cards@.len()
                    && self.participant_cards@[j].card_id == cid;
                assert(false);
            }
        }
        false
    }

    /// The boveda cards free to enter the market: in the catalog, not
    /// in any slot, not in any inventory.
    fn collect_eligible(&self) -> (r: Vec<Id>)
        requires
            self.wf(),
        ensures
            forall|k: int| 0 <= k < r@.len() ==> {
                let cid = #[trigger] r@[k];
                &&& card_type_is(self.cards@, cid, CardType::Boveda)
                &&& !in_market(self.market@, cid)
                &&& !in_inventory(self.participant_cards@, cid)
            },
            r@.len() == 0 ==> boveda_pool_empty(*self),
    {
        let mut elig: Vec<Id> = Vec::new();
        let n = self.cards.len();
        for i in 0..n
            invariant
                self.wf(),
                n == self.cards@.len(),
                forall|k: int| 0 <= k < elig@.len() ==> {
                    let cid = #[trigger] elig@[k];
                    &&& card_type_is(self.cards@, cid, CardType::Boveda)
                    &&& !in_market(self.market@, cid)
                    &&& !in_inventory(self.participant_cards@, cid)
                },
                forall|j: int| 0 <= j < i && (#[trigger] self.cards@[j]).type_ == CardType::Boveda
                    ==> in_market(self.market@, self.cards@[j].id)
                        || in_inventory(self.participant_cards@, self.cards@[j].id)
                        || elig@.contains(self.cards@[j].id),
        {
            if matches!(self.cards[i].type_, CardType::Boveda) {
                let cid = self.cards[i].id;
                if !self.market_contains(cid) && !self.inventory_contains_card(cid) {
                    proof {
                        let cs = self.cards@;
                        assert(has_card(cs, cid));
                        let w = choose|k: int| 0 <= k < cs.len() && cs[k].id == cid;
                        if w != i as int {
                            assert(cs[w].id != cs[i as int].id);
                            assert(false);
                        }
                    }
                    let ghost elig_old = elig@;
                    elig.push(cid);
                    proof {
                        assert(elig@.last() == cid);
                        assert forall|j: int| 0 <= j < i + 1
                            && (#[trigger] self.cards@[j]).type_ == CardType::Boveda
                            implies in_market(self.market@, self.cards@[j].id)
                                || in_inventory(self.participant_cards@, self.cards@[j].id)
                                || elig@.contains(self.cards@[j].id)
                        by {
                            if j < i as int {
                                if elig_old.contains(self.cards@[j].id) {
                                    let w = choose|k: int| 0 <= k < elig_old.len()
                                        && elig_old[k] == self.cards@[j].id;
                                    assert(elig@[w] == self.cards@[j].id);
                                }
                            } else {
                                assert(elig@[elig@.len() - 1] == cid);
                            }
                        }
                    }
                }
            }
        }
        elig
    }

    /// What a market refill promises: filled slots keep their card,
    /// and a slot stays empty only while every boveda card is claimed.
    pub open spec fn market_refilled(pre: GameSession, post: GameSession) -> bool {
        &&& post.market@.len() == pre.market@.len()
        &&& forall|i: int| 0 <= i < pre.market@.len() && pre.market@[i] is Some
            ==> post.market@[i] == pre.market@[i]
        &&& (exists|i: int| 0 <= i < post.market@.len() && post.market@[i] is None)
            ==> boveda_pool_empty(post)
        &&& post == (GameSession { market: post.market, ..pre })
    }

    /// The filled slots, as rows for callers: each row names a slot and
    /// the card standing in it, one row per filled slot.
    pub open spec fn describes_market(rows: Seq<GameBovedaMarket>, s: GameSession) -> bool {
        &&& forall|k: int| 0 <= k < rows.len() ==> {
            let row = #[trigger] rows[k];
            &&& row.game_id == s.id
            &&& 0 <= row.slot_index < s.market@.len()
            &&& s.market@[row.slot_index as int] == Some(row.card_id)
        }
        &&& forall|i: int| 0 <= i < s.market@.len() && (#[trigger] s.market@[i]) is Some
            ==> exists|k: int| 0 <= k < rows.len() && rows[k].slot_index == i
        &&& forall|k: int, l: int| 0 <= k < rows.len() && 0 <= l < rows.len() && k != l
            ==> rows[k].slot_index != rows[l].slot_index
    }

    /// Builds the caller-facing view of the market.
    fn market_rows(&self) -> (r: Vec<GameBovedaMarket>)
        requires
            self.wf(),
        ensures
            Self::describes_market(r@, *self),
    {
        let mut rows: Vec<GameBovedaMarket> = Vec::new();
        let n = self.market.len();
        for i in 0..n
            invariant
                n == self.market@.len(),
                self.wf(),
                forall|k: int| 0 <= k < rows@.len() ==> {
                    let row = #[trigger] rows@[k];
                    &&& row.game_id == self.id
                    &&& 0 <= row.slot_index < i
                    &&& self.market@[row.slot_index as int] == Some(row.card_id)
                },
                forall|j: int| 0 <= j < i && (#[trigger] self.market@[j]) is Some
                    ==> exists|k: int| 0 <= k < rows@.len() && rows@[k].slot_index == j,
                forall|k: int, l: int| 0 <= k < rows@.len() && 0 <= l < rows@.len() && k != l
                    ==> rows@[k].slot_index != rows@[l].slot_index,
        {
            match self.market[i] {
                Some(cid) => {
                    let row = GameBovedaMarket {
                        game_id: self.id,
                        slot_index: i as i32,
                        card_id: cid,
                    };
                    let ghost rows_old = rows@;
                    rows.push(row);
                    proof {
                        assert(rows@.last().slot_index == i as i32);
                        assert forall|j: int| 0 <= j < i + 1 && (#[trigger] self.market@[j]) is Some
                            implies exists|k: int| 0 <= k < rows@.len() && rows@[k].slot_index == j
                        by {
                            if j < i {
                                let k0 = choose|k: int| 0 <= k < rows_old.len()
                                    && rows_old[k].slot_index == j;
                                assert(rows@[k0].slot_index == j);
                            } else {
                                assert(rows@[rows@.len() - 1].slot_index == j);
                            }
                        }
                    }
                },
                None => {},
            }
        }
        rows
    }

    /// Fills every empty market slot by sampling, without replacement,
    /// from the boveda cards not already present in this game's market
    /// or any inventory; a slot stays empty only when that pool is dry.
    pub fn refresh_boveda_market(&mut self) -> (r: Result<Vec<GameBovedaMarket>, Error>)
        requires
            old(self).wf(),
        ensures
            final(self).wf(),
            r is Ok <==> !((exists|i: int| 0 <= i < old(self).market@.len()
                    && old(self).market@[i] is None)
                && !deck_nonempty(old(self).cards@, CardType::Boveda)),
            match r {
                Ok(rows) => {
                    &&& Self::market_refilled(*old(self), *final(self))
                    &&& Self::describes_market(rows@, *final(self))
                },
                Err(e) => *final(self) == *old(self) && e == Error::EmptyDeck,
            },
    {
        let ghost pre = *self;
        let mut any_missing = false;
        let n = self.market.len();
        for i in 0..n
            invariant
                *self == pre,
                pre.wf(),
                n == self.market@.len(),
                any_missing <==> (exists|j: int| 0 <= j < i && self.market@[j] is None),
        {
            if self.market[i].is_none() {
                any_missing = true;
            }
        }
        if !any_missing {
            let rows = self.market_rows();
            return Ok(rows);
        }
        let mut any_boveda = false;
        let cn = self.cards.len();
        for i in 0..cn
            invariant
                *self == pre,
                pre.wf(),
                cn == self.cards@.len(),
                any_boveda <==> (exists|j: int| 0 <= j < i
                    && self.cards@[j].type_ == CardType::Boveda),
        {
            if matches!(self.cards[i].type_, CardType::Boveda) {
                any_boveda = true;
            }
        }
        if !any_boveda {
            return Err(Error::EmptyDeck);
        }

        let slots = self.market.len();
        for slot in 0..slots
            invariant
                pre == *old(self),
                pre.wf(),
                self.wf(),
                slots == self.market@.len(),
                self.market@.len() == pre.market@.len(),
                forall|i: int| 0 <= i < pre.market@.len() && pre.market@[i] is Some
                    ==> self.market@[i] == pre.market@[i],
                forall|j: int| 0 <= j < slot && (#[trigger] self.market@[j]) is None
                    ==> boveda_pool_empty(*self),
                *self == (GameSession { market: self.market, ..pre }),
        {
            if self.market[slot].is_none() {
                let ghost before = *self;
                let elig = self.collect_eligible();
                if elig.len() > 0 {
                    let d = random_below(elig.len() as u64);
                    let cid = elig[d as usize];
                    self.market[slot] = Some(cid);
                    proof {
                        assert forall|i: int, j: int|
                            0 <= i < self.market@.len() && 0 <= j < self.market@.len() && i != j
                                && self.market@[i] is Some
                            implies self.market@[i] != self.market@[j]
                        by {
                            if i == slot as int && self.market@[j] is Some {
                                if before.market@[j] == Some(cid) {
                                    assert(in_market(before.market@, cid));
                                    assert(false);
                                }
                            } else if j == slot as int && self.market@[i] is Some {
                                if before.market@[i] == Some(cid) {
                                    assert(in_market(before.market@, cid));
                                    assert(false);
                                }
                            }
                        }
                        assert forall|i: int| 0 <= i < self.participant_cards@.len()
                            implies !in_market(self.market@, (#[trigger] self.participant_cards@[i]).card_id)
                        by {
                            let rid = self.participant_cards@[i].card_id;
                            if in_market(self.market@, rid) {
                                let w = choose|k: int| 0 <= k < self.market@.len()
                                    && self.market@[k] == Some(rid);
                                if w == slot as int {
                                    assert(rid == cid);
                                    assert(in_inventory(before.participant_cards@, cid));
                                    assert(false);
                                } else {
                                    assert(before.market@[w] == Some(rid));
                                    assert(in_market(before.market@, rid));
                                    assert(false);
                                }
                            }
                        }
                        assert(self.wf());
                        assert forall|j: int| 0 <= j < slot + 1 && (#[trigger] self.market@[j]) is None
                            implies boveda_pool_empty(*self)
                        by {
                            assert(j < slot as int);
                            assert(before.market@[j] is None);
                            assert(boveda_pool_empty(before));
                            assert forall|c: int| 0 <= c < self.cards@.len()
                                && (#[trigger] self.cards@[c]).type_ == CardType::Boveda
                                implies in_market(self.market@, self.cards@[c].id)
                                    || in_inventory(self.participant_cards@, self.cards@[c].id)
                            by {
                                let ccid = self.cards@[c].id;
                                if in_market(before.market@, ccid) {
                                    let w = choose|k: int| 0 <= k < before.market@.len()
                                        && before.market@[k] == Some(ccid);
                                    assert(self.market@[w] == Some(ccid));
                                    assert(in_market(self.market@, ccid));
                                }
                            }
                        }
                    }
                } else {
                    proof {
                        assert(boveda_pool_empty(*self));
                    }
                }
            }
        }
        proof {
            assert forall|i: int| 0 <= i < self.market@.len() && (#[trigger] self.market@[i]) is None
                implies boveda_pool_empty(*self)
            by {
            }
            assert(Self::market_refilled(pre, *self));
        }
        let rows = self.market_rows();
        Ok(rows)
    }

    /// The market, refilled first so every slot that can hold a card
    /// does.
    pub fn get_market(&mut self) -> (r: Result<Vec<GameBovedaMarket>, Error>)
        requires
            old(self).wf(),
        ensures
            final(self).wf(),
            r is Ok <==> !((exists|i: int| 0 <= i < old(self).market@.len()
                    && old(self).market@[i] is None)
                && !deck_nonempty(old(self).cards@, CardType::Boveda)),
            match r {
                Ok(rows) => {
                    &&& Self::market_refilled(*old(self), *final(self))
                    &&& Self::describes_market(rows@, *final(self))
                },
                Err(e) => *final(self) == *old(self) && e == Error::EmptyDeck,
            },
    {
        self.refresh_boveda_market()
    }
}

/// Is some inventory row carrying this row id?
pub open spec fn has_row(rows: Seq<ParticipantCard>, row_id: Id) -> bool {
    exists|i: int| 0 <= i < rows.len() && rows[i].id == row_id
}

/// The index of the inventory row with this id (unique under `wf`).
pub open spec fn row_idx(rows: Seq<ParticipantCard>, row_id: Id) -> int {
    choose|i: int| 0 <= i < rows.len() && rows[i].id == row_id
}

/// The titles whose use ends the game at once.
pub open spec fn is_instant_win_title(t: Seq<char>) -> bool {
    ||| t == "Tren de Victorias"@
    ||| t == "Casa del Exito"@
    ||| t == "Campeon Doble"@
    ||| t == "Victoria por Barrida"@
    ||| t == "Circuito Victoria"@
    ||| t == "Dobles"@
    ||| t == "Salida Victoriosa"@
}

/// Passive cards reject manual use: the yellow colour marks them, with
/// one allowlisted title that is active despite it.
pub open spec fn card_is_passive(c: Card) -> bool {
    &&& match c.color {
        Some(col) => col@ == "yellow"@,
        None => false,
    }
    &&& c.title@ != "Dado de Compra"@
}

/// Using a consumable card removes it: red cards and the arca/fortuna
/// decks.
pub open spec fn card_is_consumable(c: Card) -> bool {
    ||| match c.color {
        Some(col) => col@ == "red"@,
        None => false,
    }
    ||| c.type_ == CardType::Arca
    ||| c.type_ == CardType::Fortuna
}

impl GameSession {
    /// Index of the inventory row with this id.
    pub fn find_inventory_row(&self, row_id: Id) -> (r: Option<usize>)
        requires
            self.wf(),
        ensures
            match r {
                Some(i) => i < self.participant_cards@.len()
                    && self.participant_cards@[i as int].id == row_id
                    && has_row(self.participant_cards@, row_id)
                    && row_idx(self.participant_cards@, row_id) == i,
                None => !has_row(self.participant_cards@, row_id),
            },
    {
        let n = self.participant_cards.len();
        for i in 0..n
            invariant
                n == self.participant_cards@.len(),
                self.wf(),
                forall|j: int| 0 <= j < i ==> self.participant_cards@[j].id != row_id,
        {
            if self.participant_cards[i].id == row_id {
                proof {
                    let rows = self.participant_cards@;
                    assert(has_row(rows, row_id));
                    let w = row_idx(rows, row_id);
                    assert(0 <= w < rows.len() && rows[w].id == row_id);
                    if w != i as int {
                        assert(rows[w].id != rows[i as int].id);
                        assert(false);
                    }
                }
                return Some(i);
            }
        }
        None
    }

    /// The caller's inventory rows, in insertion order.
    pub fn get_inventory(&self, user_id: UserId) -> (r: Result<Vec<ParticipantCard>, Error>)
        requires
            self.wf(),
        ensures
            r is Ok <==> has_user(self.participants@, user_id),
            match r {
                Ok(rows) => rows@ == self.participant_cards@.filter(
                    |row: ParticipantCard| row.participant_id == self.pid_of_user(user_id)),
                Err(e) => e == Error::ParticipantNotFound,
            },
    {
        let me_i = match self.find_participant_by_user(user_id) {
            Some(i) => i,
            None => {
                return Err(Error::ParticipantNotFound);
            },
        };
        let me = self.participants[me_i].id;
        let ghost p = |row: ParticipantCard| row.participant_id == self.pid_of_user(user_id);
        let mut out: Vec<ParticipantCard> = Vec::new();
        let n = self.participant_cards.len();
        for i in 0..n
            invariant
                n == self.participant_cards@.len(),
                self.wf(),
                me == self.pid_of_user(user_id),
                p == (|row: ParticipantCard| row.participant_id == self.pid_of_user(user_id)),
                out@ == self.participant_cards@.take(i as int).filter(p),
        {
            let ghost taken = self.participant_cards@.take(i as int);
            let row = self.participant_cards[i];
            if row.participant_id == me {
                out.push(row);
            }
            proof {
                assert(self.participant_cards@.take(i + 1).drop_last() =~= taken);
                assert(self.participant_cards@.take(i + 1).last() == row);
                reveal(Seq::filter);
            }
        }
        proof {
            assert(self.participant_cards@.take(n as int) =~= self.participant_cards@);
        }
        Ok(out)
    }

    /// Every inventory row of the game.
    pub fn get_all_inventories(&self) -> (r: &Vec<ParticipantCard>)
        ensures
            r == &self.participant_cards,
    {
        &self.participant_cards
    }

    /// The whole effect of using a card from one's inventory.
    pub open spec fn use_card_post(
        pre: GameSession,
        post: GameSession,
        user_id: UserId,
        inventory_id: Id,
        now: i64,
    ) -> bool {
        let rows = pre.participant_cards@;
        let k = row_idx(rows, inventory_id);
        let row = rows[k];
        let c = card_of(pre.cards@, row.card_id);
        let me = pre.pid_of_user(user_id);
        &&& post.card_usage@.len() == pre.card_usage@.len() + 1
        &&& forall|i: int| 0 <= i < pre.card_usage@.len()
            ==> post.card_usage@[i] == pre.card_usage@[i]
        &&& {
            let log = post.card_usage@.last();
            &&& log.id == pre.next_id
            &&& log.game_id == pre.id
            &&& log.participant_id == me
            &&& log.card_id == row.card_id
            &&& log.used_at == now
        }
        &&& post.next_id == pre.next_id + 1
        &&& if is_instant_win_title(c.title@) {
            &&& post.status == crate::types::GameStatus::FINISHED
            &&& post.participant_cards == pre.participant_cards
        } else if card_is_consumable(c) {
            &&& post.status == pre.status
            &&& post.participant_cards@ == rows.remove(k)
        } else {
            &&& post.status == pre.status
            &&& post.participant_cards == pre.participant_cards
        }
        &&& post.participants == pre.participants
        &&& post.transactions == pre.transactions
        &&& post.jackpot_balance == pre.jackpot_balance
        &&& post.market == pre.market
        &&& post.drawn_cards == pre.drawn_cards
        &&& post.participant_properties == pre.participant_properties
        &&& post.auctions == pre.auctions
        &&& post.trades == pre.trades
        &&& post.id == pre.id
        &&& post.code == pre.code
        &&& post.host_user_id == pre.host_user_id
        &&& post.name == pre.name
        &&& post.current_turn_user_id == pre.current_turn_user_id
        &&& post.turn_order == pre.turn_order
        &&& post.cards == pre.cards
        &&& post.properties == pre.properties
    }

    /// Uses a card from the caller's inventory.  An instant-win title
    /// finishes the game at once; passive (yellow) cards reject manual
    /// use, except the allowlisted purchase die; consumable cards (red,
    /// or from the arca/fortuna decks) are removed; every use is
    /// logged.
    pub fn use_card(&mut self, user_id: UserId, inventory_id: Id, now: i64) -> (r: Result<(), Error>)
        requires
            old(self).wf(),
        ensures
            final(self).wf(),
            r is Ok <==> ({
                let pre = *old(self);
                let rows = pre.participant_cards@;
                &&& has_user(pre.participants@, user_id)
                &&& has_row(rows, inventory_id)
                &&& rows[row_idx(rows, inventory_id)].participant_id == pre.pid_of_user(user_id)
                &&& {
                    let c = card_of(pre.cards@, rows[row_idx(rows, inventory_id)].card_id);
                    is_instant_win_title(c.title@) || !card_is_passive(c)
                }
                &&& pre.next_id < u64::MAX
            }),
            match r {
                Ok(()) => Self::use_card_post(*old(self), *final(self), user_id, inventory_id, now),
                Err(e) => {
                    &&& *final(self) == *old(self)
                    &&& (e == Error::ParticipantNotFound
                        <==> !has_user(old(self).participants@, user_id))
                    &&& (e == Error::ParticipantNotFound || e == Error::CardNotInInventory
                        || e == Error::PassiveCard || e == Error::ArithmeticLimit)
                },
            },
    {
        let ghost pre = *self;
        let me_i = match self.find_participant_by_user(user_id) {
            Some(i) => i,
            None => {
                return Err(Error::ParticipantNotFound);
            },
        };
        let me = self.participants[me_i].id;
        let ri = match self.find_inventory_row(inventory_id) {
            Some(i) => i,
            None => {
                return Err(Error::CardNotInInventory);
            },
        };
        let row = self.participant_cards[ri];
        if row.participant_id != me {
            return Err(Error::CardNotInInventory);
        }
        let ci = match self.find_card(row.card_id) {
            Some(i) => i,
            None => {
                proof {
                    assert(false);
                }
                return Err(Error::CardNotInInventory);
            },
        };

        let is_win = crate::types::string_eq_str(&self.cards[ci].title, "Tren de Victorias")
            || crate::types::string_eq_str(&self.cards[ci].title, "Casa del Exito")
            || crate::types::string_eq_str(&self.cards[ci].title, "Campeon Doble")
            || crate::types::string_eq_str(&self.cards[ci].title, "Victoria por Barrida")
            || crate::types::string_eq_str(&self.cards[ci].title, "Circuito Victoria")
            || crate::types::string_eq_str(&self.cards[ci].title, "Dobles")
            || crate::types::string_eq_str(&self.cards[ci].title, "Salida Victoriosa");
        let is_yellow = match &self.cards[ci].color {
            Some(col) => crate::types::string_eq_str(col, "yellow"),
            None => false,
        };
        let is_passive = is_yellow
            && !crate::types::string_eq_str(&self.cards[ci].title, "Dado de Compra");
        if !is_win && is_passive {
            return Err(Error::PassiveCard);
        }
        if self.next_id == u64::MAX {
            return Err(Error::ArithmeticLimit);
        }
        let is_red = match &self.cards[ci].color {
            Some(col) => crate::types::string_eq_str(col, "red"),
            None => false,
        };
        let is_consumable = is_red
            || matches!(self.cards[ci].type_, CardType::Arca)
            || matches!(self.cards[ci].type_, CardType::Fortuna);

        let log = CardUsageHistory {
            id: self.next_id,
            game_id: self.id,
            participant_id: me,
            card_id: row.card_id,
            action_description: Some("Used card".to_owned()),
            used_at: now,
        };
        self.next_id = self.next_id + 1;
        self.card_usage.push(log);

        if is_win {
            self.status = crate::types::GameStatus::FINISHED;
            proof {
                assert(self.wf());
                assert(Self::use_card_post(pre, *self, user_id, inventory_id, now));
            }
            return Ok(());
        }
        if is_consumable {
            self.participant_cards.remove(ri);
        }
        proof {
            assert(self.wf());
            assert(Self::use_card_post(pre, *self, user_id, inventory_id, now));
        }
        Ok(())
    }

    /// Removes a card from the caller's inventory without resolving any
    /// effect, and logs the discard.
    pub fn discard_card(&mut self, user_id: UserId, inventory_id: Id, now: i64) -> (r: Result<(), Error>)
        requires
            old(self).wf(),
        ensures
            final(self).wf(),
            r is Ok <==> ({
                let pre = *old(self);
                let rows = pre.participant_cards@;
                &&& has_user(pre.participants@, user_id)
                &&& has_row(rows, inventory_id)
                &&& rows[row_idx(rows, inventory_id)].participant_id == pre.pid_of_user(user_id)
                &&& pre.next_id < u64::MAX
            }),
            match r {
                Ok(()) => {
                    let pre = *old(self);
                    let rows = pre.participant_cards@;
                    let k = row_idx(rows, inventory_id);
                    &&& final(self).participant_cards@ == rows.remove(k)
                    &&& final(self).card_usage@.len() == pre.card_usage@.len() + 1
                    &&& forall|i: int| 0 <= i < pre.card_usage@.len()
                        ==> final(self).card_usage@[i] == pre.card_usage@[i]
                    &&& final(self).card_usage@.last().card_id == rows[k].card_id
                    &&& final(self).card_usage@.last().participant_id == pre.pid_of_user(user_id)
                    &&& final(self).next_id == pre.next_id + 1
                    &&& final(self).participants == pre.participants
                    &&& final(self).transactions == pre.transactions
                    &&& final(self).jackpot_balance == pre.jackpot_balance
                    &&& final(self).market == pre.market
                    &&& final(self).drawn_cards == pre.drawn_cards
                    &&& final(self).participant_properties == pre.participant_properties
                    &&& final(self).auctions == pre.auctions
                    &&& final(self).trades == pre.trades
                    &&& Self::non_economy_fields_unchanged_but_cards(pre, *final(self))
                },
                Err(e) => {
                    &&& *final(self) == *old(self)
                    &&& (e == Error::ParticipantNotFound
                        <==> !has_user(old(self).participants@, user_id))
                    &&& (e == Error::ParticipantNotFound || e == Error::CardNotInInventory
                        || e == Error::ArithmeticLimit)
                },
            },
    {
        let me_i = match self.find_participant_by_user(user_id) {
            Some(i) => i,
            None => {
                return Err(Error::ParticipantNotFound);
            },
        };
        let me = self.participants[me_i].id;
        let ri = match self.find_inventory_row(inventory_id) {
            Some(i) => i,
            None => {
                return Err(Error::CardNotInInventory);
            },
        };
        let row = self.participant_cards[ri];
        if row.participant_id != me {
            return Err(Error::CardNotInInventory);
        }
        if self.next_id == u64::MAX {
            return Err(Error::ArithmeticLimit);
        }
        self.participant_cards.remove(ri);
        let log = CardUsageHistory {
            id: self.next_id,
            game_id: self.id,
            participant_id: me,
            card_id: row.card_id,
            action_description: Some("Discarded card".to_owned()),
            used_at: now,
        };
        self.next_id = self.next_id + 1;
        self.card_usage.push(log);
        proof {
            assert(self.wf());
        }
        Ok(())
    }

    /// Identity, status, board, catalogs and turn state: what no card
    /// operation may touch.
    pub open spec fn non_economy_fields_unchanged_but_cards(pre: GameSession, post: GameSession) -> bool {
        &&& post.id == pre.id
        &&& post.code == pre.code
        &&& post.host_user_id == pre.host_user_id
        &&& post.name == pre.name
        &&& post.status == pre.status
        &&& post.current_turn_user_id == pre.current_turn_user_id
        &&& post.turn_order == pre.turn_order
        &&& post.cards == pre.cards
        &&& post.properties == pre.properties
    }
}

impl GameSession {
    /// Who a market purchase pays, and how much: free for the holder of
    /// "La Boveda"; paid to that holder when someone else buys; paid
    /// toward the bank otherwise.
    pub open spec fn market_payment(pre: GameSession, me: Id, cid: Id) -> (Option<Id>, Money) {
        let cost = match card_of(pre.cards@, cid).cost {
            Some(c) => c,
            None => 0,
        };
        match pre.vault_owner_spec() {
            Some(o) => if o == me {
                (None, 0)
            } else {
                (Some(o), cost)
            },
            None => (None, cost),
        }
    }

    /// The whole effect of buying the card standing in a market slot.
    pub open spec fn buy_market_post(
        pre: GameSession,
        post: GameSession,
        bought: ParticipantCard,
        user_id: UserId,
        slot: int,
        now: i64,
    ) -> bool {
        let me = pre.pid_of_user(user_id);
        let cid = pre.market@[slot].unwrap();
        let payment = Self::market_payment(pre, me, cid);
        &&& Self::ledger_effect(pre, post, Some(me), payment.0, payment.1, now)
        &&& bought == (ParticipantCard {
            id: (pre.next_id + 1) as Id,
            participant_id: me,
            card_id: cid,
        })
        &&& post.participant_cards@ == pre.participant_cards@.push(bought)
        &&& post.next_id == pre.next_id + 2
        &&& post.market@.len() == pre.market@.len()
        &&& forall|i: int| 0 <= i < pre.market@.len() && i != slot && pre.market@[i] is Some
            ==> post.market@[i] == pre.market@[i]
        &&& !in_market(post.market@, cid)
        &&& (exists|i: int| 0 <= i < post.market@.len() && post.market@[i] is None)
            ==> boveda_pool_empty(post)
        &&& post.drawn_cards == pre.drawn_cards
        &&& post.card_usage == pre.card_usage
        &&& post.participant_properties == pre.participant_properties
        &&& post.auctions == pre.auctions
        &&& post.trades == pre.trades
        &&& Self::non_economy_fields_unchanged_but_cards(pre, post)
    }

    /// Buys the card in a market slot: payment through the ledger (the
    /// holder of "La Boveda" collects it, or waives their own cost),
    /// the card moves to the buyer's inventory, and the vacated slot is
    /// refilled at once.
    #[verifier::rlimit(100)]
    pub fn buy_market_card(&mut self, user_id: UserId, slot_index: i32, now: i64) -> (r: Result<ParticipantCard, Error>)
        requires
            old(self).wf(),
        ensures
            final(self).wf(),
            r is Ok <==> ({
                let pre = *old(self);
                &&& has_user(pre.participants@, user_id)
                &&& 0 <= slot_index < pre.market@.len()
                &&& pre.market@[slot_index as int] is Some
                &&& pre.next_id + 2 <= u64::MAX
                &&& !pre.transfer_missing_participant(Some(pre.pid_of_user(user_id)),
                        Self::market_payment(pre, pre.pid_of_user(user_id),
                            pre.market@[slot_index as int].unwrap()).0)
                &&& pre.transfer_fits(Some(pre.pid_of_user(user_id)),
                        Self::market_payment(pre, pre.pid_of_user(user_id),
                            pre.market@[slot_index as int].unwrap()).0,
                        Self::market_payment(pre, pre.pid_of_user(user_id),
                            pre.market@[slot_index as int].unwrap()).1)
            }),
            match r {
                Ok(bought) => Self::buy_market_post(*old(self), *final(self), bought, user_id,
                    slot_index as int, now),
                Err(e) => {
                    &&& *final(self) == *old(self)
                    &&& (!has_user(old(self).participants@, user_id)
                        ==> e == Error::ParticipantNotFound)
                    &&& (e == Error::ParticipantNotFound || e == Error::SlotEmpty
                        || e == Error::ArithmeticLimit)
                },
            },
    {
        let ghost pre = *self;
        let me_i = match self.find_participant_by_user(user_id) {
            Some(i) => i,
            None => {
                return Err(Error::ParticipantNotFound);
            },
        };
        let me = self.participants[me_i].id;
        if slot_index < 0 || slot_index as usize >= self.market.len() {
            return Err(Error::SlotEmpty);
        }
        let slot = slot_index as usize;
        let cid = match self.market[slot] {
            Some(c) => c,
            None => {
                return Err(Error::SlotEmpty);
            },
        };
        let ci = match self.find_card(cid) {
            Some(i) => i,
            None => {
                proof {
                    assert(false);
                }
                return Err(Error::SlotEmpty);
            },
        };
        let cost = match self.cards[ci].cost {
            Some(c) => c,
            None => 0,
        };
        let vault = self.find_owner_of_card_title("La Boveda");
        let recipient: Option<Id>;
        let amount: Money;
        match vault {
            Some(o) => {
                if o == me {
                    recipient = None;
                    amount = 0;
                } else {
                    recipient = Some(o);
                    amount = cost;
                }
            },
            None => {
                recipient = None;
                amount = cost;
            },
        }
        proof {
            assert((recipient, amount) == Self::market_payment(pre, me, cid));
        }
        if self.next_id >= u64::MAX - 1 {
            return Err(Error::ArithmeticLimit);
        }
        match self.transfer(Some(me), recipient, amount, Some("Bought Boveda Card".to_owned()), now) {
            Ok(_) => {},
            Err(e) => {
                return Err(e);
            },
        }
        let bought = ParticipantCard {
            id: self.next_id,
            participant_id: me,
            card_id: cid,
        };
        self.next_id = self.next_id + 1;
        self.participant_cards.push(bought);
        self.market[slot] = None;
        proof {
            let rows1 = self.participant_cards@;
            assert forall|i: int| 0 <= i < rows1.len()
                implies !in_market(self.market@, (#[trigger] rows1[i]).card_id)
            by {
                let rid = rows1[i].card_id;
                if in_market(self.market@, rid) {
                    let w = choose|k: int| 0 <= k < self.market@.len()
                        && self.market@[k] == Some(rid);
                    assert(pre.market@[w] == Some(rid));
                    if i < rows1.len() - 1 {
                        assert(in_market(pre.market@, pre.participant_cards@[i].card_id));
                        assert(false);
                    } else {
                        assert(rid == cid);
                        assert(pre.market@[w] == pre.market@[slot as int]);
                        assert(false);
                    }
                }
            }
            assert forall|i: int, j: int|
                0 <= i < rows1.len() && 0 <= j < rows1.len() && i != j
                    && has_card(self.cards@, rows1[i].card_id)
                    && card_of(self.cards@, rows1[i].card_id).type_ == CardType::Boveda
                implies rows1[i].card_id != rows1[j].card_id
            by {
                if i == rows1.len() - 1 {
                    if rows1[j].card_id == cid {
                        assert(in_market(pre.market@, pre.participant_cards@[j].card_id));
                        assert(false);
                    }
                } else if j == rows1.len() - 1 {
                    if rows1[i].card_id == cid {
                        assert(in_market(pre.market@, pre.participant_cards@[i].card_id));
                        assert(false);
                    }
                }
            }
            assert(self.wf());
        }
        let ghost mid = *self;
        let res = self.refresh_boveda_market();
        proof {
            assert(deck_nonempty(mid.cards@, CardType::Boveda)) by {
                assert(card_of(pre.cards@, cid).type_ == CardType::Boveda);
                let w = choose|k: int| 0 <= k < pre.cards@.len() && pre.cards@[k].id == cid;
                assert(pre.cards@[w].type_ == CardType::Boveda);
            }
            assert(res is Ok);
            assert(!in_market(self.market@, cid)) by {
                if in_market(self.market@, cid) {
                    let w = choose|k: int| 0 <= k < self.market@.len()
                        && self.market@[k] == Some(cid);
                    assert(in_inventory(self.participant_cards@, cid)) by {
                        assert(self.participant_cards@[self.participant_cards@.len() - 1].card_id == cid);
                    }
                    assert(!in_market(self.market@, self.participant_cards@[self.participant_cards@.len() - 1].card_id));
                }
            }
            assert(Self::buy_market_post(pre, *self, bought, user_id, slot_index as int, now));
        }
        Ok(bought)
    }

    /// Clears a market slot unconditionally — no payment — and refills
    /// it; used by external dice-driven triggers.
    pub fn exchange_market_card(&mut self, slot_index: i32) -> (r: Result<Vec<GameBovedaMarket>, Error>)
        requires
            old(self).wf(),
        ensures
            final(self).wf(),
            match r {
                Ok(rows) => {
                    &&& final(self).market@.len() == old(self).market@.len()
                    &&& forall|i: int| 0 <= i < old(self).market@.len() && i != slot_index
                        && old(self).market@[i] is Some
                        ==> final(self).market@[i] == old(self).market@[i]
                    &&& (exists|i: int| 0 <= i < final(self).market@.len()
                            && final(self).market@[i] is None)
                        ==> boveda_pool_empty(*final(self))
                    &&& Self::describes_market(rows@, *final(self))
                    &&& *final(self) == (GameSession { market: final(self).market, ..*old(self) })
                },
                Err(e) => *final(self) == *old(self) && e == Error::EmptyDeck
                    && !deck_nonempty(old(self).cards@, CardType::Boveda),
            },
    {
        let ghost pre = *self;
        if slot_index >= 0 && (slot_index as usize) < self.market.len() {
            if self.market[slot_index as usize].is_some() {
                self.market[slot_index as usize] = None;
                proof {
                    assert(self.wf());
                }
            }
        }
        let ghost mid = *self;
        let r = self.refresh_boveda_market();
        proof {
            match r {
                Ok(_) => {
                    assert(Self::market_refilled(mid, *self));
                    assert(*self == (GameSession { market: self.market, ..mid }));
                    assert(mid == (GameSession { market: mid.market, ..pre }));
                    assert(*self == (GameSession { market: self.market, ..pre }));
                    assert forall|i: int| 0 <= i < pre.market@.len() && i != slot_index
                        && pre.market@[i] is Some
                        implies self.market@[i] == pre.market@[i]
                    by {
                        assert(mid.market@[i] == pre.market@[i]);
                    }
                },
                Err(_) => {
                    assert(*self == mid);
                    if mid != pre {
                        // A slot was cleared, so it held a boveda card,
                        // contradicting the refusal for want of one.
                        assert(pre.market@[slot_index as int] is Some);
                        let cid = pre.market@[slot_index as int].unwrap();
                        assert(card_of(pre.cards@, cid).type_ == CardType::Boveda);
                        let w = choose|k: int| 0 <= k < pre.cards@.len()
                            && pre.cards@[k].id == cid;
                        assert(pre.cards@[w].type_ == CardType::Boveda);
                        assert(deck_nonempty(mid.cards@, CardType::Boveda));
                        assert(false);
                    }
                },
            }
        }
        match r {
            Ok(rows) => Ok(rows),
            Err(e) => {
                proof {
                    if *self != pre {
                        assert(false);
                    }
                }
                Err(e)
            },
        }
    }
}

/// Both rows gone, whichever order their indices come in.
pub open spec fn remove_two(rows: Seq<ParticipantCard>, a: int, b: int) -> Seq<ParticipantCard> {
    if a > b {
        rows.remove(a).remove(b)
    } else {
        rows.remove(b).remove(a)
    }
}

impl GameSession {
    /// The whole effect of a special peer action against a target
    /// inventory row.
    pub open spec fn special_action_post(
        pre: GameSession,
        post: GameSession,
        user_id: UserId,
        action: SpecialAction,
        target_inventory_id: Id,
        my_card_id: Option<Id>,
        now: i64,
    ) -> bool {
        let rows = pre.participant_cards@;
        let ti = row_idx(rows, target_inventory_id);
        let target_row = rows[ti];
        let actor = pre.pid_of_user(user_id);
        &&& post.card_usage@.len() == pre.card_usage@.len() + 1
        &&& forall|i: int| 0 <= i < pre.card_usage@.len()
            ==> post.card_usage@[i] == pre.card_usage@[i]
        &&& post.card_usage@.last().participant_id == actor
        &&& post.card_usage@.last().card_id == target_row.card_id
        &&& post.card_usage@.last().used_at == now
        &&& match action {
            SpecialAction::Destroy => {
                &&& post.participant_cards@ == rows.remove(ti)
                &&& post.next_id == pre.next_id + 1
            },
            SpecialAction::Buy => {
                &&& post.participant_cards@ == rows.remove(ti).push(
                    (ParticipantCard { id: pre.next_id, participant_id: actor, card_id: target_row.card_id }))
                &&& post.next_id == pre.next_id + 2
            },
            SpecialAction::Exchange => {
                let mi = row_idx(rows, my_card_id.unwrap());
                let my_row = rows[mi];
                if mi == ti {
                    &&& post.participant_cards == pre.participant_cards
                    &&& post.next_id == pre.next_id + 1
                } else {
                    &&& post.participant_cards@ == remove_two(rows, ti, mi).push(
                        (ParticipantCard { id: pre.next_id, participant_id: actor, card_id: target_row.card_id })).push(
                        (ParticipantCard { id: (pre.next_id + 1) as Id, participant_id: target_row.participant_id, card_id: my_row.card_id }))
                    &&& post.next_id == pre.next_id + 3
                }
            },
        }
        &&& post.participants == pre.participants
        &&& post.transactions == pre.transactions
        &&& post.jackpot_balance == pre.jackpot_balance
        &&& post.market == pre.market
        &&& post.drawn_cards == pre.drawn_cards
        &&& post.participant_properties == pre.participant_properties
        &&& post.auctions == pre.auctions
        &&& post.trades == pre.trades
        &&& Self::non_economy_fields_unchanged_but_cards(pre, post)
    }

    /// Performs a purchase-die peer action on another participant's
    /// inventory row: destroy it, take it (an unconditional free
    /// transfer), or swap it against one of the caller's own rows.
    /// Every action logs a usage record.
    #[verifier::rlimit(100)]
    pub fn execute_special_action(
        &mut self,
        user_id: UserId,
        action: SpecialAction,
        target_inventory_id: Id,
        my_card_id: Option<Id>,
        now: i64,
    ) -> (r: Result<(), Error>)
        requires
            old(self).wf(),
        ensures
            final(self).wf(),
            r is Ok <==> ({
                let pre = *old(self);
                let rows = pre.participant_cards@;
                &&& has_user(pre.participants@, user_id)
                &&& has_row(rows, target_inventory_id)
                &&& crate::session::has_pid(pre.participants@,
                        rows[row_idx(rows, target_inventory_id)].participant_id)
                &&& match action {
                    SpecialAction::Destroy => true,
                    SpecialAction::Buy => true,
                    SpecialAction::Exchange => match my_card_id {
                        Some(mid) => has_row(rows, mid)
                            && rows[row_idx(rows, mid)].participant_id == pre.pid_of_user(user_id),
                        None => false,
                    },
                }
                &&& pre.next_id + 4 <= u64::MAX
            }),
            match r {
                Ok(()) => Self::special_action_post(*old(self), *final(self), user_id, action,
                    target_inventory_id, my_card_id, now),
                Err(e) => {
                    &&& *final(self) == *old(self)
                    &&& (e == Error::ParticipantNotFound
                        <==> !has_user(old(self).participants@, user_id))
                    &&& (e == Error::ParticipantNotFound || e == Error::TargetCardNotFound
                        || e == Error::MissingExchangeCard || e == Error::NotYourCard
                        || e == Error::ArithmeticLimit)
                },
            },
    {
        let ghost pre = *self;
        let me_i = match self.find_participant_by_user(user_id) {
            Some(i) => i,
            None => {
                return Err(Error::ParticipantNotFound);
            },
        };
        let actor = self.participants[me_i].id;
        let ti = match self.find_inventory_row(target_inventory_id) {
            Some(i) => i,
            None => {
                return Err(Error::TargetCardNotFound);
            },
        };
        let target_row = self.participant_cards[ti];
        match self.find_participant_by_id(target_row.participant_id) {
            Some(_) => {},
            None => {
                return Err(Error::TargetCardNotFound);
            },
        }
        let mi_opt: Option<usize> = match action {
            SpecialAction::Exchange => {
                let mid = match my_card_id {
                    Some(m) => m,
                    None => {
                        return Err(Error::MissingExchangeCard);
                    },
                };
                match self.find_inventory_row(mid) {
                    Some(i) => {
                        if self.participant_cards[i].participant_id != actor {
                            return Err(Error::NotYourCard);
                        }
                        Some(i)
                    },
                    None => {
                        return Err(Error::NotYourCard);
                    },
                }
            },
            _ => None,
        };
        if self.next_id >= u64::MAX - 3 {
            return Err(Error::ArithmeticLimit);
        }

        match action {
            SpecialAction::Destroy => {
                self.participant_cards.remove(ti);
                proof {
                    assert(self.wf());
                }
                self.log_action(actor, target_row.card_id, "Destroyed card", now);
            },
            SpecialAction::Buy => {
                self.participant_cards.remove(ti);
                let taken = ParticipantCard {
                    id: self.next_id,
                    participant_id: actor,
                    card_id: target_row.card_id,
                };
                self.next_id = self.next_id + 1;
                self.participant_cards.push(taken);
                proof {
                    let rows0 = pre.participant_cards@;
                    let rows1 = self.participant_cards@;
                    let cs = pre.cards@;
                    assert forall|i: int| 0 <= i < rows1.len()
                        implies !in_market(self.market@, (#[trigger] rows1[i]).card_id)
                            && has_card(cs, rows1[i].card_id)
                    by {
                        if i < rows1.len() - 1 {
                            let i0 = if i < ti as int { i } else { i + 1 };
                            assert(rows1[i] == rows0[i0]);
                        } else {
                            assert(rows1[i].card_id == rows0[ti as int].card_id);
                        }
                    }
                    assert forall|i: int, j: int|
                        0 <= i < rows1.len() && 0 <= j < rows1.len() && i != j
                            && has_card(cs, rows1[i].card_id)
                            && card_of(cs, rows1[i].card_id).type_ == CardType::Boveda
                        implies rows1[i].card_id != rows1[j].card_id
                    by {
                        let i0 = if i < ti as int { i } else if i == rows1.len() - 1 { ti as int } else { i + 1 };
                        let j0 = if j < ti as int { j } else if j == rows1.len() - 1 { ti as int } else { j + 1 };
                        assert(rows1[i].card_id == rows0[i0].card_id);
                        assert(rows1[j].card_id == rows0[j0].card_id);
                        if i0 != j0 {
                            assert(rows0[i0].card_id != rows0[j0].card_id);
                        } else {
                            assert(i0 == ti as int && j0 == ti as int);
                            assert(i == rows1.len() - 1 || j == rows1.len() - 1);
                            assert(i < ti as int || i == rows1.len() - 1 || i + 1 == ti as int || i >= ti);
                            assert(false);
                        }
                    }
                    assert forall|i: int, j: int|
                        0 <= i < rows1.len() && 0 <= j < rows1.len() && i != j
                        implies rows1[i].id != rows1[j].id
                    by {
                        if i < rows1.len() - 1 && j < rows1.len() - 1 {
                            let i0 = if i < ti as int { i } else { i + 1 };
                            let j0 = if j < ti as int { j } else { j + 1 };
                            assert(rows1[i] == rows0[i0] && rows1[j] == rows0[j0]);
                        } else {
                            let o = if i == rows1.len() - 1 { j } else { i };
                            let o0 = if o < ti as int { o } else { o + 1 };
                            assert(rows0[o0].id < pre.next_id);
                        }
                    }
                    assert(self.wf());
                }
                self.log_action(actor, target_row.card_id, "Stole card", now);
            },
            SpecialAction::Exchange => {
                let mi = match mi_opt {
                    Some(i) => i,
                    None => {
                        proof {
                            assert(false);
                        }
                        return Err(Error::NotYourCard);
                    },
                };
                let my_row = self.participant_cards[mi];
                if mi != ti {
                    let hi = if ti > mi { ti } else { mi };
                    let lo = if ti > mi { mi } else { ti };
                    self.participant_cards.remove(hi);
                    self.participant_cards.remove(lo);
                    let to_actor = ParticipantCard {
                        id: self.next_id,
                        participant_id: actor,
                        card_id: target_row.card_id,
                    };
                    let to_owner = ParticipantCard {
                        id: self.next_id + 1,
                        participant_id: target_row.participant_id,
                        card_id: my_row.card_id,
                    };
                    self.next_id = self.next_id + 2;
                    self.participant_cards.push(to_actor);
                    self.participant_cards.push(to_owner);
                    proof {
                        let rows0 = pre.participant_cards@;
                        let rows1 = self.participant_cards@;
                        let cs = pre.cards@;
                        let removed = remove_two(rows0, ti as int, mi as int);
                        assert(rows1 == removed.push(to_actor).push(to_owner));
                        // Map every position of the result to a source
                        // row of the original.
                        assert forall|i: int| 0 <= i < rows1.len()
                            implies exists|i0: int| 0 <= i0 < rows0.len()
                                && (#[trigger] rows1[i]).card_id == rows0[i0].card_id
                                && (rows1[i].id == rows0[i0].id || rows1[i].id >= pre.next_id)
                                && ((i < rows1.len() - 2) ==> rows1[i].id == rows0[i0].id && i0 != ti as int && i0 != mi as int)
                                && ((i == rows1.len() - 2) ==> i0 == ti as int)
                                && ((i == rows1.len() - 1) ==> i0 == mi as int)
                        by {
                            let hi0 = if ti > mi { ti as int } else { mi as int };
                            let lo0 = if ti > mi { mi as int } else { ti as int };
                            if i < rows1.len() - 2 {
                                let a = if i < lo0 { i } else { i + 1 };
                                let i0 = if a < hi0 { a } else { a + 1 };
                                assert(removed[i] == rows0.remove(hi0)[a]);
                                assert(rows0.remove(hi0)[a] == rows0[i0]);
                                assert(rows1[i] == rows0[i0]);
                            } else if i == rows1.len() - 2 {
                                assert(rows1[i] == to_actor);
                                assert(rows1[i].card_id == rows0[ti as int].card_id);
                            } else {
                                assert(rows1[i] == to_owner);
                                assert(rows1[i].card_id == rows0[mi as int].card_id);
                            }
                        }
                        assert forall|i: int| 0 <= i < rows1.len()
                            implies !in_market(self.market@, (#[trigger] rows1[i]).card_id)
                                && has_card(cs, rows1[i].card_id)
                        by {
                            let i0 = choose|i0: int| 0 <= i0 < rows0.len()
                                && rows1[i].card_id == rows0[i0].card_id
                                && (rows1[i].id == rows0[i0].id || rows1[i].id >= pre.next_id)
                                && ((i < rows1.len() - 2) ==> rows1[i].id == rows0[i0].id && i0 != ti as int && i0 != mi as int)
                                && ((i == rows1.len() - 2) ==> i0 == ti as int)
                                && ((i == rows1.len() - 1) ==> i0 == mi as int);
                            assert(!in_market(pre.market@, rows0[i0].card_id));
                        }
                        assert forall|i: int, j: int|
                            0 <= i < rows1.len() && 0 <= j < rows1.len() && i != j
                            implies rows1[i].id != rows1[j].id
                        by {
                            let pi = choose|i0: int| 0 <= i0 < rows0.len()
                                && rows1[i].card_id == rows0[i0].card_id
                                && (rows1[i].id == rows0[i0].id || rows1[i].id >= pre.next_id)
                                && ((i < rows1.len() - 2) ==> rows1[i].id == rows0[i0].id && i0 != ti as int && i0 != mi as int)
                                && ((i == rows1.len() - 2) ==> i0 == ti as int)
                                && ((i == rows1.len() - 1) ==> i0 == mi as int);
                            let pj = choose|j0: int| 0 <= j0 < rows0.len()
                                && rows1[j].card_id == rows0[j0].card_id
                                && (rows1[j].id == rows0[j0].id || rows1[j].id >= pre.next_id)
                                && ((j < rows1.len() - 2) ==> rows1[j].id == rows0[j0].id && j0 != ti as int && j0 != mi as int)
                                && ((j == rows1.len() - 2) ==> j0 == ti as int)
                                && ((j == rows1.len() - 1) ==> j0 == mi as int);
                            if i < rows1.len() - 2 && j < rows1.len() - 2 {
                                if pi != pj {
                                    assert(rows0[pi].id != rows0[pj].id);
                                } else {
                                    let hi0 = if ti > mi { ti as int } else { mi as int };
                                    let lo0 = if ti > mi { mi as int } else { ti as int };
                                    let ai = if i < lo0 { i } else { i + 1 };
                                    let aj = if j < lo0 { j } else { j + 1 };
                                    assert(rows1[i] == rows0[if ai < hi0 { ai } else { ai + 1 }]);
                                    assert(rows1[j] == rows0[if aj < hi0 { aj } else { aj + 1 }]);
                                    assert(false);
                                }
                            } else if i >= rows1.len() - 2 && j >= rows1.len() - 2 {
                                assert(rows1[rows1.len() - 2].id == pre.next_id);
                                assert(rows1[rows1.len() - 1].id == pre.next_id + 1);
                            } else {
                                let o = if i < rows1.len() - 2 { i } else { j };
                                assert(rows1[o].id < pre.next_id);
                            }
                        }
                        assert forall|i: int, j: int|
                            0 <= i < rows1.len() && 0 <= j < rows1.len() && i != j
                                && has_card(cs, rows1[i].card_id)
                                && card_of(cs, rows1[i].card_id).type_ == CardType::Boveda
                            implies rows1[i].card_id != rows1[j].card_id
                        by {
                            let pi = choose|i0: int| 0 <= i0 < rows0.len()
                                && rows1[i].card_id == rows0[i0].card_id
                                && (rows1[i].id == rows0[i0].id || rows1[i].id >= pre.next_id)
                                && ((i < rows1.len() - 2) ==> rows1[i].id == rows0[i0].id && i0 != ti as int && i0 != mi as int)
                                && ((i == rows1.len() - 2) ==> i0 == ti as int)
                                && ((i == rows1.len() - 1) ==> i0 == mi as int);
                            let pj = choose|j0: int| 0 <= j0 < rows0.len()
                                && rows1[j].card_id == rows0[j0].card_id
                                && (rows1[j].id == rows0[j0].id || rows1[j].id >= pre.next_id)
                                && ((j < rows1.len() - 2) ==> rows1[j].id == rows0[j0].id && j0 != ti as int && j0 != mi as int)
                                && ((j == rows1.len() - 2) ==> j0 == ti as int)
                                && ((j == rows1.len() - 1) ==> j0 == mi as int);
                            if pi != pj {
                                assert(rows0[pi].card_id != rows0[pj].card_id);
                            } else {
                                assert(false);
                            }
                        }
                        assert(self.wf());
                    }
                }
                self.log_action(actor, target_row.card_id, "Exchanged card", now);
            },
        }
        proof {
            assert(Self::special_action_post(pre, *self, user_id, action,
                target_inventory_id, my_card_id, now));
        }
        Ok(())
    }

    /// Appends one usage-log row.
    fn log_action(&mut self, participant_id: Id, card_id: Id, what: &str, now: i64)
        requires
            old(self).wf(),
            old(self).next_id < u64::MAX,
        ensures
            final(self).wf(),
            final(self).card_usage@.len() == old(self).card_usage@.len() + 1,
            forall|i: int| 0 <= i < old(self).card_usage@.len()
                ==> final(self).card_usage@[i] == old(self).card_usage@[i],
            final(self).card_usage@.last() == (CardUsageHistory {
                id: old(self).next_id,
                game_id: old(self).id,
                participant_id,
                card_id,
                action_description: final(self).card_usage@.last().action_description,
                used_at: now,
            }),
            final(self).card_usage@.last().action_description matches Some(d) && d@ == what@,
            final(self).next_id == old(self).next_id + 1,
            *final(self) == (GameSession {
                card_usage: final(self).card_usage,
                next_id: final(self).next_id,
                ..*old(self)
            }),
    {
        let log = CardUsageHistory {
            id: self.next_id,
            game_id: self.id,
            participant_id,
            card_id,
            action_description: Some(what.to_owned()),
            used_at: now,
        };
        self.next_id = self.next_id + 1;
        self.card_usage.push(log);
        proof {
            assert(self.wf());
        }
    }
}

} // verus!
