//! The transfer engine: atomic money movement between participants, the
//! bank, and the jackpot, with "owns the Bank" redirection; transaction
//! reversal; and jackpot claims.

use vstd::prelude::*;
use crate::types::{Id, Money, UserId, Error};
use crate::entities::{Participant, Transaction};
use crate::session::{
    GameSession, has_pid, has_user, uidx, balance_of, participant_delta,
    owner_of_title_spec, row_matches_title,
};

verus! {

/// Clones an optional description string.
pub fn clone_opt_string(o: &Option<String>) -> (r: Option<String>)
    ensures
        r == *o,
{
    match o {
        Some(s) => Some(s.clone()),
        None => None,
    }
}

impl Clone for Transaction {
    /// Clones the ledger row, field for field.
    fn clone(&self) -> (r: Self)
        ensures
            r == *self,
    {
        Transaction {
            id: self.id,
            game_id: self.game_id,
            from_participant_id: self.from_participant_id,
            to_participant_id: self.to_participant_id,
            amount: self.amount,
            description: clone_opt_string(&self.description),
            created_at: self.created_at,
        }
    }
}

/// Is some ledger row carrying this transaction id?
pub open spec fn has_txn(ts: Seq<Transaction>, tx_id: Id) -> bool {
    exists|i: int| 0 <= i < ts.len() && ts[i].id == tx_id
}

/// The index of the ledger row with this id (unique under `wf`).
pub open spec fn txn_idx(ts: Seq<Transaction>, tx_id: Id) -> int {
    choose|i: int| 0 <= i < ts.len() && ts[i].id == tx_id
}

/// If no row among the first `k` matches the title, the owner lookup on
/// the whole sequence equals the lookup on the rest.
proof fn lemma_owner_prefix_none(
    rows: Seq<crate::entities::ParticipantCard>,
    cards: Seq<crate::entities::Card>,
    title: Seq<char>,
    k: int,
)
    requires
        0 <= k <= rows.len(),
        forall|i: int| 0 <= i < k ==> !row_matches_title(rows[i], cards, title),
    ensures
        owner_of_title_spec(rows, cards, title) == owner_of_title_spec(rows.skip(k), cards, title),
    decreases k,
{
    if k == 0 {
        assert(rows.skip(0) =~= rows);
    } else {
        assert(!row_matches_title(rows[0], cards, title));
        assert(rows.drop_first() =~= rows.skip(1));
        assert(forall|i: int| 0 <= i < k - 1 ==> rows.skip(1)[i] == rows[i + 1]);
        lemma_owner_prefix_none(rows.skip(1), cards, title, k - 1);
        assert(rows.skip(1).skip(k - 1) =~= rows.skip(k));
    }
}

impl GameSession {
    /// Resolves which participant, if any, holds the power card with
    /// this title — the one capability behind every special-card lookup.
    pub fn find_owner_of_card_title(&self, title: &str) -> (r: Option<Id>)
        requires
            self.wf(),
        ensures
            r == owner_of_title_spec(self.participant_cards@, self.cards@, title@),
    {
        let n = self.participant_cards.len();
        for i in 0..n
            invariant
                n == self.participant_cards.len(),
                self.wf(),
                forall|j: int| 0 <= j < i
                    ==> !row_matches_title(self.participant_cards@[j], self.cards@, title@),
        {
            let row = self.participant_cards[i];
            match self.find_card(row.card_id) {
                Some(ci) => {
                    if crate::types::string_eq_str(&self.cards[ci].title, title) {
                        proof {
                            let rows = self.participant_cards@;
                            assert(row_matches_title(rows[i as int], self.cards@, title@));
                            lemma_owner_prefix_none(rows, self.cards@, title@, i as int);
                            assert(rows.skip(i as int)[0] == rows[i as int]);
                            assert(rows.skip(i as int).drop_first() =~= rows.skip(i + 1));
                        }
                        return Some(row.participant_id);
                    }
                    proof {
                        let rows = self.participant_cards@;
                        assert(crate::session::card_of(self.cards@, rows[i as int].card_id)
                            == self.cards@[ci as int]);
                        assert(!row_matches_title(rows[i as int], self.cards@, title@));
                    }
                }
                None => {
                    proof {
                        assert(!row_matches_title(
                            self.participant_cards@[i as int], self.cards@, title@));
                    }
                }
            }
        }
        proof {
            lemma_owner_prefix_none(self.participant_cards@, self.cards@, title@, n as int);
            assert(self.participant_cards@.skip(n as int) =~= Seq::empty());
        }
        None
    }

    /// Where the money actually goes: a payment to the bank is redirected
    /// to the holder of "El Banco", unless the payer holds it.
    pub open spec fn effective_to(&self, from: Option<Id>, to: Option<Id>) -> Option<Id> {
        if from is Some && to is None {
            match self.bank_owner_spec() {
                Some(b) => if from != Some(b) { Some(b) } else { None },
                None => None,
            }
        } else {
            to
        }
    }

    /// What is actually moved: the cost is waived when the payer of a
    /// bank payment holds "El Banco" themselves.
    pub open spec fn effective_amount(&self, from: Option<Id>, to: Option<Id>, amount: Money) -> Money {
        if from is Some && to is None && self.bank_owner_spec() == from {
            0
        } else {
            amount
        }
    }

    /// Every payment toward the bank feeds the jackpot by the full
    /// requested amount, whether redirected, waived, or sunk.
    pub open spec fn jackpot_gain(from: Option<Id>, to: Option<Id>, amount: Money) -> Money {
        if from is Some && to is None {
            amount
        } else {
            0
        }
    }

    /// Does either resolved side of the transfer name a missing participant?
    pub open spec fn transfer_missing_participant(&self, from: Option<Id>, to: Option<Id>) -> bool {
        ||| match from {
            Some(f) => !has_pid(self.participants@, f),
            None => false,
        }
        ||| match self.effective_to(from, to) {
            Some(t) => !has_pid(self.participants@, t),
            None => false,
        }
    }

    /// Do all balance updates of the transfer stay inside the machine's
    /// integer range (and is an id left to allocate)?
    pub open spec fn transfer_fits(&self, from: Option<Id>, to: Option<Id>, amount: Money) -> bool {
        let eff = self.effective_amount(from, to, amount) as int;
        &&& self.next_id < u64::MAX
        &&& match from {
            Some(f) => balance_of(self.participants@, f) - eff >= i64::MIN,
            None => true,
        }
        &&& match self.effective_to(from, to) {
            Some(t) => {
                let base = balance_of(self.participants@, t)
                    - (if from == Some(t) { eff } else { 0 });
                base + eff <= i64::MAX
            },
            None => true,
        }
        &&& self.jackpot_balance + Self::jackpot_gain(from, to, amount) <= i64::MAX
    }

    /// The whole effect of a successful transfer, relating the old state,
    /// the new state and the returned ledger row.
    pub open spec fn transfer_post(
        pre: GameSession,
        post: GameSession,
        txn: Transaction,
        from: Option<Id>,
        to: Option<Id>,
        amount: Money,
        now: i64,
    ) -> bool {
        let eff_to = pre.effective_to(from, to);
        let eff_amount = pre.effective_amount(from, to, amount);
        &&& txn.id == pre.next_id
        &&& txn.game_id == pre.id
        &&& txn.from_participant_id == from
        &&& txn.to_participant_id == eff_to
        &&& txn.amount == eff_amount
        &&& txn.created_at == now
        &&& post.transactions@ == pre.transactions@.push(txn)
        &&& post.participants@.len() == pre.participants@.len()
        &&& forall|i: int| 0 <= i < pre.participants@.len()
            ==> balance_shifted(pre.participants@[i], #[trigger] post.participants@[i],
                    from, eff_to, eff_amount as int)
        &&& post.jackpot_balance == pre.jackpot_balance + Self::jackpot_gain(from, to, amount)
        &&& post.next_id == pre.next_id + 1
        &&& Self::only_ledger_changed(pre, post)
    }

    /// Everything a transfer leaves alone.
    pub open spec fn only_ledger_changed(pre: GameSession, post: GameSession) -> bool {
        &&& post.id == pre.id
        &&& post.code == pre.code
        &&& post.host_user_id == pre.host_user_id
        &&& post.name == pre.name
        &&& post.status == pre.status
        &&& post.current_turn_user_id == pre.current_turn_user_id
        &&& post.turn_order == pre.turn_order
        &&& post.cards == pre.cards
        &&& post.drawn_cards == pre.drawn_cards
        &&& post.market == pre.market
        &&& post.participant_cards == pre.participant_cards
        &&& post.card_usage == pre.card_usage
        &&& post.properties == pre.properties
        &&& post.participant_properties == pre.participant_properties
        &&& post.auctions == pre.auctions
        &&& post.trades == pre.trades
    }

    /// Moves money between participants, the bank (`None` side), and the
    /// jackpot, resolving "owns the Bank" redirection first, and records
    /// the movement as a ledger row.
    ///
    /// For a payment toward the bank (`from` set, `to` unset): if some
    /// other participant holds "El Banco" the payment is redirected to
    /// them; if the payer holds it the cost is waived; in every such case
    /// the jackpot gains the full requested amount.
    pub fn transfer(
        &mut self,
        from: Option<Id>,
        to: Option<Id>,
        amount: Money,
        description: Option<String>,
        now: i64,
    ) -> (r: Result<Transaction, Error>)
        requires
            old(self).wf(),
            amount >= 0,
            from is Some || to is Some,
        ensures
            final(self).wf(),
            r is Ok <==> (!old(self).transfer_missing_participant(from, to)
                && old(self).transfer_fits(from, to, amount)),
            match r {
                Ok(txn) => {
                    &&& Self::transfer_post(*old(self), *final(self), txn, from, to, amount, now)
                    &&& txn.description == description
                },
                Err(e) => {
                    &&& *final(self) == *old(self)
                    &&& (e == Error::ParticipantNotFound
                        <==> old(self).transfer_missing_participant(from, to))
                    &&& (e == Error::ParticipantNotFound || e == Error::ArithmeticLimit)
                },
            },
    {
        let ghost pre = *self;

        // Resolve the payer's row.
        let fi_opt: Option<usize> = match from {
            Some(f) => match self.find_participant_by_id(f) {
                Some(i) => Some(i),
                None => {
                    return Err(Error::ParticipantNotFound);
                },
            },
            None => None,
        };

        // Resolve "El Banco" redirection.
        let mut eff_to: Option<Id> = to;
        let mut eff_amount: Money = amount;
        let mut jackpot_add: Money = 0;
        if from.is_some() && to.is_none() {
            jackpot_add = amount;
            match self.find_owner_of_card_title("El Banco") {
                Some(owner_pid) => {
                    let f = match from {
                        Some(f) => f,
                        None => {
                            proof {
                                assert(false);
                            }
                            0
                        },
                    };
                    if f != owner_pid {
                        eff_to = Some(owner_pid);
                    } else {
                        eff_to = None;
                        eff_amount = 0;
                    }
                },
                None => {
                    eff_to = None;
                },
            }
        }
        proof {
            assert(eff_to == pre.effective_to(from, to));
            assert(eff_amount == pre.effective_amount(from, to, amount));
            assert(jackpot_add == Self::jackpot_gain(from, to, amount));
        }

        // Resolve the receiver's row.
        let ti_opt: Option<usize> = match eff_to {
            Some(t) => match self.find_participant_by_id(t) {
                Some(i) => Some(i),
                None => {
                    return Err(Error::ParticipantNotFound);
                },
            },
            None => None,
        };

        // Check every update fits before changing anything.
        if self.next_id == u64::MAX {
            return Err(Error::ArithmeticLimit);
        }
        let jp_new: Money = match self.jackpot_balance.checked_add(jackpot_add) {
            Some(v) => v,
            None => {
                return Err(Error::ArithmeticLimit);
            },
        };
        let mut new_from: Money = 0;
        if let Some(fi) = fi_opt {
            match self.participants[fi].balance.checked_sub(eff_amount) {
                Some(nb) => {
                    new_from = nb;
                },
                None => {
                    return Err(Error::ArithmeticLimit);
                },
            }
        }
        let mut new_to: Money = 0;
        if let Some(ti) = ti_opt {
            let base: Money = match fi_opt {
                Some(fi) => if fi == ti {
                    new_from
                } else {
                    self.participants[ti].balance
                },
                None => self.participants[ti].balance,
            };
            match base.checked_add(eff_amount) {
                Some(nb) => {
                    new_to = nb;
                },
                None => {
                    return Err(Error::ArithmeticLimit);
                },
            }
        }
        proof {
            assert(pre.transfer_fits(from, to, amount));
        }

        // Apply: debit, credit, jackpot, ledger row — one atomic unit.
        if let Some(fi) = fi_opt {
            self.participants[fi].balance = new_from;
        }
        if let Some(ti) = ti_opt {
            self.participants[ti].balance = new_to;
        }
        self.jackpot_balance = jp_new;
        let txn = Transaction {
            id: self.next_id,
            game_id: self.id,
            from_participant_id: from,
            to_participant_id: eff_to,
            amount: eff_amount,
            description,
            created_at: now,
        };
        self.transactions.push(txn.clone());
        self.next_id = self.next_id + 1;

        proof {
            let ps0 = pre.participants@;
            let ps1 = self.participants@;
            assert forall|i: int| 0 <= i < ps0.len()
                implies balance_shifted(ps0[i], #[trigger] ps1[i], from, eff_to, eff_amount as int)
            by {
                match fi_opt {
                    Some(fi) => {
                        assert(ps0[fi as int].id == from.unwrap());
                        if i != fi as int {
                            assert(ps0[i].id != ps0[fi as int].id);
                        }
                    },
                    None => {},
                }
                match ti_opt {
                    Some(ti) => {
                        assert(ps0[ti as int].id == eff_to.unwrap());
                        if i != ti as int {
                            assert(ps0[i].id != ps0[ti as int].id);
                        }
                    },
                    None => {},
                }
            }
            assert(Self::transfer_post(pre, *self, txn, from, to, amount, now));
            assert(self.wf());
        }
        Ok(txn)
    }
}

/// Does `p1` differ from `p0` only by the balance shift this movement
/// owes that participant?
pub open spec fn balance_shifted(
    p0: Participant,
    p1: Participant,
    from: Option<Id>,
    to: Option<Id>,
    amount: int,
) -> bool {
    &&& p1.id == p0.id
    &&& p1.game_id == p0.game_id
    &&& p1.user_id == p0.user_id
    &&& p1.position == p0.position
    &&& p1.balance == p0.balance + participant_delta(p0, from, to, amount)
}

impl GameSession {
    /// Do the reversal's balance updates of this ledger row stay inside
    /// the machine's integer range?  A side whose participant no longer
    /// exists is skipped, as the storage layer's row update would be.
    pub open spec fn reversal_fits(&self, t: Transaction) -> bool {
        let ps = self.participants@;
        &&& match t.from_participant_id {
            Some(f) => has_pid(ps, f) ==> balance_of(ps, f) + t.amount <= i64::MAX,
            None => true,
        }
        &&& match t.to_participant_id {
            Some(tt) => has_pid(ps, tt) ==> {
                let base = balance_of(ps, tt)
                    + (if t.from_participant_id == Some(tt) { t.amount as int } else { 0 });
                base - t.amount >= i64::MIN
            },
            None => true,
        }
    }

    /// The whole effect of deleting an existing ledger row: the inverse
    /// deltas are re-applied, then the row is gone.
    pub open spec fn delete_post(pre: GameSession, post: GameSession, tx_id: Id) -> bool {
        let k = txn_idx(pre.transactions@, tx_id);
        let t = pre.transactions@[k];
        &&& post.transactions@ == pre.transactions@.remove(k)
        &&& post.participants@.len() == pre.participants@.len()
        &&& forall|i: int| 0 <= i < pre.participants@.len()
            ==> balance_shifted(pre.participants@[i], #[trigger] post.participants@[i],
                    t.to_participant_id, t.from_participant_id, t.amount as int)
        &&& post.jackpot_balance == pre.jackpot_balance
        &&& post.next_id == pre.next_id
        &&& Self::only_ledger_changed(pre, post)
    }

    /// Index of the ledger row with this transaction id.
    pub fn find_transaction(&self, tx_id: Id) -> (r: Option<usize>)
        requires
            self.wf(),
        ensures
            match r {
                Some(i) => i < self.transactions@.len() && self.transactions@[i as int].id == tx_id
                    && has_txn(self.transactions@, tx_id) && txn_idx(self.transactions@, tx_id) == i,
                None => !has_txn(self.transactions@, tx_id),
            },
    {
        let n = self.transactions.len();
        for i in 0..n
            invariant
                n == self.transactions.len(),
                self.wf(),
                forall|j: int| 0 <= j < i ==> self.transactions@[j].id != tx_id,
        {
            if self.transactions[i].id == tx_id {
                proof {
                    let ts = self.transactions@;
                    assert(has_txn(ts, tx_id));
                    let w = txn_idx(ts, tx_id);
                    assert(0 <= w < ts.len() && ts[w].id == tx_id);
                    if w != i as int {
                        assert(ts[w].id != ts[i as int].id);
                        assert(false);
                    }
                }
                return Some(i);
            }
        }
        None
    }

    /// Reverses and removes a ledger row: the `from` side is credited
    /// back and the `to` side debited (even into debt), then the row is
    /// deleted — one atomic unit.  Success if the id no longer exists.
    pub fn delete_transaction(&mut self, tx_id: Id) -> (r: Result<(), Error>)
        requires
            old(self).wf(),
        ensures
            final(self).wf(),
            r is Ok <==> (!has_txn(old(self).transactions@, tx_id)
                || old(self).reversal_fits(
                    old(self).transactions@[txn_idx(old(self).transactions@, tx_id)])),
            match r {
                Ok(()) => if has_txn(old(self).transactions@, tx_id) {
                    Self::delete_post(*old(self), *final(self), tx_id)
                } else {
                    *final(self) == *old(self)
                },
                Err(e) => *final(self) == *old(self) && e == Error::ArithmeticLimit,
            },
    {
        let ghost pre = *self;
        let k = match self.find_transaction(tx_id) {
            Some(k) => k,
            None => {
                return Ok(());
            },
        };
        let t_from = self.transactions[k].from_participant_id;
        let t_to = self.transactions[k].to_participant_id;
        let amt = self.transactions[k].amount;

        // Check both inverse updates fit before changing anything.
        let fi_opt: Option<usize> = match t_from {
            Some(f) => self.find_participant_by_id(f),
            None => None,
        };
        let mut new_from: Money = 0;
        if let Some(fi) = fi_opt {
            match self.participants[fi].balance.checked_add(amt) {
                Some(nb) => {
                    new_from = nb;
                },
                None => {
                    return Err(Error::ArithmeticLimit);
                },
            }
        }
        let ti_opt: Option<usize> = match t_to {
            Some(t) => self.find_participant_by_id(t),
            None => None,
        };
        let mut new_to: Money = 0;
        if let Some(ti) = ti_opt {
            let base: Money = match fi_opt {
                Some(fi) => if fi == ti {
                    new_from
                } else {
                    self.participants[ti].balance
                },
                None => self.participants[ti].balance,
            };
            match base.checked_sub(amt) {
                Some(nb) => {
                    new_to = nb;
                },
                None => {
                    return Err(Error::ArithmeticLimit);
                },
            }
        }
        proof {
            assert(pre.reversal_fits(pre.transactions@[txn_idx(pre.transactions@, tx_id)]));
        }

        // Apply the inverse deltas, then drop the row.
        if let Some(fi) = fi_opt {
            self.participants[fi].balance = new_from;
        }
        if let Some(ti) = ti_opt {
            self.participants[ti].balance = new_to;
        }
        self.transactions.remove(k);

        proof {
            let ps0 = pre.participants@;
            let ps1 = self.participants@;
            assert forall|i: int| 0 <= i < ps0.len()
                implies balance_shifted(ps0[i], #[trigger] ps1[i], t_to, t_from, amt as int)
            by {
                match fi_opt {
                    Some(fi) => {
                        assert(ps0[fi as int].id == t_from.unwrap());
                        if i != fi as int {
                            assert(ps0[i].id != ps0[fi as int].id);
                        }
                    },
                    None => {
                        if t_from is Some {
                            assert(!has_pid(ps0, t_from.unwrap()));
                            assert(ps0[i].id != t_from.unwrap());
                        }
                    },
                }
                match ti_opt {
                    Some(ti) => {
                        assert(ps0[ti as int].id == t_to.unwrap());
                        if i != ti as int {
                            assert(ps0[i].id != ps0[ti as int].id);
                        }
                    },
                    None => {
                        if t_to is Some {
                            assert(!has_pid(ps0, t_to.unwrap()));
                            assert(ps0[i].id != t_to.unwrap());
                        }
                    },
                }
            }
            assert(Self::delete_post(pre, *self, tx_id));
            assert(self.wf());
        }
        Ok(())
    }

    /// Does crediting the whole jackpot to this user's participant fit?
    pub open spec fn claim_fits(&self, user_id: UserId) -> bool {
        let ps = self.participants@;
        &&& self.next_id < u64::MAX
        &&& ps[uidx(ps, user_id)].balance + self.jackpot_balance <= i64::MAX
    }

    /// The whole effect of a successful jackpot claim.
    pub open spec fn claim_post(pre: GameSession, post: GameSession, txn: Transaction, user_id: UserId, now: i64) -> bool {
        let ps = pre.participants@;
        let winner = ps[uidx(ps, user_id)];
        &&& txn.id == pre.next_id
        &&& txn.game_id == pre.id
        &&& txn.from_participant_id is None
        &&& txn.to_participant_id == Some(winner.id)
        &&& txn.amount == pre.jackpot_balance
        &&& txn.created_at == now
        &&& match txn.description {
            Some(d) => d@ == "Jackpot Win!"@,
            None => false,
        }
        &&& post.transactions@ == pre.transactions@.push(txn)
        &&& post.participants@.len() == ps.len()
        &&& forall|i: int| 0 <= i < ps.len()
            ==> balance_shifted(ps[i], #[trigger] post.participants@[i],
                    None, Some(winner.id), pre.jackpot_balance as int)
        &&& post.jackpot_balance == 0
        &&& post.next_id == pre.next_id + 1
        &&& Self::only_ledger_changed(pre, post)
    }

    /// Pays the whole jackpot out to the calling user's participant,
    /// resets it to zero, and records the payout — one atomic unit.
    pub fn claim_jackpot(&mut self, user_id: UserId, now: i64) -> (r: Result<Transaction, Error>)
        requires
            old(self).wf(),
        ensures
            final(self).wf(),
            r is Ok <==> (old(self).jackpot_balance > 0
                && has_user(old(self).participants@, user_id)
                && old(self).claim_fits(user_id)),
            match r {
                Ok(txn) => Self::claim_post(*old(self), *final(self), txn, user_id, now),
                Err(e) => {
                    &&& *final(self) == *old(self)
                    &&& (e == Error::JackpotEmpty <==> old(self).jackpot_balance <= 0)
                    &&& (e == Error::ParticipantNotFound <==> old(self).jackpot_balance > 0
                        && !has_user(old(self).participants@, user_id))
                    &&& (e == Error::JackpotEmpty || e == Error::ParticipantNotFound
                        || e == Error::ArithmeticLimit)
                },
            },
    {
        let ghost pre = *self;
        if self.jackpot_balance <= 0 {
            return Err(Error::JackpotEmpty);
        }
        let wi = match self.find_participant_by_user(user_id) {
            Some(i) => i,
            None => {
                return Err(Error::ParticipantNotFound);
            },
        };
        if self.next_id == u64::MAX {
            return Err(Error::ArithmeticLimit);
        }
        let amount = self.jackpot_balance;
        let winner_pid = self.participants[wi].id;
        let new_balance = match self.participants[wi].balance.checked_add(amount) {
            Some(nb) => nb,
            None => {
                return Err(Error::ArithmeticLimit);
            },
        };

        self.participants[wi].balance = new_balance;
        self.jackpot_balance = 0;
        let txn = Transaction {
            id: self.next_id,
            game_id: self.id,
            from_participant_id: None,
            to_participant_id: Some(winner_pid),
            amount,
            description: Some("Jackpot Win!".to_owned()),
            created_at: now,
        };
        self.transactions.push(txn.clone());
        self.next_id = self.next_id + 1;

        proof {
            let ps0 = pre.participants@;
            let ps1 = self.participants@;
            assert forall|i: int| 0 <= i < ps0.len()
                implies balance_shifted(ps0[i], #[trigger] ps1[i],
                    None, Some(winner_pid), amount as int)
            by {
                assert(ps0[wi as int].id == winner_pid);
                if i != wi as int {
                    assert(ps0[i].id != ps0[wi as int].id);
                }
            }
            assert(Self::claim_post(pre, *self, txn, user_id, now));
            assert(self.wf());
        }
        Ok(txn)
    }

    /// All ledger rows of the game, newest last.
    pub fn get_transactions(&self) -> (r: &Vec<Transaction>)
        ensures
            r == &self.transactions,
    {
        &self.transactions
    }
}

} // verus!
