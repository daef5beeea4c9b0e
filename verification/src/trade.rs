//! The trade engine: bilateral pending proposals with atomic
//! multi-asset settlement on acceptance.

use vstd::prelude::*;
use crate::types::{Id, Money, UserId, Error};
use crate::entities::{Participant, Trade, TradeStatus, ParticipantProperty};
use crate::session::{
    GameSession, has_pid, has_user, balance_of, property_owned, owned_idx,
};
use crate::ledger::balance_shifted;
use crate::laws::lemma_pidx_stable;

verus! {

/// Clones a list of identifiers.
fn clone_id_vec(v: &Vec<Id>) -> (r: Vec<Id>)
    ensures
        r@ == v@,
{
    let mut r: Vec<Id> = Vec::new();
    let n = v.len();
    for i in 0..n
        invariant
            n == v@.len(),
            r@ == v@.take(i as int),
    {
        r.push(v[i]);
        proof {
            assert(r@ =~= v@.take(i + 1));
        }
    }
    proof {
        assert(v@.take(n as int) =~= v@);
    }
    r
}

/// Are these two trade rows the same, list contents compared as
/// sequences?
pub open spec fn trade_like(a: Trade, b: Trade) -> bool {
    &&& a.id == b.id
    &&& a.game_id == b.game_id
    &&& a.initiator_id == b.initiator_id
    &&& a.target_id == b.target_id
    &&& a.offer_cash == b.offer_cash
    &&& a.request_cash == b.request_cash
    &&& a.offer_properties@ == b.offer_properties@
    &&& a.request_properties@ == b.request_properties@
    &&& a.status == b.status
}

impl Clone for Trade {
    /// Clones the trade row, field for field.
    fn clone(&self) -> (r: Self)
        ensures
            trade_like(r, *self),
    {
        Trade {
            id: self.id,
            game_id: self.game_id,
            initiator_id: self.initiator_id,
            target_id: self.target_id,
            offer_cash: self.offer_cash,
            request_cash: self.request_cash,
            offer_properties: clone_id_vec(&self.offer_properties),
            request_properties: clone_id_vec(&self.request_properties),
            status: self.status,
        }
    }
}

/// Is some trade row carrying this id?
pub open spec fn has_trade(ts: Seq<Trade>, tid: Id) -> bool {
    exists|i: int| 0 <= i < ts.len() && ts[i].id == tid
}

/// The index of the trade row with this id (unique under `wf`).
pub open spec fn trade_idx(ts: Seq<Trade>, tid: Id) -> int {
    choose|i: int| 0 <= i < ts.len() && ts[i].id == tid
}

/// One property leg: the ownership record of `prop_id`, if any, is
/// handed to `to`, keeping its buildings and mortgage flag.
pub open spec fn reassign_one(os: Seq<ParticipantProperty>, prop_id: Id, to: Id) -> Seq<ParticipantProperty> {
    if property_owned(os, prop_id) {
        let k = owned_idx(os, prop_id);
        os.update(k, ParticipantProperty { participant_id: to, ..os[k] })
    } else {
        os
    }
}

/// All property legs of one direction, applied in list order.
pub open spec fn reassign_all(os: Seq<ParticipantProperty>, props: Seq<Id>, to: Id) -> Seq<ParticipantProperty>
    decreases props.len(),
{
    if props.len() == 0 {
        os
    } else {
        reassign_all(reassign_one(os, props[0], to), props.drop_first(), to)
    }
}

/// Appending one more property leg applies it after the others.
proof fn lemma_reassign_all_push(os: Seq<ParticipantProperty>, props: Seq<Id>, x: Id, to: Id)
    ensures
        reassign_all(os, props.push(x), to) == reassign_one(reassign_all(os, props, to), x, to),
    decreases props.len(),
{
    if props.len() == 0 {
        let single = props.push(x);
        assert(single[0] == x);
        assert(single.drop_first() =~= Seq::<Id>::empty());
        assert(reassign_all(os, single, to)
            == reassign_all(reassign_one(os, x, to), single.drop_first(), to));
        assert(reassign_all(reassign_one(os, x, to), single.drop_first(), to)
            == reassign_one(os, x, to));
        assert(reassign_all(os, props, to) == os);
    } else {
        assert(props.push(x)[0] == props[0]);
        assert(props.push(x).drop_first() =~= props.drop_first().push(x));
        lemma_reassign_all_push(reassign_one(os, props[0], to), props.drop_first(), x, to);
        assert(reassign_all(os, props.push(x), to)
            == reassign_all(reassign_one(os, props.push(x)[0], to), props.push(x).drop_first(), to));
        assert(reassign_all(reassign_one(os, props[0], to), props.push(x).drop_first(), to)
            == reassign_all(reassign_one(os, props[0], to), props.drop_first().push(x), to));
        assert(reassign_all(os, props, to)
            == reassign_all(reassign_one(os, props[0], to), props.drop_first(), to));
    }
}

/// The net cash movement a settled trade owes one participant.
pub open spec fn trade_delta(p: Participant, initiator: Id, target: Id, offer: int, request: int) -> int {
    (if p.id == initiator { -offer + request } else { 0 })
        + (if p.id == target { offer - request } else { 0 })
}

impl GameSession {
    /// Index of the trade row with this id.
    pub fn find_trade(&self, trade_id: Id) -> (r: Option<usize>)
        requires
            self.wf(),
        ensures
            match r {
                Some(i) => i < self.trades@.len() && self.trades@[i as int].id == trade_id
                    && has_trade(self.trades@, trade_id) && trade_idx(self.trades@, trade_id) == i,
                None => !has_trade(self.trades@, trade_id),
            },
    {
        let n = self.trades.len();
        for i in 0..n
            invariant
                n == self.trades@.len(),
                self.wf(),
                forall|j: int| 0 <= j < i ==> self.trades@[j].id != trade_id,
        {
            if self.trades[i].id == trade_id {
                proof {
                    let ts = self.trades@;
                    assert(has_trade(ts, trade_id));
                    let w = trade_idx(ts, trade_id);
                    assert(0 <= w < ts.len() && ts[w].id == trade_id);
                    if w != i as int {
                        assert(ts[w].id != ts[i as int].id);
                        assert(false);
                    }
                }
                return Some(i);
            }
        }
        None
    }

    /// Inserts a pending trade proposal between two participants.
    pub fn create_trade(
        &mut self,
        initiator_id: Id,
        target_id: Id,
        offer_cash: Money,
        request_cash: Money,
        offer_properties: Vec<Id>,
        request_properties: Vec<Id>,
    ) -> (r: Result<Trade, Error>)
        requires
            old(self).wf(),
            offer_cash >= 0,
            request_cash >= 0,
        ensures
            final(self).wf(),
            r is Ok <==> (has_pid(old(self).participants@, initiator_id)
                && has_pid(old(self).participants@, target_id)
                && old(self).next_id < u64::MAX),
            match r {
                Ok(t) => {
                    &&& t.id == old(self).next_id
                    &&& t.game_id == old(self).id
                    &&& t.initiator_id == initiator_id
                    &&& t.target_id == target_id
                    &&& t.offer_cash == offer_cash
                    &&& t.request_cash == request_cash
                    &&& t.offer_properties@ == offer_properties@
                    &&& t.request_properties@ == request_properties@
                    &&& t.status == TradeStatus::Pending
                    &&& final(self).trades@.len() == old(self).trades@.len() + 1
                    &&& forall|i: int| 0 <= i < old(self).trades@.len()
                        ==> final(self).trades@[i] == old(self).trades@[i]
                    &&& trade_like(final(self).trades@.last(), t)
                    &&& final(self).next_id == old(self).next_id + 1
                    &&& final(self).participants == old(self).participants
                    &&& final(self).transactions == old(self).transactions
                    &&& final(self).jackpot_balance == old(self).jackpot_balance
                    &&& final(self).participant_properties == old(self).participant_properties
                    &&& final(self).auctions == old(self).auctions
                    &&& Self::non_economy_fields_unchanged(*old(self), *final(self))
                },
                Err(e) => {
                    &&& *final(self) == *old(self)
                    &&& (e == Error::ParticipantNotFound
                        <==> !has_pid(old(self).participants@, initiator_id)
                            || !has_pid(old(self).participants@, target_id))
                    &&& (e == Error::ParticipantNotFound || e == Error::ArithmeticLimit)
                },
            },
    {
        match self.find_participant_by_id(initiator_id) {
            Some(_) => {},
            None => {
                return Err(Error::ParticipantNotFound);
            },
        }
        match self.find_participant_by_id(target_id) {
            Some(_) => {},
            None => {
                return Err(Error::ParticipantNotFound);
            },
        }
        if self.next_id == u64::MAX {
            return Err(Error::ArithmeticLimit);
        }
        let t = Trade {
            id: self.next_id,
            game_id: self.id,
            initiator_id,
            target_id,
            offer_cash,
            request_cash,
            offer_properties,
            request_properties,
            status: TradeStatus::Pending,
        };
        let ret = t.clone();
        self.next_id = self.next_id + 1;
        self.trades.push(t);
        proof {
            assert(self.wf());
        }
        Ok(ret)
    }

    /// Do both cash legs of the trade stay inside the machine's
    /// integer range, at every intermediate balance?
    pub open spec fn accept_cash_fits(&self, initiator: Id, target: Id, offer: Money, request: Money) -> bool {
        let ps = self.participants@;
        let bi = balance_of(ps, initiator);
        let bt = balance_of(ps, target);
        if initiator == target {
            &&& (offer > 0 ==> bi - offer >= i64::MIN)
            &&& (request > 0 ==> bi - request >= i64::MIN)
        } else {
            let bi1 = if offer > 0 { bi - offer } else { bi };
            let bt1 = if offer > 0 { bt + offer } else { bt };
            &&& (offer > 0 ==> bi - offer >= i64::MIN && bt + offer <= i64::MAX)
            &&& (request > 0 ==> bt1 - request >= i64::MIN && bi1 + request <= i64::MAX)
        }
    }

    /// The whole effect of accepting a trade: both cash legs through
    /// the ledger, every listed property handed over, the row marked
    /// accepted — all or nothing.
    pub open spec fn accept_trade_post(
        pre: GameSession,
        post: GameSession,
        t: Trade,
        trade_id: Id,
        now: i64,
    ) -> bool {
        let ts = pre.trades@;
        let k = trade_idx(ts, trade_id);
        let tr = ts[k];
        let legs = (if tr.offer_cash > 0 { 1int } else { 0 }) + (if tr.request_cash > 0 { 1int } else { 0 });
        &&& trade_like(t, (Trade { status: TradeStatus::Accepted, ..tr }))
        &&& post.trades@ == ts.update(k, (Trade { status: TradeStatus::Accepted, ..tr }))
        &&& post.participants@.len() == pre.participants@.len()
        &&& forall|i: int| 0 <= i < pre.participants@.len() ==> {
            let p0 = pre.participants@[i];
            let p1 = #[trigger] post.participants@[i];
            &&& p1.id == p0.id
            &&& p1.user_id == p0.user_id
            &&& p1.game_id == p0.game_id
            &&& p1.position == p0.position
            &&& p1.balance == p0.balance
                + trade_delta(p0, tr.initiator_id, tr.target_id, tr.offer_cash as int, tr.request_cash as int)
        }
        &&& post.transactions@.len() == pre.transactions@.len() + legs
        &&& forall|i: int| 0 <= i < pre.transactions@.len()
            ==> post.transactions@[i] == pre.transactions@[i]
        &&& (tr.offer_cash > 0 ==> {
            let txn = post.transactions@[pre.transactions@.len() as int];
            &&& txn.from_participant_id == Some(tr.initiator_id)
            &&& txn.to_participant_id == Some(tr.target_id)
            &&& txn.amount == tr.offer_cash
            &&& txn.created_at == now
        })
        &&& (tr.request_cash > 0 ==> {
            let txn = post.transactions@.last();
            &&& txn.from_participant_id == Some(tr.target_id)
            &&& txn.to_participant_id == Some(tr.initiator_id)
            &&& txn.amount == tr.request_cash
            &&& txn.created_at == now
        })
        &&& post.jackpot_balance == pre.jackpot_balance
        &&& post.next_id == pre.next_id + legs
        &&& post.participant_properties@ == reassign_all(
            reassign_all(pre.participant_properties@, tr.offer_properties@, tr.target_id),
            tr.request_properties@, tr.initiator_id)
        &&& post.auctions == pre.auctions
        &&& Self::non_economy_fields_unchanged(pre, post)
    }

    /// Accepts a pending trade: the caller must be its target; then,
    /// atomically, the offered cash goes initiator to target, the
    /// requested cash target to initiator, each offered property to the
    /// target, each requested property to the initiator, and the trade
    /// is marked accepted.
    #[verifier::rlimit(100)]
    pub fn accept_trade(&mut self, trade_id: Id, user_id: UserId, now: i64) -> (r: Result<Trade, Error>)
        requires
            old(self).wf(),
        ensures
            final(self).wf(),
            r is Ok <==> ({
                let pre = *old(self);
                let ts = pre.trades@;
                &&& has_trade(ts, trade_id)
                &&& ts[trade_idx(ts, trade_id)].status == TradeStatus::Pending
                &&& has_user(pre.participants@, user_id)
                &&& pre.pid_of_user(user_id) == ts[trade_idx(ts, trade_id)].target_id
                &&& has_pid(pre.participants@, ts[trade_idx(ts, trade_id)].initiator_id)
                &&& pre.next_id + 2 <= u64::MAX
                &&& pre.accept_cash_fits(ts[trade_idx(ts, trade_id)].initiator_id,
                        ts[trade_idx(ts, trade_id)].target_id,
                        ts[trade_idx(ts, trade_id)].offer_cash,
                        ts[trade_idx(ts, trade_id)].request_cash)
            }),
            match r {
                Ok(t) => Self::accept_trade_post(*old(self), *final(self), t, trade_id, now),
                Err(e) => {
                    &&& *final(self) == *old(self)
                    &&& (e == Error::TradeNotFound <==> !has_trade(old(self).trades@, trade_id))
                    &&& (e == Error::TradeNotFound || e == Error::TradeNotPending
                        || e == Error::ParticipantNotFound || e == Error::NotTradeTarget
                        || e == Error::ArithmeticLimit)
                },
            },
    {
        let ghost pre = *self;
        let k = match self.find_trade(trade_id) {
            Some(i) => i,
            None => {
                return Err(Error::TradeNotFound);
            },
        };
        if !matches!(self.trades[k].status, TradeStatus::Pending) {
            return Err(Error::TradeNotPending);
        }
        let me_i = match self.find_participant_by_user(user_id) {
            Some(i) => i,
            None => {
                return Err(Error::ParticipantNotFound);
            },
        };
        let my_pid = self.participants[me_i].id;
        let initiator = self.trades[k].initiator_id;
        let target = self.trades[k].target_id;
        let offer = self.trades[k].offer_cash;
        let request = self.trades[k].request_cash;
        if my_pid != target {
            return Err(Error::NotTradeTarget);
        }
        let ii = match self.find_participant_by_id(initiator) {
            Some(i) => i,
            None => {
                return Err(Error::ParticipantNotFound);
            },
        };
        if self.next_id >= u64::MAX - 1 {
            return Err(Error::ArithmeticLimit);
        }

        // Check both cash legs fit before moving anything.
        let bi = self.participants[ii].balance;
        let bt = self.participants[me_i].balance;
        let fits: bool = if ii == me_i {
            let first = if offer > 0 {
                bi.checked_sub(offer).is_some()
            } else {
                true
            };
            let second = if request > 0 {
                bi.checked_sub(request).is_some()
            } else {
                true
            };
            first && second
        } else {
            let mut ok = true;
            let mut bi1 = bi;
            let mut bt1 = bt;
            if offer > 0 {
                match bi.checked_sub(offer) {
                    Some(v) => {
                        bi1 = v;
                    },
                    None => {
                        ok = false;
                    },
                }
                match bt.checked_add(offer) {
                    Some(v) => {
                        bt1 = v;
                    },
                    None => {
                        ok = false;
                    },
                }
            }
            if ok && request > 0 {
                if bt1.checked_sub(request).is_none() {
                    ok = false;
                }
                if bi1.checked_add(request).is_none() {
                    ok = false;
                }
            }
            ok
        };
        if !fits {
            return Err(Error::ArithmeticLimit);
        }
        proof {
            assert(balance_of(pre.participants@, initiator) == bi);
            assert(balance_of(pre.participants@, target) == bt);
            assert(pre.accept_cash_fits(initiator, target, offer, request));
        }

        // Cash legs, each an audited ledger movement.
        if offer > 0 {
            let res = self.transfer(Some(initiator), Some(target), offer, Some("Trade Cash".to_owned()), now);
            proof {
                assert(res is Ok);
            }
        }
        let ghost mid1 = *self;
        proof {
            if offer > 0 {
                lemma_pidx_stable(pre.participants@, mid1.participants@, initiator);
                lemma_pidx_stable(pre.participants@, mid1.participants@, target);
            }
        }
        if request > 0 {
            proof {
                assert(balance_of(mid1.participants@, target)
                    == balance_of(pre.participants@, target)
                        + (if offer > 0 && initiator != target { offer as int } else { 0 }));
                assert(balance_of(mid1.participants@, initiator)
                    == balance_of(pre.participants@, initiator)
                        - (if offer > 0 && initiator != target { offer as int } else { 0 }));
                assert(mid1.transfer_fits(Some(target), Some(initiator), request));
            }
            let res = self.transfer(Some(target), Some(initiator), request, Some("Trade Cash".to_owned()), now);
            proof {
                assert(res is Ok);
            }
        }
        let ghost mid2 = *self;
        proof {
            let ps0 = pre.participants@;
            let ps2 = mid2.participants@;
            assert forall|i: int| 0 <= i < ps0.len() implies {
                let p0 = ps0[i];
                let p1 = #[trigger] ps2[i];
                &&& p1.id == p0.id
                &&& p1.user_id == p0.user_id
                &&& p1.game_id == p0.game_id
                &&& p1.position == p0.position
                &&& p1.balance == p0.balance
                    + trade_delta(p0, initiator, target, offer as int, request as int)
            } by {
                if offer > 0 {
                    assert(balance_shifted(ps0[i], mid1.participants@[i], Some(initiator),
                        Some(target), offer as int));
                }
                if request > 0 {
                    assert(balance_shifted(mid1.participants@[i], ps2[i], Some(target),
                        Some(initiator), request as int));
                }
            }
        }

        // Property legs: offered to the target, requested to the
        // initiator.
        let offered = clone_id_vec(&self.trades[k].offer_properties);
        self.reassign_properties(&offered, target);
        let requested = clone_id_vec(&self.trades[k].request_properties);
        self.reassign_properties(&requested, initiator);

        // Mark the proposal accepted.
        self.trades[k].status = TradeStatus::Accepted;
        let ret = self.trades[k].clone();
        proof {
            assert(self.wf());
            assert(Self::accept_trade_post(pre, *self, ret, trade_id, now));
        }
        Ok(ret)
    }

    /// Applies one direction's property legs in list order.
    fn reassign_properties(&mut self, props: &Vec<Id>, to: Id)
        requires
            old(self).wf(),
        ensures
            final(self).wf(),
            final(self).participant_properties@
                == reassign_all(old(self).participant_properties@, props@, to),
            *final(self) == (GameSession {
                participant_properties: final(self).participant_properties,
                ..*old(self)
            }),
    {
        let n = props.len();
        for i in 0..n
            invariant
                n == props@.len(),
                self.wf(),
                self.participant_properties@
                    == reassign_all(old(self).participant_properties@, props@.take(i as int), to),
                *self == (GameSession {
                    participant_properties: self.participant_properties,
                    ..*old(self)
                }),
        {
            let ghost before = self.participant_properties@;
            match self.find_ownership(props[i]) {
                Some(oi) => {
                    let row = self.participant_properties[oi];
                    self.participant_properties[oi] = ParticipantProperty {
                        participant_id: to,
                        ..row
                    };
                    proof {
                        assert(self.participant_properties@ == reassign_one(before, props@[i as int], to));
                        assert(self.wf());
                    }
                },
                None => {
                    proof {
                        assert(self.participant_properties@ == reassign_one(before, props@[i as int], to));
                    }
                },
            }
            proof {
                assert(props@.take(i + 1) =~= props@.take(i as int).push(props@[i as int]));
                lemma_reassign_all_push(old(self).participant_properties@, props@.take(i as int),
                    props@[i as int], to);
            }
        }
        proof {
            assert(props@.take(n as int) =~= props@);
        }
    }

    /// Rejects a pending trade; either party may do so; no side
    /// effects beyond the status move.
    pub fn reject_trade(&mut self, trade_id: Id, user_id: UserId) -> (r: Result<Trade, Error>)
        requires
            old(self).wf(),
        ensures
            final(self).wf(),
            r is Ok <==> ({
                let pre = *old(self);
                let ts = pre.trades@;
                &&& has_trade(ts, trade_id)
                &&& ts[trade_idx(ts, trade_id)].status == TradeStatus::Pending
                &&& has_user(pre.participants@, user_id)
                &&& (pre.pid_of_user(user_id) == ts[trade_idx(ts, trade_id)].initiator_id
                    || pre.pid_of_user(user_id) == ts[trade_idx(ts, trade_id)].target_id)
            }),
            match r {
                Ok(t) => {
                    let ts = old(self).trades@;
                    let k = trade_idx(ts, trade_id);
                    &&& trade_like(t, (Trade { status: TradeStatus::Rejected, ..ts[k] }))
                    &&& final(self).trades@ == ts.update(k, (Trade { status: TradeStatus::Rejected, ..ts[k] }))
                    &&& *final(self) == (GameSession { trades: final(self).trades, ..*old(self) })
                },
                Err(e) => {
                    &&& *final(self) == *old(self)
                    &&& (e == Error::TradeNotFound <==> !has_trade(old(self).trades@, trade_id))
                    &&& (e == Error::TradeNotFound || e == Error::TradeNotPending
                        || e == Error::ParticipantNotFound || e == Error::NotTradeParty)
                },
            },
    {
        let k = match self.find_trade(trade_id) {
            Some(i) => i,
            None => {
                return Err(Error::TradeNotFound);
            },
        };
        if !matches!(self.trades[k].status, TradeStatus::Pending) {
            return Err(Error::TradeNotPending);
        }
        let me_i = match self.find_participant_by_user(user_id) {
            Some(i) => i,
            None => {
                return Err(Error::ParticipantNotFound);
            },
        };
        let my_pid = self.participants[me_i].id;
        if my_pid != self.trades[k].initiator_id && my_pid != self.trades[k].target_id {
            return Err(Error::NotTradeParty);
        }
        self.trades[k].status = TradeStatus::Rejected;
        let ret = self.trades[k].clone();
        proof {
            assert(self.wf());
        }
        Ok(ret)
    }

    /// All trade rows of the game.
    pub fn get_trades(&self) -> (r: &Vec<Trade>)
        ensures
            r == &self.trades,
    {
        &self.trades
    }
}

} // verus!
