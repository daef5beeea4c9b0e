//! Property ownership: purchase, the mortgage state machine, and
//! monopoly-gated building construction and demolition.

use vstd::prelude::*;
use crate::types::{Id, Money, UserId, Error};
use crate::entities::{Property, ParticipantProperty};
use crate::session::{
    GameSession, has_user, uidx, has_property, property_of, property_owned, owned_idx,
};
use crate::ledger::balance_shifted;

verus! {

impl GameSession {
    /// What one ledger movement appended by an operation does to the
    /// economic fields: balances shifted, one new transaction, the
    /// jackpot fed on payments toward the bank.
    pub open spec fn ledger_effect(
        pre: GameSession,
        post: GameSession,
        from: Option<Id>,
        to: Option<Id>,
        amount: Money,
        now: i64,
    ) -> bool {
        let eff_to = pre.effective_to(from, to);
        let eff_amount = pre.effective_amount(from, to, amount);
        &&& post.participants@.len() == pre.participants@.len()
        &&& forall|i: int| 0 <= i < pre.participants@.len()
            ==> balance_shifted(pre.participants@[i], #[trigger] post.participants@[i],
                    from, eff_to, eff_amount as int)
        &&& post.transactions@.len() == pre.transactions@.len() + 1
        &&& forall|i: int| 0 <= i < pre.transactions@.len()
            ==> post.transactions@[i] == pre.transactions@[i]
        &&& {
            let txn = post.transactions@.last();
            &&& txn.id == pre.next_id
            &&& txn.game_id == pre.id
            &&& txn.from_participant_id == from
            &&& txn.to_participant_id == eff_to
            &&& txn.amount == eff_amount
            &&& txn.created_at == now
        }
        &&& post.jackpot_balance == pre.jackpot_balance + Self::jackpot_gain(from, to, amount)
    }

    /// The participant id of the user's row.
    pub open spec fn pid_of_user(&self, user_id: UserId) -> Id {
        self.participants@[uidx(self.participants@, user_id)].id
    }

    /// The whole effect of a successful property purchase.
    pub open spec fn buy_property_post(
        pre: GameSession,
        post: GameSession,
        pp: ParticipantProperty,
        user_id: UserId,
        property_id: Id,
        now: i64,
    ) -> bool {
        let pid = pre.pid_of_user(user_id);
        let price = property_of(pre.properties@, property_id).price;
        &&& Self::ledger_effect(pre, post, Some(pid), None, price, now)
        &&& pp == (ParticipantProperty {
            id: (pre.next_id + 1) as Id,
            game_id: pre.id,
            participant_id: pid,
            property_id,
            is_mortgaged: false,
            house_count: 0,
            hotel_count: 0,
        })
        &&& post.participant_properties@ == pre.participant_properties@.push(pp)
        &&& post.next_id == pre.next_id + 2
        &&& post.auctions == pre.auctions
        &&& post.trades == pre.trades
        &&& Self::non_economy_fields_unchanged(pre, post)
    }

    /// Buys an unowned catalog property at list price, paid toward the
    /// bank through the ledger (so "owns the Bank" redirection applies),
    /// and records fresh, unmortgaged ownership.
    pub fn buy_property(&mut self, user_id: UserId, property_id: Id, now: i64) -> (r: Result<ParticipantProperty, Error>)
        requires
            old(self).wf(),
        ensures
            final(self).wf(),
            r is Ok <==> ({
                let pre = *old(self);
                &&& has_property(pre.properties@, property_id)
                &&& has_user(pre.participants@, user_id)
                &&& !property_owned(pre.participant_properties@, property_id)
                &&& pre.next_id + 2 <= u64::MAX
                &&& !pre.transfer_missing_participant(Some(pre.pid_of_user(user_id)), None)
                &&& pre.transfer_fits(Some(pre.pid_of_user(user_id)), None,
                        property_of(pre.properties@, property_id).price)
            }),
            match r {
                Ok(pp) => Self::buy_property_post(*old(self), *final(self), pp, user_id, property_id, now),
                Err(e) => {
                    &&& *final(self) == *old(self)
                    &&& (e == Error::PropertyNotFound
                        <==> !has_property(old(self).properties@, property_id))
                    &&& (e == Error::PropertyAlreadyOwned
                        ==> property_owned(old(self).participant_properties@, property_id))
                    &&& (e == Error::PropertyNotFound || e == Error::ParticipantNotFound
                        || e == Error::PropertyAlreadyOwned || e == Error::ArithmeticLimit)
                },
            },
    {
        let ghost pre = *self;
        let prop_i = match self.find_property(property_id) {
            Some(i) => i,
            None => {
                return Err(Error::PropertyNotFound);
            },
        };
        let me_i = match self.find_participant_by_user(user_id) {
            Some(i) => i,
            None => {
                return Err(Error::ParticipantNotFound);
            },
        };
        if let Some(_) = self.find_ownership(property_id) {
            return Err(Error::PropertyAlreadyOwned);
        }
        if self.next_id >= u64::MAX - 1 {
            return Err(Error::ArithmeticLimit);
        }
        let pid = self.participants[me_i].id;
        let price = self.properties[prop_i].price;
        match self.transfer(Some(pid), None, price, Some("Bought property".to_owned()), now) {
            Ok(_) => {},
            Err(e) => {
                return Err(e);
            },
        }
        let pp = ParticipantProperty {
            id: self.next_id,
            game_id: self.id,
            participant_id: pid,
            property_id,
            is_mortgaged: false,
            house_count: 0,
            hotel_count: 0,
        };
        self.next_id = self.next_id + 1;
        self.participant_properties.push(pp);
        proof {
            assert(self.wf());
            assert(Self::buy_property_post(pre, *self, pp, user_id, property_id, now));
        }
        Ok(pp)
    }

    /// The whole effect of toggling the mortgage flag plus its payout
    /// or cost.
    pub open spec fn mortgage_toggle_post(
        pre: GameSession,
        post: GameSession,
        pp: ParticipantProperty,
        property_id: Id,
        mortgaged: bool,
        from: Option<Id>,
        to: Option<Id>,
        amount: Money,
        now: i64,
    ) -> bool {
        let k = owned_idx(pre.participant_properties@, property_id);
        &&& Self::ledger_effect(pre, post, from, to, amount, now)
        &&& pp == (ParticipantProperty { is_mortgaged: mortgaged, ..pre.participant_properties@[k] })
        &&& post.participant_properties@ == pre.participant_properties@.update(k, pp)
        &&& post.next_id == pre.next_id + 1
        &&& post.auctions == pre.auctions
        &&& post.trades == pre.trades
        &&& Self::non_economy_fields_unchanged(pre, post)
    }

    /// Mortgages an owned, building-free property: the flag is set and
    /// the bank pays the owner the mortgage value.
    pub fn mortgage_property(&mut self, user_id: UserId, property_id: Id, now: i64) -> (r: Result<ParticipantProperty, Error>)
        requires
            old(self).wf(),
        ensures
            final(self).wf(),
            r is Ok <==> ({
                let pre = *old(self);
                let os = pre.participant_properties@;
                &&& has_property(pre.properties@, property_id)
                &&& has_user(pre.participants@, user_id)
                &&& property_owned(os, property_id)
                &&& os[owned_idx(os, property_id)].participant_id == pre.pid_of_user(user_id)
                &&& !os[owned_idx(os, property_id)].is_mortgaged
                &&& os[owned_idx(os, property_id)].house_count == 0
                &&& os[owned_idx(os, property_id)].hotel_count == 0
                &&& pre.transfer_fits(None, Some(pre.pid_of_user(user_id)),
                        property_of(pre.properties@, property_id).mortgage_value)
            }),
            match r {
                Ok(pp) => Self::mortgage_toggle_post(*old(self), *final(self), pp, property_id,
                    true, None, Some(old(self).pid_of_user(user_id)),
                    property_of(old(self).properties@, property_id).mortgage_value, now),
                Err(e) => {
                    &&& *final(self) == *old(self)
                    &&& (e == Error::PropertyNotFound
                        <==> !has_property(old(self).properties@, property_id))
                    &&& (e == Error::PropertyNotFound || e == Error::ParticipantNotFound
                        || e == Error::NotYourProperty || e == Error::AlreadyMortgaged
                        || e == Error::BuildingsPresent || e == Error::ArithmeticLimit)
                },
            },
    {
        let ghost pre = *self;
        let prop_i = match self.find_property(property_id) {
            Some(i) => i,
            None => {
                return Err(Error::PropertyNotFound);
            },
        };
        let me_i = match self.find_participant_by_user(user_id) {
            Some(i) => i,
            None => {
                return Err(Error::ParticipantNotFound);
            },
        };
        let pid = self.participants[me_i].id;
        let own_i = match self.find_ownership(property_id) {
            Some(i) => i,
            None => {
                return Err(Error::NotYourProperty);
            },
        };
        if self.participant_properties[own_i].participant_id != pid {
            return Err(Error::NotYourProperty);
        }
        if self.participant_properties[own_i].is_mortgaged {
            return Err(Error::AlreadyMortgaged);
        }
        if self.participant_properties[own_i].house_count > 0
            || self.participant_properties[own_i].hotel_count > 0 {
            return Err(Error::BuildingsPresent);
        }
        let value = self.properties[prop_i].mortgage_value;
        match self.transfer(None, Some(pid), value, Some("Mortgaged property".to_owned()), now) {
            Ok(_) => {},
            Err(e) => {
                proof {
                    assert(e != Error::ParticipantNotFound);
                }
                return Err(e);
            },
        }
        let pp = ParticipantProperty {
            is_mortgaged: true,
            ..self.participant_properties[own_i]
        };
        self.participant_properties[own_i] = pp;
        proof {
            assert(self.wf());
            assert(Self::mortgage_toggle_post(pre, *self, pp, property_id, true, None,
                Some(pre.pid_of_user(user_id)),
                property_of(pre.properties@, property_id).mortgage_value, now));
        }
        Ok(pp)
    }

    /// Lifts the mortgage on an owned, mortgaged property: the owner
    /// pays the unmortgage cost toward the bank (redirection applies),
    /// and the flag is cleared.
    pub fn unmortgage_property(&mut self, user_id: UserId, property_id: Id, now: i64) -> (r: Result<ParticipantProperty, Error>)
        requires
            old(self).wf(),
        ensures
            final(self).wf(),
            r is Ok <==> ({
                let pre = *old(self);
                let os = pre.participant_properties@;
                &&& has_property(pre.properties@, property_id)
                &&& has_user(pre.participants@, user_id)
                &&& property_owned(os, property_id)
                &&& os[owned_idx(os, property_id)].participant_id == pre.pid_of_user(user_id)
                &&& os[owned_idx(os, property_id)].is_mortgaged
                &&& !pre.transfer_missing_participant(Some(pre.pid_of_user(user_id)), None)
                &&& pre.transfer_fits(Some(pre.pid_of_user(user_id)), None,
                        property_of(pre.properties@, property_id).unmortgage_cost)
            }),
            match r {
                Ok(pp) => Self::mortgage_toggle_post(*old(self), *final(self), pp, property_id,
                    false, Some(old(self).pid_of_user(user_id)), None,
                    property_of(old(self).properties@, property_id).unmortgage_cost, now),
                Err(e) => {
                    &&& *final(self) == *old(self)
                    &&& (e == Error::PropertyNotFound
                        <==> !has_property(old(self).properties@, property_id))
                    &&& (e == Error::PropertyNotFound || e == Error::ParticipantNotFound
                        || e == Error::NotYourProperty || e == Error::NotMortgaged
                        || e == Error::ArithmeticLimit)
                },
            },
    {
        let ghost pre = *self;
        let prop_i = match self.find_property(property_id) {
            Some(i) => i,
            None => {
                return Err(Error::PropertyNotFound);
            },
        };
        let me_i = match self.find_participant_by_user(user_id) {
            Some(i) => i,
            None => {
                return Err(Error::ParticipantNotFound);
            },
        };
        let pid = self.participants[me_i].id;
        let own_i = match self.find_ownership(property_id) {
            Some(i) => i,
            None => {
                return Err(Error::NotYourProperty);
            },
        };
        if self.participant_properties[own_i].participant_id != pid {
            return Err(Error::NotYourProperty);
        }
        if !self.participant_properties[own_i].is_mortgaged {
            return Err(Error::NotMortgaged);
        }
        let cost = self.properties[prop_i].unmortgage_cost;
        match self.transfer(Some(pid), None, cost, Some("Unmortgaged property".to_owned()), now) {
            Ok(_) => {},
            Err(e) => {
                return Err(e);
            },
        }
        let pp = ParticipantProperty {
            is_mortgaged: false,
            ..self.participant_properties[own_i]
        };
        self.participant_properties[own_i] = pp;
        proof {
            assert(self.wf());
            assert(Self::mortgage_toggle_post(pre, *self, pp, property_id, false,
                Some(pre.pid_of_user(user_id)), None,
                property_of(pre.properties@, property_id).unmortgage_cost, now));
        }
        Ok(pp)
    }

    /// The property catalog.
    pub fn get_all_properties(&self) -> (r: &Vec<Property>)
        ensures
            r == &self.properties,
    {
        &self.properties
    }

    /// All ownership records of the game.
    pub fn get_game_ownership(&self) -> (r: &Vec<ParticipantProperty>)
        ensures
            r == &self.participant_properties,
    {
        &self.participant_properties
    }
}

/// Does `pid` own every catalog property of this colour group?
pub open spec fn owns_whole_group(s: GameSession, pid: Id, color: Seq<char>) -> bool {
    forall|q: int| 0 <= q < s.properties@.len() && (#[trigger] s.properties@[q]).group_color@ == color
        ==> {
            let os = s.participant_properties@;
            let qid = s.properties@[q].id;
            &&& property_owned(os, qid)
            &&& os[owned_idx(os, qid)].participant_id == pid
        }
}

/// Is every owned catalog property of this colour group free of
/// mortgage?
pub open spec fn group_unmortgaged(s: GameSession, color: Seq<char>) -> bool {
    forall|q: int| 0 <= q < s.properties@.len() && (#[trigger] s.properties@[q]).group_color@ == color
        ==> {
            let os = s.participant_properties@;
            let qid = s.properties@[q].id;
            property_owned(os, qid) ==> !os[owned_idx(os, qid)].is_mortgaged
        }
}

impl GameSession {
    /// What the next building on this property costs: the house cost,
    /// or the hotel cost for the fifth building (the hotel upgrade).
    pub open spec fn building_cost(pre: GameSession, property_id: Id) -> Money {
        let os = pre.participant_properties@;
        let row = os[owned_idx(os, property_id)];
        let prop = property_of(pre.properties@, property_id);
        if row.house_count == 4 {
            prop.hotel_cost.unwrap()
        } else {
            prop.house_cost.unwrap()
        }
    }

    /// The whole effect of buying one building.
    pub open spec fn buy_building_post(
        pre: GameSession,
        post: GameSession,
        pp: ParticipantProperty,
        user_id: UserId,
        property_id: Id,
        now: i64,
    ) -> bool {
        let os = pre.participant_properties@;
        let k = owned_idx(os, property_id);
        let row = os[k];
        let pid = pre.pid_of_user(user_id);
        &&& Self::ledger_effect(pre, post, Some(pid), None, Self::building_cost(pre, property_id), now)
        &&& pp == if row.house_count == 4 {
            (ParticipantProperty { house_count: 0, hotel_count: 1, ..row })
        } else {
            (ParticipantProperty { house_count: (row.house_count + 1) as i32, ..row })
        }
        &&& pp.house_count <= 4
        &&& pp.hotel_count <= 1
        &&& !(pp.house_count > 0 && pp.hotel_count > 0)
        &&& post.participant_properties@ == os.update(k, pp)
        &&& post.next_id == pre.next_id + 1
        &&& post.auctions == pre.auctions
        &&& post.trades == pre.trades
        &&& Self::non_economy_fields_unchanged(pre, post)
    }

    /// Builds on an owned property: the caller must own the whole
    /// colour group, none of it mortgaged; four houses upgrade to one
    /// hotel, which caps construction.  Payment goes toward the bank
    /// through the ledger.
    pub fn buy_building(&mut self, user_id: UserId, property_id: Id, now: i64) -> (r: Result<ParticipantProperty, Error>)
        requires
            old(self).wf(),
        ensures
            final(self).wf(),
            r is Ok <==> ({
                let pre = *old(self);
                let os = pre.participant_properties@;
                let prop = property_of(pre.properties@, property_id);
                &&& has_property(pre.properties@, property_id)
                &&& prop.house_cost is Some
                &&& prop.hotel_cost is Some
                &&& has_user(pre.participants@, user_id)
                &&& owns_whole_group(pre, pre.pid_of_user(user_id), prop.group_color@)
                &&& group_unmortgaged(pre, prop.group_color@)
                &&& os[owned_idx(os, property_id)].hotel_count == 0
                &&& !pre.transfer_missing_participant(Some(pre.pid_of_user(user_id)), None)
                &&& pre.transfer_fits(Some(pre.pid_of_user(user_id)), None,
                        Self::building_cost(pre, property_id))
            }),
            match r {
                Ok(pp) => Self::buy_building_post(*old(self), *final(self), pp, user_id, property_id, now),
                Err(e) => {
                    &&& *final(self) == *old(self)
                    &&& (e == Error::PropertyNotFound
                        <==> !has_property(old(self).properties@, property_id))
                    &&& (e == Error::IncompleteColorGroup ==> !owns_whole_group(*old(self),
                        old(self).pid_of_user(user_id),
                        property_of(old(self).properties@, property_id).group_color@))
                    &&& (e == Error::PropertyNotFound || e == Error::NotBuildable
                        || e == Error::ParticipantNotFound || e == Error::IncompleteColorGroup
                        || e == Error::GroupMortgaged || e == Error::NotYourProperty
                        || e == Error::HotelPresent || e == Error::ArithmeticLimit)
                },
            },
    {
        let ghost pre = *self;
        let prop_i = match self.find_property(property_id) {
            Some(i) => i,
            None => {
                return Err(Error::PropertyNotFound);
            },
        };
        if self.properties[prop_i].house_cost.is_none() {
            return Err(Error::NotBuildable);
        }
        if self.properties[prop_i].hotel_cost.is_none() {
            return Err(Error::NotBuildable);
        }
        let me_i = match self.find_participant_by_user(user_id) {
            Some(i) => i,
            None => {
                return Err(Error::ParticipantNotFound);
            },
        };
        let pid = self.participants[me_i].id;
        let ghost color = self.properties@[prop_i as int].group_color@;
        proof {
            assert(pid == pre.pid_of_user(user_id));
            assert(property_of(pre.properties@, property_id) == pre.properties@[prop_i as int]);
        }

        // Monopoly gate: every property of the colour group must be
        // owned by the caller and unmortgaged.
        let n = self.properties.len();
        for q in 0..n
            invariant
                pre == *old(self),
                *self == pre,
                pre.wf(),
                n == self.properties@.len(),
                prop_i < n,
                color == self.properties@[prop_i as int].group_color@,
                color == property_of(pre.properties@, property_id).group_color@,
                pid == pre.pid_of_user(user_id),
                has_property(pre.properties@, property_id),
                has_user(pre.participants@, user_id),
                forall|j: int| 0 <= j < q && (#[trigger] self.properties@[j]).group_color@ == color
                    ==> {
                        let os = self.participant_properties@;
                        let qid = self.properties@[j].id;
                        &&& property_owned(os, qid)
                        &&& os[owned_idx(os, qid)].participant_id == pid
                        &&& !os[owned_idx(os, qid)].is_mortgaged
                    },
        {
            if self.properties[q].group_color == self.properties[prop_i].group_color {
                proof {
                    assert(self.properties@[q as int].group_color@ == color);
                }
                match self.find_ownership(self.properties[q].id) {
                    Some(oi) => {
                        if self.participant_properties[oi].participant_id != pid {
                            proof {
                                assert(!owns_whole_group(pre, pid, color));
                            }
                            return Err(Error::IncompleteColorGroup);
                        }
                        if self.participant_properties[oi].is_mortgaged {
                            proof {
                                assert(!group_unmortgaged(pre, color));
                            }
                            return Err(Error::GroupMortgaged);
                        }
                    },
                    None => {
                        proof {
                            assert(!owns_whole_group(pre, pid, color));
                        }
                        return Err(Error::IncompleteColorGroup);
                    },
                }
            }
        }
        proof {
            assert(owns_whole_group(*self, pid, color));
            assert(group_unmortgaged(*self, color));
        }

        let own_i = match self.find_ownership(property_id) {
            Some(i) => i,
            None => {
                proof {
                    assert(self.properties@[prop_i as int].group_color@ == color);
                    assert(false);
                }
                return Err(Error::NotYourProperty);
            },
        };
        if self.participant_properties[own_i].hotel_count > 0 {
            return Err(Error::HotelPresent);
        }
        let row = self.participant_properties[own_i];
        let is_hotel_upgrade = row.house_count == 4;
        let cost = if is_hotel_upgrade {
            match self.properties[prop_i].hotel_cost {
                Some(c) => c,
                None => {
                    proof {
                        assert(false);
                    }
                    0
                },
            }
        } else {
            match self.properties[prop_i].house_cost {
                Some(c) => c,
                None => {
                    proof {
                        assert(false);
                    }
                    0
                },
            }
        };
        match self.transfer(Some(pid), None, cost, Some("Bought building".to_owned()), now) {
            Ok(_) => {},
            Err(e) => {
                return Err(e);
            },
        }
        let pp = if is_hotel_upgrade {
            ParticipantProperty { house_count: 0, hotel_count: 1, ..row }
        } else {
            ParticipantProperty { house_count: row.house_count + 1, ..row }
        };
        self.participant_properties[own_i] = pp;
        proof {
            assert(self.wf());
            assert(Self::buy_building_post(pre, *self, pp, user_id, property_id, now));
        }
        Ok(pp)
    }

    /// What selling one building refunds: half the hotel cost for a
    /// hotel (which demotes to four houses), else half the house cost.
    pub open spec fn demolition_refund(pre: GameSession, property_id: Id) -> Money {
        let os = pre.participant_properties@;
        let row = os[owned_idx(os, property_id)];
        let prop = property_of(pre.properties@, property_id);
        if row.hotel_count > 0 {
            (prop.hotel_cost.unwrap() / 2) as Money
        } else {
            (prop.house_cost.unwrap() / 2) as Money
        }
    }

    /// The whole effect of selling one building.
    pub open spec fn sell_building_post(
        pre: GameSession,
        post: GameSession,
        pp: ParticipantProperty,
        user_id: UserId,
        property_id: Id,
        now: i64,
    ) -> bool {
        let os = pre.participant_properties@;
        let k = owned_idx(os, property_id);
        let row = os[k];
        let pid = pre.pid_of_user(user_id);
        &&& Self::ledger_effect(pre, post, None, Some(pid), Self::demolition_refund(pre, property_id), now)
        &&& pp == if row.hotel_count > 0 {
            (ParticipantProperty { house_count: 4, hotel_count: 0, ..row })
        } else {
            (ParticipantProperty { house_count: (row.house_count - 1) as i32, ..row })
        }
        &&& post.participant_properties@ == os.update(k, pp)
        &&& post.next_id == pre.next_id + 1
        &&& post.auctions == pre.auctions
        &&& post.trades == pre.trades
        &&& Self::non_economy_fields_unchanged(pre, post)
    }

    /// Sells one building back: a hotel demotes to four houses for half
    /// the hotel cost, else one house goes for half the house cost; the
    /// bank pays the owner.
    pub fn sell_building(&mut self, user_id: UserId, property_id: Id, now: i64) -> (r: Result<ParticipantProperty, Error>)
        requires
            old(self).wf(),
        ensures
            final(self).wf(),
            r is Ok <==> ({
                let pre = *old(self);
                let os = pre.participant_properties@;
                let prop = property_of(pre.properties@, property_id);
                &&& has_property(pre.properties@, property_id)
                &&& prop.house_cost is Some
                &&& has_user(pre.participants@, user_id)
                &&& property_owned(os, property_id)
                &&& os[owned_idx(os, property_id)].participant_id == pre.pid_of_user(user_id)
                &&& (os[owned_idx(os, property_id)].hotel_count > 0 ==> prop.hotel_cost is Some)
                &&& (os[owned_idx(os, property_id)].hotel_count > 0
                    || os[owned_idx(os, property_id)].house_count > 0)
                &&& pre.transfer_fits(None, Some(pre.pid_of_user(user_id)),
                        Self::demolition_refund(pre, property_id))
            }),
            match r {
                Ok(pp) => Self::sell_building_post(*old(self), *final(self), pp, user_id, property_id, now),
                Err(e) => {
                    &&& *final(self) == *old(self)
                    &&& (e == Error::PropertyNotFound
                        <==> !has_property(old(self).properties@, property_id))
                    &&& (e == Error::PropertyNotFound || e == Error::NotBuildable
                        || e == Error::ParticipantNotFound || e == Error::NotYourProperty
                        || e == Error::NoBuildings || e == Error::ArithmeticLimit)
                },
            },
    {
        let ghost pre = *self;
        let prop_i = match self.find_property(property_id) {
            Some(i) => i,
            None => {
                return Err(Error::PropertyNotFound);
            },
        };
        if self.properties[prop_i].house_cost.is_none() {
            return Err(Error::NotBuildable);
        }
        let me_i = match self.find_participant_by_user(user_id) {
            Some(i) => i,
            None => {
                return Err(Error::ParticipantNotFound);
            },
        };
        let pid = self.participants[me_i].id;
        let own_i = match self.find_ownership(property_id) {
            Some(i) => i,
            None => {
                return Err(Error::NotYourProperty);
            },
        };
        if self.participant_properties[own_i].participant_id != pid {
            return Err(Error::NotYourProperty);
        }
        let row = self.participant_properties[own_i];
        if row.hotel_count > 0 {
            let h_cost = match self.properties[prop_i].hotel_cost {
                Some(c) => c,
                None => {
                    return Err(Error::NotBuildable);
                },
            };
            let refund = h_cost / 2;
            match self.transfer(None, Some(pid), refund, Some("Sold hotel".to_owned()), now) {
                Ok(_) => {},
                Err(e) => {
                    proof {
                        assert(e != Error::ParticipantNotFound);
                    }
                    return Err(e);
                },
            }
            let pp = ParticipantProperty { house_count: 4, hotel_count: 0, ..row };
            self.participant_properties[own_i] = pp;
            proof {
                assert(self.wf());
                assert(Self::sell_building_post(pre, *self, pp, user_id, property_id, now));
            }
            Ok(pp)
        } else if row.house_count > 0 {
            let h_cost = match self.properties[prop_i].house_cost {
                Some(c) => c,
                None => {
                    proof {
                        assert(false);
                    }
                    0
                },
            };
            let refund = h_cost / 2;
            match self.transfer(None, Some(pid), refund, Some("Sold house".to_owned()), now) {
                Ok(_) => {},
                Err(e) => {
                    proof {
                        assert(e != Error::ParticipantNotFound);
                    }
                    return Err(e);
                },
            }
            let pp = ParticipantProperty { house_count: row.house_count - 1, ..row };
            self.participant_properties[own_i] = pp;
            proof {
                assert(self.wf());
                assert(Self::sell_building_post(pre, *self, pp, user_id, property_id, now));
            }
            Ok(pp)
        } else {
            Err(Error::NoBuildings)
        }
    }
}

} // verus!
