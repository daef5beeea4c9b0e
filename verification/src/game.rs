//! Game lifecycle: creation with a random join code, joining with the
//! audited starting grant, and leaving.

use vstd::prelude::*;
use crate::types::{Id, UserId, Error, GameStatus, STARTING_BALANCE};
use crate::entities::{Participant, Card, Property};
use crate::session::{
    GameSession, has_user, uidx, cards_catalog_wf, properties_catalog_wf,
};
use crate::rand_source::random_below;

verus! {

/// The characters a join code is drawn from.
pub open spec fn is_code_char(c: char) -> bool {
    ('A' <= c && c <= 'Z') || ('0' <= c && c <= '9')
}

/// One join-code character, picked by an index below 36.
fn code_char(d: u64) -> (r: &'static str)
    requires
        d < 36,
    ensures
        r@.len() == 1 && is_code_char(r@[0]),
{
    if d == 0 { proof { reveal_strlit("A"); } "A" }
    else if d == 1 { proof { reveal_strlit("B"); } "B" }
    else if d == 2 { proof { reveal_strlit("C"); } "C" }
    else if d == 3 { proof { reveal_strlit("D"); } "D" }
    else if d == 4 { proof { reveal_strlit("E"); } "E" }
    else if d == 5 { proof { reveal_strlit("F"); } "F" }
    else if d == 6 { proof { reveal_strlit("G"); } "G" }
    else if d == 7 { proof { reveal_strlit("H"); } "H" }
    else if d == 8 { proof { reveal_strlit("I"); } "I" }
    else if d == 9 { proof { reveal_strlit("J"); } "J" }
    else if d == 10 { proof { reveal_strlit("K"); } "K" }
    else if d == 11 { proof { reveal_strlit("L"); } "L" }
    else if d == 12 { proof { reveal_strlit("M"); } "M" }
    else if d == 13 { proof { reveal_strlit("N"); } "N" }
    else if d == 14 { proof { reveal_strlit("O"); } "O" }
    else if d == 15 { proof { reveal_strlit("P"); } "P" }
    else if d == 16 { proof { reveal_strlit("Q"); } "Q" }
    else if d == 17 { proof { reveal_strlit("R"); } "R" }
    else if d == 18 { proof { reveal_strlit("S"); } "S" }
    else if d == 19 { proof { reveal_strlit("T"); } "T" }
    else if d == 20 { proof { reveal_strlit("U"); } "U" }
    else if d == 21 { proof { reveal_strlit("V"); } "V" }
    else if d == 22 { proof { reveal_strlit("W"); } "W" }
    else if d == 23 { proof { reveal_strlit("X"); } "X" }
    else if d == 24 { proof { reveal_strlit("Y"); } "Y" }
    else if d == 25 { proof { reveal_strlit("Z"); } "Z" }
    else if d == 26 { proof { reveal_strlit("0"); } "0" }
    else if d == 27 { proof { reveal_strlit("1"); } "1" }
    else if d == 28 { proof { reveal_strlit("2"); } "2" }
    else if d == 29 { proof { reveal_strlit("3"); } "3" }
    else if d == 30 { proof { reveal_strlit("4"); } "4" }
    else if d == 31 { proof { reveal_strlit("5"); } "5" }
    else if d == 32 { proof { reveal_strlit("6"); } "6" }
    else if d == 33 { proof { reveal_strlit("7"); } "7" }
    else if d == 34 { proof { reveal_strlit("8"); } "8" }
    else { proof { reveal_strlit("9"); } "9" }
}

/// A random four-character join code of capital letters and digits.
fn random_code() -> (r: String)
    ensures
        r@.len() == 4,
        forall|i: int| 0 <= i < 4 ==> is_code_char(#[trigger] r@[i]),
{
    let mut code = String::new();
    let mut k: usize = 0;
    while k < 4
        invariant
            k <= 4,
            code@.len() == k,
            forall|i: int| 0 <= i < k ==> is_code_char(#[trigger] code@[i]),
        decreases 4 - k,
    {
        let d = random_below(36);
        let piece = code_char(d);
        let ghost before = code@;
        code.append(piece);
        proof {
            assert(code@ == before + piece@);
            assert forall|i: int| 0 <= i < code@.len()
                implies is_code_char(#[trigger] code@[i])
            by {
                if i < before.len() {
                    assert(code@[i] == before[i]);
                } else {
                    assert(code@[i] == piece@[i - before.len()]);
                }
            }
        }
        k = k + 1;
    }
    code
}

impl GameSession {
    /// What joining changes: a funded participant row and its audited
    /// starting-grant transaction.
    pub open spec fn join_post(pre: GameSession, post: GameSession, p: Participant, user_id: UserId, now: i64) -> bool {
        let funded = (Participant {
            id: pre.next_id,
            game_id: pre.id,
            user_id,
            balance: STARTING_BALANCE,
            position: 0,
        });
        &&& p == funded
        &&& post.participants@ == pre.participants@.push(funded)
        &&& post.transactions@.len() == pre.transactions@.len() + 1
        &&& {
            let txn = post.transactions@.last();
            &&& txn.id == pre.next_id + 1
            &&& txn.from_participant_id is None
            &&& txn.to_participant_id == Some(funded.id)
            &&& txn.amount == STARTING_BALANCE
            &&& txn.created_at == now
            &&& match txn.description {
                Some(d) => d@ == "Initial Funding"@,
                None => false,
            }
        }
        &&& forall|i: int| 0 <= i < pre.transactions@.len()
            ==> post.transactions@[i] == pre.transactions@[i]
        &&& post.jackpot_balance == pre.jackpot_balance
        &&& post.next_id == pre.next_id + 2
        &&& Self::only_ledger_changed(pre, post)
    }

    /// Adds the user as a participant of a WAITING game with a zero
    /// balance, then funds them with the starting amount through the
    /// ledger, so the grant is itself an auditable transaction.
    pub fn join_game(&mut self, user_id: UserId, now: i64) -> (r: Result<Participant, Error>)
        requires
            old(self).wf(),
        ensures
            final(self).wf(),
            r is Ok <==> (old(self).status == GameStatus::WAITING
                && !has_user(old(self).participants@, user_id)
                && old(self).next_id + 2 <= u64::MAX),
            match r {
                Ok(p) => Self::join_post(*old(self), *final(self), p, user_id, now),
                Err(e) => {
                    &&& *final(self) == *old(self)
                    &&& (e == Error::GameNotOpen <==> old(self).status != GameStatus::WAITING)
                    &&& (e == Error::AlreadyParticipant <==> old(self).status == GameStatus::WAITING
                        && has_user(old(self).participants@, user_id))
                    &&& (e == Error::GameNotOpen || e == Error::AlreadyParticipant
                        || e == Error::ArithmeticLimit)
                },
            },
    {
        let ghost pre = *self;
        if !matches!(self.status, GameStatus::WAITING) {
            return Err(Error::GameNotOpen);
        }
        match self.find_participant_by_user(user_id) {
            Some(_) => {
                return Err(Error::AlreadyParticipant);
            },
            None => {},
        }
        if self.next_id >= u64::MAX - 1 {
            return Err(Error::ArithmeticLimit);
        }

        let pid = self.next_id;
        self.next_id = self.next_id + 1;
        let newcomer = Participant {
            id: pid,
            game_id: self.id,
            user_id,
            balance: 0,
            position: 0,
        };
        self.participants.push(newcomer);
        proof {
            assert forall|i: int, j: int|
                0 <= i < self.participants@.len() && 0 <= j < self.participants@.len() && i != j
                implies self.participants@[i].user_id != self.participants@[j].user_id
            by {
                if i < pre.participants@.len() && j < pre.participants@.len() {
                } else if i == pre.participants@.len() {
                    assert(self.participants@[j] == pre.participants@[j]);
                    assert(!has_user(pre.participants@, user_id));
                } else if j == pre.participants@.len() {
                    assert(self.participants@[i] == pre.participants@[i]);
                    assert(!has_user(pre.participants@, user_id));
                }
            }
            assert(self.wf());
        }
        let ghost mid = *self;
        proof {
            let ms = mid.participants@;
            assert(ms[ms.len() - 1].id == pid);
            assert(crate::session::has_pid(ms, pid));
            let w = crate::session::pidx(ms, pid);
            assert(0 <= w < ms.len() && ms[w].id == pid);
            if w != ms.len() - 1 {
                assert(ms[w].id != ms[ms.len() - 1].id);
                assert(false);
            }
            assert(crate::session::balance_of(ms, pid) == 0);
            assert(!mid.transfer_missing_participant(None, Some(pid)));
            assert(mid.transfer_fits(None, Some(pid), STARTING_BALANCE));
        }

        match self.transfer(None, Some(pid), STARTING_BALANCE, Some("Initial Funding".to_owned()), now) {
            Ok(txn) => {
                let p = Participant {
                    id: pid,
                    game_id: self.id,
                    user_id,
                    balance: STARTING_BALANCE,
                    position: 0,
                };
                proof {
                    let funded = p;
                    let ps2 = self.participants@;
                    assert(ps2.len() == mid.participants@.len());
                    assert forall|i: int| 0 <= i < ps2.len()
                        implies #[trigger] ps2[i] == mid.participants@.map_values(|q: Participant| q).update(
                            pre.participants@.len() as int, funded)[i]
                    by {
                        assert(crate::ledger::balance_shifted(
                            mid.participants@[i], ps2[i], None, Some(pid),
                            STARTING_BALANCE as int));
                        if i < pre.participants@.len() {
                            assert(mid.participants@[i] == pre.participants@[i]);
                            assert(pre.participants@[i].id < pre.next_id);
                        }
                    }
                    assert(ps2 =~= pre.participants@.push(funded));
                    assert(Self::join_post(pre, *self, p, user_id, now));
                }
                Ok(p)
            },
            Err(_) => {
                proof {
                    assert(false);
                }
                Err(Error::ArithmeticLimit)
            },
        }
    }

    /// Creates a fresh WAITING session with a random join code, empty
    /// market and ledger, and the host already joined and funded.
    pub fn create_game(
        game_id: Id,
        host_user_id: UserId,
        cards: Vec<Card>,
        properties: Vec<Property>,
        now: i64,
    ) -> (r: GameSession)
        requires
            cards_catalog_wf(cards@),
            properties_catalog_wf(properties@),
        ensures
            r.wf(),
            r.id == game_id,
            r.host_user_id == host_user_id,
            r.status == GameStatus::WAITING,
            r.code@.len() == 4,
            forall|i: int| 0 <= i < 4 ==> is_code_char(#[trigger] r.code@[i]),
            r.name@ == "New Monopoly Game"@,
            r.jackpot_balance == 0,
            r.cards == cards,
            r.properties == properties,
            r.participants@.len() == 1,
            r.participants@[0].user_id == host_user_id,
            r.participants@[0].balance == STARTING_BALANCE,
            r.transactions@.len() == 1,
            r.transactions@[0].amount == STARTING_BALANCE,
            r.market@ == seq![Option::<Id>::None, None, None],
            r.participant_cards@.len() == 0,
            r.participant_properties@.len() == 0,
            r.auctions@.len() == 0,
            r.trades@.len() == 0,
            r.drawn_cards@.len() == 0,
            r.current_turn_user_id is None,
            r.turn_order is None,
    {
        let code = random_code();
        let mut market: Vec<Option<Id>> = Vec::new();
        market.push(None);
        market.push(None);
        market.push(None);
        let mut game = GameSession {
            id: game_id,
            code,
            host_user_id,
            name: "New Monopoly Game".to_owned(),
            status: GameStatus::WAITING,
            jackpot_balance: 0,
            current_turn_user_id: None,
            turn_order: None,
            participants: Vec::new(),
            transactions: Vec::new(),
            cards,
            drawn_cards: Vec::new(),
            market,
            participant_cards: Vec::new(),
            card_usage: Vec::new(),
            properties,
            participant_properties: Vec::new(),
            auctions: Vec::new(),
            trades: Vec::new(),
            next_id: 1,
        };
        proof {
            assert(game.market@ =~= seq![Option::<Id>::None, None, None]);
            assert(game.wf());
        }
        let joined = game.join_game(host_user_id, now);
        proof {
            assert(joined is Ok);
        }
        game
    }

    /// Removes the user's participant row; success also when no such
    /// row exists.  A finished game can no longer be left.
    pub fn leave_game(&mut self, user_id: UserId) -> (r: Result<(), Error>)
        requires
            old(self).wf(),
        ensures
            final(self).wf(),
            r is Ok <==> old(self).status != GameStatus::FINISHED,
            match r {
                Ok(()) => {
                    &&& if has_user(old(self).participants@, user_id) {
                        final(self).participants@
                            == old(self).participants@.remove(uidx(old(self).participants@, user_id))
                    } else {
                        final(self).participants@ == old(self).participants@
                    }
                    &&& final(self).transactions == old(self).transactions
                    &&& final(self).jackpot_balance == old(self).jackpot_balance
                    &&& final(self).next_id == old(self).next_id
                    &&& Self::only_ledger_changed(*old(self), *final(self))
                },
                Err(e) => *final(self) == *old(self) && e == Error::GameAlreadyFinished,
            },
    {
        if matches!(self.status, GameStatus::FINISHED) {
            return Err(Error::GameAlreadyFinished);
        }
        match self.find_participant_by_user(user_id) {
            Some(i) => {
                self.participants.remove(i);
                proof {
                    assert(self.wf());
                }
            },
            None => {},
        }
        Ok(())
    }

    /// The participant rows of the game.
    pub fn get_participants(&self) -> (r: &Vec<Participant>)
        ensures
            r == &self.participants,
    {
        &self.participants
    }
}

/// Rolls one initiative value per participant and returns the user ids
/// ordered by roll, descending, ties keeping insertion order.  The
/// result lists every participant's user exactly once.
fn roll_initiative(ps: &Vec<Participant>) -> (r: Vec<UserId>)
    requires
        ps@.len() > 0,
        forall|i: int, j: int|
            0 <= i < ps@.len() && 0 <= j < ps@.len() && i != j
                ==> ps@[i].user_id != ps@[j].user_id,
    ensures
        r@.len() == ps@.len(),
        forall|i: int, j: int|
            0 <= i < r@.len() && 0 <= j < r@.len() && i != j ==> r@[i] != r@[j],
        forall|i: int| 0 <= i < r@.len() ==> has_user(ps@, #[trigger] r@[i]),
        forall|k: int| 0 <= k < ps@.len() ==> r@.contains((#[trigger] ps@[k]).user_id),
{
    let mut order: Vec<UserId> = Vec::new();
    let mut rolls: Vec<i32> = Vec::new();
    let n = ps.len();
    for k in 0..n
        invariant
            n == ps@.len(),
            forall|i: int, j: int|
                0 <= i < ps@.len() && 0 <= j < ps@.len() && i != j
                    ==> ps@[i].user_id != ps@[j].user_id,
            order@.len() == k,
            rolls@.len() == k,
            forall|i: int, j: int| 0 <= i < j < rolls@.len() ==> rolls@[i] >= rolls@[j],
            forall|i: int, j: int|
                0 <= i < order@.len() && 0 <= j < order@.len() && i != j
                    ==> order@[i] != order@[j],
            forall|i: int| 0 <= i < order@.len()
                ==> has_user(ps@.take(k as int), #[trigger] order@[i]),
            forall|p: int| 0 <= p < k ==> order@.contains((#[trigger] ps@[p]).user_id),
    {
        let uid = ps[k].user_id;
        let drawn = random_below(11);
        let roll: i32 = 2 + (drawn as i32);
        let mut pos: usize = 0;
        while pos < order.len() && rolls[pos] >= roll
            invariant
                order@.len() == rolls@.len(),
                pos <= rolls@.len(),
                forall|i: int| 0 <= i < pos ==> rolls@[i] >= roll,
            decreases order@.len() - pos,
        {
            pos = pos + 1;
        }
        let ghost o0 = order@;
        let ghost r0 = rolls@;
        order.insert(pos, uid);
        rolls.insert(pos, roll);
        proof {
            o0.insert_ensures(pos as int, uid);
            r0.insert_ensures(pos as int, roll);
            let o1 = order@;
            let r1 = rolls@;
            let p = pos as int;
            // Rolls stay sorted descending.
            assert forall|i: int, j: int| 0 <= i < j < r1.len() implies r1[i] >= r1[j] by {
                if j < p {
                } else if i < p && j == p {
                    assert(r1[i] == r0[i]);
                } else if i < p && j > p {
                    let j0 = j - 1;
                    assert(r1[j0 + 1] == r0[j0]);
                } else if i == p {
                    let j0 = j - 1;
                    assert(r1[j0 + 1] == r0[j0]);
                    assert(p < r0.len());
                    assert(!(r0[p] >= roll));
                    if p < j0 {
                        assert(r0[p] >= r0[j0]);
                    }
                } else {
                    let i0 = i - 1;
                    let j0 = j - 1;
                    assert(r1[i0 + 1] == r0[i0]);
                    assert(r1[j0 + 1] == r0[j0]);
                    if i0 < j0 {
                        assert(r0[i0] >= r0[j0]);
                    }
                }
            }
            // The new user differs from every earlier entry.
            assert forall|i: int| 0 <= i < o0.len() implies o0[i] != uid by {
                assert(has_user(ps@.take(k as int), o0[i]));
                let w = choose|q: int| 0 <= q < ps@.take(k as int).len()
                    && ps@.take(k as int)[q].user_id == o0[i];
                assert(ps@[w].user_id == o0[i]);
                assert(ps@[w].user_id != ps@[k as int].user_id);
            }
            // Entries stay pairwise distinct.
            assert forall|i: int, j: int|
                0 <= i < o1.len() && 0 <= j < o1.len() && i != j
                implies o1[i] != o1[j]
            by {
                let i0 = if i < p { i } else if i == p { -1 } else { i - 1 };
                let j0 = if j < p { j } else if j == p { -1 } else { j - 1 };
                if i > p {
                    assert(o1[(i - 1) + 1] == o0[i - 1]);
                }
                if j > p {
                    assert(o1[(j - 1) + 1] == o0[j - 1]);
                }
                if i0 >= 0 && j0 >= 0 {
                    assert(o0[i0] != o0[j0]);
                } else if i0 == -1 && j0 >= 0 {
                    assert(o1[i] == uid && o1[j] == o0[j0]);
                } else if j0 == -1 && i0 >= 0 {
                    assert(o1[j] == uid && o1[i] == o0[i0]);
                }
            }
            // Every entry is a user of the first k+1 participants.
            assert forall|i: int| 0 <= i < o1.len()
                implies has_user(ps@.take(k + 1), #[trigger] o1[i])
            by {
                if i == p {
                    assert(ps@.take(k + 1)[k as int].user_id == uid);
                    assert(has_user(ps@.take(k + 1), uid));
                } else {
                    let i0 = if i < p { i } else { i - 1 };
                    if i > p {
                        assert(o1[(i - 1) + 1] == o0[i - 1]);
                    }
                    assert(o1[i] == o0[i0]);
                    assert(has_user(ps@.take(k as int), o0[i0]));
                    let w = choose|q: int| 0 <= q < ps@.take(k as int).len()
                        && ps@.take(k as int)[q].user_id == o0[i0];
                    assert(ps@.take(k + 1)[w].user_id == o0[i0]);
                    assert(has_user(ps@.take(k + 1), o0[i0]));
                }
            }
            // Every one of the first k+1 participants appears.
            assert forall|q: int| 0 <= q < k + 1 implies o1.contains((#[trigger] ps@[q]).user_id) by {
                if q == k as int {
                    assert(o1[p] == uid);
                } else {
                    assert(o0.contains(ps@[q].user_id));
                    let w = choose|i: int| 0 <= i < o0.len() && o0[i] == ps@[q].user_id;
                    if w < p {
                        assert(o1[w] == o0[w]);
                    } else {
                        assert(o1[w + 1] == o0[w]);
                    }
                }
            }
        }
    }
    proof {
        assert(ps@.take(n as int) =~= ps@);
        assert forall|i: int| 0 <= i < order@.len()
            implies has_user(ps@, #[trigger] order@[i])
        by {
            assert(has_user(ps@.take(n as int), order@[i]));
        }
    }
    order
}

impl GameSession {
    /// What starting the game establishes: a stored turn order listing
    /// every participant's user exactly once, with the first entrant on
    /// turn.
    pub open spec fn start_roll_post(pre: GameSession, post: GameSession) -> bool {
        match post.turn_order {
            Some(o) => {
                &&& o@.len() == pre.participants@.len()
                &&& forall|i: int, j: int|
                    0 <= i < o@.len() && 0 <= j < o@.len() && i != j ==> o@[i] != o@[j]
                &&& forall|i: int| 0 <= i < o@.len() ==> has_user(pre.participants@, #[trigger] o@[i])
                &&& forall|k: int| 0 <= k < pre.participants@.len()
                    ==> o@.contains((#[trigger] pre.participants@[k]).user_id)
                &&& post.current_turn_user_id == Some(o@[0])
            },
            None => false,
        }
    }

    /// Would this update start the game (roll initiative)?
    pub open spec fn starts_game(&self, status: Option<GameStatus>) -> bool {
        status == Some(GameStatus::ACTIVE) && self.status != GameStatus::ACTIVE
    }

    /// Renames the game and/or moves its status, host only.  The move to
    /// ACTIVE (once) rolls one initiative per participant, stores the
    /// resulting order — ties broken by insertion order — and puts the
    /// first entrant on turn.
    pub fn update_game(
        &mut self,
        user_id: UserId,
        name: Option<String>,
        status: Option<GameStatus>,
    ) -> (r: Result<(), Error>)
        requires
            old(self).wf(),
        ensures
            final(self).wf(),
            r is Ok <==> (user_id == old(self).host_user_id
                && !(old(self).starts_game(status) && old(self).participants@.len() == 0)),
            match r {
                Ok(()) => {
                    &&& final(self).name == (match name {
                        Some(n) => n,
                        None => old(self).name,
                    })
                    &&& final(self).status == (match status {
                        Some(st) => st,
                        None => old(self).status,
                    })
                    &&& if old(self).starts_game(status) {
                        Self::start_roll_post(*old(self), *final(self))
                    } else {
                        final(self).turn_order == old(self).turn_order
                            && final(self).current_turn_user_id == old(self).current_turn_user_id
                    }
                    &&& final(self).participants == old(self).participants
                    &&& final(self).transactions == old(self).transactions
                    &&& final(self).jackpot_balance == old(self).jackpot_balance
                    &&& final(self).next_id == old(self).next_id
                    &&& final(self).id == old(self).id
                    &&& final(self).code == old(self).code
                    &&& final(self).host_user_id == old(self).host_user_id
                    &&& final(self).cards == old(self).cards
                    &&& final(self).drawn_cards == old(self).drawn_cards
                    &&& final(self).market == old(self).market
                    &&& final(self).participant_cards == old(self).participant_cards
                    &&& final(self).card_usage == old(self).card_usage
                    &&& final(self).properties == old(self).properties
                    &&& final(self).participant_properties == old(self).participant_properties
                    &&& final(self).auctions == old(self).auctions
                    &&& final(self).trades == old(self).trades
                },
                Err(e) => {
                    &&& *final(self) == *old(self)
                    &&& (e == Error::NotHost <==> user_id != old(self).host_user_id)
                    &&& (e == Error::NotHost || e == Error::NoParticipants)
                },
            },
    {
        if user_id != self.host_user_id {
            return Err(Error::NotHost);
        }
        let starting = match status {
            Some(st) => matches!(st, GameStatus::ACTIVE) && !matches!(self.status, GameStatus::ACTIVE),
            None => false,
        };
        if starting && self.participants.len() == 0 {
            return Err(Error::NoParticipants);
        }
        if let Some(n) = name {
            self.name = n;
        }
        if starting {
            let order = roll_initiative(&self.participants);
            let first = order[0];
            self.current_turn_user_id = Some(first);
            self.turn_order = Some(order);
        }
        if let Some(st) = status {
            self.status = st;
        }
        proof {
            assert(self.wf());
        }
        Ok(())
    }

    /// Advances the turn, circularly through the stored order; only the
    /// participant currently on turn may do so.
    pub fn end_turn(&mut self, user_id: UserId) -> (r: Result<(), Error>)
        requires
            old(self).wf(),
        ensures
            final(self).wf(),
            match r {
                Ok(()) => {
                    &&& old(self).current_turn_user_id == Some(user_id)
                    &&& match old(self).turn_order {
                        Some(o) => {
                            let k = choose|i: int| 0 <= i < o@.len() && o@[i] == user_id;
                            &&& o@.contains(user_id)
                            &&& final(self).current_turn_user_id
                                == Some(o@[((k + 1) % (o@.len() as int))])
                        },
                        None => false,
                    }
                    &&& *final(self) == (GameSession {
                        current_turn_user_id: final(self).current_turn_user_id,
                        ..*old(self)
                    })
                },
                Err(e) => {
                    &&& *final(self) == *old(self)
                    &&& (e == Error::NotYourTurn
                        <==> old(self).current_turn_user_id != Some(user_id))
                    &&& (e == Error::NotYourTurn || e == Error::NoTurnOrder
                        || e == Error::NotInTurnOrder)
                    &&& (e == Error::NoTurnOrder ==> old(self).turn_order is None)
                    &&& (e == Error::NotInTurnOrder ==> match old(self).turn_order {
                        Some(o) => !o@.contains(user_id),
                        None => false,
                    })
                },
            },
    {
        let current_matches = match self.current_turn_user_id {
            Some(u) => u == user_id,
            None => false,
        };
        if !current_matches {
            return Err(Error::NotYourTurn);
        }
        let next: UserId;
        match &self.turn_order {
            Some(order) => {
                let len = order.len();
                let mut idx: usize = 0;
                let mut found = false;
                for i in 0..len
                    invariant
                        len == order@.len(),
                        !found ==> forall|j: int| 0 <= j < i ==> order@[j] != user_id,
                        found ==> idx < len && order@[idx as int] == user_id
                            && (forall|j: int| 0 <= j < idx ==> order@[j] != user_id),
                {
                    if !found && order[i] == user_id {
                        idx = i;
                        found = true;
                    }
                }
                if !found {
                    return Err(Error::NotInTurnOrder);
                }
                let next_idx = if idx + 1 == len { 0 } else { idx + 1 };
                next = order[next_idx];
                proof {
                    let o = self.turn_order.unwrap()@;
                    let k = choose|i: int| 0 <= i < o.len() && o[i] == user_id;
                    assert(o[idx as int] == user_id);
                    if k != idx as int {
                        assert(o[k] != o[idx as int]);
                        assert(false);
                    }
                    if idx + 1 == len {
                        assert((k + 1) % (o.len() as int) == 0) by (nonlinear_arith)
                            requires
                                k + 1 == o.len() as int,
                                o.len() > 0,
                        ;
                    } else {
                        assert((k + 1) % (o.len() as int) == k + 1) by (nonlinear_arith)
                            requires
                                0 <= k + 1 < o.len() as int,
                        ;
                    }
                    assert(next_idx as int == (k + 1) % (o.len() as int));
                }
            },
            None => {
                return Err(Error::NoTurnOrder);
            },
        }
        self.current_turn_user_id = Some(next);
        Ok(())
    }

    /// Moves the caller's piece to an absolute board position.  Success
    /// also when the user has no row; then nothing changes.
    pub fn update_participant_position(&mut self, user_id: UserId, position: i32) -> (r: Result<(), Error>)
        requires
            old(self).wf(),
            0 <= position < crate::types::BOARD_SIZE,
        ensures
            final(self).wf(),
            r is Ok,
            if has_user(old(self).participants@, user_id) {
                final(self).participants@ == old(self).participants@.update(
                    uidx(old(self).participants@, user_id),
                    (Participant {
                        position,
                        ..old(self).participants@[uidx(old(self).participants@, user_id)]
                    }))
            } else {
                final(self).participants@ == old(self).participants@
            },
            final(self).transactions == old(self).transactions,
            final(self).jackpot_balance == old(self).jackpot_balance,
            final(self).next_id == old(self).next_id,
            Self::only_ledger_changed(*old(self), *final(self)),
    {
        match self.find_participant_by_user(user_id) {
            Some(i) => {
                self.participants[i].position = position;
                proof {
                    assert(self.wf());
                }
            },
            None => {},
        }
        Ok(())
    }

    /// Joins through the game's four-character code.
    pub fn join_game_with_code(&mut self, code: &str, user_id: UserId, now: i64) -> (r: Result<Participant, Error>)
        requires
            old(self).wf(),
        ensures
            final(self).wf(),
            r is Ok <==> (code@ == old(self).code@
                && old(self).status == GameStatus::WAITING
                && !has_user(old(self).participants@, user_id)
                && old(self).next_id + 2 <= u64::MAX),
            match r {
                Ok(p) => Self::join_post(*old(self), *final(self), p, user_id, now),
                Err(e) => {
                    &&& *final(self) == *old(self)
                    &&& (e == Error::GameNotFound <==> code@ != old(self).code@)
                },
            },
    {
        if !crate::types::string_eq_str(&self.code, code) {
            return Err(Error::GameNotFound);
        }
        self.join_game(user_id, now)
    }
}

} // verus!
