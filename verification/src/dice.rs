//! Dice rolls with board movement: wrap-around past the start corner
//! (optionally collecting salary) and the go-to-jail corner.

use vstd::prelude::*;
use crate::types::{UserId, Error, SALARY_AMOUNT, BOARD_SIZE, JAIL_POSITION, GO_TO_JAIL_POSITION};
use crate::entities::DiceRoll;
use crate::session::{GameSession, has_user, uidx, balance_of};
use crate::rand_source::random_below;

verus! {

/// The sum of rolled faces.
pub open spec fn sum_i32(s: Seq<i32>) -> int
    decreases s.len(),
{
    if s.len() == 0 {
        0
    } else {
        s[0] + sum_i32(s.drop_first())
    }
}

/// Appending one face adds it to the sum.
proof fn lemma_sum_i32_push(s: Seq<i32>, x: i32)
    ensures
        sum_i32(s.push(x)) == sum_i32(s) + x,
    decreases s.len(),
{
    if s.len() == 0 {
        assert(s.push(x).drop_first() =~= s);
    } else {
        assert(s.push(x).drop_first() =~= s.drop_first().push(x));
        lemma_sum_i32_push(s.drop_first(), x);
    }
}

impl GameSession {
    /// Where a move of `total` from `p0` ends: wrap past the last
    /// space, and the go-to-jail corner sends the piece to jail.
    pub open spec fn moved_position(p0: int, total: int) -> int {
        let moved = p0 + total;
        let wrapped = if moved >= BOARD_SIZE { moved % (BOARD_SIZE as int) } else { moved };
        if wrapped == GO_TO_JAIL_POSITION {
            JAIL_POSITION as int
        } else {
            wrapped
        }
    }

    /// Is the salary for passing the start owed and payable?
    pub open spec fn salary_applies(pre: GameSession, user_id: UserId, total: int, auto_salary: bool) -> bool {
        &&& has_user(pre.participants@, user_id)
        &&& auto_salary
        &&& pre.participants@[uidx(pre.participants@, user_id)].position + total >= BOARD_SIZE
        &&& balance_of(pre.participants@, pre.pid_of_user(user_id)) + SALARY_AMOUNT <= i64::MAX
    }

    /// Rolls `count` dice of `sides` faces, moves the caller's piece by
    /// the total (wrapping, collecting salary when asked and past the
    /// start, jail corner included), and records the roll.  A caller
    /// with no participant row still gets a recorded roll, unmoved.
    /// A salary that cannot be credited is skipped, never an error.
    pub fn roll_dice(&mut self, user_id: UserId, sides: i32, count: i32, auto_salary: bool, now: i64) -> (r: Result<DiceRoll, Error>)
        requires
            old(self).wf(),
            1 <= sides,
            0 <= count,
            count * sides <= i32::MAX - BOARD_SIZE,
        ensures
            final(self).wf(),
            r is Ok <==> old(self).next_id + 2 <= u64::MAX,
            match r {
                Ok(roll) => {
                    let pre = *old(self);
                    let total = roll.total as int;
                    &&& roll.game_id == pre.id
                    &&& roll.user_id == user_id
                    &&& roll.dice_count == count
                    &&& roll.dice_sides == sides
                    &&& roll.results@.len() == count
                    &&& forall|k: int| 0 <= k < roll.results@.len()
                        ==> 1 <= #[trigger] roll.results@[k] <= sides
                    &&& roll.total == sum_i32(roll.results@)
                    &&& 0 <= roll.total <= count * sides
                    &&& roll.created_at == now
                    &&& if has_user(pre.participants@, user_id) {
                        let w = uidx(pre.participants@, user_id);
                        let p0 = pre.participants@[w];
                        let target = Self::moved_position(p0.position as int, total);
                        &&& final(self).participants@.len() == pre.participants@.len()
                        &&& final(self).participants@[w].position == target
                        &&& final(self).participants@[w].id == p0.id
                        &&& final(self).participants@[w].user_id == p0.user_id
                        &&& forall|i: int| 0 <= i < pre.participants@.len() && i != w
                            ==> (#[trigger] final(self).participants@[i]).position
                                == pre.participants@[i].position
                        &&& if Self::salary_applies(pre, user_id, total, auto_salary) {
                            &&& final(self).participants@[w].balance == p0.balance + SALARY_AMOUNT
                            &&& final(self).transactions@.len() == pre.transactions@.len() + 1
                            &&& final(self).transactions@.last().to_participant_id == Some(p0.id)
                            &&& final(self).transactions@.last().amount == SALARY_AMOUNT
                            &&& final(self).transactions@.last().from_participant_id is None
                            &&& final(self).next_id == pre.next_id + 2
                        } else {
                            &&& forall|i: int| 0 <= i < pre.participants@.len()
                                ==> (#[trigger] final(self).participants@[i]).balance
                                    == pre.participants@[i].balance
                            &&& final(self).transactions == pre.transactions
                            &&& final(self).next_id == pre.next_id + 1
                        }
                    } else {
                        &&& final(self).participants == pre.participants
                        &&& final(self).transactions == pre.transactions
                        &&& final(self).next_id == pre.next_id + 1
                    }
                    &&& final(self).jackpot_balance == pre.jackpot_balance
                    &&& final(self).participant_properties == pre.participant_properties
                    &&& final(self).auctions == pre.auctions
                    &&& final(self).trades == pre.trades
                    &&& Self::non_economy_fields_unchanged(pre, *final(self))
                },
                Err(e) => *final(self) == *old(self) && e == Error::ArithmeticLimit,
            },
    {
        let ghost pre = *self;
        if self.next_id >= u64::MAX - 1 {
            return Err(Error::ArithmeticLimit);
        }

        // Roll the dice.
        let mut results: Vec<i32> = Vec::new();
        let mut total: i32 = 0;
        let mut k: i32 = 0;
        while k < count
            invariant
                0 <= k <= count,
                1 <= sides,
                count * sides <= i32::MAX - BOARD_SIZE,
                results@.len() == k,
                forall|j: int| 0 <= j < results@.len() ==> 1 <= #[trigger] results@[j] <= sides,
                total == sum_i32(results@),
                0 <= total <= k * sides,
            decreases count - k,
        {
            let d = random_below(sides as u64);
            proof {
                assert(d < sides as u64);
                assert(d <= i32::MAX as u64);
            }
            let v: i32 = 1 + (d as i32);
            proof {
                assert(1 <= v <= sides);
                lemma_sum_i32_push(results@, v);
                assert((k + 1) * sides == k * sides + sides) by (nonlinear_arith);
                assert((k + 1) * sides <= count * sides) by (nonlinear_arith)
                    requires
                        0 <= k + 1 <= count,
                        1 <= sides,
                ;
            }
            results.push(v);
            total = total + v;
            k = k + 1;
        }
        proof {
            assert(count * sides <= i32::MAX - BOARD_SIZE);
        }

        // Move the caller's piece, if they sit in this game.
        match self.find_participant_by_user(user_id) {
            Some(w) => {
                let me = self.participants[w].id;
                let p0 = self.participants[w].position;
                let moved: i32 = p0 + total;
                let wrapped: i32 = if moved >= BOARD_SIZE { moved % BOARD_SIZE } else { moved };
                let target: i32 = if wrapped == GO_TO_JAIL_POSITION { JAIL_POSITION } else { wrapped };
                if auto_salary && moved >= BOARD_SIZE {
                    // Fire-and-forget: an uncreditable salary is skipped.
                    let res = self.transfer(None, Some(me), SALARY_AMOUNT,
                        Some("Salary (Passed Go)".to_owned()), now);
                    proof {
                        if Self::salary_applies(pre, user_id, total as int, auto_salary) {
                            assert(res is Ok);
                        } else {
                            assert(res is Err);
                        }
                    }
                }
                self.participants[w].position = target;
                proof {
                    assert(self.wf());
                }
            },
            None => {},
        }

        let roll = DiceRoll {
            id: self.next_id,
            game_id: self.id,
            user_id,
            dice_count: count,
            dice_sides: sides,
            results,
            total,
            created_at: now,
        };
        self.next_id = self.next_id + 1;
        proof {
            assert(self.wf());
        }
        Ok(roll)
    }
}

} // verus!
