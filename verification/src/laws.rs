//! Laws of the ledger, stated over the same specifications the
//! operations' contracts use and proved once and for all.

use vstd::prelude::*;
use crate::types::{Id, Money};
use crate::entities::{Participant, Transaction, CardType};
use crate::session::{
    GameSession, has_pid, pidx, balance_of, sum_balances, participant_delta, unique_pids,
    card_of, has_card,
};
use crate::ledger::{balance_shifted, txn_idx};

verus! {

/// The total of the balance shifts a movement owes the rows of `ps`.
pub open spec fn sum_deltas(ps: Seq<Participant>, from: Option<Id>, to: Option<Id>, amount: int) -> int
    decreases ps.len(),
{
    if ps.len() == 0 {
        0
    } else {
        participant_delta(ps[0], from, to, amount) + sum_deltas(ps.drop_first(), from, to, amount)
    }
}

/// A pointwise balance shift moves the sum of balances by the sum of
/// the deltas.
proof fn lemma_sum_shifted(ps0: Seq<Participant>, ps1: Seq<Participant>, from: Option<Id>, to: Option<Id>, amount: int)
    requires
        ps1.len() == ps0.len(),
        forall|i: int| 0 <= i < ps0.len()
            ==> balance_shifted(ps0[i], #[trigger] ps1[i], from, to, amount),
    ensures
        sum_balances(ps1) == sum_balances(ps0) + sum_deltas(ps0, from, to, amount),
    decreases ps0.len(),
{
    if ps0.len() > 0 {
        let r0 = ps0.drop_first();
        let r1 = ps1.drop_first();
        assert(forall|i: int| 0 <= i < r0.len() ==> r0[i] == ps0[i + 1]);
        assert(forall|i: int| 0 <= i < r1.len() ==> r1[i] == ps1[i + 1]);
        assert(forall|i: int| 0 <= i < r0.len()
            ==> balance_shifted(r0[i], #[trigger] r1[i], from, to, amount));
        lemma_sum_shifted(r0, r1, from, to, amount);
        assert(balance_shifted(ps0[0], ps1[0], from, to, amount));
    }
}

/// With distinct participant ids, the summed deltas reduce to: minus
/// the amount if the debited id is present, plus the amount if the
/// credited id is present.
proof fn lemma_sum_deltas_resolved(ps: Seq<Participant>, from: Option<Id>, to: Option<Id>, amount: int)
    requires
        unique_pids(ps),
    ensures
        sum_deltas(ps, from, to, amount) == (match from {
            Some(f) => if has_pid(ps, f) { -amount } else { 0 },
            None => 0,
        }) + (match to {
            Some(t) => if has_pid(ps, t) { amount } else { 0 },
            None => 0,
        }),
    decreases ps.len(),
{
    if ps.len() > 0 {
        let rest = ps.drop_first();
        assert(forall|i: int| 0 <= i < rest.len() ==> rest[i] == ps[i + 1]);
        assert(unique_pids(rest));
        lemma_sum_deltas_resolved(rest, from, to, amount);
        if from is Some {
            let f = from.unwrap();
            if has_pid(rest, f) {
                let w = choose|i: int| 0 <= i < rest.len() && rest[i].id == f;
                assert(ps[w + 1].id == f);
                assert(has_pid(ps, f));
                assert(ps[0].id != ps[w + 1].id);
            } else if ps[0].id == f {
                assert(has_pid(ps, f));
            } else {
                if has_pid(ps, f) {
                    let w = choose|i: int| 0 <= i < ps.len() && ps[i].id == f;
                    assert(w > 0);
                    assert(rest[w - 1].id == f);
                    assert(false);
                }
            }
        }
        if to is Some {
            let t = to.unwrap();
            if has_pid(rest, t) {
                let w = choose|i: int| 0 <= i < rest.len() && rest[i].id == t;
                assert(ps[w + 1].id == t);
                assert(has_pid(ps, t));
                assert(ps[0].id != ps[w + 1].id);
            } else if ps[0].id == t {
                assert(has_pid(ps, t));
            } else {
                if has_pid(ps, t) {
                    let w = choose|i: int| 0 <= i < ps.len() && ps[i].id == t;
                    assert(w > 0);
                    assert(rest[w - 1].id == t);
                    assert(false);
                }
            }
        }
    }
}

/// Conservation (one step): a successful transfer between two
/// participants — one that touches neither the bank nor the jackpot —
/// leaves the sum of all participant balances unchanged.  Since every
/// state in a chain of such transfers relates to the next by
/// `transfer_post`, the sum is invariant across any such sequence
/// (see [`lemma_transfer_sequence_conserves_balances`]).
pub proof fn lemma_transfer_conserves_balances(
    pre: GameSession,
    post: GameSession,
    txn: Transaction,
    from: Option<Id>,
    to: Option<Id>,
    amount: Money,
    now: i64,
)
    requires
        pre.wf(),
        from is Some,
        to is Some,
        has_pid(pre.participants@, from.unwrap()),
        has_pid(pre.participants@, to.unwrap()),
        GameSession::transfer_post(pre, post, txn, from, to, amount, now),
    ensures
        sum_balances(post.participants@) == sum_balances(pre.participants@),
        post.jackpot_balance == pre.jackpot_balance,
{
    let eff_to = pre.effective_to(from, to);
    let eff_amount = pre.effective_amount(from, to, amount);
    assert(eff_to == to);
    assert(eff_amount == amount);
    lemma_sum_shifted(pre.participants@, post.participants@, from, eff_to, eff_amount as int);
    lemma_sum_deltas_resolved(pre.participants@, from, eff_to, eff_amount as int);
}

/// Does some successful participant-to-participant transfer (between
/// two existing participants) lead from `pre` to `post`?
pub open spec fn p2p_transfer_step(pre: GameSession, post: GameSession) -> bool {
    exists|txn: Transaction, from: Option<Id>, to: Option<Id>, amount: Money, now: i64|
        #![trigger GameSession::transfer_post(pre, post, txn, from, to, amount, now)]
        from is Some && to is Some
            && has_pid(pre.participants@, from.unwrap())
            && has_pid(pre.participants@, to.unwrap())
            && GameSession::transfer_post(pre, post, txn, from, to, amount, now)
}

/// Conservation (any sequence): along any chain of states linked by
/// successful participant-to-participant transfers, the sum of all
/// participant balances is invariant, and so is the jackpot.
pub proof fn lemma_transfer_sequence_conserves_balances(chain: Seq<GameSession>, k: int)
    requires
        0 <= k < chain.len(),
        forall|j: int| 0 <= j < chain.len() - 1 ==> (#[trigger] chain[j]).wf(),
        forall|j: int| 0 <= j < chain.len() - 1
            ==> #[trigger] p2p_transfer_step(chain[j], chain[j + 1]),
    ensures
        sum_balances(chain[k].participants@) == sum_balances(chain[0].participants@),
        chain[k].jackpot_balance == chain[0].jackpot_balance,
    decreases k,
{
    if k > 0 {
        lemma_transfer_sequence_conserves_balances(chain, k - 1);
        let j = k - 1;
        assert(p2p_transfer_step(chain[j], chain[j + 1]));
        assert(chain[j + 1] == chain[k]);
        assert(p2p_transfer_step(chain[k - 1], chain[k]));
        let (txn, from, to, amount, now) = choose|
            txn: Transaction, from: Option<Id>, to: Option<Id>, amount: Money, now: i64|
            #![trigger GameSession::transfer_post(chain[k - 1], chain[k], txn, from, to, amount, now)]
            from is Some && to is Some
                && has_pid(chain[k - 1].participants@, from.unwrap())
                && has_pid(chain[k - 1].participants@, to.unwrap())
                && GameSession::transfer_post(chain[k - 1], chain[k], txn, from, to, amount, now);
        lemma_transfer_conserves_balances(chain[k - 1], chain[k], txn, from, to, amount, now);
    }
}

/// Bank-owner redirection, paying stranger: when participant `b` holds
/// "El Banco" and a different participant `f` pays `amount` toward the
/// bank, `f` is debited, `b` credited, and the jackpot grows by the
/// same amount.
pub proof fn lemma_bank_owner_redirection(
    pre: GameSession,
    post: GameSession,
    txn: Transaction,
    f: Id,
    b: Id,
    amount: Money,
    now: i64,
)
    requires
        pre.wf(),
        pre.bank_owner_spec() == Some(b),
        f != b,
        has_pid(pre.participants@, f),
        has_pid(pre.participants@, b),
        GameSession::transfer_post(pre, post, txn, Some(f), None, amount, now),
    ensures
        balance_of(post.participants@, f) == balance_of(pre.participants@, f) - amount,
        balance_of(post.participants@, b) == balance_of(pre.participants@, b) + amount,
        post.jackpot_balance == pre.jackpot_balance + amount,
    {
    let ps0 = pre.participants@;
    let ps1 = post.participants@;
    assert(pre.effective_to(Some(f), None) == Some(b));
    assert(pre.effective_amount(Some(f), None, amount) == amount);
    let wf0 = pidx(ps0, f);
    assert(0 <= wf0 < ps0.len() && ps0[wf0].id == f);
    assert(balance_shifted(ps0[wf0], ps1[wf0], Some(f), Some(b), amount as int));
    lemma_pidx_stable(ps0, ps1, f);
    let wb0 = pidx(ps0, b);
    assert(0 <= wb0 < ps0.len() && ps0[wb0].id == b);
    assert(balance_shifted(ps0[wb0], ps1[wb0], Some(f), Some(b), amount as int));
    lemma_pidx_stable(ps0, ps1, b);
}

/// Bank-owner redirection, self-payment: when the payer themselves
/// holds "El Banco", a payment toward the bank costs them nothing, yet
/// the jackpot still grows by the full amount.
pub proof fn lemma_bank_owner_self_payment(
    pre: GameSession,
    post: GameSession,
    txn: Transaction,
    b: Id,
    amount: Money,
    now: i64,
)
    requires
        pre.wf(),
        pre.bank_owner_spec() == Some(b),
        GameSession::transfer_post(pre, post, txn, Some(b), None, amount, now),
    ensures
        forall|i: int| 0 <= i < pre.participants@.len()
            ==> (#[trigger] post.participants@[i]).balance == pre.participants@[i].balance,
        post.jackpot_balance == pre.jackpot_balance + amount,
{
    let ps0 = pre.participants@;
    let ps1 = post.participants@;
    assert(pre.effective_to(Some(b), None) is None);
    assert(pre.effective_amount(Some(b), None, amount) == 0);
    assert forall|i: int| 0 <= i < ps0.len()
        implies (#[trigger] ps1[i]).balance == ps0[i].balance
    by {
        assert(balance_shifted(ps0[i], ps1[i], Some(b), None, 0));
    }
}

/// A participant keeps their row index across a pointwise balance shift
/// (ids are untouched), so `balance_of` refers to the same row.
pub proof fn lemma_pidx_stable(ps0: Seq<Participant>, ps1: Seq<Participant>, pid: Id)
    requires
        unique_pids(ps0),
        ps1.len() == ps0.len(),
        forall|i: int| 0 <= i < ps0.len() ==> (#[trigger] ps1[i]).id == ps0[i].id,
        has_pid(ps0, pid),
    ensures
        has_pid(ps1, pid),
        pidx(ps1, pid) == pidx(ps0, pid),
{
    let w0 = pidx(ps0, pid);
    assert(0 <= w0 < ps0.len() && ps0[w0].id == pid);
    assert(ps1[w0].id == pid);
    assert(has_pid(ps1, pid));
    let w1 = pidx(ps1, pid);
    assert(0 <= w1 < ps1.len() && ps1[w1].id == pid);
    if w1 != w0 {
        assert(ps0[w1].id == pid);
        assert(ps0[w1].id != ps0[w0].id);
        assert(false);
    }
}

/// Transaction-reversal round trip: a transfer between two existing
/// participants followed by the deletion of that very transaction
/// restores every balance — and everything else except the id counter —
/// to its pre-transfer value.
pub proof fn lemma_transfer_delete_round_trip(
    s0: GameSession,
    s1: GameSession,
    s2: GameSession,
    txn: Transaction,
    f: Id,
    t: Id,
    amount: Money,
    now: i64,
)
    requires
        s0.wf(),
        s1.wf(),
        has_pid(s0.participants@, f),
        has_pid(s0.participants@, t),
        GameSession::transfer_post(s0, s1, txn, Some(f), Some(t), amount, now),
        GameSession::delete_post(s1, s2, txn.id),
    ensures
        s2.participants@ == s0.participants@,
        s2.transactions@ == s0.transactions@,
        s2.jackpot_balance == s0.jackpot_balance,
        s2.status == s0.status,
        GameSession::only_ledger_changed(s0, s2),
{
    let ps0 = s0.participants@;
    let ps1 = s1.participants@;
    let ps2 = s2.participants@;
    assert(s1.transactions@ == s0.transactions@.push(txn));
    // The deleted row is exactly the pushed one: older rows carry
    // smaller ids.
    let k = txn_idx(s1.transactions@, txn.id);
    assert(s1.transactions@[s0.transactions@.len() as int].id == txn.id);
    assert(0 <= k < s1.transactions@.len() && s1.transactions@[k].id == txn.id);
    if k < s0.transactions@.len() {
        assert(s0.transactions@[k].id == txn.id);
        assert(s0.transactions@[k].id < s0.next_id);
        assert(false);
    }
    assert(k == s0.transactions@.len());
    assert(s1.transactions@[k] == txn);
    assert(s2.transactions@ =~= s0.transactions@);
    // Balances: the reversal applies the exact inverse deltas.
    assert(txn.to_participant_id == Some(t));
    assert(txn.from_participant_id == Some(f));
    assert(txn.amount == amount);
    assert forall|i: int| 0 <= i < ps0.len() implies #[trigger] ps2[i] == ps0[i] by {
        assert(balance_shifted(ps0[i], ps1[i], Some(f), Some(t), amount as int));
        assert(balance_shifted(ps1[i], ps2[i], Some(t), Some(f), amount as int));
    }
    assert(ps2 =~= ps0);
}

/// Market uniqueness: in any well-formed session — and every operation
/// of this crate both requires and re-establishes well-formedness — no
/// boveda card identifier appears in more than one place among the
/// market slots and the inventory rows.
pub proof fn lemma_boveda_card_unique(s: GameSession)
    requires
        s.wf(),
    ensures
        forall|i: int, j: int|
            0 <= i < s.market@.len() && 0 <= j < s.market@.len() && i != j && s.market@[i] is Some
            ==> s.market@[i] != s.market@[j],
        forall|i: int, j: int|
            0 <= i < s.market@.len() && 0 <= j < s.participant_cards@.len()
                && s.market@[i] is Some
            ==> s.market@[i].unwrap() != s.participant_cards@[j].card_id,
        forall|i: int, j: int|
            #![trigger s.participant_cards@[i], s.participant_cards@[j]]
            0 <= i < s.participant_cards@.len() && 0 <= j < s.participant_cards@.len() && i != j
                && has_card(s.cards@, s.participant_cards@[i].card_id)
                && card_of(s.cards@, s.participant_cards@[i].card_id).type_ == CardType::Boveda
            ==> s.participant_cards@[i].card_id != s.participant_cards@[j].card_id,
{
    assert forall|i: int, j: int|
        0 <= i < s.market@.len() && 0 <= j < s.participant_cards@.len()
            && s.market@[i] is Some
        implies s.market@[i].unwrap() != s.participant_cards@[j].card_id
    by {
        if s.market@[i].unwrap() == s.participant_cards@[j].card_id {
            assert(crate::session::in_market(s.market@, s.participant_cards@[j].card_id));
        }
    }
}

} // verus!
