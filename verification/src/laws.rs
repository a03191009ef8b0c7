//! What holds of the ledger whatever is asked of it.

use vstd::prelude::*;
use crate::error::CustomError;
use crate::leaderboard::{lemma_admitted_ranked, sorted_desc, AdmitResult, UserScore};
use crate::model::{
    add_admins_outcome, after_add_admins, after_initialize, after_play, after_price,
    after_remove_admin, after_score, escrow_share, founding_admins, initialize_outcome,
    play_outcome, price_outcome, prize_for, remove_admin_outcome, score_outcome, valid,
    AddUserScore, Initialize, LedgerView, Play, ScoreReceipt, UpdatePrice,
};
use crate::principal::Principal;

verus! {

/// `initialize` leaves a ledger that meets its invariants.
pub proof fn lemma_initialize_keeps_valid(
    v: LedgerView,
    ctx: Initialize,
    arcade_name: Seq<char>,
    max_top_scores: u8,
    price_per_game: u64,
)
    requires
        valid(v),
    ensures
        valid(after_initialize(v, ctx, arcade_name, max_top_scores, price_per_game)),
{
    if initialize_outcome(v, ctx) is Ok {
        let founders = founding_admins(ctx);
        vstd::seq_lib::seq_to_set_is_finite(ctx.co_admins@);
        assert(founders.finite());
        assert(founders.contains(ctx.admin));
        if founders.len() == 0 {
            founders.lemma_len0_is_empty();
        }
    }
}

/// `play` leaves a ledger that meets its invariants.
pub proof fn lemma_play_keeps_valid(v: LedgerView, ctx: Play, lamports: u64)
    requires
        valid(v),
    ensures
        valid(after_play(v, ctx, lamports)),
{
}

/// `add_user_score` leaves a ledger that meets its invariants: the board
/// stays ranked and within its bound, and the escrow at or above its reserve.
pub proof fn lemma_score_keeps_valid(v: LedgerView, ctx: AddUserScore, user_score: UserScore)
    requires
        valid(v),
    ensures
        valid(after_score(v, ctx, user_score)),
{
    if score_outcome(v, ctx, user_score) is Ok {
        lemma_admitted_ranked(v.top_users, user_score, v.max_top_scores);
    }
}

/// `update_price` leaves a ledger that meets its invariants.
pub proof fn lemma_price_keeps_valid(v: LedgerView, ctx: UpdatePrice, new_price: u64)
    requires
        valid(v),
    ensures
        valid(after_price(v, ctx, new_price)),
{
}

/// `add_admins` leaves a ledger that meets its invariants.
pub proof fn lemma_add_admins_keeps_valid(
    v: LedgerView,
    caller: Principal,
    new_admins: Set<Principal>,
)
    requires
        valid(v),
        new_admins.finite(),
    ensures
        valid(after_add_admins(v, caller, new_admins)),
{
    if add_admins_outcome(v, caller, new_admins) is Ok {
        let joined = v.admins.union(new_admins);
        assert(joined.finite());
        assert(joined.contains(caller));
        if joined.len() == 0 {
            joined.lemma_len0_is_empty();
        }
    }
}

/// `remove_admin` leaves a ledger that meets its invariants: somebody is
/// still an admin.
pub proof fn lemma_remove_admin_keeps_valid(v: LedgerView, caller: Principal, principal: Principal)
    requires
        valid(v),
    ensures
        valid(after_remove_admin(v, caller, principal)),
{
    if remove_admin_outcome(v, caller, principal) is Ok {
        assert(v.admins.remove(principal).len() <= v.admins.len());
    }
}

/// One request to the ledger.
pub enum Operation {
    Initialize { ctx: Initialize, arcade_name: Seq<char>, max_top_scores: u8, price_per_game: u64 },
    Play { ctx: Play, lamports: u64 },
    AddUserScore { ctx: AddUserScore, user_score: UserScore },
    UpdatePrice { ctx: UpdatePrice, new_price: u64 },
    AddAdmins { caller: Principal, new_admins: Seq<Principal> },
    RemoveAdmin { caller: Principal, principal: Principal },
}

/// The state that a request leaves.
pub open spec fn apply(v: LedgerView, op: Operation) -> LedgerView {
    match op {
        Operation::Initialize { ctx, arcade_name, max_top_scores, price_per_game } => {
            after_initialize(v, ctx, arcade_name, max_top_scores, price_per_game)
        },
        Operation::Play { ctx, lamports } => after_play(v, ctx, lamports),
        Operation::AddUserScore { ctx, user_score } => after_score(v, ctx, user_score),
        Operation::UpdatePrice { ctx, new_price } => after_price(v, ctx, new_price),
        Operation::AddAdmins { caller, new_admins } => {
            after_add_admins(v, caller, new_admins.to_set())
        },
        Operation::RemoveAdmin { caller, principal } => after_remove_admin(v, caller, principal),
    }
}

/// The prize that a request pays out: that of a score that is accepted,
/// nothing for any other request.
pub open spec fn paid(v: LedgerView, op: Operation) -> nat {
    match op {
        Operation::AddUserScore { ctx, user_score } => {
            if score_outcome(v, ctx, user_score) is Ok {
                prize_for(v, user_score)
            } else {
                0
            }
        },
        _ => 0,
    }
}

/// What a request puts into escrow: the escrow's share of the fee of a game
/// that is accepted, nothing for any other request.
pub open spec fn deposited(v: LedgerView, op: Operation) -> nat {
    match op {
        Operation::Play { ctx, lamports } => {
            if play_outcome(v, ctx, lamports) is Ok {
                escrow_share(lamports as nat)
            } else {
                0
            }
        },
        _ => 0,
    }
}

/// The number of games that a request adds: one for a game that is accepted.
pub open spec fn played(v: LedgerView, op: Operation) -> nat {
    match op {
        Operation::Play { ctx, lamports } => {
            if play_outcome(v, ctx, lamports) is Ok {
                1
            } else {
                0
            }
        },
        _ => 0,
    }
}

/// The state after a sequence of requests, made one after the other.
pub open spec fn run(v: LedgerView, ops: Seq<Operation>) -> LedgerView
    decreases ops.len(),
{
    if ops.len() == 0 {
        v
    } else {
        apply(run(v, ops.drop_last()), ops.last())
    }
}

/// The sum of the prizes that a sequence of requests pays out.
pub open spec fn paid_total(v: LedgerView, ops: Seq<Operation>) -> nat
    decreases ops.len(),
{
    if ops.len() == 0 {
        0
    } else {
        paid_total(v, ops.drop_last()) + paid(run(v, ops.drop_last()), ops.last())
    }
}

/// The sum of what a sequence of requests puts into escrow.
pub open spec fn deposited_total(v: LedgerView, ops: Seq<Operation>) -> nat
    decreases ops.len(),
{
    if ops.len() == 0 {
        0
    } else {
        deposited_total(v, ops.drop_last()) + deposited(run(v, ops.drop_last()), ops.last())
    }
}

/// The number of games that a sequence of requests adds.
pub open spec fn played_total(v: LedgerView, ops: Seq<Operation>) -> nat
    decreases ops.len(),
{
    if ops.len() == 0 {
        0
    } else {
        played_total(v, ops.drop_last()) + played(run(v, ops.drop_last()), ops.last())
    }
}

/// Every request leaves a ledger that meets its invariants.
pub proof fn lemma_apply_keeps_valid(v: LedgerView, op: Operation)
    requires
        valid(v),
    ensures
        valid(apply(v, op)),
{
    match op {
        Operation::Initialize { ctx, arcade_name, max_top_scores, price_per_game } => {
            lemma_initialize_keeps_valid(v, ctx, arcade_name, max_top_scores, price_per_game);
        },
        Operation::Play { ctx, lamports } => {
            lemma_play_keeps_valid(v, ctx, lamports);
        },
        Operation::AddUserScore { ctx, user_score } => {
            lemma_score_keeps_valid(v, ctx, user_score);
        },
        Operation::UpdatePrice { ctx, new_price } => {
            lemma_price_keeps_valid(v, ctx, new_price);
        },
        Operation::AddAdmins { caller, new_admins } => {
            vstd::seq_lib::seq_to_set_is_finite(new_admins);
            lemma_add_admins_keeps_valid(v, caller, new_admins.to_set());
        },
        Operation::RemoveAdmin { caller, principal } => {
            lemma_remove_admin_keeps_valid(v, caller, principal);
        },
    }
}

/// After any sequence of requests the board is within its bound and ranked,
/// the escrow is at or above its reserve, and an active ledger has an admin.
pub proof fn lemma_run_keeps_valid(v: LedgerView, ops: Seq<Operation>)
    requires
        valid(v),
    ensures
        valid(run(v, ops)),
        run(v, ops).top_users.len() <= run(v, ops).max_top_scores,
        sorted_desc(run(v, ops).top_users),
        run(v, ops).escrow_balance >= run(v, ops).min_reserve,
        run(v, ops).initialized ==> run(v, ops).admins.len() >= 1,
    decreases ops.len(),
{
    if ops.len() > 0 {
        let earlier = ops.drop_last();
        lemma_run_keeps_valid(v, earlier);
        lemma_apply_keeps_valid(run(v, earlier), ops.last());
    }
}

/// The total distributed grows by exactly the prizes paid: after any sequence
/// of requests it is what it was plus the sum of the prizes of the accepted
/// scores, and it never falls.
pub proof fn lemma_distribution_conserved(v: LedgerView, ops: Seq<Operation>)
    requires
        valid(v),
    ensures
        run(v, ops).total_price_distributed == v.total_price_distributed + paid_total(v, ops),
        run(v, ops).total_price_distributed >= v.total_price_distributed,
    decreases ops.len(),
{
    if ops.len() > 0 {
        let earlier = ops.drop_last();
        lemma_distribution_conserved(v, earlier);
        lemma_run_keeps_valid(v, earlier);
    }
}

/// The funds of an active ledger reconcile: after any sequence of requests
/// the escrow holds what it held, plus its shares of the fees, less the
/// prizes; and the game counter has grown by one for each accepted game.
pub proof fn lemma_funds_reconcile(v: LedgerView, ops: Seq<Operation>)
    requires
        valid(v),
        v.initialized,
    ensures
        run(v, ops).escrow_balance + paid_total(v, ops) == v.escrow_balance + deposited_total(
            v,
            ops,
        ),
        run(v, ops).game_counter == v.game_counter + played_total(v, ops),
    decreases ops.len(),
{
    if ops.len() > 0 {
        let earlier = ops.drop_last();
        lemma_funds_reconcile(v, earlier);
        lemma_run_keeps_valid(v, earlier);
        lemma_construction_is_fixed(v, earlier);
    }
}

/// Once a ledger is active it stays active, and its capacity, its reserve and
/// its signing authority stay what they were made with.
pub proof fn lemma_construction_is_fixed(v: LedgerView, ops: Seq<Operation>)
    requires
        v.initialized,
    ensures
        run(v, ops).initialized,
        run(v, ops).max_top_scores == v.max_top_scores,
        run(v, ops).min_reserve == v.min_reserve,
        run(v, ops).authority == v.authority,
        run(v, ops).arcade_name == v.arcade_name,
    decreases ops.len(),
{
    if ops.len() > 0 {
        lemma_construction_is_fixed(v, ops.drop_last());
    }
}

/// On a full board a score that does not beat the lowest entry changes
/// nothing: the ledger stays as it is, and an admitted caller is told that
/// the score was rejected and that no prize is paid.
pub proof fn lemma_rejection_changes_nothing(v: LedgerView, ctx: AddUserScore, user_score: UserScore)
    requires
        valid(v),
        v.top_users.len() == v.max_top_scores,
        v.top_users.len() > 0 ==> user_score.score <= v.top_users.last().score,
    ensures
        after_score(v, ctx, user_score) == v,
        score_outcome(v, ctx, user_score) is Ok ==> score_outcome(v, ctx, user_score) == Ok::<
            ScoreReceipt,
            CustomError,
        >(ScoreReceipt { outcome: AdmitResult::Rejected, prize: None }),
{
    assert(after_score(v, ctx, user_score) =~= v);
}

/// On an active ledger a caller who is not an admin is refused as
/// unauthorized by every admin-only request, and the ledger stays as it is.
pub proof fn lemma_non_admin_is_refused(
    v: LedgerView,
    caller: Principal,
    beneficiary: Principal,
    user_score: UserScore,
    new_price: u64,
    new_admins: Set<Principal>,
    principal: Principal,
)
    requires
        v.initialized,
        !v.admins.contains(caller),
    ensures
        score_outcome(v, AddUserScore { admin: caller, user: beneficiary }, user_score) == Err::<
            ScoreReceipt,
            CustomError,
        >(CustomError::Unauthorized),
        after_score(v, AddUserScore { admin: caller, user: beneficiary }, user_score) == v,
        price_outcome(v, UpdatePrice { admin: caller }) == Err::<(), CustomError>(
            CustomError::Unauthorized,
        ),
        after_price(v, UpdatePrice { admin: caller }, new_price) == v,
        add_admins_outcome(v, caller, new_admins) == Err::<(), CustomError>(
            CustomError::Unauthorized,
        ),
        after_add_admins(v, caller, new_admins) == v,
        remove_admin_outcome(v, caller, principal) == Err::<(), CustomError>(
            CustomError::Unauthorized,
        ),
        after_remove_admin(v, caller, principal) == v,
{
}

} // verus!
