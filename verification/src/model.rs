//! The ledger as a mathematical state machine: the state of one arcade and,
//! for each operation, what it answers and what state it leaves.

use vstd::prelude::*;
use crate::error::CustomError;
use crate::escrow::{available, SigningAuthority, Transfer};
use crate::leaderboard::{
    admit_outcome, admits, admitted, is_new_highest, sorted_desc, AdmitResult, UserScore,
};
use crate::principal::Principal;
use crate::registry::MAX_ADMINS;

verus! {

/// The state of one arcade.
pub struct LedgerView {
    pub initialized: bool,
    pub admins: Set<Principal>,
    pub arcade_name: Seq<char>,
    pub total_price_distributed: nat,
    pub game_counter: nat,
    pub price_per_game: nat,
    pub max_top_scores: nat,
    pub top_users: Seq<UserScore>,
    pub escrow_balance: nat,
    pub min_reserve: nat,
    pub authority: SigningAuthority,
}

/// Who creates a ledger, and what its environment fixes at creation.
#[derive(Debug)]
pub struct Initialize {
    /// The creator, who becomes the owner and the first admin.
    pub admin: Principal,
    /// Further admins to start with.
    pub co_admins: Vec<Principal>,
    /// The bump of the escrow's derived address.
    pub bump: u8,
    /// The floor that the environment imposes on the escrow's balance.
    pub min_reserve: u64,
}

/// Who plays.
#[derive(Clone, Copy, Debug, PartialEq, Eq)]
pub struct Play {
    pub user: Principal,
}

/// Who submits a score, and the beneficiary account handed in with the call.
#[derive(Clone, Copy, Debug, PartialEq, Eq)]
pub struct AddUserScore {
    pub admin: Principal,
    pub user: Principal,
}

/// Who changes the price.
#[derive(Clone, Copy, Debug, PartialEq, Eq)]
pub struct UpdatePrice {
    pub admin: Principal,
}

/// The payments that one game calls for.
#[derive(Clone, Copy, Debug, PartialEq, Eq)]
pub struct PlayReceipt {
    pub player: Principal,
    /// The owner, who receives the direct cut.
    pub beneficiary: Principal,
    pub escrow_share: u64,
    pub admin_share: u64,
}

/// What a submitted score led to.
#[derive(Clone, Debug, PartialEq, Eq)]
pub struct ScoreReceipt {
    pub outcome: AdmitResult,
    /// The prize to pay, if there is one.
    pub prize: Option<Transfer>,
}

/// The invariants of a ledger: there are no more admins than the bound
/// allows, and at least one once the ledger is active; nothing was
/// distributed before it became active; the board is within its capacity and
/// ranked; the escrow holds at least its reserve; and every number fits its
/// machine type.
pub open spec fn valid(v: LedgerView) -> bool {
    &&& v.admins.finite()
    &&& v.admins.len() <= MAX_ADMINS
    &&& v.initialized ==> v.admins.len() >= 1
    &&& !v.initialized ==> v.total_price_distributed == 0
    &&& v.top_users.len() <= v.max_top_scores
    &&& sorted_desc(v.top_users)
    &&& v.escrow_balance >= v.min_reserve
    &&& v.max_top_scores <= u8::MAX
    &&& v.escrow_balance <= u64::MAX
    &&& v.total_price_distributed <= u64::MAX
    &&& v.game_counter <= u64::MAX
    &&& v.price_per_game <= u64::MAX
}

/// The part of a fee that goes straight to the owner: half, rounded down.
pub open spec fn admin_share(price: nat) -> nat {
    price / 2
}

/// The part of a fee that goes to escrow: the rest, so an odd unit stays in escrow.
pub open spec fn escrow_share(price: nat) -> nat {
    (price - price / 2) as nat
}

/// The admins that a new ledger starts with.
pub open spec fn founding_admins(ctx: Initialize) -> Set<Principal> {
    ctx.co_admins@.to_set().insert(ctx.admin)
}

/// What `initialize` answers.
pub open spec fn initialize_outcome(v: LedgerView, ctx: Initialize) -> Result<(), CustomError> {
    if v.initialized {
        Err(CustomError::AlreadyInitialized)
    } else if founding_admins(ctx).len() > MAX_ADMINS {
        Err(CustomError::ArithmeticOverflow)
    } else {
        Ok(())
    }
}

/// The state that `initialize` leaves.
pub open spec fn after_initialize(
    v: LedgerView,
    ctx: Initialize,
    arcade_name: Seq<char>,
    max_top_scores: u8,
    price_per_game: u64,
) -> LedgerView {
    if initialize_outcome(v, ctx) is Ok {
        LedgerView {
            initialized: true,
            admins: founding_admins(ctx),
            arcade_name,
            total_price_distributed: 0,
            game_counter: 0,
            price_per_game: price_per_game as nat,
            max_top_scores: max_top_scores as nat,
            top_users: Seq::empty(),
            escrow_balance: ctx.min_reserve as nat,
            min_reserve: ctx.min_reserve as nat,
            authority: SigningAuthority { owner: ctx.admin, bump: ctx.bump },
        }
    } else {
        v
    }
}

/// What `play` answers.
pub open spec fn play_outcome(v: LedgerView, ctx: Play, lamports: u64) -> Result<
    PlayReceipt,
    CustomError,
> {
    if !v.initialized {
        Err(CustomError::NotInitialized)
    } else if lamports != v.price_per_game {
        Err(CustomError::IncorrectPaymentAmount)
    } else if v.game_counter + 1 > u64::MAX || v.escrow_balance + escrow_share(lamports as nat)
        > u64::MAX {
        Err(CustomError::ArithmeticOverflow)
    } else {
        Ok(
            PlayReceipt {
                player: ctx.user,
                beneficiary: v.authority.owner,
                escrow_share: escrow_share(lamports as nat) as u64,
                admin_share: admin_share(lamports as nat) as u64,
            },
        )
    }
}

/// The state that `play` leaves.
pub open spec fn after_play(v: LedgerView, ctx: Play, lamports: u64) -> LedgerView {
    if play_outcome(v, ctx, lamports) is Ok {
        LedgerView {
            game_counter: v.game_counter + 1,
            escrow_balance: v.escrow_balance + escrow_share(lamports as nat),
            ..v
        }
    } else {
        v
    }
}

/// The prize that a score earns: all that the escrow can pay out, if the
/// score beats every score on the board and enters it; nothing otherwise.
pub open spec fn prize_for(v: LedgerView, user_score: UserScore) -> nat {
    if is_new_highest(v.top_users, user_score.score) && admits(
        v.top_users,
        user_score.score,
        v.max_top_scores,
    ) {
        available(v.escrow_balance, v.min_reserve)
    } else {
        0
    }
}

/// What `add_user_score` answers.
pub open spec fn score_outcome(v: LedgerView, ctx: AddUserScore, user_score: UserScore) -> Result<
    ScoreReceipt,
    CustomError,
> {
    if !v.initialized {
        Err(CustomError::NotInitialized)
    } else if !v.admins.contains(ctx.admin) {
        Err(CustomError::Unauthorized)
    } else if ctx.user != user_score.user_address {
        Err(CustomError::InvalidSubject)
    } else if v.total_price_distributed + prize_for(v, user_score) > u64::MAX {
        Err(CustomError::ArithmeticOverflow)
    } else {
        Ok(
            ScoreReceipt {
                outcome: admit_outcome(v.top_users, user_score, v.max_top_scores),
                prize: if prize_for(v, user_score) > 0 {
                    Some(
                        Transfer {
                            to: user_score.user_address,
                            lamports: prize_for(v, user_score) as u64,
                        },
                    )
                } else {
                    None
                },
            },
        )
    }
}

/// The state that `add_user_score` leaves.
pub open spec fn after_score(v: LedgerView, ctx: AddUserScore, user_score: UserScore) -> LedgerView {
    if score_outcome(v, ctx, user_score) is Ok {
        LedgerView {
            top_users: admitted(v.top_users, user_score, v.max_top_scores),
            escrow_balance: (v.escrow_balance - prize_for(v, user_score)) as nat,
            total_price_distributed: v.total_price_distributed + prize_for(v, user_score),
            ..v
        }
    } else {
        v
    }
}

/// What `update_price` answers.
pub open spec fn price_outcome(v: LedgerView, ctx: UpdatePrice) -> Result<(), CustomError> {
    if !v.initialized {
        Err(CustomError::NotInitialized)
    } else if !v.admins.contains(ctx.admin) {
        Err(CustomError::Unauthorized)
    } else {
        Ok(())
    }
}

/// The state that `update_price` leaves.
pub open spec fn after_price(v: LedgerView, ctx: UpdatePrice, new_price: u64) -> LedgerView {
    if price_outcome(v, ctx) is Ok {
        LedgerView { price_per_game: new_price as nat, ..v }
    } else {
        v
    }
}

/// What `add_admins` answers.
pub open spec fn add_admins_outcome(
    v: LedgerView,
    caller: Principal,
    new_admins: Set<Principal>,
) -> Result<(), CustomError> {
    if !v.initialized {
        Err(CustomError::NotInitialized)
    } else if !v.admins.contains(caller) {
        Err(CustomError::Unauthorized)
    } else if v.admins.union(new_admins).len() > MAX_ADMINS {
        Err(CustomError::ArithmeticOverflow)
    } else {
        Ok(())
    }
}

/// The state that `add_admins` leaves.
pub open spec fn after_add_admins(
    v: LedgerView,
    caller: Principal,
    new_admins: Set<Principal>,
) -> LedgerView {
    if add_admins_outcome(v, caller, new_admins) is Ok {
        LedgerView { admins: v.admins.union(new_admins), ..v }
    } else {
        v
    }
}

/// What `remove_admin` answers.
pub open spec fn remove_admin_outcome(
    v: LedgerView,
    caller: Principal,
    principal: Principal,
) -> Result<(), CustomError> {
    if !v.initialized {
        Err(CustomError::NotInitialized)
    } else if !v.admins.contains(caller) {
        Err(CustomError::Unauthorized)
    } else if v.admins.remove(principal).len() == 0 {
        Err(CustomError::LastAdminRemoval)
    } else {
        Ok(())
    }
}

/// The state that `remove_admin` leaves.
pub open spec fn after_remove_admin(
    v: LedgerView,
    caller: Principal,
    principal: Principal,
) -> LedgerView {
    if remove_admin_outcome(v, caller, principal) is Ok {
        LedgerView { admins: v.admins.remove(principal), ..v }
    } else {
        v
    }
}

} // verus!
