//! The ledger record of one arcade and the operations on it. Each operation
//! either succeeds as a whole or reports one error and changes nothing.

use vstd::prelude::*;
use crate::error::CustomError;
use crate::escrow::{EscrowAccount, SigningAuthority, Transfer};
use crate::laws::{
    lemma_add_admins_keeps_valid, lemma_initialize_keeps_valid, lemma_play_keeps_valid,
    lemma_price_keeps_valid, lemma_remove_admin_keeps_valid, lemma_score_keeps_valid,
};
use crate::leaderboard::{AdmitResult, Leaderboard, UserScore};
use crate::model::{
    add_admins_outcome, admin_share, after_add_admins, after_initialize, after_play,
    after_price, after_remove_admin, after_score, escrow_share, initialize_outcome,
    play_outcome, price_outcome, remove_admin_outcome, score_outcome, valid, AddUserScore,
    Initialize, LedgerView, Play, PlayReceipt, ScoreReceipt, UpdatePrice,
};
use crate::principal::Principal;
use crate::registry::AdminRegistry;

verus! {

/// The record of one arcade.
#[derive(Debug)]
pub struct ArcadeAccount {
    pub initialized: bool,
    pub admins: AdminRegistry,
    pub arcade_name: String,
    pub total_price_distributed: u64,
    pub game_counter: u64,
    pub price_per_game: u64,
    pub leaderboard: Leaderboard,
    pub escrow: EscrowAccount,
}

impl View for ArcadeAccount {
    type V = LedgerView;

    open spec fn view(&self) -> LedgerView {
        LedgerView {
            initialized: self.initialized,
            admins: self.admins@,
            arcade_name: self.arcade_name@,
            total_price_distributed: self.total_price_distributed as nat,
            game_counter: self.game_counter as nat,
            price_per_game: self.price_per_game as nat,
            max_top_scores: self.leaderboard.max_top_scores as nat,
            top_users: self.leaderboard.top_users@,
            escrow_balance: self.escrow.balance as nat,
            min_reserve: self.escrow.min_reserve as nat,
            authority: self.escrow.authority,
        }
    }
}

/// The two parts of a fee: what goes to escrow and what goes to the owner.
pub fn split_fee(price: u64) -> (shares: (u64, u64))
    ensures
        shares.0 == escrow_share(price as nat),
        shares.1 == admin_share(price as nat),
        shares.0 + shares.1 == price,
{
    let to_admin: u64 = price / 2;
    (price - to_admin, to_admin)
}

impl ArcadeAccount {
    /// The record meets the ledger's invariants, and holds each admin once.
    pub open spec fn wf(&self) -> bool {
        &&& self.admins.admins@.no_duplicates()
        &&& valid(self@)
    }

    /// A well-formed record has well-formed parts.
    pub proof fn lemma_parts(&self)
        requires
            self.wf(),
        ensures
            self.admins.wf(),
            self.leaderboard.wf(),
            self.escrow.wf(),
            self.admins@.len() == self.admins.admins@.len(),
    {
        self.admins.admins@.unique_seq_to_set();
    }

    /// Whether the record meets the ledger's invariants: what a record that
    /// was read back from storage is asked before it is worked on.
    pub fn is_well_formed(&self) -> (r: bool)
        ensures
            r == self.wf(),
    {
        if !self.admins.is_well_formed() {
            proof {
                if self.admins.admins@.no_duplicates() {
                    self.admins.admins@.unique_seq_to_set();
                }
            }
            return false;
        }
        proof {
            self.admins.admins@.unique_seq_to_set();
            vstd::seq_lib::seq_to_set_is_finite(self.admins.admins@);
        }
        if self.initialized && self.admins.admins.len() == 0 {
            return false;
        }
        if !self.initialized && self.total_price_distributed != 0 {
            return false;
        }
        self.leaderboard.is_well_formed() && self.escrow.balance >= self.escrow.min_reserve
    }

    /// The record of an arcade that is not yet created: not active, without
    /// admins, scores or funds.
    pub fn new() -> (account: ArcadeAccount)
        ensures
            account.wf(),
            !account.initialized,
            account@.admins == Set::<Principal>::empty(),
            account@.arcade_name == Seq::<char>::empty(),
            account@.top_users == Seq::<UserScore>::empty(),
            account.total_price_distributed == 0,
            account.game_counter == 0,
            account.price_per_game == 0,
            account.leaderboard.max_top_scores == 0,
            account.escrow.balance == 0,
            account.escrow.min_reserve == 0,
            account.escrow.authority.bump == 0,
            forall|i: int| 0 <= i < 32 ==> account.escrow.authority.owner.bytes[i] == 0,
    {
        let account = ArcadeAccount {
            initialized: false,
            admins: AdminRegistry::new(),
            arcade_name: String::new(),
            total_price_distributed: 0,
            game_counter: 0,
            price_per_game: 0,
            leaderboard: Leaderboard::new(0),
            escrow: EscrowAccount::open(
                0,
                SigningAuthority { owner: Principal::new([0u8; 32]), bump: 0 },
            ),
        };
        account
    }
}

/// Creates the arcade: the caller becomes its owner and first admin, the
/// board is empty and the escrow holds its reserve.
pub fn initialize(
    account: &mut ArcadeAccount,
    ctx: &Initialize,
    arcade_name: String,
    max_top_scores: u8,
    price_per_game: u64,
) -> (r: Result<(), CustomError>)
    requires
        old(account).wf(),
    ensures
        final(account).wf(),
        r == initialize_outcome(old(account)@, *ctx),
        final(account)@ == after_initialize(
            old(account)@,
            *ctx,
            arcade_name@,
            max_top_scores,
            price_per_game,
        ),
{
    if account.initialized {
        return Err(CustomError::AlreadyInitialized);
    }
    let mut founders: Vec<Principal> = Vec::new();
    founders.push(ctx.admin);
    let mut registry = AdminRegistry { admins: founders };
    proof {
        assert(registry.admins@ =~= seq![ctx.admin]);
        assert(registry.admins@[0] == ctx.admin);
        assert(registry@ =~= Set::<Principal>::empty().insert(ctx.admin));
        assert(registry@.union(ctx.co_admins@.to_set()) =~= ctx.co_admins@.to_set().insert(
            ctx.admin,
        ));
    }
    match registry.add_admins(&ctx.admin, &ctx.co_admins) {
        Err(_) => {
            return Err(CustomError::ArithmeticOverflow);
        },
        Ok(()) => {},
    }
    proof {
        lemma_initialize_keeps_valid(
            account@,
            *ctx,
            arcade_name@,
            max_top_scores,
            price_per_game,
        );
    }
    *account = ArcadeAccount {
        initialized: true,
        admins: registry,
        arcade_name,
        total_price_distributed: 0,
        game_counter: 0,
        price_per_game,
        leaderboard: Leaderboard::new(max_top_scores),
        escrow: EscrowAccount::open(
            ctx.min_reserve,
            SigningAuthority { owner: ctx.admin, bump: ctx.bump },
        ),
    };
    assert(account@ =~= after_initialize(
        old(account)@,
        *ctx,
        arcade_name@,
        max_top_scores,
        price_per_game,
    ));
    Ok(())
}

/// Charges the entry fee for one game. The amount tendered must be the price;
/// the fee is split between escrow and owner, and the game is counted.
pub fn play(account: &mut ArcadeAccount, ctx: &Play, lamports: u64) -> (r: Result<
    PlayReceipt,
    CustomError,
>)
    requires
        old(account).wf(),
    ensures
        final(account).wf(),
        r == play_outcome(old(account)@, *ctx, lamports),
        final(account)@ == after_play(old(account)@, *ctx, lamports),
{
    if !account.initialized {
        return Err(CustomError::NotInitialized);
    }
    if lamports != account.price_per_game {
        return Err(CustomError::IncorrectPaymentAmount);
    }
    let (to_escrow, to_admin) = split_fee(lamports);
    if account.game_counter == u64::MAX {
        return Err(CustomError::ArithmeticOverflow);
    }
    proof {
        lemma_play_keeps_valid(account@, *ctx, lamports);
    }
    match account.escrow.deposit(to_escrow) {
        Err(e) => {
            return Err(e);
        },
        Ok(_) => {},
    }
    let receipt = PlayReceipt {
        player: ctx.user,
        beneficiary: account.escrow.authority.owner,
        escrow_share: to_escrow,
        admin_share: to_admin,
    };
    account.game_counter = account.game_counter + 1;
    assert(account@ =~= after_play(old(account)@, *ctx, lamports));
    Ok(receipt)
}

/// Submits a score. It is offered to the board; if it beats every score on
/// the board and enters it, all that the escrow can pay out goes to its player.
pub fn add_user_score(account: &mut ArcadeAccount, ctx: &AddUserScore, user_score: UserScore) -> (r:
    Result<ScoreReceipt, CustomError>)
    requires
        old(account).wf(),
    ensures
        final(account).wf(),
        r == score_outcome(old(account)@, *ctx, user_score),
        final(account)@ == after_score(old(account)@, *ctx, user_score),
{
    if !account.initialized {
        return Err(CustomError::NotInitialized);
    }
    if !account.admins.is_admin(&ctx.admin) {
        return Err(CustomError::Unauthorized);
    }
    if !ctx.user.same(&user_score.user_address) {
        return Err(CustomError::InvalidSubject);
    }
    proof {
        account.lemma_parts();
    }
    let is_new_highest: bool = account.leaderboard.beats_all(user_score.score);
    let enters: bool = account.leaderboard.would_admit(user_score.score);
    let prize: u64 = if is_new_highest && enters {
        account.escrow.available_for_payout()
    } else {
        0
    };
    if prize > u64::MAX - account.total_price_distributed {
        return Err(CustomError::ArithmeticOverflow);
    }
    proof {
        lemma_score_keeps_valid(account@, *ctx, user_score);
    }
    let player: Principal = user_score.user_address;
    let authority: SigningAuthority = account.escrow.authority;
    let outcome: AdmitResult = account.leaderboard.offer(user_score);
    let paid: Option<Transfer> = if prize > 0 {
        match account.escrow.withdraw(prize, player, &authority) {
            Ok(transfer) => Some(transfer),
            Err(_) => None,
        }
    } else {
        None
    };
    account.total_price_distributed = account.total_price_distributed + prize;
    assert(account@ =~= after_score(old(account)@, *ctx, user_score));
    Ok(ScoreReceipt { outcome, prize: paid })
}

/// Sets the price per game.
pub fn update_price(account: &mut ArcadeAccount, ctx: &UpdatePrice, new_price: u64) -> (r: Result<
    (),
    CustomError,
>)
    requires
        old(account).wf(),
    ensures
        final(account).wf(),
        r == price_outcome(old(account)@, *ctx),
        final(account)@ == after_price(old(account)@, *ctx, new_price),
{
    if !account.initialized {
        return Err(CustomError::NotInitialized);
    }
    if !account.admins.is_admin(&ctx.admin) {
        return Err(CustomError::Unauthorized);
    }
    proof {
        lemma_price_keeps_valid(account@, *ctx, new_price);
    }
    account.price_per_game = new_price;
    assert(account@ =~= after_price(old(account)@, *ctx, new_price));
    Ok(())
}

/// Makes the given principals admins, beside those that there are.
pub fn add_admins(account: &mut ArcadeAccount, caller: &Principal, new_admins: &Vec<Principal>) -> (r:
    Result<(), CustomError>)
    requires
        old(account).wf(),
    ensures
        final(account).wf(),
        r == add_admins_outcome(old(account)@, *caller, new_admins@.to_set()),
        final(account)@ == after_add_admins(old(account)@, *caller, new_admins@.to_set()),
{
    if !account.initialized {
        return Err(CustomError::NotInitialized);
    }
    proof {
        account.lemma_parts();
        vstd::seq_lib::seq_to_set_is_finite(new_admins@);
        lemma_add_admins_keeps_valid(account@, *caller, new_admins@.to_set());
    }
    let changed = account.admins.add_admins(caller, new_admins);
    assert(account@ =~= after_add_admins(old(account)@, *caller, new_admins@.to_set()));
    match changed {
        Ok(_) => Ok(()),
        Err(e) => Err(e),
    }
}

/// Takes a principal out of the admins, unless it is the last one.
pub fn remove_admin(account: &mut ArcadeAccount, caller: &Principal, principal: &Principal) -> (r:
    Result<(), CustomError>)
    requires
        old(account).wf(),
    ensures
        final(account).wf(),
        r == remove_admin_outcome(old(account)@, *caller, *principal),
        final(account)@ == after_remove_admin(old(account)@, *caller, *principal),
{
    if !account.initialized {
        return Err(CustomError::NotInitialized);
    }
    proof {
        account.lemma_parts();
        lemma_remove_admin_keeps_valid(account@, *caller, *principal);
    }
    let changed = account.admins.remove_admin(caller, principal);
    assert(account@ =~= after_remove_admin(old(account)@, *caller, *principal));
    match changed {
        Ok(_) => Ok(()),
        Err(e) => Err(e),
    }
}

/// The sum of all prizes paid so far.
pub fn get_total_price_distributed(account: &ArcadeAccount) -> (r: Result<u64, CustomError>)
    ensures
        r == if account.initialized {
            Ok::<u64, CustomError>(account.total_price_distributed)
        } else {
            Err::<u64, CustomError>(CustomError::NotInitialized)
        },
{
    if !account.initialized {
        return Err(CustomError::NotInitialized);
    }
    Ok(account.total_price_distributed)
}

/// The number of games played so far.
pub fn get_game_counter(account: &ArcadeAccount) -> (r: Result<u64, CustomError>)
    ensures
        r == if account.initialized {
            Ok::<u64, CustomError>(account.game_counter)
        } else {
            Err::<u64, CustomError>(CustomError::NotInitialized)
        },
{
    if !account.initialized {
        return Err(CustomError::NotInitialized);
    }
    Ok(account.game_counter)
}

/// The fee for one game.
pub fn get_price_per_game(account: &ArcadeAccount) -> (r: Result<u64, CustomError>)
    ensures
        r == if account.initialized {
            Ok::<u64, CustomError>(account.price_per_game)
        } else {
            Err::<u64, CustomError>(CustomError::NotInitialized)
        },
{
    if !account.initialized {
        return Err(CustomError::NotInitialized);
    }
    Ok(account.price_per_game)
}

/// A snapshot of the board, highest score first.
pub fn get_top_users(account: &ArcadeAccount) -> (r: Result<Vec<UserScore>, CustomError>)
    ensures
        r is Ok <==> account.initialized,
        r is Ok ==> r->Ok_0@ == account.leaderboard.top_users@,
        r is Err ==> r->Err_0 == CustomError::NotInitialized,
{
    if !account.initialized {
        return Err(CustomError::NotInitialized);
    }
    let mut snapshot: Vec<UserScore> = Vec::new();
    let mut i: usize = 0;
    while i < account.leaderboard.top_users.len()
        invariant
            i <= account.leaderboard.top_users@.len(),
            snapshot@ == account.leaderboard.top_users@.take(i as int),
        decreases account.leaderboard.top_users@.len() - i,
    {
        let entry: &UserScore = &account.leaderboard.top_users[i];
        snapshot.push(
            UserScore {
                score: entry.score,
                nickname: entry.nickname.clone(),
                user_address: entry.user_address,
            },
        );
        assert(account.leaderboard.top_users@.take(i + 1) =~= account.leaderboard.top_users@.take(
            i as int,
        ).push(account.leaderboard.top_users@[i as int]));
        i += 1;
    }
    assert(account.leaderboard.top_users@.take(account.leaderboard.top_users@.len() as int)
        =~= account.leaderboard.top_users@);
    Ok(snapshot)
}

} // verus!
