use arcade::error::CustomError;
use arcade::escrow::Transfer;
use arcade::leaderboard::{AdmitResult, UserScore};
use arcade::ledger::{
    add_admins, add_user_score, get_game_counter, get_price_per_game, get_top_users,
    get_total_price_distributed, initialize, play, remove_admin, update_price, ArcadeAccount,
};
use arcade::model::{AddUserScore, Initialize, Play, PlayReceipt, ScoreReceipt, UpdatePrice};
use arcade::principal::Principal;

fn who(tag: u8) -> Principal {
    Principal::new([tag; 32])
}

fn entry(score: u64, nickname: &str, player: u8) -> UserScore {
    UserScore { score, nickname: nickname.to_string(), user_address: who(player) }
}

fn active(max_top_scores: u8, price_per_game: u64, min_reserve: u64) -> ArcadeAccount {
    let mut account = ArcadeAccount::new();
    let ctx = Initialize { admin: who(1), co_admins: Vec::new(), bump: 254, min_reserve };
    let made = initialize(&mut account, &ctx, "Arcade".to_string(), max_top_scores, price_per_game);
    assert_eq!(made, Ok(()));
    account
}

fn submit(account: &mut ArcadeAccount, score: u64, nickname: &str, player: u8) -> ScoreReceipt {
    let ctx = AddUserScore { admin: who(1), user: who(player) };
    match add_user_score(account, &ctx, entry(score, nickname, player)) {
        Ok(receipt) => receipt,
        Err(e) => panic!("score refused: {:?}", e),
    }
}

fn scores_of(account: &ArcadeAccount) -> Vec<u64> {
    account.leaderboard.top_users.iter().map(|e| e.score).collect()
}

fn names_of(account: &ArcadeAccount) -> Vec<String> {
    account.leaderboard.top_users.iter().map(|e| e.nickname.clone()).collect()
}

#[test]
fn initialize_sets_up_an_empty_active_ledger() {
    let account = active(3, 100, 1_000);
    assert!(account.initialized);
    assert_eq!(account.arcade_name, "Arcade");
    assert_eq!(account.leaderboard.max_top_scores, 3);
    assert!(account.leaderboard.top_users.is_empty());
    assert_eq!(account.escrow.balance, 1_000);
    assert_eq!(account.escrow.min_reserve, 1_000);
    assert_eq!(account.escrow.authority.owner, who(1));
    assert_eq!(account.escrow.authority.bump, 254);
    assert_eq!(account.admins.admins, vec![who(1)]);
    assert_eq!(get_game_counter(&account), Ok(0));
    assert_eq!(get_total_price_distributed(&account), Ok(0));
    assert_eq!(get_price_per_game(&account), Ok(100));
    assert_eq!(get_top_users(&account), Ok(Vec::new()));
}

#[test]
fn initialize_takes_the_caller_and_the_co_admins_once_each() {
    let mut account = ArcadeAccount::new();
    let ctx = Initialize {
        admin: who(1),
        co_admins: vec![who(2), who(1), who(3), who(2)],
        bump: 7,
        min_reserve: 0,
    };
    assert_eq!(initialize(&mut account, &ctx, "A".to_string(), 1, 1), Ok(()));
    assert_eq!(account.admins.admins, vec![who(1), who(2), who(3)]);
}

#[test]
fn initialize_twice_is_refused() {
    let mut account = active(3, 100, 1_000);
    let ctx = Initialize { admin: who(9), co_admins: Vec::new(), bump: 1, min_reserve: 5 };
    let again = initialize(&mut account, &ctx, "Other".to_string(), 5, 7);
    assert_eq!(again, Err(CustomError::AlreadyInitialized));
    assert_eq!(account.arcade_name, "Arcade");
    assert_eq!(account.price_per_game, 100);
    assert_eq!(account.leaderboard.max_top_scores, 3);
    assert_eq!(account.admins.admins, vec![who(1)]);
    assert_eq!(account.escrow.min_reserve, 1_000);
}

#[test]
fn initialize_with_too_many_admins_is_refused() {
    let mut account = ArcadeAccount::new();
    let co_admins: Vec<Principal> = (2u8..=11).map(who).collect();
    let ctx = Initialize { admin: who(1), co_admins, bump: 1, min_reserve: 5 };
    let made = initialize(&mut account, &ctx, "Big".to_string(), 5, 7);
    assert_eq!(made, Err(CustomError::ArithmeticOverflow));
    assert!(!account.initialized);
    assert!(account.admins.admins.is_empty());
}

#[test]
fn operations_on_a_ledger_that_is_not_active_are_refused() {
    let mut account = ArcadeAccount::new();
    assert_eq!(play(&mut account, &Play { user: who(5) }, 0), Err(CustomError::NotInitialized));
    assert_eq!(
        add_user_score(&mut account, &AddUserScore { admin: who(1), user: who(5) }, entry(1, "a", 5)),
        Err(CustomError::NotInitialized)
    );
    assert_eq!(
        update_price(&mut account, &UpdatePrice { admin: who(1) }, 3),
        Err(CustomError::NotInitialized)
    );
    assert_eq!(add_admins(&mut account, &who(1), &vec![who(2)]), Err(CustomError::NotInitialized));
    assert_eq!(remove_admin(&mut account, &who(1), &who(1)), Err(CustomError::NotInitialized));
    assert_eq!(get_game_counter(&account), Err(CustomError::NotInitialized));
    assert_eq!(get_price_per_game(&account), Err(CustomError::NotInitialized));
    assert_eq!(get_total_price_distributed(&account), Err(CustomError::NotInitialized));
    assert_eq!(get_top_users(&account), Err(CustomError::NotInitialized));
    assert!(!account.initialized);
}

#[test]
fn two_games_at_the_price_are_counted_and_split() {
    let mut account = active(3, 100, 1_000);
    let expected = PlayReceipt {
        player: who(5),
        beneficiary: who(1),
        escrow_share: 50,
        admin_share: 50,
    };
    assert_eq!(play(&mut account, &Play { user: who(5) }, 100), Ok(expected));
    assert_eq!(play(&mut account, &Play { user: who(5) }, 100), Ok(expected));
    assert_eq!(get_game_counter(&account), Ok(2));
    assert_eq!(account.escrow.balance, 1_100);
    assert_eq!(account.escrow.available_for_payout(), 100);
}

#[test]
fn an_odd_fee_leaves_the_odd_unit_in_escrow() {
    let mut account = active(3, 101, 0);
    let receipt = play(&mut account, &Play { user: who(5) }, 101).unwrap();
    assert_eq!(receipt.escrow_share, 51);
    assert_eq!(receipt.admin_share, 50);
    assert_eq!(account.escrow.balance, 51);
}

#[test]
fn a_wrong_amount_is_refused_and_not_counted() {
    let mut account = active(3, 100, 1_000);
    assert_eq!(
        play(&mut account, &Play { user: who(5) }, 99),
        Err(CustomError::IncorrectPaymentAmount)
    );
    assert_eq!(
        play(&mut account, &Play { user: who(5) }, 101),
        Err(CustomError::IncorrectPaymentAmount)
    );
    assert_eq!(get_game_counter(&account), Ok(0));
    assert_eq!(account.escrow.balance, 1_000);
}

#[test]
fn a_game_counter_at_its_bound_refuses_the_game() {
    let mut account = active(3, 100, 1_000);
    account.game_counter = u64::MAX;
    assert_eq!(
        play(&mut account, &Play { user: who(5) }, 100),
        Err(CustomError::ArithmeticOverflow)
    );
    assert_eq!(account.game_counter, u64::MAX);
    assert_eq!(account.escrow.balance, 1_000);
}

#[test]
fn an_escrow_at_its_bound_refuses_the_game() {
    let mut account = active(3, 100, 1_000);
    account.escrow.balance = u64::MAX - 49;
    assert_eq!(
        play(&mut account, &Play { user: who(5) }, 100),
        Err(CustomError::ArithmeticOverflow)
    );
    assert_eq!(account.game_counter, 0);
    assert_eq!(account.escrow.balance, u64::MAX - 49);
}

#[test]
fn first_score_is_inserted_and_wins_the_pool() {
    let mut account = active(3, 100, 1_000);
    play(&mut account, &Play { user: who(5) }, 100).unwrap();
    play(&mut account, &Play { user: who(6) }, 100).unwrap();
    let receipt = submit(&mut account, 50, "ann", 5);
    assert_eq!(receipt.outcome, AdmitResult::Inserted);
    assert_eq!(receipt.prize, Some(Transfer { to: who(5), lamports: 100 }));
    assert_eq!(get_total_price_distributed(&account), Ok(100));
    assert_eq!(account.escrow.balance, 1_000);
    assert_eq!(get_top_users(&account), Ok(vec![entry(50, "ann", 5)]));
}

#[test]
fn a_winning_score_on_an_empty_pool_pays_nothing() {
    let mut account = active(3, 100, 1_000);
    let receipt = submit(&mut account, 50, "ann", 5);
    assert_eq!(receipt, ScoreReceipt { outcome: AdmitResult::Inserted, prize: None });
    assert_eq!(get_total_price_distributed(&account), Ok(0));
    assert_eq!(account.escrow.balance, 1_000);
}

#[test]
fn full_board_rejects_a_score_below_the_lowest() {
    let mut account = active(3, 100, 1_000);
    submit(&mut account, 90, "a", 5);
    submit(&mut account, 80, "b", 6);
    submit(&mut account, 85, "c", 7);
    play(&mut account, &Play { user: who(8) }, 100).unwrap();
    assert_eq!(scores_of(&account), vec![90, 85, 80]);
    let receipt = submit(&mut account, 70, "d", 8);
    assert_eq!(receipt, ScoreReceipt { outcome: AdmitResult::Rejected, prize: None });
    assert_eq!(scores_of(&account), vec![90, 85, 80]);
    assert_eq!(names_of(&account), vec!["a", "c", "b"]);
    assert_eq!(account.escrow.balance, 1_050);
    assert_eq!(get_total_price_distributed(&account), Ok(0));
}

#[test]
fn full_board_rejects_a_score_equal_to_the_lowest() {
    let mut account = active(2, 100, 0);
    submit(&mut account, 90, "a", 5);
    submit(&mut account, 80, "b", 6);
    let receipt = submit(&mut account, 80, "c", 7);
    assert_eq!(receipt.outcome, AdmitResult::Rejected);
    assert_eq!(names_of(&account), vec!["a", "b"]);
}

#[test]
fn full_board_replaces_the_lowest_and_pays_a_new_maximum() {
    let mut account = active(3, 100, 1_000);
    submit(&mut account, 90, "a", 5);
    submit(&mut account, 80, "b", 6);
    submit(&mut account, 85, "c", 7);
    play(&mut account, &Play { user: who(8) }, 100).unwrap();
    play(&mut account, &Play { user: who(8) }, 100).unwrap();
    play(&mut account, &Play { user: who(8) }, 100).unwrap();
    let receipt = submit(&mut account, 95, "d", 8);
    assert_eq!(receipt.outcome, AdmitResult::Replaced(entry(80, "b", 6)));
    assert_eq!(receipt.prize, Some(Transfer { to: who(8), lamports: 150 }));
    assert_eq!(scores_of(&account), vec![95, 90, 85]);
    assert_eq!(get_total_price_distributed(&account), Ok(150));
    assert_eq!(account.escrow.balance, 1_000);
}

#[test]
fn entering_the_board_below_the_maximum_pays_nothing() {
    let mut account = active(3, 100, 1_000);
    submit(&mut account, 90, "a", 5);
    play(&mut account, &Play { user: who(8) }, 100).unwrap();
    let lower = submit(&mut account, 60, "b", 6);
    assert_eq!(lower, ScoreReceipt { outcome: AdmitResult::Inserted, prize: None });
    let equal = submit(&mut account, 90, "c", 7);
    assert_eq!(equal, ScoreReceipt { outcome: AdmitResult::Inserted, prize: None });
    assert_eq!(names_of(&account), vec!["a", "c", "b"]);
    assert_eq!(account.escrow.balance, 1_050);
    let replaced = submit(&mut account, 70, "d", 8);
    assert_eq!(replaced.outcome, AdmitResult::Replaced(entry(60, "b", 6)));
    assert_eq!(replaced.prize, None);
    assert_eq!(get_total_price_distributed(&account), Ok(0));
}

#[test]
fn equal_scores_keep_their_order_of_arrival() {
    let mut account = active(4, 100, 0);
    submit(&mut account, 70, "first", 5);
    submit(&mut account, 70, "second", 6);
    submit(&mut account, 90, "top", 7);
    submit(&mut account, 70, "third", 8);
    assert_eq!(names_of(&account), vec!["top", "first", "second", "third"]);
    let receipt = submit(&mut account, 75, "mid", 9);
    assert_eq!(receipt.outcome, AdmitResult::Replaced(entry(70, "third", 8)));
    assert_eq!(names_of(&account), vec!["top", "mid", "first", "second"]);
}

#[test]
fn a_board_without_places_rejects_every_score() {
    let mut account = active(0, 100, 0);
    play(&mut account, &Play { user: who(8) }, 100).unwrap();
    let receipt = submit(&mut account, 1_000, "a", 5);
    assert_eq!(receipt, ScoreReceipt { outcome: AdmitResult::Rejected, prize: None });
    assert!(account.leaderboard.top_users.is_empty());
    assert_eq!(account.escrow.balance, 50);
}

#[test]
fn a_score_for_another_account_is_refused() {
    let mut account = active(3, 100, 1_000);
    play(&mut account, &Play { user: who(8) }, 100).unwrap();
    let ctx = AddUserScore { admin: who(1), user: who(6) };
    let r = add_user_score(&mut account, &ctx, entry(50, "ann", 5));
    assert_eq!(r, Err(CustomError::InvalidSubject));
    assert!(account.leaderboard.top_users.is_empty());
    assert_eq!(account.escrow.balance, 1_050);
    assert_eq!(account.total_price_distributed, 0);
}

#[test]
fn a_total_at_its_bound_refuses_the_prize_and_the_score() {
    let mut account = active(3, 100, 1_000);
    play(&mut account, &Play { user: who(8) }, 100).unwrap();
    account.total_price_distributed = u64::MAX - 49;
    let ctx = AddUserScore { admin: who(1), user: who(5) };
    let r = add_user_score(&mut account, &ctx, entry(50, "ann", 5));
    assert_eq!(r, Err(CustomError::ArithmeticOverflow));
    assert!(account.leaderboard.top_users.is_empty());
    assert_eq!(account.escrow.balance, 1_050);
    assert_eq!(account.total_price_distributed, u64::MAX - 49);
    account.total_price_distributed = u64::MAX - 50;
    let r = add_user_score(&mut account, &ctx, entry(50, "ann", 5));
    assert_eq!(r.map(|receipt| receipt.prize), Ok(Some(Transfer { to: who(5), lamports: 50 })));
    assert_eq!(account.total_price_distributed, u64::MAX);
}

#[test]
fn callers_who_are_no_admins_are_refused_and_change_nothing() {
    let mut account = active(3, 100, 1_000);
    play(&mut account, &Play { user: who(8) }, 100).unwrap();
    let stranger = who(9);
    assert_eq!(
        add_user_score(
            &mut account,
            &AddUserScore { admin: stranger, user: who(5) },
            entry(50, "ann", 5)
        ),
        Err(CustomError::Unauthorized)
    );
    assert_eq!(
        update_price(&mut account, &UpdatePrice { admin: stranger }, 1),
        Err(CustomError::Unauthorized)
    );
    assert_eq!(add_admins(&mut account, &stranger, &vec![stranger]), Err(CustomError::Unauthorized));
    assert_eq!(remove_admin(&mut account, &stranger, &who(1)), Err(CustomError::Unauthorized));
    assert!(account.leaderboard.top_users.is_empty());
    assert_eq!(account.price_per_game, 100);
    assert_eq!(account.admins.admins, vec![who(1)]);
    assert_eq!(account.escrow.balance, 1_050);
    assert_eq!(account.total_price_distributed, 0);
    assert_eq!(account.game_counter, 1);
}

#[test]
fn an_admin_sets_the_price() {
    let mut account = active(3, 100, 1_000);
    assert_eq!(update_price(&mut account, &UpdatePrice { admin: who(1) }, 250), Ok(()));
    assert_eq!(get_price_per_game(&account), Ok(250));
    assert_eq!(
        play(&mut account, &Play { user: who(5) }, 100),
        Err(CustomError::IncorrectPaymentAmount)
    );
    assert_eq!(play(&mut account, &Play { user: who(5) }, 250).map(|r| r.escrow_share), Ok(125));
}

#[test]
fn admins_are_added_once_each() {
    let mut account = active(3, 100, 1_000);
    assert_eq!(add_admins(&mut account, &who(1), &vec![who(2), who(1), who(2), who(3)]), Ok(()));
    assert_eq!(account.admins.admins, vec![who(1), who(2), who(3)]);
    assert_eq!(update_price(&mut account, &UpdatePrice { admin: who(3) }, 7), Ok(()));
    assert_eq!(account.price_per_game, 7);
}

#[test]
fn more_admins_than_the_bound_are_refused() {
    let mut account = active(3, 100, 1_000);
    let nine: Vec<Principal> = (2u8..=10).map(who).collect();
    assert_eq!(add_admins(&mut account, &who(1), &nine), Ok(()));
    assert_eq!(account.admins.admins.len(), 10);
    assert_eq!(add_admins(&mut account, &who(1), &vec![who(4)]), Ok(()));
    assert_eq!(
        add_admins(&mut account, &who(1), &vec![who(11)]),
        Err(CustomError::ArithmeticOverflow)
    );
    assert_eq!(account.admins.admins.len(), 10);
    assert!(!account.admins.is_admin(&who(11)));
}

#[test]
fn removing_the_last_admin_is_refused() {
    let mut account = active(3, 100, 1_000);
    assert_eq!(remove_admin(&mut account, &who(1), &who(1)), Err(CustomError::LastAdminRemoval));
    assert_eq!(account.admins.admins, vec![who(1)]);
    assert!(account.admins.is_admin(&who(1)));
}

#[test]
fn an_admin_is_removed_while_another_stays() {
    let mut account = active(3, 100, 1_000);
    add_admins(&mut account, &who(1), &vec![who(2), who(3)]).unwrap();
    assert_eq!(remove_admin(&mut account, &who(2), &who(1)), Ok(()));
    assert_eq!(account.admins.admins, vec![who(2), who(3)]);
    assert_eq!(remove_admin(&mut account, &who(2), &who(7)), Ok(()));
    assert_eq!(account.admins.admins, vec![who(2), who(3)]);
    assert_eq!(
        update_price(&mut account, &UpdatePrice { admin: who(1) }, 1),
        Err(CustomError::Unauthorized)
    );
    assert_eq!(remove_admin(&mut account, &who(3), &who(3)), Ok(()));
    assert_eq!(remove_admin(&mut account, &who(2), &who(2)), Err(CustomError::LastAdminRemoval));
    assert_eq!(account.admins.admins, vec![who(2)]);
}

#[test]
fn board_stays_bounded_and_ranked_and_totals_add_up() {
    let mut account = active(3, 10, 500);
    let offered: [u64; 12] = [5, 9, 9, 1, 12, 12, 3, 40, 7, 41, 41, 2];
    let mut prizes: u64 = 0;
    for (i, score) in offered.iter().enumerate() {
        play(&mut account, &Play { user: who(20) }, 10).unwrap();
        let receipt = submit(&mut account, *score, "p", 30 + i as u8);
        if let Some(transfer) = receipt.prize {
            prizes += transfer.lamports;
        }
        let scores = scores_of(&account);
        assert!(scores.len() <= 3);
        assert!(scores.windows(2).all(|w| w[0] >= w[1]));
        assert!(account.escrow.balance >= account.escrow.min_reserve);
        assert_eq!(account.total_price_distributed, prizes);
        assert_eq!(account.leaderboard.max_top_scores, 3);
    }
    assert_eq!(scores_of(&account), vec![41, 41, 40]);
    assert_eq!(prizes, 5 + 5 + 15 + 15 + 10);
    assert_eq!(account.escrow.balance, 500 + 12 * 5 - prizes);
    assert_eq!(get_game_counter(&account), Ok(12));
}

#[test]
fn a_new_record_is_blank_and_not_active() {
    let account = ArcadeAccount::new();
    assert!(!account.initialized);
    assert!(account.is_well_formed());
    assert!(account.admins.admins.is_empty());
    assert_eq!(account.arcade_name, "");
    assert_eq!(account.total_price_distributed, 0);
    assert_eq!(account.game_counter, 0);
    assert_eq!(account.price_per_game, 0);
    assert_eq!(account.leaderboard.max_top_scores, 0);
    assert!(account.leaderboard.top_users.is_empty());
    assert_eq!(account.escrow.balance, 0);
    assert_eq!(account.escrow.min_reserve, 0);
    assert_eq!(account.escrow.authority.owner, who(0));
    assert_eq!(account.escrow.authority.bump, 0);
}

#[test]
fn a_record_is_well_formed_exactly_when_its_invariants_hold() {
    let mut account = active(2, 100, 1_000);
    submit(&mut account, 5, "a", 5);
    submit(&mut account, 7, "b", 6);
    assert!(account.is_well_formed());

    account.escrow.balance = 999;
    assert!(!account.is_well_formed());
    account.escrow.balance = 1_000;

    account.admins.admins.clear();
    assert!(!account.is_well_formed());
    account.admins.admins = vec![who(1), who(1)];
    assert!(!account.is_well_formed());
    account.admins.admins = vec![who(1)];

    account.leaderboard.top_users.reverse();
    assert!(!account.is_well_formed());
    account.leaderboard.top_users.reverse();
    account.leaderboard.max_top_scores = 1;
    assert!(!account.is_well_formed());
    account.leaderboard.max_top_scores = 2;
    assert!(account.is_well_formed());

    let mut blank = ArcadeAccount::new();
    blank.total_price_distributed = 1;
    assert!(!blank.is_well_formed());
}

#[test]
fn no_request_changes_what_the_ledger_was_made_with() {
    let mut account = active(2, 100, 1_000);
    play(&mut account, &Play { user: who(5) }, 100).unwrap();
    submit(&mut account, 5, "a", 5);
    update_price(&mut account, &UpdatePrice { admin: who(1) }, 3).unwrap();
    add_admins(&mut account, &who(1), &vec![who(2)]).unwrap();
    remove_admin(&mut account, &who(2), &who(1)).unwrap();
    assert!(account.initialized);
    assert_eq!(account.arcade_name, "Arcade");
    assert_eq!(account.leaderboard.max_top_scores, 2);
    assert_eq!(account.escrow.min_reserve, 1_000);
    assert_eq!(account.escrow.authority.owner, who(1));
    assert_eq!(account.escrow.authority.bump, 254);
    assert!(account.is_well_formed());
}
