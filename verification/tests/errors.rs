use ink::primitives::AccountId;
use tournament::error::TournamentError;
use tournament::game::GameDetail;
use tournament::registry::{require_creator, Tournament};

fn account(byte: u8) -> AccountId {
    AccountId::from([byte; 32])
}

fn started_game(capacity: u32, players: &[AccountId]) -> GameDetail {
    let mut game = GameDetail::new(capacity, 100);
    for p in players {
        game.register(*p).unwrap();
    }
    game.set_status(true, false).unwrap();
    game
}

#[test]
fn only_the_creator_creates_tournaments() {
    let creator = account(0xc0);
    let mut registry = Tournament::new(creator);
    assert_eq!(
        registry.create_tournament(4, 1, account(1)),
        Err(TournamentError::Unauthorized)
    );
    assert_eq!(registry.get_counter(), 0);
    assert_eq!(registry.get_game_detail(0).err(), Some(TournamentError::NotFound));
}

#[test]
fn creator_check_tells_accounts_apart() {
    assert_eq!(require_creator(&account(7), &account(7)), Ok(()));
    assert_eq!(
        require_creator(&account(7), &account(8)),
        Err(TournamentError::Unauthorized)
    );
    let mut nearly = [7u8; 32];
    nearly[31] = 8;
    assert_eq!(
        require_creator(&AccountId::from(nearly), &account(7)),
        Err(TournamentError::Unauthorized)
    );
}

#[test]
fn only_the_creator_reports_and_sets_status() {
    let creator = account(0xc0);
    let (alice, bob) = (account(1), account(2));
    let mut registry = Tournament::new(creator);
    registry.create_tournament(2, 1, creator).unwrap();
    registry.register_tournament(0, alice).unwrap();
    registry.register_tournament(0, bob).unwrap();

    assert_eq!(
        registry.update_game_status(0, true, false, alice),
        Err(TournamentError::Unauthorized)
    );
    assert!(!registry.get_game_detail(0).unwrap().is_start);
    registry.update_game_status(0, true, false, creator).unwrap();
    assert_eq!(
        registry.update_winner(0, alice, bob, alice, alice),
        Err(TournamentError::Unauthorized)
    );
    assert_eq!(registry.get_game_detail(0).unwrap().players[0].score, 0);
}

#[test]
fn unknown_tournament_is_not_found() {
    let creator = account(0xc0);
    let alice = account(1);
    let mut registry = Tournament::new(creator);
    registry.create_tournament(2, 1, creator).unwrap();

    assert_eq!(registry.get_game_detail(1).err(), Some(TournamentError::NotFound));
    assert_eq!(registry.get_tournament_detail(1).err(), Some(TournamentError::NotFound));
    assert_eq!(registry.get_game_players(1).err(), Some(TournamentError::NotFound));
    assert_eq!(registry.register_tournament(1, alice), Err(TournamentError::NotFound));
    assert_eq!(
        registry.update_game_status(1, true, false, creator),
        Err(TournamentError::NotFound)
    );
    assert_eq!(
        registry.update_winner(1, alice, alice, alice, creator),
        Err(TournamentError::NotFound)
    );
    assert_eq!(registry.update_winner(1, alice, alice, alice, alice), Err(TournamentError::NotFound));
    assert_eq!(registry.reward_due(1, alice), Err(TournamentError::NotFound));
    assert_eq!(registry.claim_reward(1, alice, true), Err(TournamentError::NotFound));
    assert_eq!(registry.claim_reward(u32::MAX, alice, true), Err(TournamentError::NotFound));
}

#[test]
fn registration_is_refused_exactly_at_capacity() {
    // The limit is the number of slots: one slot admits one player, and a
    // tournament without slots admits none.
    let mut single = GameDetail::new(1, 0);
    assert_eq!(single.register(account(1)), Ok(()));
    assert_eq!(single.register(account(2)), Err(TournamentError::TournamentFull));
    assert_eq!(single.players.len(), 1);

    let mut none = GameDetail::new(0, 0);
    assert_eq!(none.register(account(1)), Err(TournamentError::TournamentFull));
    assert!(none.players.is_empty());

    let mut three = GameDetail::new(3, 0);
    for byte in 1..=3u8 {
        assert_eq!(three.register(account(byte)), Ok(()));
    }
    assert_eq!(three.register(account(4)), Err(TournamentError::TournamentFull));
    // A full tournament says so even to an account that is already in it.
    assert_eq!(three.register(account(1)), Err(TournamentError::TournamentFull));
    assert_eq!(three.players.len(), 3);
}

#[test]
fn registering_twice_is_refused() {
    let mut game = GameDetail::new(4, 0);
    assert_eq!(game.register(account(1)), Ok(()));
    assert_eq!(game.register(account(2)), Ok(()));
    assert_eq!(game.register(account(1)), Err(TournamentError::AlreadyRegistered));
    assert_eq!(game.register(account(2)), Err(TournamentError::AlreadyRegistered));
    assert_eq!(game.players.len(), 2);
    assert_eq!(game.players[0].player, account(1));
    assert_eq!(game.players[1].player, account(2));
}

#[test]
fn registration_starts_a_clean_record_and_keeps_the_flags() {
    let mut game = GameDetail::new(4, 9);
    game.register(account(1)).unwrap();
    game.set_status(true, false).unwrap();
    game.register(account(2)).unwrap();
    assert!(game.is_start);
    assert!(!game.is_end);
    assert_eq!(game.current_round, 0);
    assert_eq!(game.reward, 9);
    assert_eq!(game.total_player, 4);
    let entry = game.players[1];
    assert_eq!(entry.player, account(2));
    assert_eq!(entry.score, 0);
    assert!(entry.active);
    assert!(!entry.is_loss);
}

#[test]
fn report_before_start_is_refused() {
    let mut game = GameDetail::new(2, 0);
    game.register(account(1)).unwrap();
    game.register(account(2)).unwrap();
    assert_eq!(
        game.report_result(account(1), account(2), account(1)),
        Err(TournamentError::TournamentNotStarted)
    );
    assert_eq!(game.players[0].score, 0);
}

#[test]
fn report_after_end_is_refused() {
    let (alice, bob) = (account(1), account(2));
    let mut game = started_game(2, &[alice, bob]);
    game.report_result(alice, bob, alice).unwrap();
    assert!(game.is_end);
    let before = format!("{:?}", game);
    assert_eq!(game.report_result(alice, bob, alice), Err(TournamentError::TournamentEnded));
    assert_eq!(game.report_result(bob, alice, bob), Err(TournamentError::TournamentEnded));
    // The end is reported before anything is asked about the players.
    assert_eq!(
        game.report_result(account(9), account(8), account(7)),
        Err(TournamentError::TournamentEnded)
    );
    assert_eq!(before, format!("{:?}", game));
}

#[test]
fn status_of_an_ended_tournament_cannot_be_set() {
    let mut game = GameDetail::new(2, 0);
    assert_eq!(game.set_status(true, true), Ok(()));
    assert!(game.is_start);
    assert!(game.is_end);
    assert_eq!(game.winner, None);
    assert_eq!(game.set_status(true, false), Err(TournamentError::TournamentEnded));
    assert_eq!(game.set_status(false, false), Err(TournamentError::TournamentEnded));
    assert!(game.is_end);
    // Closed by hand, the tournament takes no reports either.
    assert_eq!(
        game.report_result(account(1), account(2), account(1)),
        Err(TournamentError::TournamentEnded)
    );
}

#[test]
fn report_on_unknown_player_is_refused() {
    let (alice, bob) = (account(1), account(2));
    let mut game = started_game(4, &[alice, bob]);
    let stranger = account(9);
    assert_eq!(game.report_result(stranger, bob, bob), Err(TournamentError::PlayerNotFound));
    assert_eq!(game.report_result(alice, stranger, alice), Err(TournamentError::PlayerNotFound));
    assert_eq!(
        game.report_result(stranger, stranger, stranger),
        Err(TournamentError::PlayerNotFound)
    );
    assert_eq!(game.players[0].score, 0);
    assert!(!game.players[1].is_loss);
}

#[test]
fn winner_must_be_one_of_the_two() {
    let (alice, bob, carol) = (account(1), account(2), account(3));
    let mut game = started_game(4, &[alice, bob, carol]);
    assert_eq!(game.report_result(alice, bob, carol), Err(TournamentError::InvalidWinner));
    assert_eq!(game.report_result(alice, bob, account(9)), Err(TournamentError::InvalidWinner));
    for p in &game.players {
        assert_eq!(p.score, 0);
        assert!(!p.is_loss);
    }
}

#[test]
fn eliminated_player_plays_no_more() {
    let creator_less = [account(1), account(2), account(3), account(4), account(5), account(6)];
    let mut game = started_game(6, &creator_less);
    let (alice, bob, carol) = (account(1), account(2), account(3));
    game.report_result(alice, bob, alice).unwrap();
    // bob has lost and stands on 0 wins, as carol does.
    assert_eq!(game.report_result(bob, carol, carol), Err(TournamentError::PlayerAlreadyEliminated));
    assert_eq!(game.report_result(carol, bob, carol), Err(TournamentError::PlayerAlreadyEliminated));
    assert_eq!(game.report_result(carol, bob, bob), Err(TournamentError::PlayerAlreadyEliminated));
    assert_eq!(game.players[1].score, 0);
    assert!(game.players[1].is_loss);
    assert!(!game.players[2].is_loss);
}

#[test]
fn score_mismatch_is_reported_before_an_invalid_winner() {
    let players = [account(1), account(2), account(3), account(4), account(5), account(6)];
    let mut game = started_game(6, &players);
    game.report_result(account(1), account(2), account(1)).unwrap();
    assert_eq!(
        game.report_result(account(1), account(3), account(9)),
        Err(TournamentError::ScoreMismatch)
    );
    // Equal scores, a stranger as winner and a player who has lost: the
    // winner is looked at first.
    assert_eq!(
        game.report_result(account(2), account(3), account(9)),
        Err(TournamentError::InvalidWinner)
    );
}

#[test]
fn claims_are_refused_until_there_is_a_winner() {
    let (alice, bob) = (account(1), account(2));
    let mut game = started_game(2, &[alice, bob]);
    assert_eq!(game.reward_due(alice), Err(TournamentError::Unauthorized));
    assert_eq!(game.claim_reward(alice, true), Err(TournamentError::Unauthorized));
    assert!(!game.is_claimed);

    // Closed by hand there is no winner, so nobody is owed anything.
    game.set_status(true, true).unwrap();
    assert_eq!(game.reward_due(alice), Err(TournamentError::Unauthorized));
    assert_eq!(game.claim_reward(bob, true), Err(TournamentError::Unauthorized));
    assert!(!game.is_claimed);
}

#[test]
fn claim_on_a_record_that_names_a_winner_but_is_not_over() {
    let alice = account(1);
    let mut game = GameDetail::new(2, 50);
    game.register(alice).unwrap();
    game.winner = Some(alice);
    assert_eq!(game.reward_due(alice), Err(TournamentError::TournamentNotEnded));
    assert_eq!(game.claim_reward(alice, true), Err(TournamentError::TournamentNotEnded));
    assert_eq!(game.claim_reward(account(2), true), Err(TournamentError::Unauthorized));
    assert!(!game.is_claimed);
}

#[test]
fn refused_claim_wins_over_the_transfer_outcome() {
    let (alice, bob) = (account(1), account(2));
    let mut game = started_game(2, &[alice, bob]);
    game.report_result(alice, bob, bob).unwrap();
    assert_eq!(game.claim_reward(alice, false), Err(TournamentError::Unauthorized));
    assert_eq!(game.claim_reward(bob, false), Err(TournamentError::TransferFailed));
    assert_eq!(game.claim_reward(bob, false), Err(TournamentError::TransferFailed));
    assert_eq!(game.claim_reward(bob, true), Ok(()));
    assert_eq!(game.claim_reward(bob, false), Err(TournamentError::AlreadyClaimed));
    assert_eq!(game.claim_reward(bob, true), Err(TournamentError::AlreadyClaimed));
    assert_eq!(game.reward, 100);
    assert_eq!(game.winner, Some(bob));
    assert!(game.is_end);
    assert!(game.is_claimed);
}
