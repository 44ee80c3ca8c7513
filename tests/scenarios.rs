use riddle_rush::{commit, Identity, RiddleRush, RiddleRushError};

fn setter() -> Identity {
    Identity::new([1u8; 32])
}

fn player_a() -> Identity {
    Identity::new([2u8; 32])
}

fn player_b() -> Identity {
    Identity::new([3u8; 32])
}

/// A game with one challenge "1+2*3" (id 0) opened at t=0 with deadlines
/// 100, 200, 300 and the given entry fee.
fn game_with_challenge(entry_fee: u64) -> RiddleRush {
    let mut game = RiddleRush::new();
    game.initialize(setter()).unwrap();
    let id = game
        .create_challenge(setter(), 0, "1+2*3".to_string(), 100, 200, 300, entry_fee, &Ok("7".to_string()))
        .unwrap();
    assert_eq!(id, 0);
    game
}

fn held(game: &RiddleRush, id: u64) -> u64 {
    game.challenge(id).unwrap().lamports
}

#[test]
fn happy_path_single_correct_winner() {
    let mut game = game_with_challenge(1000);
    assert_eq!(game.create_submission(player_a(), 50, 0, commit("7", "na")), Ok(1000));
    assert_eq!(game.create_submission(player_b(), 51, 0, commit("wrong", "nb")), Ok(1000));
    assert_eq!(game.challenge(0).unwrap().account.pot, 3000);

    assert_eq!(game.challenge_solution_reveal(150, 0, &Ok("7".to_string())), Ok(()));
    assert_eq!(game.challenge(0).unwrap().account.solution, "7");

    assert_eq!(game.submission_solution_reveal(player_a(), 160, 0, "na".to_string(), "7".to_string()), Ok(()));
    let entry = game.challenge(0).unwrap();
    assert!(entry.submission(&player_a()).unwrap().answer_correct);
    assert_eq!(entry.account.correct_submissions, 1);

    assert_eq!(
        game.submission_solution_reveal(player_b(), 160, 0, "nb".to_string(), "wrong".to_string()),
        Ok(())
    );
    let entry = game.challenge(0).unwrap();
    assert!(entry.submission(&player_b()).unwrap().revealed);
    assert!(!entry.submission(&player_b()).unwrap().answer_correct);
    assert_eq!(entry.account.correct_submissions, 1);

    assert_eq!(game.setter_claim(setter(), 250, 0), Ok(300));
    assert_eq!(game.submitter_claim(player_a(), 250, 0), Ok(2700));
    assert_eq!(game.submitter_claim(player_b(), 250, 0), Err(RiddleRushError::NotCorrect));
    assert_eq!(held(&game, 0), 0);
}

#[test]
fn no_correct_winners_refund_branch() {
    let mut game = game_with_challenge(1000);
    game.create_submission(player_a(), 50, 0, commit("wrong", "na")).unwrap();
    game.create_submission(player_b(), 51, 0, commit("wrong", "nb")).unwrap();
    game.challenge_solution_reveal(150, 0, &Ok("7".to_string())).unwrap();
    game.submission_solution_reveal(player_a(), 160, 0, "na".to_string(), "wrong".to_string()).unwrap();
    game.submission_solution_reveal(player_b(), 160, 0, "nb".to_string(), "wrong".to_string()).unwrap();
    assert_eq!(game.challenge(0).unwrap().account.correct_submissions, 0);
    assert_eq!(game.setter_claim(setter(), 250, 0), Ok(300));
    assert_eq!(game.submitter_claim(player_a(), 250, 0), Ok(1350));
    assert_eq!(game.submitter_claim(player_b(), 250, 0), Ok(1350));
}

#[test]
fn submission_at_deadline_is_refused() {
    let mut game = game_with_challenge(1000);
    assert_eq!(
        game.create_submission(player_a(), 100, 0, commit("7", "na")),
        Err(RiddleRushError::SubmissionDeadlinePassed)
    );
    assert_eq!(game.challenge(0).unwrap().account.pot, 1000);
    assert_eq!(game.create_submission(player_a(), 99, 0, commit("7", "na")), Ok(1000));
}

#[test]
fn commit_reveal_mismatch() {
    let mut game = game_with_challenge(1000);
    game.create_submission(player_a(), 50, 0, commit("7", "na")).unwrap();
    game.challenge_solution_reveal(150, 0, &Ok("7".to_string())).unwrap();
    assert_eq!(
        game.submission_solution_reveal(player_a(), 160, 0, "na".to_string(), "wrong".to_string()),
        Err(RiddleRushError::AnswerMismatch)
    );
    assert!(!game.challenge(0).unwrap().submission(&player_a()).unwrap().revealed);
}

#[test]
fn setter_close_after_claim_window() {
    let mut game = game_with_challenge(7);
    game.create_submission(player_a(), 50, 0, commit("wrong", "na")).unwrap();
    game.create_submission(player_b(), 51, 0, commit("wrong", "nb")).unwrap();
    assert_eq!(game.setter_claim(setter(), 250, 0), Ok(2));
    assert_eq!(game.submitter_claim(player_a(), 250, 0), Ok(9));
    assert_eq!(game.submitter_claim(player_b(), 250, 0), Ok(9));
    assert_eq!(game.setter_close_challenge(setter(), 300, 0), Err(RiddleRushError::WithdrawTooEarly));
    assert_eq!(game.setter_close_challenge(setter(), 301, 0), Ok(1));
    assert!(game.challenge(0).is_none());
}

#[test]
fn invalid_expression_is_refused() {
    let mut game = RiddleRush::new();
    game.initialize(setter()).unwrap();
    assert_eq!(
        game.create_challenge(setter(), 0, "1+*2".to_string(), 100, 200, 300, 1000, &Ok("0".to_string())),
        Err(RiddleRushError::InvalidExpression)
    );
    assert_eq!(
        game.create_challenge(
            setter(),
            0,
            "1/0".to_string(),
            100,
            200,
            300,
            1000,
            &Err(riddle_rush::ExpressionError::DivisionByZero)
        ),
        Err(RiddleRushError::InvalidExpression)
    );
    assert!(game.challenges.is_empty());
    assert_eq!(game.global_config.unwrap().next_challenge_id, 0);
}

#[test]
fn solution_reveal_twice_is_a_no_op() {
    let mut game = game_with_challenge(1000);
    assert_eq!(game.challenge_solution_reveal(150, 0, &Ok("7".to_string())), Ok(()));
    assert_eq!(game.challenge_solution_reveal(151, 0, &Ok("8".to_string())), Ok(()));
    assert_eq!(game.challenge(0).unwrap().account.solution, "7");
}

#[test]
fn solution_reveal_after_answer_deadline_is_refused() {
    let mut game = game_with_challenge(1000);
    assert_eq!(
        game.challenge_solution_reveal(200, 0, &Ok("7".to_string())),
        Err(RiddleRushError::AnswerRevealDeadlinePassed)
    );
    assert_eq!(
        game.challenge_solution_reveal(250, 0, &Ok("7".to_string())),
        Err(RiddleRushError::AnswerRevealDeadlinePassed)
    );
    assert_eq!(game.challenge(0).unwrap().account.solution, "");
    assert_eq!(game.challenge_solution_reveal(199, 0, &Ok("7".to_string())), Ok(()));
    assert_eq!(game.challenge(0).unwrap().account.solution, "7");
}

#[test]
fn claim_by_a_stranger_is_refused() {
    let mut game = game_with_challenge(1000);
    game.create_submission(player_a(), 50, 0, commit("7", "na")).unwrap();
    assert_eq!(game.submitter_claim(player_b(), 250, 0), Err(RiddleRushError::NotTheSubmitter));
}

#[test]
fn solution_reveal_before_deadline_is_refused() {
    let mut game = game_with_challenge(1000);
    assert_eq!(
        game.challenge_solution_reveal(100, 0, &Ok("7".to_string())),
        Err(RiddleRushError::SolutionRevealDeadlineNotMet)
    );
    assert_eq!(game.challenge(0).unwrap().account.solution, "");
}

#[test]
fn claims_twice_fail_the_second_time() {
    let mut game = game_with_challenge(1000);
    game.create_submission(player_a(), 50, 0, commit("7", "na")).unwrap();
    game.challenge_solution_reveal(150, 0, &Ok("7".to_string())).unwrap();
    game.submission_solution_reveal(player_a(), 160, 0, "na".to_string(), "7".to_string()).unwrap();
    assert_eq!(game.setter_claim(setter(), 250, 0), Ok(200));
    assert_eq!(game.setter_claim(setter(), 251, 0), Err(RiddleRushError::AlreadyClaimed));
    assert_eq!(game.submitter_claim(player_a(), 252, 0), Ok(1800));
    assert_eq!(game.submitter_claim(player_a(), 253, 0), Err(RiddleRushError::AlreadyClaimed));
    assert_eq!(game.clock, 252);
}

#[test]
fn pot_counts_every_submission() {
    let mut game = game_with_challenge(5);
    for i in 0..10u8 {
        let who = Identity::new([10 + i; 32]);
        game.create_submission(who, 10, 0, commit("x", "y")).unwrap();
        let entry = game.challenge(0).unwrap();
        assert_eq!(entry.account.pot, (1 + entry.submissions.len() as u64) * 5);
        assert_eq!(entry.lamports, entry.account.pot);
    }
}

#[test]
fn distribution_never_exceeds_pot() {
    let mut game = game_with_challenge(3);
    let players: Vec<Identity> = (0..4u8).map(|i| Identity::new([20 + i; 32])).collect();
    for p in &players {
        game.create_submission(*p, 10, 0, commit("wrong", "n")).unwrap();
    }
    let mut paid = game.setter_claim(setter(), 250, 0).unwrap();
    for p in &players {
        paid += game.submitter_claim(*p, 250, 0).unwrap();
    }
    let pot = game.challenge(0).unwrap().account.pot;
    assert_eq!(pot, 15);
    assert!(paid <= pot);
    assert_eq!(pot - paid, held(&game, 0));
}

#[test]
fn flags_only_rise() {
    let mut game = game_with_challenge(1000);
    game.create_submission(player_a(), 50, 0, commit("7", "na")).unwrap();
    let s = *game.challenge(0).unwrap().submission(&player_a()).unwrap();
    assert!(!s.revealed && !s.answer_correct && !s.claimed);
    game.challenge_solution_reveal(150, 0, &Ok("7".to_string())).unwrap();
    game.submission_solution_reveal(player_a(), 160, 0, "na".to_string(), "7".to_string()).unwrap();
    assert_eq!(
        game.submission_solution_reveal(player_a(), 161, 0, "na".to_string(), "7".to_string()),
        Err(RiddleRushError::SubmissionAlreadyRevealed)
    );
    game.submitter_claim(player_a(), 250, 0).unwrap();
    let s = *game.challenge(0).unwrap().submission(&player_a()).unwrap();
    assert!(s.revealed && s.answer_correct && s.claimed);
}

#[test]
fn global_counter_allocates_ids_in_order() {
    let mut game = RiddleRush::new();
    assert_eq!(
        game.create_challenge(setter(), 0, "1".to_string(), 100, 200, 300, 1, &Ok("1".to_string())),
        Err(RiddleRushError::AccountNotInitialized)
    );
    assert_eq!(game.initialize(setter()), Ok(()));
    assert_eq!(game.initialize(setter()), Err(RiddleRushError::AccountAlreadyInUse));
    for expected in 0..3u64 {
        let id = game
            .create_challenge(setter(), 0, "1".to_string(), 100, 200, 300, 1, &Ok("1".to_string()))
            .unwrap();
        assert_eq!(id, expected);
    }
    assert_eq!(game.global_config.unwrap().next_challenge_id, 3);
}

#[test]
fn create_challenge_errors() {
    let mut game = RiddleRush::new();
    game.initialize(setter()).unwrap();
    let ok = Ok("1".to_string());
    let s = setter();
    assert_eq!(game.create_challenge(s, 0, "1".to_string(), 100, 200, 300, 0, &ok), Err(RiddleRushError::ZeroEntryFee));
    assert_eq!(
        game.create_challenge(s, 0, "1".to_string(), 200, 200, 300, 1, &ok),
        Err(RiddleRushError::AnswerRevealDeadlinBeforeSubmissionDeadline)
    );
    assert_eq!(
        game.create_challenge(s, 0, "1".to_string(), 100, 300, 300, 1, &ok),
        Err(RiddleRushError::AnswerRevealDeadlinBeforeClaimDeadline)
    );
    assert_eq!(
        game.create_challenge(s, 100, "1".to_string(), 100, 200, 300, 1, &ok),
        Err(RiddleRushError::SubmissionDeadlinePassed)
    );
    let long = "1".repeat(257);
    assert_eq!(game.create_challenge(s, 0, long, 100, 200, 300, 1, &ok), Err(RiddleRushError::QuestionTooLong));
    let exact = "1".repeat(256);
    assert_eq!(game.create_challenge(s, 0, exact, 100, 200, 300, 1, &ok), Ok(0));
}

#[test]
fn submission_errors() {
    let mut game = game_with_challenge(1000);
    assert_eq!(
        game.create_submission(player_a(), 50, 9, commit("7", "na")),
        Err(RiddleRushError::AccountNotInitialized)
    );
    game.create_submission(player_a(), 50, 0, commit("7", "na")).unwrap();
    assert_eq!(
        game.create_submission(player_a(), 60, 0, commit("8", "na")),
        Err(RiddleRushError::AccountAlreadyInUse)
    );
    assert_eq!(
        game.submission_solution_reveal(player_a(), 120, 0, "na".to_string(), "7".to_string()),
        Err(RiddleRushError::SolutionNotRevealed)
    );
    assert_eq!(
        game.submission_solution_reveal(player_b(), 120, 0, "na".to_string(), "7".to_string()),
        Err(RiddleRushError::NotTheSubmitter)
    );
    game.challenge_solution_reveal(150, 0, &Ok("7".to_string())).unwrap();
    assert_eq!(
        game.submission_solution_reveal(player_a(), 200, 0, "na".to_string(), "7".to_string()),
        Err(RiddleRushError::AnswerRevealDeadlinePassed)
    );
}

#[test]
fn claim_window_errors() {
    let mut game = game_with_challenge(1000);
    game.create_submission(player_a(), 50, 0, commit("7", "na")).unwrap();
    assert_eq!(game.setter_claim(setter(), 200, 0), Err(RiddleRushError::WithdrawTooEarly));
    assert_eq!(game.setter_claim(setter(), 300, 0), Err(RiddleRushError::WithdrawTooLate));
    assert_eq!(game.setter_claim(player_a(), 250, 0), Err(RiddleRushError::NotTheSetter));
    assert_eq!(game.submitter_claim(player_a(), 200, 0), Err(RiddleRushError::WithdrawTooEarly));
    assert_eq!(game.submitter_claim(player_a(), 300, 0), Err(RiddleRushError::WithdrawTooLate));
    assert_eq!(game.setter_close_challenge(player_a(), 301, 0), Err(RiddleRushError::NotTheSetter));
}

#[test]
fn evaluator_failure_at_solution_reveal() {
    let mut game = game_with_challenge(1000);
    assert_eq!(
        game.challenge_solution_reveal(150, 0, &Err(riddle_rush::ExpressionError::DivisionByZero)),
        Err(RiddleRushError::InvalidExpression)
    );
    assert_eq!(
        game.challenge_solution_reveal(150, 0, &Ok("9".repeat(257))),
        Err(RiddleRushError::SolutionTooLong)
    );
    assert_eq!(game.challenge(0).unwrap().account.solution, "");
}
