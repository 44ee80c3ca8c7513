use riddle_rush::instructions::setter_claim::{self, SetterClaim};
use riddle_rush::instructions::submission_solution_reveal::{self, SubmissionSolutionReveal};
use riddle_rush::instructions::submitter_claim::{self, SubmitterClaim};
use riddle_rush::{commit, ChallengeAccount, Identity, Phase, RiddleRushError, SubmissionAccount};

fn challenge(solution: &str, pot: u64, correct_submissions: u64) -> ChallengeAccount {
    ChallengeAccount {
        id: 4,
        question: "1+2*3".to_string(),
        solution: solution.to_string(),
        submission_deadline: 100,
        answer_reveal_deadline: 200,
        claim_deadline: 300,
        entry_fee: 1000,
        setter: Identity::new([1u8; 32]),
        pot,
        setter_cut_claimed: false,
        correct_submissions,
    }
}

fn submission(answer: &str, nonce: &str) -> SubmissionAccount {
    SubmissionAccount {
        challenge_id: 4,
        submitter: Identity::new([2u8; 32]),
        encrypted_answer: commit(answer, nonce),
        revealed: false,
        answer_correct: false,
        claimed: false,
    }
}

#[test]
fn phases_follow_the_deadlines() {
    let open = challenge("", 1000, 0);
    assert_eq!(open.phase(99), Phase::Submission);
    assert_eq!(open.phase(100), Phase::AwaitingSolution);
    assert_eq!(challenge("7", 1000, 0).phase(100), Phase::Reveal);
    assert_eq!(open.phase(199), Phase::AwaitingSolution);
    assert_eq!(open.phase(200), Phase::Claim);
    assert_eq!(open.phase(299), Phase::Claim);
    assert_eq!(open.phase(300), Phase::Closed);
}

#[test]
fn setter_claim_short_of_funds() {
    let mut ctx = SetterClaim {
        setter: Identity::new([1u8; 32]),
        challenge_account: challenge("7", 3000, 1),
        challenge_lamports: 299,
    };
    assert_eq!(setter_claim::handler(&mut ctx, 250), Err(RiddleRushError::InsufficientFunds));
    assert!(!ctx.challenge_account.setter_cut_claimed);
    ctx.challenge_lamports = 300;
    assert_eq!(setter_claim::handler(&mut ctx, 250), Ok(300));
    assert_eq!(ctx.challenge_lamports, 0);
    assert!(ctx.challenge_account.setter_cut_claimed);
}

#[test]
fn submitter_claim_with_nobody_to_share() {
    let mut ctx = SubmitterClaim {
        submitter: Identity::new([2u8; 32]),
        challenge_account: challenge("7", 1000, 0),
        submission_account: submission("7", "na"),
        challenge_lamports: 1000,
    };
    assert_eq!(submitter_claim::handler(&mut ctx, 250), Err(RiddleRushError::ZeroCorrectSubmissions));
    assert!(!ctx.submission_account.claimed);
}

#[test]
fn submitter_claim_of_another_challenge() {
    let mut other = submission("7", "na");
    other.challenge_id = 5;
    let mut ctx = SubmitterClaim {
        submitter: Identity::new([2u8; 32]),
        challenge_account: challenge("7", 2000, 0),
        submission_account: other,
        challenge_lamports: 2000,
    };
    assert_eq!(submitter_claim::handler(&mut ctx, 250), Err(RiddleRushError::NotTheSubmitter));
}

#[test]
fn reveal_by_someone_else() {
    let mut ctx = SubmissionSolutionReveal {
        submitter: Identity::new([9u8; 32]),
        challenge_account: challenge("7", 2000, 0),
        submission_account: submission("7", "na"),
    };
    assert_eq!(
        submission_solution_reveal::handler(&mut ctx, 150, "na".to_string(), "7".to_string()),
        Err(RiddleRushError::NotTheSubmitter)
    );
    ctx.submitter = Identity::new([2u8; 32]);
    assert_eq!(submission_solution_reveal::handler(&mut ctx, 150, "na".to_string(), "7".to_string()), Ok(()));
    assert!(ctx.submission_account.answer_correct);
    assert_eq!(ctx.challenge_account.correct_submissions, 1);
}

#[test]
fn answer_comparison_is_exact() {
    let mut ctx = SubmissionSolutionReveal {
        submitter: Identity::new([2u8; 32]),
        challenge_account: challenge("7", 2000, 0),
        submission_account: submission("7.0", "na"),
    };
    assert_eq!(submission_solution_reveal::handler(&mut ctx, 150, "na".to_string(), "7.0".to_string()), Ok(()));
    assert!(ctx.submission_account.revealed);
    assert!(!ctx.submission_account.answer_correct);
    assert_eq!(ctx.challenge_account.correct_submissions, 0);
}
