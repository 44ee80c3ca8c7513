use vstd::prelude::*;

use crate::commitment::{opens, verify_commit};
use crate::error::RiddleRushError;
use crate::state::{flags_rise, same_identity, ChallengeAccount, Identity, SubmissionAccount};

verus! {

/// The accounts that revealing a submitted answer reads and writes.
pub struct SubmissionSolutionReveal {
    /// The caller.
    pub submitter: Identity,
    pub challenge_account: ChallengeAccount,
    pub submission_account: SubmissionAccount,
}

/// Why revealing `plaintext_answer` with `nonce` at time `now` is refused, if it is.
pub open spec fn submission_reveal_error(
    ctx: &SubmissionSolutionReveal,
    now: int,
    nonce: Seq<char>,
    plaintext_answer: Seq<char>,
) -> Option<RiddleRushError> {
    let c = ctx.challenge_account;
    let s = ctx.submission_account;
    if !same_identity(ctx.submitter, s.submitter) {
        Some(RiddleRushError::NotTheSubmitter)
    } else if s.revealed {
        Some(RiddleRushError::SubmissionAlreadyRevealed)
    } else if c.solution@.len() == 0 {
        Some(RiddleRushError::SolutionNotRevealed)
    } else if now >= c.answer_reveal_deadline {
        Some(RiddleRushError::AnswerRevealDeadlinePassed)
    } else if !opens(plaintext_answer, nonce, s.encrypted_answer@) {
        Some(RiddleRushError::AnswerMismatch)
    } else {
        None
    }
}

/// The accounts after a reveal of `plaintext_answer` that succeeded: the
/// submission is revealed, and it is correct, and counted, exactly when the
/// answer is the challenge's solution.
pub open spec fn submission_reveal_post(
    ctx: SubmissionSolutionReveal,
    plaintext_answer: Seq<char>,
) -> SubmissionSolutionReveal {
    let correct = plaintext_answer == ctx.challenge_account.solution@;
    SubmissionSolutionReveal {
        challenge_account: ChallengeAccount {
            correct_submissions: if correct {
                (ctx.challenge_account.correct_submissions + 1) as u64
            } else {
                ctx.challenge_account.correct_submissions
            },
            ..ctx.challenge_account
        },
        submission_account: SubmissionAccount {
            revealed: true,
            answer_correct: correct,
            ..ctx.submission_account
        },
        ..ctx
    }
}

/// Opens a submission's commitment: checks that `plaintext_answer` followed
/// by `nonce` hashes to the submitted commitment, then marks the submission
/// revealed and, when the answer is the solution, correct.
pub fn handler(
    ctx: &mut SubmissionSolutionReveal,
    now: i64,
    nonce: String,
    plaintext_answer: String,
) -> (r: Result<(), RiddleRushError>)
    requires
        old(ctx).challenge_account.correct_submissions < u64::MAX,
    ensures
        match r {
            Ok(_) => {
                &&& submission_reveal_error(old(ctx), now as int, nonce@, plaintext_answer@) is None
                &&& *final(ctx) == submission_reveal_post(*old(ctx), plaintext_answer@)
            },
            Err(e) => {
                &&& submission_reveal_error(old(ctx), now as int, nonce@, plaintext_answer@) == Some(e)
                &&& *final(ctx) == *old(ctx)
            },
        },
{
    if ctx.submitter != ctx.submission_account.submitter {
        return Err(RiddleRushError::NotTheSubmitter);
    }
    if ctx.submission_account.revealed {
        return Err(RiddleRushError::SubmissionAlreadyRevealed);
    }
    if ctx.challenge_account.solution.as_str().is_empty() {
        return Err(RiddleRushError::SolutionNotRevealed);
    }
    if now >= ctx.challenge_account.answer_reveal_deadline {
        return Err(RiddleRushError::AnswerRevealDeadlinePassed);
    }
    if !verify_commit(
        plaintext_answer.as_str(),
        nonce.as_str(),
        &ctx.submission_account.encrypted_answer,
    ) {
        return Err(RiddleRushError::AnswerMismatch);
    }
    ctx.submission_account.revealed = true;
    if ctx.challenge_account.solution == plaintext_answer {
        ctx.submission_account.answer_correct = true;
        ctx.challenge_account.correct_submissions = ctx.challenge_account.correct_submissions + 1;
    } else {
        ctx.submission_account.answer_correct = false;
    }
    Ok(())
}

/// A reveal only raises a submission's flags: none goes from set to unset.
pub proof fn lemma_reveal_flags_rise(
    ctx: SubmissionSolutionReveal,
    now: int,
    nonce: Seq<char>,
    plaintext_answer: Seq<char>,
)
    requires
        ctx.submission_account.wf(),
        submission_reveal_error(&ctx, now, nonce, plaintext_answer) is None,
    ensures
        flags_rise(
            ctx.submission_account,
            submission_reveal_post(ctx, plaintext_answer).submission_account,
        ),
        submission_reveal_post(ctx, plaintext_answer).submission_account.wf(),
{
}

} // verus!
