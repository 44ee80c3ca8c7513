use vstd::prelude::*;

use crate::constants::MAX_QUESTION_LENGTH;
use crate::error::RiddleRushError;
use crate::expression::ExpressionError;
use crate::state::{byte_len, ChallengeAccount};

verus! {

/// The account that revealing a challenge's solution reads and writes.
pub struct ChallengeSolutionReveal {
    pub challenge_account: ChallengeAccount,
}

/// What revealing the solution of `c` at time `now` gives: the challenge
/// after it, or the error. `question_value` is the question's value as the
/// evaluator rendered it, or the evaluator's error.
pub open spec fn solution_reveal_result(
    c: ChallengeAccount,
    now: int,
    question_value: Result<String, ExpressionError>,
) -> Result<ChallengeAccount, RiddleRushError> {
    if now <= c.submission_deadline {
        Err(RiddleRushError::SolutionRevealDeadlineNotMet)
    } else if c.solution@.len() != 0 {
        Ok(c)
    } else if now >= c.answer_reveal_deadline {
        Err(RiddleRushError::AnswerRevealDeadlinePassed)
    } else {
        match question_value {
            Result::Err(_) => Err(RiddleRushError::InvalidExpression),
            Result::Ok(text) => if byte_len(text@) > MAX_QUESTION_LENGTH {
                Err(RiddleRushError::SolutionTooLong)
            } else {
                Ok(ChallengeAccount { solution: text, ..c })
            },
        }
    }
}

/// Reveals the challenge's solution: between the submission deadline and the
/// answer reveal deadline, an empty solution becomes the value of the
/// question. A solution that is already there stays.
pub fn handler(
    ctx: &mut ChallengeSolutionReveal,
    now: i64,
    question_value: &Result<String, ExpressionError>,
) -> (r: Result<(), RiddleRushError>)
    ensures
        match solution_reveal_result(old(ctx).challenge_account, now as int, *question_value) {
            Ok(c) => r is Ok && final(ctx).challenge_account == c,
            Err(e) => r == Err::<(), RiddleRushError>(e) && *final(ctx) == *old(ctx),
        },
{
    if now <= ctx.challenge_account.submission_deadline {
        return Err(RiddleRushError::SolutionRevealDeadlineNotMet);
    }
    if !ctx.challenge_account.solution.as_str().is_empty() {
        return Ok(());
    }
    if now >= ctx.challenge_account.answer_reveal_deadline {
        return Err(RiddleRushError::AnswerRevealDeadlinePassed);
    }
    match question_value {
        Err(_) => {
            return Err(RiddleRushError::InvalidExpression);
        },
        Ok(text) => {
            if text.as_str().as_bytes().len() > MAX_QUESTION_LENGTH {
                return Err(RiddleRushError::SolutionTooLong);
            }
            ctx.challenge_account.solution = text.clone();
            Ok(())
        },
    }
}

/// Revealing the solution twice is a no-op after the first success: the
/// question evaluates the same way each time, and a second call after the
/// submission deadline succeeds and leaves the challenge as the first one left
/// it. (Only a question whose value renders as empty text leaves the solution
/// empty; a second call on it after the answer reveal deadline is refused,
/// which leaves the challenge unchanged too.)
pub proof fn lemma_solution_reveal_idempotent(
    c: ChallengeAccount,
    first: int,
    second: int,
    question_value: Result<String, ExpressionError>,
)
    requires
        solution_reveal_result(c, first, question_value) is Ok,
        second > c.submission_deadline,
    ensures
        ({
            let after = solution_reveal_result(c, first, question_value)->Ok_0;
            &&& after.solution@.len() != 0 ==> solution_reveal_result(after, second, question_value)
                == Ok::<ChallengeAccount, RiddleRushError>(after)
            &&& match solution_reveal_result(after, second, question_value) {
                Ok(again) => again == after,
                Err(e) => after.solution@.len() == 0 && e
                    == RiddleRushError::AnswerRevealDeadlinePassed,
            }
        }),
{
}

} // verus!
