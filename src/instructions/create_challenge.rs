use vstd::prelude::*;

use crate::constants::MAX_QUESTION_LENGTH;
use crate::error::RiddleRushError;
use crate::expression::{parse_all, parse_expression, strip_whitespace, ExpressionError};
use crate::state::{byte_len, ChallengeAccount, GlobalConfig, Identity};

verus! {

/// The accounts that opening a challenge reads and writes.
pub struct CreateChallenge {
    /// The caller, who becomes the challenge's setter.
    pub setter: Identity,
    pub global_config: GlobalConfig,
}

/// Why opening a challenge at time `now` is refused, if it is. The question
/// must parse as an arithmetic expression; `question_value` is what evaluating
/// it gave, which can still fail (a zero divisor).
pub open spec fn create_challenge_error(
    question: Seq<char>,
    submission_deadline: int,
    answer_reveal_deadline: int,
    claim_deadline: int,
    entry_fee: int,
    now: int,
    question_value: Result<String, ExpressionError>,
) -> Option<RiddleRushError> {
    if entry_fee == 0 {
        Some(RiddleRushError::ZeroEntryFee)
    } else if parse_all(strip_whitespace(question)) is Err || question_value is Err {
        Some(RiddleRushError::InvalidExpression)
    } else if submission_deadline >= answer_reveal_deadline {
        Some(RiddleRushError::AnswerRevealDeadlinBeforeSubmissionDeadline)
    } else if answer_reveal_deadline >= claim_deadline {
        Some(RiddleRushError::AnswerRevealDeadlinBeforeClaimDeadline)
    } else if submission_deadline <= now {
        Some(RiddleRushError::SubmissionDeadlinePassed)
    } else if byte_len(question) > MAX_QUESTION_LENGTH {
        Some(RiddleRushError::QuestionTooLong)
    } else {
        None
    }
}

/// Whether `c` is a challenge just opened with these values: no solution yet,
/// the pot holding the setter's entry fee, nothing claimed, nothing correct.
pub open spec fn is_new_challenge(
    c: ChallengeAccount,
    id: u64,
    setter: Identity,
    question: Seq<char>,
    submission_deadline: i64,
    answer_reveal_deadline: i64,
    claim_deadline: i64,
    entry_fee: u64,
) -> bool {
    &&& c.wf()
    &&& c.id == id
    &&& c.question@ == question
    &&& c.solution@.len() == 0
    &&& c.submission_deadline == submission_deadline
    &&& c.answer_reveal_deadline == answer_reveal_deadline
    &&& c.claim_deadline == claim_deadline
    &&& c.entry_fee == entry_fee
    &&& c.setter == setter
    &&& c.pot == entry_fee
    &&& !c.setter_cut_claimed
    &&& c.correct_submissions == 0
}

/// Opens a challenge: allocates its identifier from the global counter and
/// returns the new account, whose pot is the setter's entry fee. The caller
/// transfers `entry_fee` from the setter to the challenge's account.
pub fn handler(
    ctx: &mut CreateChallenge,
    now: i64,
    question: String,
    submission_deadline: i64,
    answer_reveal_deadline: i64,
    claim_deadline: i64,
    entry_fee: u64,
    question_value: &Result<String, ExpressionError>,
) -> (r: Result<ChallengeAccount, RiddleRushError>)
    requires
        old(ctx).global_config.next_challenge_id < u64::MAX,
    ensures
        final(ctx).setter == old(ctx).setter,
        match r {
            Ok(c) => {
                &&& create_challenge_error(
                    question@,
                    submission_deadline as int,
                    answer_reveal_deadline as int,
                    claim_deadline as int,
                    entry_fee as int,
                    now as int,
                    *question_value,
                ) is None
                &&& is_new_challenge(
                    c,
                    old(ctx).global_config.next_challenge_id,
                    old(ctx).setter,
                    question@,
                    submission_deadline,
                    answer_reveal_deadline,
                    claim_deadline,
                    entry_fee,
                )
                &&& final(ctx).global_config.next_challenge_id == old(
                    ctx,
                ).global_config.next_challenge_id + 1
            },
            Err(e) => {
                &&& create_challenge_error(
                    question@,
                    submission_deadline as int,
                    answer_reveal_deadline as int,
                    claim_deadline as int,
                    entry_fee as int,
                    now as int,
                    *question_value,
                ) == Some(e)
                &&& final(ctx).global_config == old(ctx).global_config
            },
        },
{
    if entry_fee == 0 {
        return Err(RiddleRushError::ZeroEntryFee);
    }
    if parse_expression(question.as_str()).is_err() || question_value.is_err() {
        return Err(RiddleRushError::InvalidExpression);
    }
    if submission_deadline >= answer_reveal_deadline {
        return Err(RiddleRushError::AnswerRevealDeadlinBeforeSubmissionDeadline);
    }
    if answer_reveal_deadline >= claim_deadline {
        return Err(RiddleRushError::AnswerRevealDeadlinBeforeClaimDeadline);
    }
    if submission_deadline <= now {
        return Err(RiddleRushError::SubmissionDeadlinePassed);
    }
    if question.as_str().as_bytes().len() > MAX_QUESTION_LENGTH {
        return Err(RiddleRushError::QuestionTooLong);
    }
    let id = ctx.global_config.next_challenge_id;
    ctx.global_config.next_challenge_id = id + 1;
    Ok(
        ChallengeAccount {
            id,
            question,
            solution: String::new(),
            submission_deadline,
            answer_reveal_deadline,
            claim_deadline,
            entry_fee,
            setter: ctx.setter,
            pot: entry_fee,
            setter_cut_claimed: false,
            correct_submissions: 0,
        },
    )
}

} // verus!
