use vstd::prelude::*;

use crate::error::RiddleRushError;
use crate::state::{ChallengeAccount, Identity, Phase, SubmissionAccount};

verus! {

/// The accounts that submitting a sealed answer reads and writes.
pub struct CreateSubmission {
    /// The caller, who becomes the submission's submitter.
    pub submitter: Identity,
    pub challenge_account: ChallengeAccount,
    /// The value that the challenge's account holds.
    pub challenge_lamports: u64,
}

/// Why a submission at time `now` is refused, if it is.
pub open spec fn create_submission_error(ctx: &CreateSubmission, now: int) -> Option<
    RiddleRushError,
> {
    if now >= ctx.challenge_account.submission_deadline {
        Some(RiddleRushError::SubmissionDeadlinePassed)
    } else {
        None
    }
}

/// The accounts after a submission that succeeded: the entry fee has entered
/// the pot and the challenge's account.
pub open spec fn create_submission_post(ctx: CreateSubmission) -> CreateSubmission {
    CreateSubmission {
        challenge_account: ChallengeAccount {
            pot: (ctx.challenge_account.pot + ctx.challenge_account.entry_fee) as u64,
            ..ctx.challenge_account
        },
        challenge_lamports: (ctx.challenge_lamports + ctx.challenge_account.entry_fee) as u64,
        ..ctx
    }
}

/// Records a sealed answer: returns the new submission, with every flag
/// false. The caller transfers the entry fee from the submitter to the
/// challenge's account.
pub fn handler(ctx: &mut CreateSubmission, now: i64, encrypted_answer: [u8; 32]) -> (r: Result<
    SubmissionAccount,
    RiddleRushError,
>)
    requires
        old(ctx).challenge_account.wf(),
        old(ctx).challenge_account.pot + old(ctx).challenge_account.entry_fee <= u64::MAX,
        old(ctx).challenge_lamports + old(ctx).challenge_account.entry_fee <= u64::MAX,
    ensures
        final(ctx).challenge_account.wf(),
        match r {
            Ok(s) => {
                &&& create_submission_error(old(ctx), now as int) is None
                &&& old(ctx).challenge_account.spec_phase(now as int) == Phase::Submission
                &&& *final(ctx) == create_submission_post(*old(ctx))
                &&& s == (SubmissionAccount {
                    challenge_id: old(ctx).challenge_account.id,
                    submitter: old(ctx).submitter,
                    encrypted_answer,
                    revealed: false,
                    answer_correct: false,
                    claimed: false,
                })
            },
            Err(e) => create_submission_error(old(ctx), now as int) == Some(e) && *final(ctx)
                == *old(ctx),
        },
{
    if now >= ctx.challenge_account.submission_deadline {
        return Err(RiddleRushError::SubmissionDeadlinePassed);
    }
    let fee = ctx.challenge_account.entry_fee;
    ctx.challenge_account.pot = ctx.challenge_account.pot + fee;
    ctx.challenge_lamports = ctx.challenge_lamports + fee;
    Ok(
        SubmissionAccount {
            challenge_id: ctx.challenge_account.id,
            submitter: ctx.submitter,
            encrypted_answer,
            revealed: false,
            answer_correct: false,
            claimed: false,
        },
    )
}

} // verus!
