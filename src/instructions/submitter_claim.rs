use vstd::prelude::*;

use crate::accounting::{share_of, submitter_share, winners_of};
use crate::error::RiddleRushError;
use crate::state::{flags_rise, same_identity, ChallengeAccount, Identity, Phase, SubmissionAccount};

verus! {

/// The accounts that a submitter's claim of a share reads and writes.
pub struct SubmitterClaim {
    /// The caller.
    pub submitter: Identity,
    pub challenge_account: ChallengeAccount,
    pub submission_account: SubmissionAccount,
    /// The value that the challenge's account holds.
    pub challenge_lamports: u64,
}

/// Why a submitter's claim at time `now` is refused, if it is. When some
/// submission was correct only correct ones are paid; when none was, every
/// submission is refunded an equal share.
pub open spec fn submitter_claim_error(ctx: &SubmitterClaim, now: int) -> Option<RiddleRushError> {
    let c = ctx.challenge_account;
    let s = ctx.submission_account;
    if !same_identity(ctx.submitter, s.submitter) || s.challenge_id != c.id {
        Some(RiddleRushError::NotTheSubmitter)
    } else if s.claimed {
        Some(RiddleRushError::AlreadyClaimed)
    } else if now <= c.answer_reveal_deadline {
        Some(RiddleRushError::WithdrawTooEarly)
    } else if now >= c.claim_deadline {
        Some(RiddleRushError::WithdrawTooLate)
    } else if c.correct_submissions > 0 && !s.answer_correct {
        Some(RiddleRushError::NotCorrect)
    } else if winners_of(c.pot as int, c.entry_fee as int, c.correct_submissions as int) < 1 {
        Some(RiddleRushError::ZeroCorrectSubmissions)
    } else if ctx.challenge_lamports < share_of(
        c.pot as int,
        c.entry_fee as int,
        c.correct_submissions as int,
    ) {
        Some(RiddleRushError::InsufficientFunds)
    } else {
        None
    }
}

/// The accounts after a submitter's claim that succeeded.
pub open spec fn submitter_claim_post(ctx: SubmitterClaim) -> SubmitterClaim {
    let c = ctx.challenge_account;
    SubmitterClaim {
        submission_account: SubmissionAccount { claimed: true, ..ctx.submission_account },
        challenge_lamports: (ctx.challenge_lamports - share_of(
            c.pot as int,
            c.entry_fee as int,
            c.correct_submissions as int,
        )) as u64,
        ..ctx
    }
}

/// Pays a submitter's share. Returns the amount to transfer from the
/// challenge's account to the submitter.
pub fn handler(ctx: &mut SubmitterClaim, now: i64) -> (r: Result<u64, RiddleRushError>)
    requires
        old(ctx).challenge_account.wf(),
    ensures
        match r {
            Ok(amount) => {
                &&& submitter_claim_error(old(ctx), now as int) is None
                &&& old(ctx).challenge_account.spec_phase(now as int) == Phase::Claim
                &&& amount == share_of(
                    old(ctx).challenge_account.pot as int,
                    old(ctx).challenge_account.entry_fee as int,
                    old(ctx).challenge_account.correct_submissions as int,
                )
                &&& *final(ctx) == submitter_claim_post(*old(ctx))
            },
            Err(e) => submitter_claim_error(old(ctx), now as int) == Some(e) && *final(ctx)
                == *old(ctx),
        },
{
    if ctx.submitter != ctx.submission_account.submitter
        || ctx.submission_account.challenge_id != ctx.challenge_account.id {
        return Err(RiddleRushError::NotTheSubmitter);
    }
    if ctx.submission_account.claimed {
        return Err(RiddleRushError::AlreadyClaimed);
    }
    if now <= ctx.challenge_account.answer_reveal_deadline {
        return Err(RiddleRushError::WithdrawTooEarly);
    }
    if now >= ctx.challenge_account.claim_deadline {
        return Err(RiddleRushError::WithdrawTooLate);
    }
    if ctx.challenge_account.correct_submissions > 0 && !ctx.submission_account.answer_correct {
        return Err(RiddleRushError::NotCorrect);
    }
    let share = match submitter_share(
        ctx.challenge_account.pot,
        ctx.challenge_account.entry_fee,
        ctx.challenge_account.correct_submissions,
    ) {
        None => {
            return Err(RiddleRushError::ZeroCorrectSubmissions);
        },
        Some(share) => share,
    };
    if ctx.challenge_lamports < share {
        return Err(RiddleRushError::InsufficientFunds);
    }
    ctx.submission_account.claimed = true;
    ctx.challenge_lamports = ctx.challenge_lamports - share;
    Ok(share)
}

/// A submitter's claim that succeeded cannot succeed again: a second claim fails.
pub proof fn lemma_submitter_claim_twice_fails(ctx: SubmitterClaim, first: int, second: int)
    requires
        submitter_claim_error(&ctx, first) is None,
    ensures
        submitter_claim_error(&submitter_claim_post(ctx), second) == Some(
            RiddleRushError::AlreadyClaimed,
        ),
{
}

/// A claim only raises a submission's flags: none goes from set to unset.
pub proof fn lemma_claim_flags_rise(ctx: SubmitterClaim)
    ensures
        flags_rise(ctx.submission_account, submitter_claim_post(ctx).submission_account),
{
}

} // verus!
