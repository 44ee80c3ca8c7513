use vstd::prelude::*;

use crate::accounting::{setter_cut, setter_cut_of};
use crate::error::RiddleRushError;
use crate::state::{same_identity, ChallengeAccount, Identity, Phase};

verus! {

/// The accounts that a setter's claim of the cut reads and writes.
pub struct SetterClaim {
    /// The caller.
    pub setter: Identity,
    pub challenge_account: ChallengeAccount,
    /// The value that the challenge's account holds.
    pub challenge_lamports: u64,
}

/// Why a setter's claim at time `now` is refused, if it is.
pub open spec fn setter_claim_error(ctx: &SetterClaim, now: int) -> Option<RiddleRushError> {
    let c = ctx.challenge_account;
    if !same_identity(ctx.setter, c.setter) {
        Some(RiddleRushError::NotTheSetter)
    } else if c.setter_cut_claimed {
        Some(RiddleRushError::AlreadyClaimed)
    } else if now <= c.answer_reveal_deadline {
        Some(RiddleRushError::WithdrawTooEarly)
    } else if now >= c.claim_deadline {
        Some(RiddleRushError::WithdrawTooLate)
    } else if ctx.challenge_lamports < setter_cut_of(c.pot as int) {
        Some(RiddleRushError::InsufficientFunds)
    } else {
        None
    }
}

/// The accounts after a setter's claim that succeeded.
pub open spec fn setter_claim_post(ctx: SetterClaim) -> SetterClaim {
    SetterClaim {
        challenge_account: ChallengeAccount { setter_cut_claimed: true, ..ctx.challenge_account },
        challenge_lamports: (ctx.challenge_lamports - setter_cut_of(
            ctx.challenge_account.pot as int,
        )) as u64,
        ..ctx
    }
}

/// Pays the setter's cut of the pot. Returns the amount to transfer from the
/// challenge's account to the setter.
pub fn handler(ctx: &mut SetterClaim, now: i64) -> (r: Result<u64, RiddleRushError>)
    requires
        old(ctx).challenge_account.wf(),
    ensures
        match r {
            Ok(amount) => {
                &&& setter_claim_error(old(ctx), now as int) is None
                &&& old(ctx).challenge_account.spec_phase(now as int) == Phase::Claim
                &&& amount == setter_cut_of(old(ctx).challenge_account.pot as int)
                &&& *final(ctx) == setter_claim_post(*old(ctx))
            },
            Err(e) => setter_claim_error(old(ctx), now as int) == Some(e) && *final(ctx) == *old(
                ctx,
            ),
        },
{
    if ctx.setter != ctx.challenge_account.setter {
        return Err(RiddleRushError::NotTheSetter);
    }
    if ctx.challenge_account.setter_cut_claimed {
        return Err(RiddleRushError::AlreadyClaimed);
    }
    if now <= ctx.challenge_account.answer_reveal_deadline {
        return Err(RiddleRushError::WithdrawTooEarly);
    }
    if now >= ctx.challenge_account.claim_deadline {
        return Err(RiddleRushError::WithdrawTooLate);
    }
    let cut = setter_cut(ctx.challenge_account.pot);
    if ctx.challenge_lamports < cut {
        return Err(RiddleRushError::InsufficientFunds);
    }
    ctx.challenge_account.setter_cut_claimed = true;
    ctx.challenge_lamports = ctx.challenge_lamports - cut;
    Ok(cut)
}

/// A setter's claim that succeeded cannot succeed again: a second claim fails.
pub proof fn lemma_setter_claim_twice_fails(ctx: SetterClaim, first: int, second: int)
    requires
        setter_claim_error(&ctx, first) is None,
    ensures
        setter_claim_error(&setter_claim_post(ctx), second) == Some(RiddleRushError::AlreadyClaimed),
{
}

} // verus!
