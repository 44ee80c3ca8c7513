use vstd::prelude::*;

use crate::error::RiddleRushError;
use crate::state::{same_identity, ChallengeAccount, Identity, Phase};

verus! {

/// The accounts that closing a challenge reads and writes.
pub struct SetterClose {
    /// The caller.
    pub setter: Identity,
    pub challenge_account: ChallengeAccount,
    /// The value that the challenge's account holds.
    pub challenge_lamports: u64,
}

/// Why closing a challenge at time `now` is refused, if it is.
pub open spec fn setter_close_error(ctx: &SetterClose, now: int) -> Option<RiddleRushError> {
    if !same_identity(ctx.setter, ctx.challenge_account.setter) {
        Some(RiddleRushError::NotTheSetter)
    } else if now <= ctx.challenge_account.claim_deadline {
        Some(RiddleRushError::WithdrawTooEarly)
    } else {
        None
    }
}

/// Sweeps what the challenge's account still holds. Returns the amount to
/// transfer to the setter; the caller then destroys the challenge and its
/// submissions.
pub fn handler(ctx: &mut SetterClose, now: i64) -> (r: Result<u64, RiddleRushError>)
    requires
        old(ctx).challenge_account.wf(),
    ensures
        match r {
            Ok(amount) => {
                &&& setter_close_error(old(ctx), now as int) is None
                &&& old(ctx).challenge_account.spec_phase(now as int) == Phase::Closed
                &&& amount == old(ctx).challenge_lamports
                &&& *final(ctx) == (SetterClose { challenge_lamports: 0, ..*old(ctx) })
            },
            Err(e) => setter_close_error(old(ctx), now as int) == Some(e) && *final(ctx) == *old(
                ctx,
            ),
        },
{
    if ctx.setter != ctx.challenge_account.setter {
        return Err(RiddleRushError::NotTheSetter);
    }
    if now <= ctx.challenge_account.claim_deadline {
        return Err(RiddleRushError::WithdrawTooEarly);
    }
    let amount = ctx.challenge_lamports;
    ctx.challenge_lamports = 0;
    Ok(amount)
}

} // verus!
