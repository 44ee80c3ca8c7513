use vstd::prelude::*;

use crate::state::{GlobalConfig, Identity};

verus! {

/// The accounts that creating the global counter reads.
pub struct Initialize {
    /// The bootstrap authority.
    pub authority: Identity,
}

/// Creates the global counter of challenge identifiers, at zero.
pub fn handler(ctx: &Initialize) -> (r: GlobalConfig)
    ensures
        r.next_challenge_id == 0,
{
    GlobalConfig { next_challenge_id: 0 }
}

} // verus!
