use vstd::prelude::*;

verus! {

/// Maximum length, in bytes, of a challenge's question and of its solution.
pub const MAX_QUESTION_LENGTH: usize = 256;

/// Percentage of the pot that goes to the setter.
pub const SETTER_CUT: u64 = 10;

} // verus!
