//! Settlement core of a commit–reveal riddle game.
//!
//! A setter opens a challenge (a riddle with an entry fee and three ordered
//! deadlines), players commit to answers, the solution is revealed, players
//! reveal their answers, and the pot is split between the setter and the
//! players who answered correctly.
pub mod accounting;
pub mod commitment;
pub mod constants;
pub mod error;
pub mod expression;
pub mod instructions;
pub mod program;
pub mod state;

pub use constants::{MAX_QUESTION_LENGTH, SETTER_CUT};
pub use error::RiddleRushError;
pub use state::{ChallengeAccount, GlobalConfig, Identity, Phase, SubmissionAccount};
pub use program::{ChallengeEntry, RiddleRush};
pub use commitment::{commit, verify_commit};
pub use expression::{parse_expression, Expr, ExpressionError};
