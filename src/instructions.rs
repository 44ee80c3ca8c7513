//! One handler per operation, each over the accounts that the operation reads
//! and writes.
pub mod challenge_solution_reveal;
pub mod create_challenge;
pub mod create_submission;
pub mod initialize;
pub mod setter_claim;
pub mod setter_close_challenge;
pub mod submission_solution_reveal;
pub mod submitter_claim;
