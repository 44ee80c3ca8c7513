use vstd::prelude::*;

verus! {

/// Every failure an operation can report. An operation that fails changes nothing.
#[derive(Debug, Clone, Copy, PartialEq, Eq, Structural)]
pub enum RiddleRushError {
    SubmissionDeadlinePassed,
    AnswerRevealDeadlinBeforeSubmissionDeadline,
    AnswerRevealDeadlinBeforeClaimDeadline,
    QuestionTooLong,
    SolutionTooLong,
    ZeroEntryFee,
    InvalidExpression,
    WithdrawTooEarly,
    WithdrawTooLate,
    InsufficientFunds,
    SolutionRevealDeadlineNotMet,
    SubmissionAlreadyRevealed,
    NotTheSubmitter,
    SolutionNotRevealed,
    AnswerMismatch,
    ZeroCorrectSubmissions,
    NotTheSetter,
    NotCorrect,
    AlreadyClaimed,
    AccountAlreadyInUse,
    AccountNotInitialized,
    AnswerRevealDeadlinePassed,
}

impl RiddleRushError {
    /// The human-readable message of this error.
    pub fn message(&self) -> String {
        let s = match self {
            RiddleRushError::SubmissionDeadlinePassed => "The submission deadline has already passed.",
            RiddleRushError::AnswerRevealDeadlinBeforeSubmissionDeadline =>
                "The answer reveal deadline must be after the submission deadline.",
            RiddleRushError::AnswerRevealDeadlinBeforeClaimDeadline =>
                "The answer reveal deadline must be before the claim deadline.",
            RiddleRushError::QuestionTooLong => "The question is too long, max length: 256",
            RiddleRushError::SolutionTooLong => "The solution is too long, max length: 256",
            RiddleRushError::ZeroEntryFee => "The entry fee must be greater than zero.",
            RiddleRushError::InvalidExpression => "Invalid mathematical expression.",
            RiddleRushError::WithdrawTooEarly =>
                "User attempting to withdraw before answer reveal deadline.",
            RiddleRushError::WithdrawTooLate =>
                "User attempting to withdraw after prize claim deadline.",
            RiddleRushError::InsufficientFunds => "Insufficient funds in the challenge account.",
            RiddleRushError::SolutionRevealDeadlineNotMet => "Solution reveal deadline has not been met.",
            RiddleRushError::SubmissionAlreadyRevealed => "This submission has already been revealed.",
            RiddleRushError::NotTheSubmitter => "The transaction sender is not the submitter.",
            RiddleRushError::SolutionNotRevealed => "The solution has not been revealed yet.",
            RiddleRushError::AnswerMismatch => "The answer doesn't match the encrypted answer.",
            RiddleRushError::ZeroCorrectSubmissions => "No correct submissions.",
            RiddleRushError::NotTheSetter => "The transaction sender is not the setter.",
            RiddleRushError::NotCorrect => "This submission did not reveal the correct answer.",
            RiddleRushError::AlreadyClaimed => "This share has already been claimed.",
            RiddleRushError::AccountAlreadyInUse => "The account already exists.",
            RiddleRushError::AccountNotInitialized => "The account does not exist.",
            RiddleRushError::AnswerRevealDeadlinePassed => "The answer reveal deadline has passed.",
        };
        s.to_string()
    }
}

} // verus!
