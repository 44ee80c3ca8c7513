use vstd::prelude::*;
use vstd::utf8::encode_utf8;

verus! {

/// An authenticated public identity: 32 opaque bytes.
#[derive(Clone, Copy)]
pub struct Identity {
    pub bytes: [u8; 32],
}

impl Identity {
    pub fn new(bytes: [u8; 32]) -> (r: Identity)
        ensures
            r.bytes@ == bytes@,
    {
        Identity { bytes }
    }
}

/// Whether two byte arrays of the same width hold the same bytes.
pub fn same_bytes(a: &[u8; 32], b: &[u8; 32]) -> (r: bool)
    ensures
        r == (a@ == b@),
{
    let mut i: usize = 0;
    while i < 32
        invariant
            i <= 32,
            a@.len() == 32,
            b@.len() == 32,
            forall|k: int| 0 <= k < i ==> a@[k] == b@[k],
        decreases 32 - i,
    {
        if a[i] != b[i] {
            return false;
        }
        i = i + 1;
    }
    assert(a@ =~= b@);
    true
}

impl PartialEq for Identity {
    fn eq(&self, other: &Identity) -> (r: bool) {
        same_bytes(&self.bytes, &other.bytes)
    }
}

impl vstd::std_specs::cmp::PartialEqSpecImpl for Identity {
    open spec fn obeys_eq_spec() -> bool {
        true
    }

    open spec fn eq_spec(&self, other: &Identity) -> bool {
        self.bytes@ == other.bytes@
    }
}

/// Length in bytes of the UTF-8 encoding of a text.
pub open spec fn byte_len(s: Seq<char>) -> int {
    encode_utf8(s).len() as int
}

/// Whether two identities are the same.
pub open spec fn same_identity(a: Identity, b: Identity) -> bool {
    a.bytes@ == b.bytes@
}

/// Process-wide configuration: the allocator of challenge identifiers.
#[derive(Clone, Copy)]
pub struct GlobalConfig {
    pub next_challenge_id: u64,
}

/// A riddle with its entry fee, its deadlines and its pot.
pub struct ChallengeAccount {
    pub id: u64,
    pub question: String,
    /// Empty until the solution is revealed.
    pub solution: String,
    pub submission_deadline: i64,
    pub answer_reveal_deadline: i64,
    pub claim_deadline: i64,
    pub entry_fee: u64,
    pub setter: Identity,
    /// Every unit that ever entered the challenge; claims never decrease it.
    pub pot: u64,
    pub setter_cut_claimed: bool,
    /// How many submissions revealed the solution.
    pub correct_submissions: u64,
}

/// One player's sealed answer to a challenge.
#[derive(Clone, Copy)]
pub struct SubmissionAccount {
    pub challenge_id: u64,
    pub submitter: Identity,
    pub encrypted_answer: [u8; 32],
    pub revealed: bool,
    pub answer_correct: bool,
    pub claimed: bool,
}

impl ChallengeAccount {
    /// A copy of this account.
    pub fn duplicate(&self) -> (r: ChallengeAccount)
        ensures
            r == *self,
    {
        ChallengeAccount {
            id: self.id,
            question: self.question.clone(),
            solution: self.solution.clone(),
            submission_deadline: self.submission_deadline,
            answer_reveal_deadline: self.answer_reveal_deadline,
            claim_deadline: self.claim_deadline,
            entry_fee: self.entry_fee,
            setter: self.setter,
            pot: self.pot,
            setter_cut_claimed: self.setter_cut_claimed,
            correct_submissions: self.correct_submissions,
        }
    }
}

impl SubmissionAccount {
    /// Only a revealed submission can be correct.
    pub open spec fn wf(&self) -> bool {
        self.answer_correct ==> self.revealed
    }
}

/// Whether every flag set in `before` is still set in `after`.
pub open spec fn flags_rise(before: SubmissionAccount, after: SubmissionAccount) -> bool {
    &&& before.revealed ==> after.revealed
    &&& before.answer_correct ==> after.answer_correct
    &&& before.claimed ==> after.claimed
}

/// The phase a challenge is in at a given time.
#[derive(Debug, Clone, Copy, PartialEq, Eq, Structural)]
pub enum Phase {
    Submission,
    AwaitingSolution,
    Reveal,
    Claim,
    Closed,
}

/// The phase of a challenge with these deadlines and this solution at time `now`.
pub open spec fn phase_of(
    submission_deadline: int,
    answer_reveal_deadline: int,
    claim_deadline: int,
    solution: Seq<char>,
    now: int,
) -> Phase {
    if now < submission_deadline {
        Phase::Submission
    } else if now < answer_reveal_deadline {
        if solution.len() == 0 {
            Phase::AwaitingSolution
        } else {
            Phase::Reveal
        }
    } else if now < claim_deadline {
        Phase::Claim
    } else {
        Phase::Closed
    }
}

impl ChallengeAccount {
    /// The deadlines are strictly ordered and the entry fee is positive.
    pub open spec fn wf(&self) -> bool {
        &&& self.submission_deadline < self.answer_reveal_deadline
        &&& self.answer_reveal_deadline < self.claim_deadline
        &&& self.entry_fee > 0
    }

    pub open spec fn spec_phase(&self, now: int) -> Phase {
        phase_of(
            self.submission_deadline as int,
            self.answer_reveal_deadline as int,
            self.claim_deadline as int,
            self.solution@,
            now,
        )
    }

    /// The phase of this challenge at time `now`.
    pub fn phase(&self, now: i64) -> (r: Phase)
        ensures
            r == self.spec_phase(now as int),
    {
        if now < self.submission_deadline {
            Phase::Submission
        } else if now < self.answer_reveal_deadline {
            if self.solution.as_str().is_empty() {
                Phase::AwaitingSolution
            } else {
                Phase::Reveal
            }
        } else if now < self.claim_deadline {
            Phase::Claim
        } else {
            Phase::Closed
        }
    }
}

} // verus!
