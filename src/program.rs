use vstd::prelude::*;
use vstd::arithmetic::div_mod::lemma_div_by_multiple;
use vstd::seq_lib::lemma_update_is_remove_insert;

use crate::accounting::{
    lemma_no_over_distribution,
    lemma_setter_cut_bounded,
    setter_cut_of,
    share_of,
    winners_of,
};
use crate::error::RiddleRushError;
use crate::expression::ExpressionError;
use crate::instructions::challenge_solution_reveal::{self, solution_reveal_result, ChallengeSolutionReveal};
use crate::instructions::create_challenge::{self, create_challenge_error, CreateChallenge};
use crate::instructions::create_submission::{self, create_submission_error, CreateSubmission};
use crate::instructions::initialize::{self, Initialize};
use crate::instructions::setter_claim::{self, setter_claim_error, setter_claim_post, SetterClaim};
use crate::instructions::setter_close_challenge::{self, setter_close_error, SetterClose};
use crate::instructions::submission_solution_reveal::{
    self,
    submission_reveal_error,
    submission_reveal_post,
    SubmissionSolutionReveal,
};
use crate::instructions::submitter_claim::{
    self,
    submitter_claim_error,
    submitter_claim_post,
    SubmitterClaim,
};
use crate::state::{same_identity, ChallengeAccount, GlobalConfig, Identity, SubmissionAccount};

verus! {

/// How many of `subs` revealed the solution.
pub open spec fn correct_count(subs: Seq<SubmissionAccount>) -> int
    decreases subs.len(),
{
    if subs.len() == 0 {
        0
    } else {
        correct_count(subs.drop_last()) + if subs.last().answer_correct {
            1int
        } else {
            0int
        }
    }
}

proof fn lemma_correct_count_bounded(subs: Seq<SubmissionAccount>)
    ensures
        0 <= correct_count(subs) <= subs.len(),
    decreases subs.len(),
{
    if subs.len() > 0 {
        lemma_correct_count_bounded(subs.drop_last());
    }
}

proof fn lemma_correct_count_update(subs: Seq<SubmissionAccount>, j: int, s: SubmissionAccount)
    requires
        0 <= j < subs.len(),
    ensures
        correct_count(subs.update(j, s)) == correct_count(subs) - (if subs[j].answer_correct {
            1int
        } else {
            0int
        }) + (if s.answer_correct {
            1int
        } else {
            0int
        }),
    decreases subs.len(),
{
    let u = subs.update(j, s);
    if j == subs.len() - 1 {
        assert(u.drop_last() =~= subs.drop_last());
    } else {
        assert(u.drop_last() =~= subs.drop_last().update(j, s));
        lemma_correct_count_update(subs.drop_last(), j, s);
    }
}

/// How many of `subs` have been paid their share.
pub open spec fn claimed_count(subs: Seq<SubmissionAccount>) -> int
    decreases subs.len(),
{
    if subs.len() == 0 {
        0
    } else {
        claimed_count(subs.drop_last()) + if subs.last().claimed {
            1int
        } else {
            0int
        }
    }
}

proof fn lemma_claimed_count_update(subs: Seq<SubmissionAccount>, j: int, s: SubmissionAccount)
    requires
        0 <= j < subs.len(),
    ensures
        claimed_count(subs.update(j, s)) == claimed_count(subs) - (if subs[j].claimed {
            1int
        } else {
            0int
        }) + (if s.claimed {
            1int
        } else {
            0int
        }),
    decreases subs.len(),
{
    let u = subs.update(j, s);
    if j == subs.len() - 1 {
        assert(u.drop_last() =~= subs.drop_last());
    } else {
        assert(u.drop_last() =~= subs.drop_last().update(j, s));
        lemma_claimed_count_update(subs.drop_last(), j, s);
    }
}

proof fn lemma_claimed_count_bounded(subs: Seq<SubmissionAccount>)
    ensures
        0 <= claimed_count(subs) <= subs.len(),
    decreases subs.len(),
{
    if subs.len() > 0 {
        lemma_claimed_count_bounded(subs.drop_last());
    }
}

proof fn lemma_claimed_none(subs: Seq<SubmissionAccount>)
    requires
        claimed_count(subs) == 0,
    ensures
        forall|j: int| 0 <= j < subs.len() ==> !(#[trigger] subs[j]).claimed,
    decreases subs.len(),
{
    if subs.len() > 0 {
        lemma_claimed_count_bounded(subs.drop_last());
        lemma_claimed_none(subs.drop_last());
        assert forall|j: int| 0 <= j < subs.len() implies !(#[trigger] subs[j]).claimed by {
            if j < subs.len() - 1 {
                assert(subs[j] == subs.drop_last()[j]);
            }
        }
    }
}

proof fn lemma_claimed_within_correct(subs: Seq<SubmissionAccount>)
    requires
        forall|j: int| 0 <= j < subs.len() && (#[trigger] subs[j]).claimed ==> subs[j].answer_correct,
    ensures
        claimed_count(subs) <= correct_count(subs),
    decreases subs.len(),
{
    if subs.len() > 0 {
        let d = subs.drop_last();
        assert forall|j: int| 0 <= j < d.len() && (#[trigger] d[j]).claimed implies d[j].answer_correct by {
            assert(d[j] == subs[j]);
        }
        lemma_claimed_within_correct(d);
    }
}

/// `new` is `old` with the entry at `k` holding `account`, `lamports` and
/// `submissions` instead.
pub open spec fn replaced(
    old: Seq<ChallengeEntry>,
    new: Seq<ChallengeEntry>,
    k: int,
    account: ChallengeAccount,
    lamports: u64,
    submissions: Seq<SubmissionAccount>,
) -> bool {
    &&& new.len() == old.len()
    &&& forall|i: int| 0 <= i < old.len() && i != k ==> new[i] == old[i]
    &&& new[k].account == account
    &&& new[k].lamports == lamports
    &&& new[k].submissions@ == submissions
}

/// A challenge together with the value its account holds and its submissions.
pub struct ChallengeEntry {
    pub account: ChallengeAccount,
    pub lamports: u64,
    pub submissions: Vec<SubmissionAccount>,
}

impl ChallengeEntry {
    /// The invariants of one challenge: the pot holds one entry fee from the
    /// setter and one from each submitter; the held value never exceeds the
    /// pot; the submissions belong to this challenge and to distinct
    /// submitters; only a revealed submission is correct, and the count of
    /// correct submissions is exact.
    pub open spec fn wf(&self) -> bool {
        let subs = self.submissions@;
        &&& self.account.wf()
        &&& self.account.pot == (1 + subs.len()) * self.account.entry_fee
        &&& self.lamports <= self.account.pot
        &&& forall|j: int| 0 <= j < subs.len() ==> #[trigger] subs[j].challenge_id == self.account.id
        &&& forall|j: int| 0 <= j < subs.len() && #[trigger] subs[j].answer_correct ==> subs[j].revealed
        &&& forall|i: int, j: int|
            0 <= i < subs.len() && 0 <= j < subs.len() && i != j ==> !same_identity(
                #[trigger] subs[i].submitter,
                #[trigger] subs[j].submitter,
            )
        &&& self.account.correct_submissions == correct_count(subs)
    }

    /// What has been paid out of the challenge's account: the setter's cut, if
    /// claimed, and one share for each submission that claimed.
    pub open spec fn paid_out(&self) -> int {
        (if self.account.setter_cut_claimed {
            setter_cut_of(self.account.pot as int)
        } else {
            0
        }) + claimed_count(self.submissions@) * share_of(
            self.account.pot as int,
            self.account.entry_fee as int,
            self.account.correct_submissions as int,
        )
    }

    pub open spec fn claims_started(&self) -> bool {
        self.account.setter_cut_claimed || claimed_count(self.submissions@) > 0
    }

    /// The accounting of the challenge at a clock reading: the account holds
    /// the pot less what has been paid out; claims start only after the
    /// answer reveal deadline; and while some submission is correct, only
    /// correct ones have claimed.
    pub open spec fn balanced(&self, clock: int) -> bool {
        let subs = self.submissions@;
        &&& self.lamports == self.account.pot - self.paid_out()
        &&& self.claims_started() ==> clock > self.account.answer_reveal_deadline
        &&& forall|j: int|
            0 <= j < subs.len() && (#[trigger] subs[j]).claimed && self.account.correct_submissions
                > 0 ==> subs[j].answer_correct
    }

    /// Where the submission of `who` stands, if there is one.
    pub open spec fn submission_index(&self, who: Identity) -> Option<int> {
        if exists|j: int|
            0 <= j < self.submissions@.len() && same_identity(
                #[trigger] self.submissions@[j].submitter,
                who,
            ) {
            Some(
                choose|j: int|
                    0 <= j < self.submissions@.len() && same_identity(
                        #[trigger] self.submissions@[j].submitter,
                        who,
                    ),
            )
        } else {
            None
        }
    }

    /// The submission of `who`, if there is one.
    pub fn submission(&self, who: &Identity) -> (r: Option<&SubmissionAccount>)
        requires
            self.wf(),
        ensures
            match self.submission_index(*who) {
                None => r is None,
                Some(j) => r == Some(&self.submissions@[j]),
            },
    {
        match self.find_submission(who) {
            None => None,
            Some(j) => Some(&self.submissions[j]),
        }
    }

    fn find_submission(&self, who: &Identity) -> (r: Option<usize>)
        requires
            self.wf(),
        ensures
            r matches Some(j) ==> self.submission_index(*who) == Some(j as int),
            r is None ==> self.submission_index(*who) is None,
    {
        let mut j: usize = 0;
        while j < self.submissions.len()
            invariant
                self.wf(),
                j <= self.submissions@.len(),
                forall|i: int| 0 <= i < j ==> !same_identity(#[trigger] self.submissions@[i].submitter, *who),
            decreases self.submissions@.len() - j,
        {
            if self.submissions[j].submitter == *who {
                proof {
                    let c = choose|i: int|
                        0 <= i < self.submissions@.len() && same_identity(
                            #[trigger] self.submissions@[i].submitter,
                            *who,
                        );
                    if c != j {
                        assert(!same_identity(self.submissions@[c].submitter, self.submissions@[j as int].submitter));
                    }
                }
                return Some(j);
            }
            j = j + 1;
        }
        None
    }
}

/// The whole game: the global counter, once initialized, and every open challenge.
pub struct RiddleRush {
    pub global_config: Option<GlobalConfig>,
    pub challenges: Vec<ChallengeEntry>,
    /// The time of the latest operation that succeeded.
    pub clock: i64,
}

impl RiddleRush {
    /// The invariants of the game: every challenge is well formed and
    /// balanced at the clock, their
    /// identifiers are distinct and below the counter.
    pub open spec fn wf(&self) -> bool {
        let ch = self.challenges@;
        &&& forall|k: int| 0 <= k < ch.len() ==> (#[trigger] ch[k]).wf()
        &&& forall|k: int| 0 <= k < ch.len() ==> (#[trigger] ch[k]).balanced(self.clock as int)
        &&& forall|i: int, j: int|
            0 <= i < ch.len() && 0 <= j < ch.len() && i != j ==> (#[trigger] ch[i]).account.id
                != (#[trigger] ch[j]).account.id
        &&& match self.global_config {
            None => ch.len() == 0,
            Some(g) => forall|k: int| 0 <= k < ch.len() ==> (#[trigger] ch[k]).account.id < g.next_challenge_id,
        }
    }

    /// Where the challenge `id` stands, if it is open.
    pub open spec fn challenge_index(&self, id: u64) -> Option<int> {
        if exists|k: int| 0 <= k < self.challenges@.len() && (#[trigger] self.challenges@[k]).account.id == id {
            Some(choose|k: int| 0 <= k < self.challenges@.len() && (#[trigger] self.challenges@[k]).account.id == id)
        } else {
            None
        }
    }

    /// In every well-formed game, each challenge's pot is one entry fee from
    /// the setter plus one from each of its submissions.
    pub proof fn lemma_pot_counts_submissions(&self, k: int)
        requires
            self.wf(),
            0 <= k < self.challenges@.len(),
        ensures
            self.challenges@[k].account.pot == (1 + self.challenges@[k].submissions@.len())
                * self.challenges@[k].account.entry_fee,
            self.challenges@[k].account.correct_submissions <= self.challenges@[k].submissions@.len(),
    {
        assert(self.challenges@[k].wf());
        lemma_correct_count_bounded(self.challenges@[k].submissions@);
    }

    /// No over-distribution: in every well-formed game, the setter's cut and
    /// the shares paid from a challenge never exceed its pot, at most as many
    /// submitters as share the pot have been paid, and a claim that the rules
    /// admit never finds the challenge's account short.
    pub proof fn lemma_no_over_distribution_in_game(&self, k: int)
        requires
            self.wf(),
            0 <= k < self.challenges@.len(),
        ensures
            ({
                let e = self.challenges@[k];
                let c = e.account;
                let winners = winners_of(c.pot as int, c.entry_fee as int, c.correct_submissions as int);
                let paid = claimed_count(e.submissions@);
                &&& 0 <= e.paid_out() <= c.pot
                &&& paid > 0 ==> paid <= winners
                &&& !c.setter_cut_claimed ==> e.lamports >= setter_cut_of(c.pot as int)
                &&& paid < winners ==> e.lamports >= share_of(
                    c.pot as int,
                    c.entry_fee as int,
                    c.correct_submissions as int,
                )
            }),
    {
        let e = self.challenges@[k];
        let c = e.account;
        let subs = e.submissions@;
        assert(e.wf() && e.balanced(self.clock as int));
        let pot = c.pot as int;
        let fee = c.entry_fee as int;
        let correct = c.correct_submissions as int;
        let winners = winners_of(pot, fee, correct);
        let paid = claimed_count(subs);
        let share = share_of(pot, fee, correct);
        lemma_claimed_count_bounded(subs);
        lemma_correct_count_bounded(subs);
        lemma_setter_cut_bounded(pot);
        if correct > 0 {
            lemma_claimed_within_correct(subs);
        } else {
            lemma_div_by_multiple(1 + subs.len() as int, fee);
            assert(pot / fee == 1 + subs.len());
        }
        assert(winners >= paid);
        if winners >= 1 {
            lemma_no_over_distribution(pot, fee, correct, paid);
            if paid < winners {
                lemma_no_over_distribution(pot, fee, correct, paid + 1);
                assert((paid + 1) * share == paid * share + share) by (nonlinear_arith);
            }
            assert(share >= 0) by (nonlinear_arith)
                requires
                    share == (pot - setter_cut_of(pot)) / winners,
                    pot - setter_cut_of(pot) >= 0,
                    winners >= 1,
            ;
            assert(paid * share >= 0) by (nonlinear_arith)
                requires
                    paid >= 0,
                    share >= 0,
            ;
        } else {
            assert(paid == 0);
            assert(paid * share == 0) by (nonlinear_arith)
                requires
                    paid == 0,
            ;
        }
    }

    /// A game with nothing in it, not yet initialized.
    pub fn new() -> (r: RiddleRush)
        ensures
            r.wf(),
            r.clock == i64::MIN,
            r.global_config is None,
            r.challenges@.len() == 0,
    {
        RiddleRush { global_config: None, challenges: Vec::new(), clock: i64::MIN }
    }

    fn find_challenge(&self, id: u64) -> (r: Option<usize>)
        requires
            self.wf(),
        ensures
            r matches Some(k) ==> self.challenge_index(id) == Some(k as int),
            r is None ==> self.challenge_index(id) is None,
    {
        let mut k: usize = 0;
        while k < self.challenges.len()
            invariant
                self.wf(),
                k <= self.challenges@.len(),
                forall|i: int| 0 <= i < k ==> (#[trigger] self.challenges@[i]).account.id != id,
            decreases self.challenges@.len() - k,
        {
            if self.challenges[k].account.id == id {
                proof {
                    let c = choose|i: int| 0 <= i < self.challenges@.len() && (#[trigger] self.challenges@[i]).account.id == id;
                    if c != k {
                        assert(self.challenges@[c].account.id != self.challenges@[k as int].account.id);
                    }
                }
                return Some(k);
            }
            k = k + 1;
        }
        None
    }

    /// The open challenge `id`, if there is one.
    pub fn challenge(&self, id: u64) -> (r: Option<&ChallengeEntry>)
        requires
            self.wf(),
        ensures
            match self.challenge_index(id) {
                None => r is None,
                Some(k) => r == Some(&self.challenges@[k]),
            },
    {
        match self.find_challenge(id) {
            None => None,
            Some(k) => Some(&self.challenges[k]),
        }
    }

    /// Creates the global counter, at zero, for the bootstrap `authority`.
    pub fn initialize(&mut self, authority: Identity) -> (r: Result<(), RiddleRushError>)
        requires
            old(self).wf(),
        ensures
            final(self).wf(),
            final(self).challenges == old(self).challenges,
            final(self).clock == old(self).clock,
            old(self).global_config is Some ==> r == Err::<(), RiddleRushError>(RiddleRushError::AccountAlreadyInUse)
                && final(self).global_config == old(self).global_config,
            old(self).global_config is None ==> r is Ok && final(self).global_config == Some(
                GlobalConfig { next_challenge_id: 0 },
            ),
    {
        if self.global_config.is_some() {
            return Err(RiddleRushError::AccountAlreadyInUse);
        }
        let ctx = Initialize { authority };
        self.global_config = Some(initialize::handler(&ctx));
        Ok(())
    }

    /// Opens a challenge set by `caller`. Returns its identifier; the caller
    /// transfers `entry_fee` from the setter to the challenge's account.
    /// `question_value` is what evaluating `question` gave.
    pub fn create_challenge(
        &mut self,
        caller: Identity,
        now: i64,
        question: String,
        submission_deadline: i64,
        answer_reveal_deadline: i64,
        claim_deadline: i64,
        entry_fee: u64,
        question_value: &Result<String, ExpressionError>,
    ) -> (r: Result<u64, RiddleRushError>)
        requires
            old(self).wf(),
            now >= old(self).clock,
            old(self).global_config matches Some(g) ==> g.next_challenge_id < u64::MAX,
        ensures
            final(self).wf(),
            r is Ok ==> final(self).clock == now,
            match old(self).global_config {
                None => r == Err::<u64, RiddleRushError>(RiddleRushError::AccountNotInitialized)
                    && *final(self) == *old(self),
                Some(g) => match create_challenge_error(
                    question@,
                    submission_deadline as int,
                    answer_reveal_deadline as int,
                    claim_deadline as int,
                    entry_fee as int,
                    now as int,
                    *question_value,
                ) {
                    Some(e) => r == Err::<u64, RiddleRushError>(e) && *final(self) == *old(self),
                    None => {
                        let c = final(self).challenges@.last().account;
                        &&& r == Ok::<u64, RiddleRushError>(g.next_challenge_id)
                        &&& final(self).global_config == Some(
                            (GlobalConfig { next_challenge_id: (g.next_challenge_id + 1) as u64 }),
                        )
                        &&& final(self).challenges@.drop_last() == old(self).challenges@
                        &&& final(self).challenges@.len() == old(self).challenges@.len() + 1
                        &&& create_challenge::is_new_challenge(
                            c,
                            g.next_challenge_id,
                            caller,
                            question@,
                            submission_deadline,
                            answer_reveal_deadline,
                            claim_deadline,
                            entry_fee,
                        )
                        &&& final(self).challenges@.last().lamports == entry_fee
                        &&& final(self).challenges@.last().submissions@.len() == 0
                    },
                },
            },
    {
        let next = match &self.global_config {
            None => {
                return Err(RiddleRushError::AccountNotInitialized);
            },
            Some(g) => g.next_challenge_id,
        };
        let mut ctx = CreateChallenge {
            setter: caller,
            global_config: GlobalConfig { next_challenge_id: next },
        };
        match create_challenge::handler(
            &mut ctx,
            now,
            question,
            submission_deadline,
            answer_reveal_deadline,
            claim_deadline,
            entry_fee,
            question_value,
        ) {
            Err(e) => Err(e),
            Ok(account) => {
                let ghost before = self.challenges@;
                let ghost new_account = account;
                let id = account.id;
                self.global_config = Some(ctx.global_config);
                self.clock = now;
                self.challenges.push(
                    ChallengeEntry { account, lamports: entry_fee, submissions: Vec::new() },
                );
                proof {
                    assert(self.challenges@.drop_last() =~= before);
                    assert forall|k: int| 0 <= k < self.challenges@.len() implies (#[trigger] self.challenges@[k]).wf() by {
                        if k < before.len() {
                            assert(self.challenges@[k] == before[k]);
                        } else {
                            let e = self.challenges@[k];
                            assert(e.account == new_account);
                            assert(e.submissions@.len() == 0);
                            assert(correct_count(e.submissions@) == 0);
                            assert(e.account.pot == (1 + e.submissions@.len()) * e.account.entry_fee) by (nonlinear_arith)
                                requires
                                    e.account.pot == e.account.entry_fee,
                                    e.submissions@.len() == 0,
                            ;
                        }
                    }
                }
                Ok(id)
            },
        }
    }

    /// Records `caller`'s sealed answer to challenge `challenge_id`. Returns
    /// the entry fee, which the caller transfers from the submitter to the
    /// challenge's account.
    pub fn create_submission(
        &mut self,
        caller: Identity,
        now: i64,
        challenge_id: u64,
        encrypted_answer: [u8; 32],
    ) -> (r: Result<u64, RiddleRushError>)
        requires
            old(self).wf(),
            now >= old(self).clock,
            old(self).challenge_index(challenge_id) matches Some(k) ==> old(self).challenges@[k].account.pot
                + old(self).challenges@[k].account.entry_fee <= u64::MAX,
        ensures
            final(self).wf(),
            r is Ok ==> final(self).clock == now,
            final(self).global_config == old(self).global_config,
            match old(self).challenge_index(challenge_id) {
                None => r == Err::<u64, RiddleRushError>(RiddleRushError::AccountNotInitialized)
                    && *final(self) == *old(self),
                Some(k) => {
                    let e = old(self).challenges@[k];
                    let ctx = (CreateSubmission {
                        submitter: caller,
                        challenge_account: e.account,
                        challenge_lamports: e.lamports,
                    });
                    if e.submission_index(caller) is Some {
                        r == Err::<u64, RiddleRushError>(RiddleRushError::AccountAlreadyInUse)
                            && *final(self) == *old(self)
                    } else {
                        match create_submission_error(&ctx, now as int) {
                            Some(err) => r == Err::<u64, RiddleRushError>(err) && *final(self)
                                == *old(self),
                            None => {
                                let post = create_submission::create_submission_post(ctx);
                                &&& r == Ok::<u64, RiddleRushError>(e.account.entry_fee)
                                &&& replaced(
                                    old(self).challenges@,
                                    final(self).challenges@,
                                    k,
                                    post.challenge_account,
                                    post.challenge_lamports,
                                    e.submissions@.push(
                                        (SubmissionAccount {
                                            challenge_id: e.account.id,
                                            submitter: caller,
                                            encrypted_answer,
                                            revealed: false,
                                            answer_correct: false,
                                            claimed: false,
                                        }),
                                    ),
                                )
                            },
                        }
                    }
                },
            },
    {
        let k = match self.find_challenge(challenge_id) {
            None => {
                return Err(RiddleRushError::AccountNotInitialized);
            },
            Some(k) => k,
        };
        if self.challenges[k].find_submission(&caller).is_some() {
            return Err(RiddleRushError::AccountAlreadyInUse);
        }
        let mut ctx = CreateSubmission {
            submitter: caller,
            challenge_account: self.challenges[k].account.duplicate(),
            challenge_lamports: self.challenges[k].lamports,
        };
        let s = match create_submission::handler(&mut ctx, now, encrypted_answer) {
            Err(e) => {
                return Err(e);
            },
            Ok(s) => s,
        };
        let fee = ctx.challenge_account.entry_fee;
        let ghost before = self.challenges@;
        let ghost old_clock = self.clock;
        let entry = self.challenges.remove(k);
        let mut submissions = entry.submissions;
        let ghost subs_before = submissions@;
        submissions.push(s);
        let new_entry = ChallengeEntry {
            account: ctx.challenge_account,
            lamports: ctx.challenge_lamports,
            submissions,
        };
        self.challenges.insert(k, new_entry);
        self.clock = now;
        proof {
            lemma_update_is_remove_insert(before, k as int, new_entry);
            assert(self.challenges@ =~= before.update(k as int, new_entry));
            let subs = new_entry.submissions@;
            assert(subs.drop_last() =~= subs_before);
            assert(new_entry.account.pot == (1 + subs.len()) * new_entry.account.entry_fee) by (nonlinear_arith)
                requires
                    new_entry.account.pot == before[k as int].account.pot + before[k as int].account.entry_fee,
                    before[k as int].account.pot == (1 + subs_before.len()) * before[k as int].account.entry_fee,
                    new_entry.account.entry_fee == before[k as int].account.entry_fee,
                    subs.len() == subs_before.len() + 1,
            ;
            assert forall|i: int, j: int|
                0 <= i < subs.len() && 0 <= j < subs.len() && i != j implies !same_identity(
                    #[trigger] subs[i].submitter,
                    #[trigger] subs[j].submitter,
                ) by {
                if i < subs_before.len() && j < subs_before.len() {
                    assert(subs[i] == subs_before[i] && subs[j] == subs_before[j]);
                } else if i < subs_before.len() {
                    assert(subs[i] == subs_before[i]);
                } else {
                    assert(subs[j] == subs_before[j]);
                }
            }
            assert forall|j: int| 0 <= j < subs.len() implies #[trigger] subs[j].challenge_id == new_entry.account.id by {
                if j < subs_before.len() {
                    assert(subs[j] == subs_before[j]);
                }
            }
            assert forall|j: int| 0 <= j < subs.len() && #[trigger] subs[j].answer_correct implies subs[j].revealed by {
                if j < subs_before.len() {
                    assert(subs[j] == subs_before[j]);
                }
            }
            assert forall|i: int| 0 <= i < self.challenges@.len() implies (#[trigger] self.challenges@[i]).wf() by {
                if i != k {
                    assert(self.challenges@[i] == before[i]);
                }
            }
            let e_old = before[k as int];
            assert(e_old.balanced(old_clock as int));
            assert(!e_old.claims_started());
            lemma_claimed_count_bounded(subs_before);
            lemma_claimed_none(subs_before);
            assert(claimed_count(subs) == claimed_count(subs_before));
            assert forall|j: int|
                0 <= j < subs.len() && (#[trigger] subs[j]).claimed && new_entry.account.correct_submissions
                    > 0 implies subs[j].answer_correct by {
                if j < subs_before.len() {
                    assert(subs[j] == subs_before[j]);
                }
            }
            assert(e_old.paid_out() == 0) by {
                let sh = share_of(
                    e_old.account.pot as int,
                    e_old.account.entry_fee as int,
                    e_old.account.correct_submissions as int,
                );
                assert(claimed_count(subs_before) * sh == 0) by (nonlinear_arith)
                    requires
                        claimed_count(subs_before) == 0,
                ;
            }
            assert(new_entry.paid_out() == 0) by {
                let sh = share_of(
                    new_entry.account.pot as int,
                    new_entry.account.entry_fee as int,
                    new_entry.account.correct_submissions as int,
                );
                assert(claimed_count(subs) * sh == 0) by (nonlinear_arith)
                    requires
                        claimed_count(subs) == 0,
                ;
            }
            assert(new_entry.balanced(self.clock as int));
            assert forall|i: int| 0 <= i < self.challenges@.len() implies (#[trigger] self.challenges@[i]).balanced(self.clock as int) by {
                if i != k {
                    assert(self.challenges@[i] == before[i]);
                    assert(before[i].balanced(old_clock as int));
                }
            }
        }
        Ok(fee)
    }

    /// Writes back the challenge at `k` with a new account and held value,
    /// and `s` as its submission at `j`, if `j` is given.
    fn write_back(
        &mut self,
        k: usize,
        account: ChallengeAccount,
        lamports: u64,
        update: Option<(usize, SubmissionAccount)>,
    )
        requires
            k < old(self).challenges@.len(),
            update matches Some((j, _)) ==> j < old(self).challenges@[k as int].submissions@.len(),
        ensures
            final(self).global_config == old(self).global_config,
            final(self).clock == old(self).clock,
            replaced(
                old(self).challenges@,
                final(self).challenges@,
                k as int,
                account,
                lamports,
                match update {
                    None => old(self).challenges@[k as int].submissions@,
                    Some((j, s)) => old(self).challenges@[k as int].submissions@.update(j as int, s),
                },
            ),
    {
        let ghost before = self.challenges@;
        let entry = self.challenges.remove(k);
        let mut submissions = entry.submissions;
        match update {
            None => {},
            Some((j, s)) => {
                submissions.set(j, s);
            },
        }
        let new_entry = ChallengeEntry { account, lamports, submissions };
        self.challenges.insert(k, new_entry);
        proof {
            lemma_update_is_remove_insert(before, k as int, new_entry);
            assert(self.challenges@ =~= before.update(k as int, new_entry));
        }
    }

    /// After `replaced`, the game is well formed when the new entry is and
    /// keeps its identifier.
    proof fn lemma_replaced_wf(old: RiddleRush, new: RiddleRush, k: int)
        requires
            old.wf(),
            new.global_config == old.global_config,
            0 <= k < old.challenges@.len(),
            replaced(
                old.challenges@,
                new.challenges@,
                k,
                new.challenges@[k].account,
                new.challenges@[k].lamports,
                new.challenges@[k].submissions@,
            ),
            new.challenges@[k].wf(),
            new.challenges@[k].balanced(new.clock as int),
            new.challenges@[k].account.id == old.challenges@[k].account.id,
            new.clock >= old.clock,
        ensures
            new.wf(),
    {
        let o = old.challenges@;
        let n = new.challenges@;
        assert forall|i: int| 0 <= i < n.len() implies (#[trigger] n[i]).wf() by {
            if i != k {
                assert(n[i] == o[i]);
            }
        }
        assert forall|i: int| 0 <= i < n.len() implies (#[trigger] n[i]).balanced(new.clock as int) by {
            if i != k {
                assert(n[i] == o[i]);
                assert(o[i].balanced(old.clock as int));
            }
        }
        assert forall|i: int, j: int| 0 <= i < n.len() && 0 <= j < n.len() && i != j implies (#[trigger] n[i]).account.id != (#[trigger] n[j]).account.id by {
            assert(n[i].account.id == o[i].account.id);
            assert(n[j].account.id == o[j].account.id);
        }
        match new.global_config {
            None => {},
            Some(g) => {
                assert forall|i: int| 0 <= i < n.len() implies (#[trigger] n[i]).account.id < g.next_challenge_id by {
                    assert(n[i].account.id == o[i].account.id);
                }
            },
        }
    }

    /// Reveals the solution of challenge `challenge_id`; `question_value` is
    /// what evaluating its question gave.
    pub fn challenge_solution_reveal(
        &mut self,
        now: i64,
        challenge_id: u64,
        question_value: &Result<String, ExpressionError>,
    ) -> (r: Result<(), RiddleRushError>)
        requires
            old(self).wf(),
            now >= old(self).clock,
        ensures
            final(self).wf(),
            r is Ok ==> final(self).clock == now,
            final(self).global_config == old(self).global_config,
            match old(self).challenge_index(challenge_id) {
                None => r == Err::<(), RiddleRushError>(RiddleRushError::AccountNotInitialized)
                    && *final(self) == *old(self),
                Some(k) => {
                    let e = old(self).challenges@[k];
                    match solution_reveal_result(e.account, now as int, *question_value) {
                        Err(err) => r == Err::<(), RiddleRushError>(err) && *final(self) == *old(self),
                        Ok(c) => r is Ok && replaced(
                            old(self).challenges@,
                            final(self).challenges@,
                            k,
                            c,
                            e.lamports,
                            e.submissions@,
                        ),
                    }
                },
            },
    {
        let k = match self.find_challenge(challenge_id) {
            None => {
                return Err(RiddleRushError::AccountNotInitialized);
            },
            Some(k) => k,
        };
        let mut ctx = ChallengeSolutionReveal {
            challenge_account: self.challenges[k].account.duplicate(),
        };
        match challenge_solution_reveal::handler(&mut ctx, now, question_value) {
            Err(e) => {
                return Err(e);
            },
            Ok(()) => {},
        }
        let lamports = self.challenges[k].lamports;
        let ghost old_self = *self;
        self.write_back(k, ctx.challenge_account, lamports, None);
        self.clock = now;
        proof {
            Self::lemma_replaced_wf(old_self, *self, k as int);
        }
        Ok(())
    }

    /// Pays the setter's cut of challenge `challenge_id` to `caller`. Returns
    /// the amount to transfer from the challenge's account to the setter.
    pub fn setter_claim(&mut self, caller: Identity, now: i64, challenge_id: u64) -> (r: Result<
        u64,
        RiddleRushError,
    >)
        requires
            old(self).wf(),
            now >= old(self).clock,
        ensures
            final(self).wf(),
            r is Ok ==> final(self).clock == now,
            final(self).global_config == old(self).global_config,
            match old(self).challenge_index(challenge_id) {
                None => r == Err::<u64, RiddleRushError>(RiddleRushError::AccountNotInitialized)
                    && *final(self) == *old(self),
                Some(k) => {
                    let e = old(self).challenges@[k];
                    let ctx = (SetterClaim {
                        setter: caller,
                        challenge_account: e.account,
                        challenge_lamports: e.lamports,
                    });
                    match setter_claim_error(&ctx, now as int) {
                        Some(err) => r == Err::<u64, RiddleRushError>(err) && *final(self) == *old(self),
                        None => {
                            let post = setter_claim_post(ctx);
                            &&& r == Ok::<u64, RiddleRushError>(
                                setter_cut_of(e.account.pot as int) as u64,
                            )
                            &&& replaced(
                                old(self).challenges@,
                                final(self).challenges@,
                                k,
                                post.challenge_account,
                                post.challenge_lamports,
                                e.submissions@,
                            )
                        },
                    }
                },
            },
    {
        let k = match self.find_challenge(challenge_id) {
            None => {
                return Err(RiddleRushError::AccountNotInitialized);
            },
            Some(k) => k,
        };
        let mut ctx = SetterClaim {
            setter: caller,
            challenge_account: self.challenges[k].account.duplicate(),
            challenge_lamports: self.challenges[k].lamports,
        };
        let amount = match setter_claim::handler(&mut ctx, now) {
            Err(e) => {
                return Err(e);
            },
            Ok(a) => a,
        };
        let ghost old_self = *self;
        self.write_back(k, ctx.challenge_account, ctx.challenge_lamports, None);
        self.clock = now;
        proof {
            Self::lemma_replaced_wf(old_self, *self, k as int);
        }
        Ok(amount)
    }

    /// Reveals `caller`'s answer to challenge `challenge_id`: `plaintext_answer`
    /// with `nonce` must open the submitted commitment.
    pub fn submission_solution_reveal(
        &mut self,
        caller: Identity,
        now: i64,
        challenge_id: u64,
        nonce: String,
        plaintext_answer: String,
    ) -> (r: Result<(), RiddleRushError>)
        requires
            old(self).wf(),
            now >= old(self).clock,
        ensures
            final(self).wf(),
            r is Ok ==> final(self).clock == now,
            final(self).global_config == old(self).global_config,
            match old(self).challenge_index(challenge_id) {
                None => r == Err::<(), RiddleRushError>(RiddleRushError::AccountNotInitialized)
                    && *final(self) == *old(self),
                Some(k) => {
                    let e = old(self).challenges@[k];
                    match e.submission_index(caller) {
                        None => r == Err::<(), RiddleRushError>(RiddleRushError::NotTheSubmitter)
                            && *final(self) == *old(self),
                        Some(j) => {
                            let ctx = (SubmissionSolutionReveal {
                                submitter: caller,
                                challenge_account: e.account,
                                submission_account: e.submissions@[j],
                            });
                            match submission_reveal_error(&ctx, now as int, nonce@, plaintext_answer@) {
                                Some(err) => r == Err::<(), RiddleRushError>(err) && *final(self)
                                    == *old(self),
                                None => {
                                    let post = submission_reveal_post(ctx, plaintext_answer@);
                                    &&& r is Ok
                                    &&& replaced(
                                        old(self).challenges@,
                                        final(self).challenges@,
                                        k,
                                        post.challenge_account,
                                        e.lamports,
                                        e.submissions@.update(j, post.submission_account),
                                    )
                                },
                            }
                        },
                    }
                },
            },
    {
        let k = match self.find_challenge(challenge_id) {
            None => {
                return Err(RiddleRushError::AccountNotInitialized);
            },
            Some(k) => k,
        };
        let j = match self.challenges[k].find_submission(&caller) {
            None => {
                return Err(RiddleRushError::NotTheSubmitter);
            },
            Some(j) => j,
        };
        let ghost e = self.challenges@[k as int];
        proof {
            lemma_correct_count_bounded(e.submissions@);
            assert(e.submissions@.len() < u64::MAX) by (nonlinear_arith)
                requires
                    e.account.pot == (1 + e.submissions@.len()) * e.account.entry_fee,
                    e.account.entry_fee >= 1,
                    e.account.pot <= u64::MAX,
            ;
        }
        let mut ctx = SubmissionSolutionReveal {
            submitter: caller,
            challenge_account: self.challenges[k].account.duplicate(),
            submission_account: self.challenges[k].submissions[j],
        };
        match submission_solution_reveal::handler(&mut ctx, now, nonce, plaintext_answer) {
            Err(e) => {
                return Err(e);
            },
            Ok(()) => {},
        }
        let lamports = self.challenges[k].lamports;
        let ghost old_self = *self;
        self.write_back(k, ctx.challenge_account, lamports, Some((j, ctx.submission_account)));
        self.clock = now;
        proof {
            let subs = e.submissions@;
            let s = ctx.submission_account;
            lemma_correct_count_update(subs, j as int, s);
            let n = self.challenges@[k as int].submissions@;
            assert(n == subs.update(j as int, s));
            assert forall|a: int, b: int|
                0 <= a < n.len() && 0 <= b < n.len() && a != b implies !same_identity(
                    #[trigger] n[a].submitter,
                    #[trigger] n[b].submitter,
                ) by {
                assert(n[a].submitter == subs[a].submitter);
                assert(n[b].submitter == subs[b].submitter);
            }
            assert forall|a: int| 0 <= a < n.len() implies #[trigger] n[a].challenge_id == e.account.id by {
                assert(n[a].challenge_id == subs[a].challenge_id);
            }
            assert forall|a: int| 0 <= a < n.len() && #[trigger] n[a].answer_correct implies n[a].revealed by {
                if a != j {
                    assert(n[a] == subs[a]);
                }
            }
            assert(e.balanced(old_self.clock as int));
            assert(!e.claims_started());
            lemma_claimed_count_bounded(subs);
            lemma_claimed_count_update(subs, j as int, s);
            assert(claimed_count(n) == 0);
            lemma_claimed_none(n);
            let ne = self.challenges@[k as int];
            assert(e.paid_out() == 0) by {
                let sh = share_of(
                    e.account.pot as int,
                    e.account.entry_fee as int,
                    e.account.correct_submissions as int,
                );
                assert(claimed_count(subs) * sh == 0) by (nonlinear_arith)
                    requires
                        claimed_count(subs) == 0,
                ;
            }
            assert(ne.paid_out() == 0) by {
                let sh = share_of(
                    ne.account.pot as int,
                    ne.account.entry_fee as int,
                    ne.account.correct_submissions as int,
                );
                assert(claimed_count(n) * sh == 0) by (nonlinear_arith)
                    requires
                        claimed_count(n) == 0,
                ;
            }
            Self::lemma_replaced_wf(old_self, *self, k as int);
        }
        Ok(())
    }

    /// Pays `caller`'s share of challenge `challenge_id`. Returns the amount to
    /// transfer from the challenge's account to the submitter.
    pub fn submitter_claim(&mut self, caller: Identity, now: i64, challenge_id: u64) -> (r: Result<
        u64,
        RiddleRushError,
    >)
        requires
            old(self).wf(),
            now >= old(self).clock,
        ensures
            final(self).wf(),
            r is Ok ==> final(self).clock == now,
            final(self).global_config == old(self).global_config,
            match old(self).challenge_index(challenge_id) {
                None => r == Err::<u64, RiddleRushError>(RiddleRushError::AccountNotInitialized)
                    && *final(self) == *old(self),
                Some(k) => {
                    let e = old(self).challenges@[k];
                    match e.submission_index(caller) {
                        None => r == Err::<u64, RiddleRushError>(RiddleRushError::NotTheSubmitter)
                            && *final(self) == *old(self),
                        Some(j) => {
                            let ctx = (SubmitterClaim {
                                submitter: caller,
                                challenge_account: e.account,
                                submission_account: e.submissions@[j],
                                challenge_lamports: e.lamports,
                            });
                            match submitter_claim_error(&ctx, now as int) {
                                Some(err) => r == Err::<u64, RiddleRushError>(err) && *final(self)
                                    == *old(self),
                                None => {
                                    let post = submitter_claim_post(ctx);
                                    &&& r == Ok::<u64, RiddleRushError>(
                                        share_of(
                                            e.account.pot as int,
                                            e.account.entry_fee as int,
                                            e.account.correct_submissions as int,
                                        ) as u64,
                                    )
                                    &&& replaced(
                                        old(self).challenges@,
                                        final(self).challenges@,
                                        k,
                                        e.account,
                                        post.challenge_lamports,
                                        e.submissions@.update(j, post.submission_account),
                                    )
                                },
                            }
                        },
                    }
                },
            },
    {
        let k = match self.find_challenge(challenge_id) {
            None => {
                return Err(RiddleRushError::AccountNotInitialized);
            },
            Some(k) => k,
        };
        let j = match self.challenges[k].find_submission(&caller) {
            None => {
                return Err(RiddleRushError::NotTheSubmitter);
            },
            Some(j) => j,
        };
        let ghost e = self.challenges@[k as int];
        let mut ctx = SubmitterClaim {
            submitter: caller,
            challenge_account: self.challenges[k].account.duplicate(),
            submission_account: self.challenges[k].submissions[j],
            challenge_lamports: self.challenges[k].lamports,
        };
        let amount = match submitter_claim::handler(&mut ctx, now) {
            Err(e) => {
                return Err(e);
            },
            Ok(a) => a,
        };
        let ghost old_self = *self;
        self.write_back(
            k,
            ctx.challenge_account,
            ctx.challenge_lamports,
            Some((j, ctx.submission_account)),
        );
        self.clock = now;
        proof {
            let subs = e.submissions@;
            let s = ctx.submission_account;
            lemma_correct_count_update(subs, j as int, s);
            let n = self.challenges@[k as int].submissions@;
            assert(n == subs.update(j as int, s));
            assert forall|a: int, b: int|
                0 <= a < n.len() && 0 <= b < n.len() && a != b implies !same_identity(
                    #[trigger] n[a].submitter,
                    #[trigger] n[b].submitter,
                ) by {
                assert(n[a].submitter == subs[a].submitter);
                assert(n[b].submitter == subs[b].submitter);
            }
            assert forall|a: int| 0 <= a < n.len() implies #[trigger] n[a].challenge_id == e.account.id by {
                assert(n[a].challenge_id == subs[a].challenge_id);
            }
            assert forall|a: int| 0 <= a < n.len() && #[trigger] n[a].answer_correct implies n[a].revealed by {
                assert(n[a].answer_correct == subs[a].answer_correct);
                assert(n[a].revealed == subs[a].revealed);
            }
            assert(e.balanced(old_self.clock as int));
            lemma_claimed_count_update(subs, j as int, s);
            let share = share_of(
                e.account.pot as int,
                e.account.entry_fee as int,
                e.account.correct_submissions as int,
            );
            assert(claimed_count(n) == claimed_count(subs) + 1);
            assert(claimed_count(n) * share == claimed_count(subs) * share + share) by (nonlinear_arith)
                requires
                    claimed_count(n) == claimed_count(subs) + 1,
            ;
            assert forall|a: int|
                0 <= a < n.len() && (#[trigger] n[a]).claimed && e.account.correct_submissions > 0 implies n[a].answer_correct by {
                if a != j {
                    assert(n[a] == subs[a]);
                }
            }
            Self::lemma_replaced_wf(old_self, *self, k as int);
        }
        Ok(amount)
    }

    /// Closes challenge `challenge_id` for its setter `caller` once the claim
    /// deadline has passed: destroys the challenge and its submissions and
    /// returns what its account held, which the caller transfers to the setter.
    pub fn setter_close_challenge(&mut self, caller: Identity, now: i64, challenge_id: u64) -> (r:
        Result<u64, RiddleRushError>)
        requires
            old(self).wf(),
            now >= old(self).clock,
        ensures
            final(self).wf(),
            r is Ok ==> final(self).clock == now,
            final(self).global_config == old(self).global_config,
            match old(self).challenge_index(challenge_id) {
                None => r == Err::<u64, RiddleRushError>(RiddleRushError::AccountNotInitialized)
                    && *final(self) == *old(self),
                Some(k) => {
                    let e = old(self).challenges@[k];
                    let ctx = (SetterClose {
                        setter: caller,
                        challenge_account: e.account,
                        challenge_lamports: e.lamports,
                    });
                    match setter_close_error(&ctx, now as int) {
                        Some(err) => r == Err::<u64, RiddleRushError>(err) && *final(self) == *old(self),
                        None => r == Ok::<u64, RiddleRushError>(e.lamports) && final(self).challenges@
                            == old(self).challenges@.remove(k),
                    }
                },
            },
    {
        let k = match self.find_challenge(challenge_id) {
            None => {
                return Err(RiddleRushError::AccountNotInitialized);
            },
            Some(k) => k,
        };
        let mut ctx = SetterClose {
            setter: caller,
            challenge_account: self.challenges[k].account.duplicate(),
            challenge_lamports: self.challenges[k].lamports,
        };
        let amount = match setter_close_challenge::handler(&mut ctx, now) {
            Err(e) => {
                return Err(e);
            },
            Ok(a) => a,
        };
        let ghost before = self.challenges@;
        let _closed = self.challenges.remove(k);
        self.clock = now;
        proof {
            let n = self.challenges@;
            assert forall|i: int| 0 <= i < n.len() implies (#[trigger] n[i]).wf() by {
                if i < k {
                    assert(n[i] == before[i]);
                } else {
                    assert(n[i] == before[i + 1]);
                }
            }
            assert forall|i: int, j: int| 0 <= i < n.len() && 0 <= j < n.len() && i != j implies (#[trigger] n[i]).account.id != (#[trigger] n[j]).account.id by {
                let oi = if i < k { i } else { i + 1 };
                let oj = if j < k { j } else { j + 1 };
                assert(n[i] == before[oi]);
                assert(n[j] == before[oj]);
            }
            match self.global_config {
                None => {},
                Some(g) => {
                    assert forall|i: int| 0 <= i < n.len() implies (#[trigger] n[i]).account.id < g.next_challenge_id by {
                        if i < k {
                            assert(n[i] == before[i]);
                        } else {
                            assert(n[i] == before[i + 1]);
                        }
                    }
                },
            }
        }
        Ok(amount)
    }
}

} // verus!
