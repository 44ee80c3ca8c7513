use vstd::prelude::*;

use crate::constants::SETTER_CUT;

verus! {

/// The setter's cut of a pot: `SETTER_CUT` percent, rounded down.
pub open spec fn setter_cut_of(pot: int) -> int {
    pot * SETTER_CUT as int / 100
}

/// How many players share what is left after the setter's cut: the correct
/// submitters if there are any, else every submitter (the pot holds one
/// entry fee from the setter and one from each submitter).
pub open spec fn winners_of(pot: int, entry_fee: int, correct_submissions: int) -> int {
    if correct_submissions > 0 {
        correct_submissions
    } else {
        pot / entry_fee - 1
    }
}

/// What each of the winners receives.
pub open spec fn share_of(pot: int, entry_fee: int, correct_submissions: int) -> int {
    (pot - setter_cut_of(pot)) / winners_of(pot, entry_fee, correct_submissions)
}

/// The setter's cut of `pot`.
pub fn setter_cut(pot: u64) -> (r: u64)
    ensures
        r == setter_cut_of(pot as int),
        r <= pot,
{
    let wide: u128 = (pot as u128) * (SETTER_CUT as u128) / 100;
    assert(wide <= pot) by (nonlinear_arith)
        requires
            wide == (pot as u128) * 10 / 100,
    ;
    wide as u64
}

/// How many players share the pot, or `None` when nobody does.
pub fn winners(pot: u64, entry_fee: u64, correct_submissions: u64) -> (r: Option<u64>)
    requires
        entry_fee > 0,
    ensures
        winners_of(pot as int, entry_fee as int, correct_submissions as int) >= 1 <==> r is Some,
        r matches Some(w) ==> w == winners_of(
            pot as int,
            entry_fee as int,
            correct_submissions as int,
        ),
{
    if correct_submissions > 0 {
        Some(correct_submissions)
    } else {
        let units = pot / entry_fee;
        if units >= 2 {
            Some(units - 1)
        } else {
            None
        }
    }
}

/// One winner's share, or `None` when nobody shares the pot.
pub fn submitter_share(pot: u64, entry_fee: u64, correct_submissions: u64) -> (r: Option<u64>)
    requires
        entry_fee > 0,
    ensures
        winners_of(pot as int, entry_fee as int, correct_submissions as int) >= 1 <==> r is Some,
        r matches Some(s) ==> s == share_of(pot as int, entry_fee as int, correct_submissions as int),
{
    match winners(pot, entry_fee, correct_submissions) {
        None => None,
        Some(w) => {
            let cut = setter_cut(pot);
            let s = (pot - cut) / w;
            Some(s)
        },
    }
}

/// The setter's cut never exceeds the pot.
pub proof fn lemma_setter_cut_bounded(pot: int)
    requires
        pot >= 0,
    ensures
        0 <= setter_cut_of(pot) <= pot,
{
    assert(0 <= pot * 10 / 100 <= pot) by (nonlinear_arith)
        requires
            pot >= 0,
    ;
}

/// No over-distribution: the setter's cut plus one share for each of at most
/// `winners_of(..)` claimants never exceeds the pot.
pub proof fn lemma_no_over_distribution(
    pot: int,
    entry_fee: int,
    correct_submissions: int,
    claimants: int,
)
    requires
        pot >= 0,
        entry_fee > 0,
        winners_of(pot, entry_fee, correct_submissions) >= 1,
        0 <= claimants <= winners_of(pot, entry_fee, correct_submissions),
    ensures
        setter_cut_of(pot) + claimants * share_of(pot, entry_fee, correct_submissions) <= pot,
{
    lemma_setter_cut_bounded(pot);
    let rest = pot - setter_cut_of(pot);
    let w = winners_of(pot, entry_fee, correct_submissions);
    let s = share_of(pot, entry_fee, correct_submissions);
    assert(s == rest / w);
    assert(claimants * s <= rest) by (nonlinear_arith)
        requires
            rest >= 0,
            w >= 1,
            s == rest / w,
            0 <= claimants <= w,
    ;
}

} // verus!
