//! Judging a percentile roll against a target value.
use vstd::prelude::*;

verus! {

/// The levels of success of a percentile roll.
#[derive(Debug, Clone, Copy, PartialEq, Eq, Structural)]
pub enum Judgement {
    Critical,
    Extreme,
    Hard,
    Regular,
    Failure,
    Fumble,
}

/// The judgement of `roll` against the target `desire`: 1 is critical, a fifth of the
/// target or less extreme, half or less hard, up to the target regular; a failure from
/// 96 up is a fumble.
pub open spec fn judge_spec(roll: int, desire: int) -> Judgement {
    if roll == 1 {
        Judgement::Critical
    } else if roll <= desire / 5 {
        Judgement::Extreme
    } else if roll <= desire / 2 {
        Judgement::Hard
    } else if roll <= desire {
        Judgement::Regular
    } else if roll >= 96 {
        Judgement::Fumble
    } else {
        Judgement::Failure
    }
}

/// How good a judgement is: higher is better.
pub open spec fn rank(j: Judgement) -> int {
    match j {
        Judgement::Critical => 5,
        Judgement::Extreme => 4,
        Judgement::Hard => 3,
        Judgement::Regular => 2,
        Judgement::Failure => 1,
        Judgement::Fumble => 0,
    }
}

/// The judgement is a success.
pub open spec fn is_success(j: Judgement) -> bool {
    rank(j) >= 2
}

/// Judges `roll` against the target `desire`.
pub fn judge(roll: usize, desire: usize) -> (j: Judgement)
    ensures
        j == judge_spec(roll as int, desire as int),
{
    if roll == 1 {
        Judgement::Critical
    } else if roll <= desire / 5 {
        Judgement::Extreme
    } else if roll <= desire / 2 {
        Judgement::Hard
    } else if roll <= desire {
        Judgement::Regular
    } else if roll >= 96 {
        Judgement::Fumble
    } else {
        Judgement::Failure
    }
}

/// The text that a message shows for a judgement.
pub open spec fn judgement_text(j: Judgement) -> Seq<char> {
    match j {
        Judgement::Critical => "**Critical**"@,
        Judgement::Extreme => "**Extreme**"@,
        Judgement::Hard => "**Hard**"@,
        Judgement::Regular => "**Regular**"@,
        Judgement::Failure => "**Failure**"@,
        Judgement::Fumble => "**Failure(Fumble)**"@,
    }
}

/// The text that a message shows for a judgement.
pub fn judgement_label(j: Judgement) -> (s: &'static str)
    ensures
        s@ == judgement_text(j),
{
    match j {
        Judgement::Critical => "**Critical**",
        Judgement::Extreme => "**Extreme**",
        Judgement::Hard => "**Hard**",
        Judgement::Regular => "**Regular**",
        Judgement::Failure => "**Failure**",
        Judgement::Fumble => "**Failure(Fumble)**",
    }
}

/// A roll succeeds exactly when it is 1 or does not exceed the target, and it is
/// critical exactly when it is 1.
pub proof fn lemma_success_iff(roll: int, desire: int)
    requires
        desire >= 0,
    ensures
        is_success(judge_spec(roll, desire)) <==> (roll == 1 || roll <= desire),
        (judge_spec(roll, desire) == Judgement::Critical) <==> roll == 1,
{
}

/// A lower roll (of at least 1) is never judged worse than a higher one against the
/// same target.
pub proof fn lemma_lower_roll_no_worse(r1: int, r2: int, desire: int)
    requires
        1 <= r1 <= r2,
        desire >= 0,
    ensures
        rank(judge_spec(r1, desire)) >= rank(judge_spec(r2, desire)),
{
}

/// A higher target never makes the same roll judged worse.
pub proof fn lemma_higher_target_no_worse(roll: int, d1: int, d2: int)
    requires
        0 <= d1 <= d2,
    ensures
        rank(judge_spec(roll, d2)) >= rank(judge_spec(roll, d1)),
{
    assert(d1 / 5 <= d2 / 5) by (nonlinear_arith)
        requires
            0 <= d1 <= d2,
    ;
    assert(d1 / 2 <= d2 / 2) by (nonlinear_arith)
        requires
            0 <= d1 <= d2,
    ;
}

/// Each level of success, described on its own: a roll of 1 is critical; any other
/// roll is extreme when five times it is at most the target, hard when twice it is
/// at most the target but five times it is above, regular when it is at most the
/// target but twice it is above; above the target it is a fumble from 96 up and a
/// plain failure below 96, whatever the target.
pub proof fn lemma_judgement_levels(roll: int, desire: int)
    requires
        desire >= 0,
    ensures
        (judge_spec(roll, desire) == Judgement::Critical) <==> roll == 1,
        (judge_spec(roll, desire) == Judgement::Extreme) <==> (roll != 1 && 5 * roll <= desire),
        (judge_spec(roll, desire) == Judgement::Hard) <==> (roll != 1 && 5 * roll > desire && 2
            * roll <= desire),
        (judge_spec(roll, desire) == Judgement::Regular) <==> (roll != 1 && 2 * roll > desire
            && roll <= desire),
        (judge_spec(roll, desire) == Judgement::Fumble) <==> (roll != 1 && roll > desire && roll
            >= 96),
        (judge_spec(roll, desire) == Judgement::Failure) <==> (roll != 1 && roll > desire && roll
            < 96),
{
}

/// A failed roll is a fumble exactly when it is 96 or more, for every target.
pub proof fn lemma_fumble_iff(roll: int, desire: int)
    requires
        desire >= 0,
        roll != 1,
        roll > desire,
    ensures
        (judge_spec(roll, desire) == Judgement::Fumble) <==> roll >= 96,
        (judge_spec(roll, desire) == Judgement::Failure) <==> roll < 96,
{
}

/// The words a message shows for each level of success.
pub proof fn lemma_judgement_words()
    ensures
        judgement_text(Judgement::Critical) == "**Critical**"@,
        judgement_text(Judgement::Extreme) == "**Extreme**"@,
        judgement_text(Judgement::Hard) == "**Hard**"@,
        judgement_text(Judgement::Regular) == "**Regular**"@,
        judgement_text(Judgement::Failure) == "**Failure**"@,
        judgement_text(Judgement::Fumble) == "**Failure(Fumble)**"@,
{
}

} // verus!
