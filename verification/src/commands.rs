//! What each bot command computes, from the request's values to the reply's text.
use vstd::prelude::*;
use crate::character::{character_make, character_spec, possible_stat_rolls, sheet_text};
use crate::correction::{operator_of, opt_text, saturated, skill_target, skill_target_fits};
use crate::dice::{count_of, possible_dice_value};
use crate::skills::insert_entry;
use crate::messages::{
    desire_dice_text, insan_realtime_msg, insan_realtime_text, insan_summary_msg,
    insan_summary_text, set_status_msg, set_status_text, shown_operator, simple_dice_msg,
    simple_dice_text, simple_dice_with_desire_msg, skill_dice_msg, skill_text,
};
use crate::session::{status_msg, status_text, CommandError, PlayerSheet, Session, load_text, roster_of};

verus! {

/// The reply to a dice request, plain or against a target.
pub open spec fn dice_text(qty: nat, die: nat, desire: Option<usize>, roll: nat) -> Seq<char> {
    match desire {
        Some(d) => desire_dice_text(qty, die, d as nat, roll),
        None => simple_dice_text(qty, die, roll),
    }
}

/// Rolls `qty` dice with `die` sides, judged against `desire` when one is given.
pub fn dice(qty: usize, die: usize, desire: Option<usize>) -> (msg: String)
    requires
        qty == 0 || die >= 1,
        qty * die <= usize::MAX,
    ensures
        exists|roll: usize|
            possible_dice_value(roll as int, qty as nat, die as nat, 0, 0) && msg@ == dice_text(
                qty as nat,
                die as nat,
                desire,
                roll as nat,
            ),
{
    match desire {
        Some(d) => {
            let msg = simple_dice_with_desire_msg(qty, die, d);
            proof {
                let roll = choose|roll: usize|
                    possible_dice_value(roll as int, qty as nat, die as nat, 0, 0) && msg@
                        == desire_dice_text(qty as nat, die as nat, d as nat, roll as nat);
                assert(msg@ == dice_text(qty as nat, die as nat, desire, roll as nat));
            }
            msg
        },
        None => {
            let msg = simple_dice_msg(qty, die);
            proof {
                let roll = choose|roll: usize|
                    possible_dice_value(roll as int, qty as nat, die as nat, 0, 0) && msg@
                        == simple_dice_text(qty as nat, die as nat, roll as nat);
                assert(msg@ == dice_text(qty as nat, die as nat, desire, roll as nat));
            }
            msg
        },
    }
}

/// Rolls dice as `dice` does, for a reply that only the requester sees.
pub fn sdice(qty: usize, die: usize, desire: Option<usize>) -> (msg: String)
    requires
        qty == 0 || die >= 1,
        qty * die <= usize::MAX,
    ensures
        exists|roll: usize|
            possible_dice_value(roll as int, qty as nat, die as nat, 0, 0) && msg@ == dice_text(
                qty as nat,
                die as nat,
                desire,
                roll as nat,
            ),
{
    dice(qty, die, desire)
}

/// Draws a realtime bout of madness.
pub fn realtime() -> (msg: String)
    ensures
        exists|num: usize, round: usize|
            1 <= num <= 10 && 1 <= round <= 10 && msg@ == insan_realtime_text(num as int, round as nat),
{
    insan_realtime_msg()
}

/// Draws a summary bout of madness.
pub fn summary() -> (msg: String)
    ensures
        exists|num: usize| 1 <= num <= 10 && msg@ == insan_summary_text(num as int),
{
    insan_summary_msg()
}

/// Rolls a new character.
pub fn make() -> (msg: String)
    ensures
        exists|r| possible_stat_rolls(r) && msg@ == sheet_text(character_spec(r)),
{
    character_make()
}

/// Loads the sheets read from a spreadsheet into the session and reports them.
pub fn load(session: &mut Session, sheets: &Vec<(String, PlayerSheet)>) -> (report: String)
    ensures
        final(session).loaded,
        final(session).roster() == roster_of(sheets@),
        report@ == load_text(sheets@),
{
    session.load(sheets)
}

/// A skill roll for `user`: checks the request against the session, then rolls the
/// skill with its bonus, penalty and correction.
pub fn skill(
    session: &Session,
    user: &str,
    skill_name: String,
    operator: Option<String>,
    corr: Option<usize>,
    bonus: Option<usize>,
    penalty: Option<usize>,
) -> (r: Result<String, CommandError>)
    requires
        session.skill_of(user@, skill_name@) matches Some(v) ==> skill_target_fits(
            v as int,
            opt_text(&operator),
            corr,
        ),
    ensures
        match r {
            Ok(msg) => session.accepts(user@, skill_name@, opt_text(&operator)) && exists|
                roll: usize,
            |
                possible_dice_value(roll as int, 1, 100, count_of(bonus), count_of(penalty)) && msg@
                    == skill_text(
                    skill_name@,
                    skill_target(
                        session.skill_of(user@, skill_name@).unwrap() as int,
                        opt_text(&operator),
                        corr,
                    ) as nat,
                    shown_operator(opt_text(&operator)),
                    count_of(corr),
                    count_of(bonus),
                    count_of(penalty),
                    roll as nat,
                ),
            Err(e) => session.refused_with(e, user@, skill_name@, opt_text(&operator)),
        },
{
    let value = session.skill_roll(user, skill_name.as_str(), &operator)?;
    Ok(skill_dice_msg(skill_name, value, bonus, penalty, operator, corr))
}

/// A status correction for `user`: checks the request, stores the corrected value and
/// reports the change; a refused request changes nothing.
pub fn set(session: &mut Session, user: &str, status_name: &str, operator: &str, corr: usize) -> (r: Result<String, CommandError>)
    requires
        old(session).skill_of(user@, status_name@) is Some && operator_of(operator@) == Some(
            crate::correction::Operator::Div,
        ) ==> corr != 0,
    ensures
        match r {
            Ok(msg) => {
                &&& old(session).accepts(user@, status_name@, Some(operator@))
                &&& final(session).skill_of(user@, status_name@) == Some(
                    saturated(
                        old(session).skill_of(user@, status_name@).unwrap() as int,
                        operator_of(operator@).unwrap(),
                        corr as int,
                    ) as usize,
                )
                &&& forall|u: Seq<char>, k: Seq<char>|
                    !(u == user@ && k == status_name@) ==> #[trigger] final(session).skill_of(u, k)
                        == old(session).skill_of(u, k)
                &&& final(session).loaded
                &&& final(session).roster() == old(session).roster().insert(
                    user@,
                    (
                        old(session).roster()[user@].0,
                        insert_entry(
                            old(session).roster()[user@].1,
                            status_name@,
                            final(session).skill_of(user@, status_name@).unwrap(),
                        ),
                    ),
                )
                &&& msg@ == set_status_text(
                    status_name@,
                    old(session).skill_of(user@, status_name@).unwrap() as nat,
                    final(session).skill_of(user@, status_name@).unwrap() as nat,
                    operator@,
                    corr as nat,
                )
            },
            Err(e) => {
                &&& final(session).loaded == old(session).loaded
                &&& final(session).roster() == old(session).roster()
                &&& old(session).refused_with(e, user@, status_name@, Some(operator@))
            },
        },
{
    let (before, after) = session.set_status(user, status_name, operator, corr)?;
    Ok(set_status_msg(status_name, before, after, operator, corr))
}

/// Shows `user`'s sheet.
pub fn show(session: &Session, user: &str) -> (r: Result<String, CommandError>)
    ensures
        match r {
            Ok(msg) => session.loaded && session.roster().contains_key(user@) && msg@ == status_text(
                user@,
                session.roster()[user@],
            ),
            Err(e) => session.refused_with(e, user@, Seq::empty(), None) && (e matches CommandError::NotLoaded
                || e matches CommandError::UnknownPlayer(_)),
        },
{
    let sheet = session.sheet(user)?;
    Ok(status_msg(user, sheet))
}

} // verus!
