//! The arithmetic operators that correct a skill or status value.
use vstd::prelude::*;

verus! {

/// A correction operator.
#[derive(Debug, Clone, Copy, PartialEq, Eq, Structural)]
pub enum Operator {
    Add,
    Sub,
    Mul,
    Div,
}

/// The operator that a text names: exactly one of `+`, `-`, `*`, `/`.
pub open spec fn operator_of(s: Seq<char>) -> Option<Operator> {
    if s == seq!['+'] {
        Some(Operator::Add)
    } else if s == seq!['-'] {
        Some(Operator::Sub)
    } else if s == seq!['*'] {
        Some(Operator::Mul)
    } else if s == seq!['/'] {
        Some(Operator::Div)
    } else {
        None
    }
}

/// Reads an operator from its text.
pub fn parse_operator(s: &str) -> (r: Option<Operator>)
    ensures
        r == operator_of(s@),
{
    if s.unicode_len() != 1 {
        proof {
            assert(s@ != seq!['+']);
            assert(s@ != seq!['-']);
            assert(s@ != seq!['*']);
            assert(s@ != seq!['/']);
        }
        return None;
    }
    let c = s.get_char(0);
    if c == '+' {
        assert(s@ =~= seq!['+']);
        Some(Operator::Add)
    } else if c == '-' {
        assert(s@ =~= seq!['-']);
        Some(Operator::Sub)
    } else if c == '*' {
        assert(s@ =~= seq!['*']);
        Some(Operator::Mul)
    } else if c == '/' {
        assert(s@ =~= seq!['/']);
        Some(Operator::Div)
    } else {
        proof {
            assert(s@[0] != seq!['+'][0]);
            assert(s@[0] != seq!['-'][0]);
            assert(s@[0] != seq!['*'][0]);
            assert(s@[0] != seq!['/'][0]);
        }
        None
    }
}

/// The operator names offered to users, in the order they are offered.
pub open spec fn operator_names_spec() -> Seq<Seq<char>> {
    seq!["+"@, "-"@, "*"@, "/"@]
}

/// The operator names offered to users.
pub fn operator_names() -> (names: Vec<String>)
    ensures
        names@.map_values(|s: String| s@) == operator_names_spec(),
{
    let names = vec![
        String::from_str("+"),
        String::from_str("-"),
        String::from_str("*"),
        String::from_str("/"),
    ];
    assert(names@.map_values(|s: String| s@) =~= operator_names_spec());
    names
}

/// `value op corr` in exact arithmetic.
pub open spec fn corrected(value: int, op: Operator, corr: int) -> int {
    match op {
        Operator::Add => value + corr,
        Operator::Sub => value - corr,
        Operator::Mul => value * corr,
        Operator::Div => value / corr,
    }
}

/// `value op corr` can be computed in a `usize`: no overflow, no underflow, no
/// division by zero.
pub open spec fn correction_fits(value: int, op: Operator, corr: int) -> bool {
    &&& op == Operator::Div ==> corr != 0
    &&& 0 <= corrected(value, op, corr) <= usize::MAX
}

/// `value op corr`, which must fit in a `usize`.
pub fn apply_correction(value: usize, op: Operator, corr: usize) -> (r: usize)
    requires
        correction_fits(value as int, op, corr as int),
    ensures
        r == corrected(value as int, op, corr as int),
{
    match op {
        Operator::Add => value + corr,
        Operator::Sub => value - corr,
        Operator::Mul => value * corr,
        Operator::Div => value / corr,
    }
}

/// `value op corr`, or `None` where it does not fit in a `usize`.
pub fn checked_correction(value: usize, op: Operator, corr: usize) -> (r: Option<usize>)
    ensures
        r is Some <==> correction_fits(value as int, op, corr as int),
        r matches Some(v) ==> v == corrected(value as int, op, corr as int),
{
    match op {
        Operator::Add => value.checked_add(corr),
        Operator::Sub => if corr <= value {
            Some(value - corr)
        } else {
            None
        },
        Operator::Mul => value.checked_mul(corr),
        Operator::Div => if corr == 0 {
            None
        } else {
            Some(value / corr)
        },
    }
}

/// `value op corr` clamped to the range of `usize`, as the saturating operations of
/// `usize` compute it.
pub open spec fn saturated(value: int, op: Operator, corr: int) -> int {
    let exact = corrected(value, op, corr);
    if exact < 0 {
        0
    } else if exact > usize::MAX {
        usize::MAX as int
    } else {
        exact
    }
}

/// `value op corr` with saturating arithmetic; dividing by zero is left out.
pub fn saturating_correction(value: usize, op: Operator, corr: usize) -> (r: usize)
    requires
        op == Operator::Div ==> corr != 0,
    ensures
        r == saturated(value as int, op, corr as int),
{
    match op {
        Operator::Add => value.saturating_add(corr),
        Operator::Sub => value.saturating_sub(corr),
        Operator::Mul => match value.checked_mul(corr) {
            Some(v) => v,
            None => usize::MAX,
        },
        Operator::Div => value / corr,
    }
}

/// Saturating arithmetic agrees with exact arithmetic wherever the exact value fits.
pub proof fn lemma_saturated_when_fits(value: int, op: Operator, corr: int)
    requires
        correction_fits(value, op, corr),
    ensures
        saturated(value, op, corr) == corrected(value, op, corr),
{
}

/// Adding and then subtracting the same correction gives the value back, as does
/// multiplying and then dividing by the same non-zero correction, where nothing saturates.
pub proof fn lemma_correction_undone(value: int, corr: int)
    requires
        0 <= value,
        0 <= corr,
    ensures
        value + corr <= usize::MAX ==> saturated(saturated(value, Operator::Add, corr), Operator::Sub, corr)
            == value,
        corr != 0 && value * corr <= usize::MAX ==> saturated(
            saturated(value, Operator::Mul, corr),
            Operator::Div,
            corr,
        ) == value,
{
    if corr != 0 && value * corr <= usize::MAX {
        assert(value * corr >= 0) by (nonlinear_arith)
            requires
                0 <= value,
                0 <= corr,
        ;
        assert((value * corr) / corr == value) by (nonlinear_arith)
            requires
                corr != 0,
        ;
    }
}


/// The target of a skill roll: the skill's value, corrected when both an operator text
/// and a correction value are given and the text names an operator.
pub open spec fn skill_target(desire: int, operator: Option<Seq<char>>, corr: Option<usize>) -> int {
    match (operator, corr) {
        (Some(o), Some(c)) => match operator_of(o) {
            Some(op) => corrected(desire, op, c as int),
            None => desire,
        },
        _ => desire,
    }
}

/// The corrected target of a skill roll can be computed in a `usize`.
pub open spec fn skill_target_fits(desire: int, operator: Option<Seq<char>>, corr: Option<usize>) -> bool {
    match (operator, corr) {
        (Some(o), Some(c)) => match operator_of(o) {
            Some(op) => correction_fits(desire, op, c as int),
            None => true,
        },
        _ => true,
    }
}

/// The text of an optional string.
pub open spec fn opt_text(s: &Option<String>) -> Option<Seq<char>> {
    match s {
        Some(t) => Some(t@),
        None => None,
    }
}

/// The target of a skill roll, which must fit in a `usize`.
pub fn skill_target_value(desire: usize, operator: &Option<String>, corr: Option<usize>) -> (r: usize)
    requires
        skill_target_fits(desire as int, opt_text(operator), corr),
    ensures
        r == skill_target(desire as int, opt_text(operator), corr),
{
    match (operator, corr) {
        (Some(o), Some(c)) => match parse_operator(o.as_str()) {
            Some(op) => apply_correction(desire, op, c),
            None => desire,
        },
        _ => desire,
    }
}

/// The target of a skill roll, or `None` where the correction does not fit in a `usize`.
pub fn checked_skill_target(desire: usize, operator: &Option<String>, corr: Option<usize>) -> (r: Option<usize>)
    ensures
        r is Some <==> skill_target_fits(desire as int, opt_text(operator), corr),
        r matches Some(v) ==> v == skill_target(desire as int, opt_text(operator), corr),
{
    match (operator, corr) {
        (Some(o), Some(c)) => match parse_operator(o.as_str()) {
            Some(op) => checked_correction(desire, op, c),
            None => Some(desire),
        },
        _ => Some(desire),
    }
}

} // verus!
