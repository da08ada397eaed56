use super::evaluator::{is_numeric_val, numeric};
use super::{term_builder, Term};
use vstd::prelude::*;

verus! {

/// The value of `t` by the big-step rules, or `None` where no rule applies.
pub open spec fn big_step(t: Term) -> Option<Term>
    decreases t,
{
    match t {
        Term::True => Some(Term::True),
        Term::False => Some(Term::False),
        Term::Zero => Some(Term::Zero),
        Term::If(g, a, b) => match big_step(*g) {
            Some(Term::True) => big_step(*a),
            Some(Term::False) => big_step(*b),
            _ => None,
        },
        Term::Succ(n) => match big_step(*n) {
            Some(v) => if numeric(v) {
                Some(Term::Succ(Box::new(v)))
            } else {
                None
            },
            None => None,
        },
        Term::Pred(n) => match big_step(*n) {
            Some(Term::Zero) => Some(Term::Zero),
            Some(Term::Succ(v)) => Some(*v),
            _ => None,
        },
        Term::IsZero(n) => match big_step(*n) {
            Some(Term::Zero) => Some(Term::True),
            Some(v) => if numeric(v) {
                Some(Term::False)
            } else {
                None
            },
            None => None,
        },
    }
}

pub fn eval(t: Term) -> (r: Option<Term>)
    ensures
        r == big_step(t),
    decreases t,
{
    match t {
        Term::True => Some(Term::True),
        Term::False => Some(Term::False),
        Term::Zero => Some(Term::Zero),
        Term::If(guard, then, else_) => match eval(*guard) {
            Some(Term::True) => eval(*then),
            Some(Term::False) => eval(*else_),
            _ => None,
        },
        Term::Succ(n) => match eval(*n) {
            Some(evaluated_n) => if is_numeric_val(&evaluated_n) {
                Some(term_builder::succ(evaluated_n))
            } else {
                None
            },
            None => None,
        },
        Term::Pred(n) => match eval(*n) {
            Some(Term::Zero) => Some(Term::Zero),
            Some(Term::Succ(n1)) => Some(*n1),
            _ => None,
        },
        Term::IsZero(n) => match eval(*n) {
            Some(Term::Zero) => Some(Term::True),
            Some(evaluated_n) => if is_numeric_val(&evaluated_n) {
                Some(Term::False)
            } else {
                None
            },
            None => None,
        },
    }
}

} // verus!
