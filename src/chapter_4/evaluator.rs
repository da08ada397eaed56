use super::{size, term_builder, Term};
use vstd::prelude::*;

verus! {

/// `t` is a numeral: `0` under any number of `succ`.
pub open spec fn numeric(t: Term) -> bool
    decreases t,
{
    match t {
        Term::Zero => true,
        Term::Succ(a) => numeric(*a),
        _ => false,
    }
}

pub open spec fn value(t: Term) -> bool {
    t is True || t is False || numeric(t)
}

/// One step of small-step evaluation, or `None` where none applies.
pub open spec fn step4(t: Term) -> Option<Term>
    decreases t,
{
    match t {
        Term::If(g, a, b) => if *g is True {
            Some(*a)
        } else if *g is False {
            Some(*b)
        } else {
            match step4(*g) {
                Some(g2) => Some(Term::If(Box::new(g2), a, b)),
                None => None,
            }
        },
        Term::Succ(n) => match step4(*n) {
            Some(n2) => Some(Term::Succ(Box::new(n2))),
            None => None,
        },
        Term::Pred(n) => match *n {
            Term::Succ(n2) => if numeric(*n2) {
                Some(*n2)
            } else {
                step4(*n2)
            },
            Term::Zero => Some(Term::Zero),
            _ => match step4(*n) {
                Some(n2) => Some(Term::Pred(Box::new(n2))),
                None => None,
            },
        },
        Term::IsZero(n) => if numeric(*n) {
            if *n is Zero {
                Some(Term::True)
            } else {
                Some(Term::False)
            }
        } else {
            match step4(*n) {
                Some(n2) => Some(Term::IsZero(Box::new(n2))),
                None => None,
            }
        },
        _ => None,
    }
}

/// Each step makes a term smaller.
pub proof fn lemma_step4_smaller(t: Term)
    ensures
        step4(t) matches Some(u) ==> size(u) < size(t),
    decreases t,
{
    reveal_with_fuel(size, 3);
    match t {
        Term::If(g, _, _) => lemma_step4_smaller(*g),
        Term::Succ(n) => lemma_step4_smaller(*n),
        Term::Pred(n) => {
            lemma_step4_smaller(*n);
            match *n {
                Term::Succ(n2) => lemma_step4_smaller(*n2),
                _ => {},
            }
        },
        Term::IsZero(n) => lemma_step4_smaller(*n),
        _ => {},
    }
}

/// The value that stepping `t` reaches, or `None` where it gets stuck first.
pub open spec fn eval_spec(t: Term) -> Option<Term>
    decreases size(t),
{
    if value(t) {
        Some(t)
    } else {
        match step4(t) {
            Some(u) => if size(u) < size(t) {
                eval_spec(u)
            } else {
                None
            },
            None => None,
        }
    }
}

pub fn is_numeric_val(t: &Term) -> (r: bool)
    ensures
        r == numeric(*t),
    decreases t,
{
    match t {
        Term::Zero => true,
        Term::Succ(t1) => is_numeric_val(t1),
        _ => false,
    }
}

pub fn is_val(t: &Term) -> (r: bool)
    ensures
        r == value(*t),
{
    match t {
        Term::True | Term::False => true,
        _ => is_numeric_val(t),
    }
}

/// One step of small-step evaluation.
pub fn eval1(t: Term) -> (r: Option<Term>)
    ensures
        r == step4(t),
    decreases t,
{
    match t {
        Term::If(guard, then_term, else_term) => {
            match *guard {
                Term::True => Some(*then_term),
                Term::False => Some(*else_term),
                g => match eval1(g) {
                    Some(evaluated_guard) => Some(Term::If(Box::new(evaluated_guard), then_term, else_term)),
                    None => None,
                },
            }
        },
        Term::Succ(n) => match eval1(*n) {
            Some(evaluated_n) => Some(term_builder::succ(evaluated_n)),
            None => None,
        },
        Term::Pred(n) => {
            match *n {
                Term::Succ(n2) => {
                    if is_numeric_val(&*n2) {
                        Some(*n2)
                    } else {
                        eval1(*n2)
                    }
                },
                Term::Zero => Some(Term::Zero),
                m => match eval1(m) {
                    Some(evaluated_n) => Some(term_builder::pred(evaluated_n)),
                    None => None,
                },
            }
        },
        Term::IsZero(n) => {
            if is_numeric_val(&*n) {
                if let Term::Zero = *n {
                    Some(Term::True)
                } else {
                    Some(Term::False)
                }
            } else {
                match eval1(*n) {
                    Some(evaluated_n) => Some(term_builder::is_zero(evaluated_n)),
                    None => None,
                }
            }
        },
        _ => None,
    }
}

/// Steps `t` until it is a value; `None` where it gets stuck first.
pub fn eval(t: Term) -> (r: Option<Term>)
    ensures
        r == eval_spec(t),
{
    let mut cur = t;
    while !is_val(&cur)
        invariant
            eval_spec(cur) == eval_spec(t),
        decreases size(cur),
    {
        proof {
            lemma_step4_smaller(cur);
        }
        let ghost before = cur;
        assert(eval_spec(before) == match step4(before) {
            Some(u) => if size(u) < size(before) {
                eval_spec(u)
            } else {
                None
            },
            None => None,
        });
        cur = match eval1(cur) {
            Some(evaluated_t) => evaluated_t,
            None => {
                return None;
            },
        };
    }
    Some(cur)
}

} // verus!
