pub mod big_step_evaluator;
pub mod evaluator;
pub mod lexer;
pub mod parser;
pub mod term_builder;

use vstd::prelude::*;

pub use evaluator::eval;
pub use parser::parse;

verus! {

/// A term of the language of booleans and natural numbers.
#[derive(Debug, PartialEq, Eq)]
pub enum Term {
    True,
    False,
    If(Box<Term>, Box<Term>, Box<Term>),
    Zero,
    Succ(Box<Term>),
    Pred(Box<Term>),
    IsZero(Box<Term>),
}

impl Clone for Term {
    fn clone(&self) -> (r: Term)
        ensures
            r == *self,
        decreases self,
    {
        match self {
            Term::True => Term::True,
            Term::False => Term::False,
            Term::If(a, b, c) => Term::If(
                Box::new((**a).clone()),
                Box::new((**b).clone()),
                Box::new((**c).clone()),
            ),
            Term::Zero => Term::Zero,
            Term::Succ(a) => Term::Succ(Box::new((**a).clone())),
            Term::Pred(a) => Term::Pred(Box::new((**a).clone())),
            Term::IsZero(a) => Term::IsZero(Box::new((**a).clone())),
        }
    }
}

/// The number of nodes of `t`.
pub open spec fn size(t: Term) -> nat
    decreases t,
{
    match t {
        Term::If(a, b, c) => 1 + size(*a) + size(*b) + size(*c),
        Term::Succ(a) => 1 + size(*a),
        Term::Pred(a) => 1 + size(*a),
        Term::IsZero(a) => 1 + size(*a),
        _ => 1,
    }
}

} // verus!
