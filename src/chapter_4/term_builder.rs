use super::Term;
use vstd::prelude::*;

verus! {

pub fn if_(t1: Term, t2: Term, t3: Term) -> (r: Term)
    ensures
        r == Term::If(Box::new(t1), Box::new(t2), Box::new(t3)),
{
    Term::If(Box::new(t1), Box::new(t2), Box::new(t3))
}

pub fn succ(t1: Term) -> (r: Term)
    ensures
        r == Term::Succ(Box::new(t1)),
{
    Term::Succ(Box::new(t1))
}

pub fn pred(t1: Term) -> (r: Term)
    ensures
        r == Term::Pred(Box::new(t1)),
{
    Term::Pred(Box::new(t1))
}

pub fn is_zero(t1: Term) -> (r: Term)
    ensures
        r == Term::IsZero(Box::new(t1)),
{
    Term::IsZero(Box::new(t1))
}

} // verus!
