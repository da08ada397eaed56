use super::term::unnamed::{
    applied, depth, free_names, lemma_apply_wf, lemma_wf_bounds, well_formed, wf, App, Term,
};
use vstd::prelude::*;

verus! {

/// One step of call-by-value reduction: the callee first, then the argument
/// once the callee is a value, then beta-reduction once both are values.
pub open spec fn step(t: Term) -> Option<Term>
    decreases t,
{
    match t {
        Term::App(a) => if a.callee is App {
            match step(a.callee) {
                Some(c) => Some(Term::App(Box::new(App { position: a.position, callee: c, arg: a.arg }))),
                None => None,
            }
        } else if a.callee is Abs && a.arg is App {
            match step(a.arg) {
                Some(g) => Some(Term::App(Box::new(App { position: a.position, callee: a.callee, arg: g }))),
                None => None,
            }
        } else if a.arg is Abs {
            match a.callee {
                Term::Abs(f) => Some(applied(f.body, a.arg)),
                _ => None,
            }
        } else {
            None
        },
        _ => None,
    }
}

/// `eval1` is a function of its argument: calls on equal terms give equal
/// results, and a step from a term within limits stays well formed.
pub proof fn lemma_eval1_deterministic(t1: Term, t2: Term, r1: Option<Term>, r2: Option<Term>)
    requires
        within_limits(t1),
        t1 == t2,
        r1 == step(t1),
        r2 == step(t2),
    ensures
        r1 == r2,
        r1 matches Some(u) ==> wf(u, free_names(t1)),
{
    lemma_step_wf(t1, free_names(t1));
}

/// The term reached from `t` after `k` steps, if none of them is stuck.
pub open spec fn steps(t: Term, k: nat) -> Option<Term>
    decreases k,
{
    if k == 0 {
        Some(t)
    } else {
        match steps(t, (k - 1) as nat) {
            Some(u) => step(u),
            None => None,
        }
    }
}

/// `t` is well formed, and deep enough below the largest index for a step to
/// compute only `usize` values.
pub open spec fn within_limits(t: Term) -> bool {
    well_formed(t) && free_names(t) + 2 * depth(t) <= usize::MAX
}

/// A step from a term within limits keeps it well formed under the same names.
pub proof fn lemma_step_wf(t: Term, n: int)
    requires
        wf(t, n),
        0 <= n,
        n + 2 * depth(t) <= usize::MAX,
    ensures
        step(t) matches Some(u) ==> wf(u, n),
    decreases t,
{
    match t {
        Term::App(a) => {
            if a.callee is App {
                lemma_step_wf(a.callee, n);
            } else if a.callee is Abs && a.arg is App {
                lemma_step_wf(a.arg, n);
            } else if a.arg is Abs {
                match a.callee {
                    Term::Abs(f) => {
                        assert(wf(a.callee, n));
                        assert(depth(a.callee) == 1 + depth(f.body));
                        lemma_apply_wf(f.body, a.arg, n);
                    },
                    _ => {},
                }
            }
        },
        _ => {},
    }
}

fn step_within(term: Term, Ghost(n): Ghost<int>) -> (r: Option<Term>)
    requires
        wf(term, n),
        0 <= n,
        n + 2 * depth(term) <= usize::MAX,
    ensures
        r == step(term),
    decreases term,
{
    if let Term::App(app) = term {
        assert(wf(app.callee, n) && wf(app.arg, n));
        let App { callee, arg, position } = *app;
        if callee.is_app() {
            match step_within(callee, Ghost(n)) {
                Some(evaluated_callee) => Some(
                    Term::App(Box::new(App { callee: evaluated_callee, arg, position })),
                ),
                None => None,
            }
        } else if callee.is_val() && arg.is_app() {
            match step_within(arg, Ghost(n)) {
                Some(evaluated_argument) => Some(
                    Term::App(Box::new(App { callee, arg: evaluated_argument, position })),
                ),
                None => None,
            }
        } else if arg.is_val() {
            if let Term::Abs(callee) = callee {
                proof {
                    assert(wf(Term::Abs(callee), n));
                    assert(depth(Term::Abs(callee)) == 1 + depth(callee.body));
                    lemma_apply_wf(callee.body, arg, n);
                }
                Some(callee.apply(&arg))
            } else {
                None
            }
        } else {
            None
        }
    } else {
        None
    }
}

/// One step of call-by-value reduction, or `None` where `term` is a value or
/// stuck.
pub fn eval1(term: Term) -> (r: Option<Term>)
    requires
        within_limits(term),
    ensures
        r == step(term),
        r matches Some(u) ==> wf(u, free_names(term)),
{
    proof {
        lemma_step_wf(term, free_names(term));
    }
    step_within(term, Ghost(free_names(term)))
}

/// The number of names in scope at the root of a well-formed term.
fn root_names(t: &Term) -> (r: usize)
    requires
        well_formed(*t),
    ensures
        r == free_names(*t),
    decreases t,
{
    proof {
        lemma_wf_bounds(*t, free_names(*t));
    }
    match t {
        Term::Var(v) => v.context_length,
        Term::Abs(a) => {
            proof {
                lemma_wf_bounds(a.body, free_names(*t) + 1);
            }
            root_names(&a.body) - 1
        },
        Term::App(a) => {
            proof {
                lemma_wf_bounds(a.callee, free_names(*t));
            }
            root_names(&a.callee)
        },
    }
}

fn term_depth(t: &Term) -> (r: usize)
    requires
        depth(*t) <= usize::MAX,
    ensures
        r == depth(*t),
    decreases t,
{
    match t {
        Term::Var(_) => 0,
        Term::Abs(a) => 1 + term_depth(&a.body),
        Term::App(a) => {
            let c = term_depth(&a.callee);
            let g = term_depth(&a.arg);
            if c >= g {
                c
            } else {
                g
            }
        },
    }
}

/// The number of names in scope at the root, if it is not negative.
fn free_count(t: &Term) -> (r: Option<usize>)
    ensures
        r matches Some(n) ==> n == free_names(*t),
        r is None ==> free_names(*t) < 0,
    decreases t,
{
    match t {
        Term::Var(v) => Some(v.context_length),
        Term::Abs(a) => match free_count(&a.body) {
            Some(m) => if m == 0 {
                None
            } else {
                Some(m - 1)
            },
            None => None,
        },
        Term::App(a) => free_count(&a.callee),
    }
}

fn wf_at(t: &Term, n: usize) -> (r: bool)
    ensures
        r == wf(*t, n as int),
    decreases t,
{
    match t {
        Term::Var(v) => v.index < v.context_length && v.context_length == n,
        Term::Abs(a) => {
            if n == usize::MAX {
                proof {
                    lemma_wf_bounds(a.body, n + 1);
                }
                false
            } else {
                wf_at(&a.body, n + 1)
            }
        },
        Term::App(a) => wf_at(&a.callee, n) && wf_at(&a.arg, n),
    }
}

/// Whether `t` is well formed, as `eval` and `eval_count` require.
pub fn is_well_formed(t: &Term) -> (r: bool)
    ensures
        r == well_formed(*t),
{
    match free_count(t) {
        Some(n) => wf_at(t, n),
        None => false,
    }
}

/// Whether `t` is within the limits that `eval1` requires.
pub fn is_within_limits(t: &Term) -> (r: bool)
    ensures
        r == within_limits(*t),
{
    match free_count(t) {
        Some(n) => {
            if !wf_at(t, n) {
                false
            } else {
                proof {
                    lemma_wf_bounds(*t, n as int);
                }
                let d = term_depth(t);
                d <= (usize::MAX - n) / 2
            }
        },
        None => false,
    }
}

/// Steps `term` until no step applies, and counts the steps. It also stops
/// where the count would pass `usize::MAX`, or where the term has grown too
/// deep for a further step to keep its indices within `usize`.
pub fn eval_count(term: Term) -> (r: (Term, usize))
    requires
        well_formed(term),
    ensures
        steps(term, r.1 as nat) == Some(r.0),
        wf(r.0, free_names(term)),
        step(r.0) is None || r.1 == usize::MAX || free_names(term) + 2 * depth(r.0)
            > usize::MAX,
{
    let ghost n = free_names(term);
    let names = root_names(&term);
    let mut current = term;
    let mut i: usize = 0;
    loop
        invariant
            wf(current, n),
            0 <= n,
            names == n,
            n == free_names(term),
            steps(term, i as nat) == Some(current),
        decreases usize::MAX - i,
    {
        proof {
            lemma_wf_bounds(current, n);
        }
        let d = term_depth(&current);
        if i == usize::MAX || d > (usize::MAX - names) / 2 {
            return (current, i);
        }
        proof {
            lemma_step_wf(current, n);
        }
        match step_within(current.clone(), Ghost(n)) {
            Some(evaluated) => {
                i += 1;
                current = evaluated;
            },
            None => {
                return (current, i);
            },
        }
    }
}

/// The term that `eval_count` stops at.
pub fn eval(term: Term) -> (r: Term)
    requires
        well_formed(term),
    ensures
        exists|k: nat| steps(term, k) == Some(r),
        step(r) is None || free_names(term) + 2 * depth(r) > usize::MAX || steps(
            term,
            usize::MAX as nat,
        ) == Some(r),
{
    let (t, k) = eval_count(term);
    assert(steps(term, k as nat) == Some(t));
    t
}

} // verus!
