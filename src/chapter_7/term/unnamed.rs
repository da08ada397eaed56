use super::named::{self, decimal, decimal_string, push_char};
use crate::file_position::{FilePositionRange, Position};
use named::Term as NamedTerm;
use vstd::prelude::*;

verus! {

/// A term whose variables are de Bruijn indices.
#[derive(PartialEq, Eq, Debug)]
pub enum Term {
    Var(Var),
    Abs(Box<Abs>),
    App(Box<App>),
}

/// A variable: `index` counts the binders between the occurrence and the
/// abstraction that binds it (0 = innermost); `context_length` is the number
/// of names in scope at the occurrence.
#[derive(PartialEq, Eq, Debug)]
pub struct Var {
    pub position: FilePositionRange,
    pub index: usize,
    pub context_length: usize,
}

/// An abstraction. `param_name` is only a hint for display.
#[derive(PartialEq, Eq, Debug)]
pub struct Abs {
    pub position: FilePositionRange,
    pub param_name: String,
    pub body: Term,
}

#[derive(PartialEq, Eq, Debug)]
pub struct App {
    pub position: FilePositionRange,
    pub callee: Term,
    pub arg: Term,
}

impl Clone for Term {
    fn clone(&self) -> (r: Term)
        ensures
            r == *self,
        decreases self,
    {
        match self {
            Term::Var(v) => Term::Var(v.clone()),
            Term::Abs(a) => Term::Abs(Box::new(Abs {
                position: a.position,
                param_name: a.param_name.clone(),
                body: a.body.clone(),
            })),
            Term::App(a) => Term::App(Box::new(App {
                position: a.position,
                callee: a.callee.clone(),
                arg: a.arg.clone(),
            })),
        }
    }
}

impl Clone for Var {
    fn clone(&self) -> (r: Var)
        ensures
            r == *self,
    {
        Var { position: self.position, index: self.index, context_length: self.context_length }
    }
}

impl Clone for Abs {
    fn clone(&self) -> (r: Abs)
        ensures
            r == *self,
    {
        Abs { position: self.position, param_name: self.param_name.clone(), body: self.body.clone() }
    }
}

impl Clone for App {
    fn clone(&self) -> (r: App)
        ensures
            r == *self,
    {
        App { position: self.position, callee: self.callee.clone(), arg: self.arg.clone() }
    }
}

impl Position for Term {
    open spec fn range(&self) -> FilePositionRange {
        match *self {
            Term::Var(v) => v.position,
            Term::Abs(a) => a.position,
            Term::App(a) => a.position,
        }
    }

    fn position(&self) -> (r: FilePositionRange) {
        match self {
            Term::Var(var) => var.position,
            Term::Abs(abs) => abs.position,
            Term::App(app) => app.position,
        }
    }
}

impl Position for Var {
    open spec fn range(&self) -> FilePositionRange {
        self.position
    }

    fn position(&self) -> (r: FilePositionRange) {
        self.position
    }
}

impl Position for Abs {
    open spec fn range(&self) -> FilePositionRange {
        self.position
    }

    fn position(&self) -> (r: FilePositionRange) {
        self.position
    }
}

impl Position for App {
    open spec fn range(&self) -> FilePositionRange {
        self.position
    }

    fn position(&self) -> (r: FilePositionRange) {
        self.position
    }
}

/// The number of abstractions on the longest path from the root to a leaf.
pub open spec fn depth(t: Term) -> nat
    decreases t,
{
    match t {
        Term::Var(_) => 0,
        Term::Abs(a) => 1 + depth(a.body),
        Term::App(a) => if depth(a.callee) >= depth(a.arg) {
            depth(a.callee)
        } else {
            depth(a.arg)
        },
    }
}

/// `t` is well formed when it stands under `n` names: every variable points
/// into the names in scope, and records how many there are.
pub open spec fn wf(t: Term, n: int) -> bool
    decreases t,
{
    match t {
        Term::Var(v) => v.index < v.context_length && v.context_length == n,
        Term::Abs(a) => wf(a.body, n + 1),
        Term::App(a) => wf(a.callee, n) && wf(a.arg, n),
    }
}

/// The variable of index `j` (counted at the root) does not occur free in `t`.
pub open spec fn not_free(t: Term, j: int) -> bool
    decreases t,
{
    match t {
        Term::Var(v) => v.index != j,
        Term::Abs(a) => not_free(a.body, j + 1),
        Term::App(a) => not_free(a.callee, j) && not_free(a.arg, j),
    }
}

/// Every index and context length that shifting `t` by `d` above cutoff `c`
/// computes is a `usize`.
pub open spec fn shift_fits(t: Term, d: int, c: int) -> bool
    decreases t,
{
    match t {
        Term::Var(v) => (v.index >= c ==> 0 <= v.index + d <= usize::MAX) && 0 <= v.context_length
            + d <= usize::MAX,
        Term::Abs(a) => c + 1 <= usize::MAX && shift_fits(a.body, d, c + 1),
        Term::App(a) => shift_fits(a.callee, d, c) && shift_fits(a.arg, d, c),
    }
}

/// `t` with `d` added to every variable of index at least `c` (counted at the
/// root) and to every context length.
pub open spec fn shifted(t: Term, d: int, c: int) -> Term
    decreases t,
{
    match t {
        Term::Var(v) => Term::Var(
            Var {
                position: v.position,
                index: if v.index >= c {
                    (v.index + d) as usize
                } else {
                    v.index
                },
                context_length: (v.context_length + d) as usize,
            },
        ),
        Term::Abs(a) => Term::Abs(
            Box::new(Abs { position: a.position, param_name: a.param_name, body: shifted(a.body, d, c + 1) }),
        ),
        Term::App(a) => Term::App(
            Box::new(
                App { position: a.position, callee: shifted(a.callee, d, c), arg: shifted(a.arg, d, c) },
            ),
        ),
    }
}

/// Every number that substituting `s` for index `j` in `t` computes is a `usize`.
pub open spec fn subst_fits(t: Term, j: int, s: Term) -> bool
    decreases t,
{
    match t {
        Term::Var(_) => true,
        Term::Abs(a) => j + 1 <= usize::MAX && shift_fits(s, 1, 0) && subst_fits(
            a.body,
            j + 1,
            shifted(s, 1, 0),
        ),
        Term::App(a) => subst_fits(a.callee, j, s) && subst_fits(a.arg, j, s),
    }
}

/// `t` with every occurrence of index `j` replaced by `s`; under a binder the
/// index grows by one and `s` is shifted up by one.
pub open spec fn substituted(t: Term, j: int, s: Term) -> Term
    decreases t,
{
    match t {
        Term::Var(v) => if v.index == j {
            s
        } else {
            t
        },
        Term::Abs(a) => Term::Abs(
            Box::new(
                Abs {
                    position: a.position,
                    param_name: a.param_name,
                    body: substituted(a.body, j + 1, shifted(s, 1, 0)),
                },
            ),
        ),
        Term::App(a) => Term::App(
            Box::new(
                App {
                    position: a.position,
                    callee: substituted(a.callee, j, s),
                    arg: substituted(a.arg, j, s),
                },
            ),
        ),
    }
}

/// The result of beta-reduction: `↓¹([0 -> ↑¹(arg)] body)`.
pub open spec fn applied(body: Term, arg: Term) -> Term {
    shifted(substituted(body, 0, shifted(arg, 1, 0)), -1, 0)
}

/// Every number that beta-reducing `body` with `arg` computes is a `usize`.
pub open spec fn apply_fits(body: Term, arg: Term) -> bool {
    &&& shift_fits(arg, 1, 0)
    &&& subst_fits(body, 0, shifted(arg, 1, 0))
    &&& shift_fits(substituted(body, 0, shifted(arg, 1, 0)), -1, 0)
}

/// The number of names in scope at the root, read off the leftmost variable.
pub open spec fn free_names(t: Term) -> int
    decreases t,
{
    match t {
        Term::Var(v) => v.context_length as int,
        Term::Abs(a) => free_names(a.body) - 1,
        Term::App(a) => free_names(a.callee),
    }
}

/// `t` is well formed under the names that its variables record.
pub open spec fn well_formed(t: Term) -> bool {
    0 <= free_names(t) && wf(t, free_names(t))
}

pub proof fn lemma_wf_bounds(t: Term, n: int)
    ensures
        wf(t, n) ==> 1 <= n + depth(t) <= usize::MAX && free_names(t) == n,
    decreases t,
{
    match t {
        Term::Var(_) => {},
        Term::Abs(a) => lemma_wf_bounds(a.body, n + 1),
        Term::App(a) => {
            lemma_wf_bounds(a.callee, n);
            lemma_wf_bounds(a.arg, n);
        },
    }
}

/// Shifting a well-formed term up by one keeps it well formed, one name further in.
pub proof fn lemma_shift_up(t: Term, n: int, c: int)
    requires
        wf(t, n),
        0 <= c <= n,
        n + 1 + depth(t) <= usize::MAX,
    ensures
        shift_fits(t, 1, c),
        wf(shifted(t, 1, c), n + 1),
        depth(shifted(t, 1, c)) == depth(t),
    decreases t,
{
    match t {
        Term::Var(_) => {},
        Term::Abs(a) => lemma_shift_up(a.body, n + 1, c + 1),
        Term::App(a) => {
            lemma_shift_up(a.callee, n, c);
            lemma_shift_up(a.arg, n, c);
        },
    }
}

/// Shifting down by one, above a cutoff whose variable does not occur, keeps
/// a term well formed, one name further out.
pub proof fn lemma_shift_down(t: Term, n: int, c: int)
    requires
        wf(t, n),
        0 <= c < n,
        not_free(t, c),
    ensures
        shift_fits(t, -1, c),
        wf(shifted(t, -1, c), n - 1),
        depth(shifted(t, -1, c)) == depth(t),
    decreases t,
{
    lemma_wf_bounds(t, n);
    match t {
        Term::Var(_) => {},
        Term::Abs(a) => {
            lemma_wf_bounds(a.body, n + 1);
            lemma_shift_down(a.body, n + 1, c + 1);
        },
        Term::App(a) => {
            lemma_shift_down(a.callee, n, c);
            lemma_shift_down(a.arg, n, c);
        },
    }
}

/// Substituting a well-formed term into a well-formed term gives a
/// well-formed term.
pub proof fn lemma_subst_wf(t: Term, n: int, j: int, s: Term)
    requires
        wf(t, n),
        wf(s, n),
        0 <= j <= n,
        n + depth(t) + depth(s) <= usize::MAX,
    ensures
        subst_fits(t, j, s),
        wf(substituted(t, j, s), n),
        depth(substituted(t, j, s)) <= depth(t) + depth(s),
    decreases t,
{
    match t {
        Term::Var(_) => {},
        Term::Abs(a) => {
            lemma_shift_up(s, n, 0);
            lemma_subst_wf(a.body, n + 1, j + 1, shifted(s, 1, 0));
        },
        Term::App(a) => {
            lemma_subst_wf(a.callee, n, j, s);
            lemma_subst_wf(a.arg, n, j, s);
        },
    }
}

/// A term shifted up above cutoff `c` has no variable `c`, and a variable
/// absent before the shift is absent, one further out, after it.
pub proof fn lemma_shift_not_free(s: Term, c: int, j: int)
    requires
        shift_fits(s, 1, c),
        0 <= c,
    ensures
        not_free(shifted(s, 1, c), c),
        c <= j && not_free(s, j) ==> not_free(shifted(s, 1, c), j + 1),
    decreases s,
{
    match s {
        Term::Var(_) => {},
        Term::Abs(a) => lemma_shift_not_free(a.body, c + 1, j + 1),
        Term::App(a) => {
            lemma_shift_not_free(a.callee, c, j);
            lemma_shift_not_free(a.arg, c, j);
        },
    }
}

/// Substituting for `j` a term without `j` leaves no `j` behind.
pub proof fn lemma_subst_not_free(t: Term, j: int, s: Term)
    requires
        subst_fits(t, j, s),
        not_free(s, j),
        0 <= j,
    ensures
        not_free(substituted(t, j, s), j),
    decreases t,
{
    match t {
        Term::Var(_) => {},
        Term::Abs(a) => {
            lemma_shift_not_free(s, 0, j);
            lemma_subst_not_free(a.body, j + 1, shifted(s, 1, 0));
        },
        Term::App(a) => {
            lemma_subst_not_free(a.callee, j, s);
            lemma_subst_not_free(a.arg, j, s);
        },
    }
}

/// Beta-reduction of well-formed terms within bounds computes only `usize`
/// values and gives a well-formed term.
pub proof fn lemma_apply_wf(body: Term, arg: Term, n: int)
    requires
        wf(body, n + 1),
        wf(arg, n),
        0 <= n,
        n + 1 + depth(body) + depth(arg) <= usize::MAX,
    ensures
        apply_fits(body, arg),
        wf(applied(body, arg), n),
{
    lemma_wf_bounds(arg, n);
    lemma_shift_up(arg, n, 0);
    let s = shifted(arg, 1, 0);
    lemma_subst_wf(body, n + 1, 0, s);
    lemma_shift_not_free(arg, 0, 0);
    lemma_subst_not_free(body, 0, s);
    lemma_shift_down(substituted(body, 0, s), n + 1, 0);
}

/// Shifting up by one and then down by one, above the same cutoff, gives
/// back the term.
pub proof fn lemma_shift_up_down(t: Term, c: int)
    requires
        shift_fits(t, 1, c),
        0 <= c,
    ensures
        shift_fits(shifted(t, 1, c), -1, c),
        shifted(shifted(t, 1, c), -1, c) == t,
    decreases t,
{
    match t {
        Term::Var(_) => {},
        Term::Abs(a) => lemma_shift_up_down(a.body, c + 1),
        Term::App(a) => {
            lemma_shift_up_down(a.callee, c);
            lemma_shift_up_down(a.arg, c);
        },
    }
}

/// Substituting for a variable that does not occur leaves a term unchanged.
pub proof fn lemma_subst_absent(t: Term, j: int, s: Term)
    requires
        not_free(t, j),
    ensures
        substituted(t, j, s) == t,
    decreases t,
{
    match t {
        Term::Var(_) => {},
        Term::Abs(a) => lemma_subst_absent(a.body, j + 1, shifted(s, 1, 0)),
        Term::App(a) => {
            lemma_subst_absent(a.callee, j, s);
            lemma_subst_absent(a.arg, j, s);
        },
    }
}

/// Substituting into a freshly shifted term, for the index that the shift
/// introduced, changes nothing: the result is the shifted term itself.
pub proof fn lemma_subst_into_shifted(t: Term, c: int, s: Term)
    requires
        shift_fits(t, 1, c),
        0 <= c,
    ensures
        substituted(shifted(t, 1, c), c, s) == shifted(t, 1, c),
{
    lemma_shift_not_free(t, c, c);
    lemma_subst_absent(shifted(t, 1, c), c, s);
}

/// `shift(shift(t, 1), -1) == t` for a well-formed `t`, with every number on
/// the way a `usize`.
pub proof fn lemma_shift_round_trip(t: Term, n: int)
    requires
        wf(t, n),
        0 <= n,
        n + 1 + depth(t) <= usize::MAX,
    ensures
        shift_fits(t, 1, 0),
        shift_fits(shifted(t, 1, 0), -1, 0),
        shifted(shifted(t, 1, 0), -1, 0) == t,
{
    lemma_shift_up(t, n, 0);
    lemma_shift_up_down(t, 0);
}

/// `x + d`, for a result that is known to be a `usize`.
fn add_signed(x: usize, d: i32) -> (r: usize)
    requires
        0 <= x + d <= usize::MAX,
    ensures
        r == x + d,
{
    if d >= 0 {
        x + (d as usize)
    } else {
        let m: i64 = 0i64 - (d as i64);
        x - (m as usize)
    }
}

fn shift_with_cutoff(term: Term, amount: i32, cutoff: usize) -> (r: Term)
    requires
        shift_fits(term, amount as int, cutoff as int),
    ensures
        r == shifted(term, amount as int, cutoff as int),
    decreases term,
{
    match term {
        Term::Var(var) => Term::Var(
            Var {
                position: var.position,
                index: if var.index >= cutoff {
                    add_signed(var.index, amount)
                } else {
                    var.index
                },
                context_length: add_signed(var.context_length, amount),
            },
        ),
        Term::Abs(abs) => {
            let Abs { position, param_name, body } = *abs;
            Term::Abs(
                Box::new(
                    Abs { position, param_name, body: shift_with_cutoff(body, amount, cutoff + 1) },
                ),
            )
        },
        Term::App(app) => {
            let App { position, callee, arg } = *app;
            Term::App(
                Box::new(
                    App {
                        position,
                        callee: shift_with_cutoff(callee, amount, cutoff),
                        arg: shift_with_cutoff(arg, amount, cutoff),
                    },
                ),
            )
        },
    }
}

impl Term {
    /// Adds `amount` to the index of every free variable and to every
    /// context length.
    pub fn shift(self, amount: i32) -> (r: Term)
        requires
            shift_fits(self, amount as int, 0),
        ensures
            r == shifted(self, amount as int, 0),
    {
        shift_with_cutoff(self, amount, 0)
    }

    /// Replaces every free occurrence of index `replacee` by `replacer`.
    pub fn subst(self, replacee: usize, replacer: &Term) -> (r: Term)
        requires
            subst_fits(self, replacee as int, *replacer),
        ensures
            r == substituted(self, replacee as int, *replacer),
        decreases self,
    {
        match self {
            Term::Var(var) => {
                if var.index == replacee {
                    replacer.clone()
                } else {
                    Term::Var(var)
                }
            },
            Term::Abs(abs) => {
                let Abs { position, param_name, body } = *abs;
                let shifted_replacer = replacer.clone().shift(1);
                Term::Abs(
                    Box::new(
                        Abs { position, param_name, body: body.subst(replacee + 1, &shifted_replacer) },
                    ),
                )
            },
            Term::App(app) => {
                let App { position, callee, arg } = *app;
                Term::App(
                    Box::new(
                        App {
                            position,
                            callee: callee.subst(replacee, replacer),
                            arg: arg.subst(replacee, replacer),
                        },
                    ),
                )
            },
        }
    }

    pub fn is_val(&self) -> (r: bool)
        ensures
            r == (*self is Abs),
    {
        self.is_abs()
    }

    pub fn is_var(&self) -> (r: bool)
        ensures
            r == (*self is Var),
    {
        match self {
            Term::Var(_) => true,
            _ => false,
        }
    }

    pub fn is_abs(&self) -> (r: bool)
        ensures
            r == (*self is Abs),
    {
        match self {
            Term::Abs(_) => true,
            _ => false,
        }
    }

    pub fn is_app(&self) -> (r: bool)
        ensures
            r == (*self is App),
    {
        match self {
            Term::App(_) => true,
            _ => false,
        }
    }
}

impl Abs {
    /// Beta-reduction: the body with `argument` put in place of the bound
    /// variable.
    pub fn apply(self, argument: &Term) -> (r: Term)
        requires
            apply_fits(self.body, *argument),
        ensures
            r == applied(self.body, *argument),
    {
        self.body.subst(0, &argument.clone().shift(1)).shift(-1)
    }
}

/// The text of `t`: an index for a variable, `(\\. body)` for an
/// abstraction, `(callee arg)` for an application.
pub open spec fn text_of(t: Term) -> Seq<char>
    decreases t,
{
    match t {
        Term::Var(v) => decimal(v.index as nat),
        Term::Abs(a) => seq!['(', '\\', '.', ' '] + text_of(a.body) + seq![')'],
        Term::App(a) => seq!['('] + text_of(a.callee) + seq![' '] + text_of(a.arg) + seq![')'],
    }
}

impl Term {
    /// The text of the term, as `text_of` gives it.
    pub fn to_string(&self) -> (r: String)
        ensures
            r@ == text_of(*self),
        decreases self,
    {
        match self {
            Term::Var(v) => decimal_string(v.index),
            Term::Abs(a) => {
                let mut s = String::new();
                push_char(&mut s, '(');
                push_char(&mut s, '\\');
                push_char(&mut s, '.');
                push_char(&mut s, ' ');
                let body = a.body.to_string();
                s.append(body.as_str());
                push_char(&mut s, ')');
                assert(s@ =~= seq!['(', '\\', '.', ' '] + text_of(a.body) + seq![')']);
                s
            },
            Term::App(a) => {
                let mut s = String::new();
                push_char(&mut s, '(');
                let callee = a.callee.to_string();
                s.append(callee.as_str());
                push_char(&mut s, ' ');
                let arg = a.arg.to_string();
                s.append(arg.as_str());
                push_char(&mut s, ')');
                assert(s@ =~= seq!['('] + text_of(a.callee) + seq![' '] + text_of(a.arg) + seq![')']);
                s
            },
        }
    }
}

/// The variable that could not be found among the names in scope.
#[derive(Debug)]
pub struct CannotFindVarInCtxErr(pub named::Var);

/// `t` with each variable replaced by its de Bruijn index under `names`, or
/// the first variable, depth first and left to right, that is not in scope.
pub open spec fn to_unnamed(t: NamedTerm, names: Seq<Seq<char>>) -> Result<Term, named::Var>
    decreases t,
{
    match t {
        NamedTerm::Var(v) => match lookup(names, v.name@) {
            Some(i) => Ok(
                Term::Var(
                    Var { position: v.position, index: i as usize, context_length: names.len() as usize },
                ),
            ),
            None => Err(v),
        },
        NamedTerm::Abs(a) => match to_unnamed(a.body, names.push(a.param.name@)) {
            Ok(body) => Ok(
                Term::Abs(Box::new(Abs { position: a.position, param_name: a.param.name, body })),
            ),
            Err(e) => Err(e),
        },
        NamedTerm::App(a) => match to_unnamed(a.callee, names) {
            Ok(callee) => match to_unnamed(a.arg, names) {
                Ok(arg) => Ok(Term::App(Box::new(App { position: a.position, callee, arg }))),
                Err(e) => Err(e),
            },
            Err(e) => Err(e),
        },
    }
}

pub open spec fn same_outcome(r: Result<Term, CannotFindVarInCtxErr>, s: Result<Term, named::Var>) -> bool {
    match r {
        Ok(t) => s == Ok::<Term, named::Var>(t),
        Err(e) => s == Err::<Term, named::Var>(e.0),
    }
}

impl Term {
    /// Resolves every variable of `named` against `ctx`.
    pub fn from_named(named: NamedTerm, ctx: &Context) -> (r: Result<Term, CannotFindVarInCtxErr>)
        ensures
            same_outcome(r, to_unnamed(named, ctx@)),
        decreases named,
    {
        match named {
            NamedTerm::Var(var) => Var::from_named(var, ctx),
            NamedTerm::Abs(abs) => {
                let named::Abs { position, param, body } = *abs;
                let param_name = param.name;
                let body_ctx = ctx.extended(param_name.clone());
                match Term::from_named(body, &body_ctx) {
                    Ok(body) => Ok(Term::Abs(Box::new(Abs { position, param_name, body }))),
                    Err(e) => Err(e),
                }
            },
            NamedTerm::App(app) => {
                let named::App { position, callee, arg } = *app;
                match Term::from_named(callee, ctx) {
                    Ok(callee) => match Term::from_named(arg, ctx) {
                        Ok(arg) => Ok(Term::App(Box::new(App { position, callee, arg }))),
                        Err(e) => Err(e),
                    },
                    Err(e) => Err(e),
                }
            },
        }
    }
}

impl Var {
    pub fn from_named(var: named::Var, ctx: &Context) -> (r: Result<Term, CannotFindVarInCtxErr>)
        ensures
            same_outcome(r, to_unnamed(NamedTerm::Var(var), ctx@)),
    {
        match ctx.get(var.name.as_str()) {
            Some(index) => Ok(Term::Var(Var { position: var.position, index, context_length: ctx.len() })),
            None => Err(CannotFindVarInCtxErr(var)),
        }
    }
}

/// The names in scope, innermost last.
#[derive(Debug)]
pub struct Context {
    names: Vec<String>,
}

/// Index, counted from the innermost name, of the innermost occurrence of
/// `target` among `names`.
pub open spec fn lookup(names: Seq<Seq<char>>, target: Seq<char>) -> Option<nat>
    decreases names.len(),
{
    if names.len() == 0 {
        None
    } else if names.last() == target {
        Some(0)
    } else {
        match lookup(names.drop_last(), target) {
            Some(i) => Some(i + 1),
            None => None,
        }
    }
}

pub open spec fn shift_opt(o: Option<nat>, k: nat) -> Option<nat> {
    match o {
        Some(i) => Some(i + k),
        None => None,
    }
}

/// Whether two strings hold the same characters.
pub fn same_text(a: &str, b: &str) -> (r: bool)
    ensures
        r == (a@ == b@),
{
    let n = a.unicode_len();
    if n != b.unicode_len() {
        return false;
    }
    let mut i: usize = 0;
    while i < n
        invariant
            n == a@.len(),
            n == b@.len(),
            i <= n,
            forall|k: int| 0 <= k < i ==> a@[k] == b@[k],
        decreases n - i,
    {
        if a.get_char(i) != b.get_char(i) {
            return false;
        }
        i += 1;
    }
    assert(a@ =~= b@);
    true
}

impl View for Context {
    type V = Seq<Seq<char>>;

    closed spec fn view(&self) -> Seq<Seq<char>> {
        self.names@.map_values(|s: String| s@)
    }
}

impl Clone for Context {
    fn clone(&self) -> (r: Context)
        ensures
            r@ == self@,
    {
        let mut names: Vec<String> = Vec::new();
        let mut i: usize = 0;
        while i < self.names.len()
            invariant
                i <= self.names@.len(),
                names@.len() == i,
                forall|k: int| 0 <= k < i ==> names@[k] == self.names@[k],
            decreases self.names@.len() - i,
        {
            names.push(self.names[i].clone());
            i += 1;
        }
        let r = Context { names };
        assert(r@ =~= self@);
        r
    }
}

impl Context {
    pub fn new() -> (r: Context)
        ensures
            r@ == Seq::<Seq<char>>::empty(),
    {
        let r = Context { names: Vec::new() };
        assert(r@ =~= Seq::<Seq<char>>::empty());
        r
    }

    pub fn from_strs(strs: &[&str]) -> (r: Context)
        ensures
            r@.len() == strs@.len(),
            forall|k: int| 0 <= k < strs@.len() ==> r@[k] == strs@[k]@,
    {
        let mut names: Vec<String> = Vec::new();
        let mut i: usize = 0;
        while i < strs.len()
            invariant
                i <= strs@.len(),
                names@.len() == i,
                forall|k: int| 0 <= k < i ==> names@[k]@ == strs@[k]@,
            decreases strs@.len() - i,
        {
            names.push(String::from_str(strs[i]));
            i += 1;
        }
        Context { names }
    }

    pub fn from_strings(strings: &[String]) -> (r: Context)
        ensures
            r@.len() == strings@.len(),
            forall|k: int| 0 <= k < strings@.len() ==> r@[k] == strings@[k]@,
    {
        let mut names: Vec<String> = Vec::new();
        let mut i: usize = 0;
        while i < strings.len()
            invariant
                i <= strings@.len(),
                names@.len() == i,
                forall|k: int| 0 <= k < i ==> names@[k]@ == strings@[k]@,
            decreases strings@.len() - i,
        {
            names.push(strings[i].clone());
            i += 1;
        }
        Context { names }
    }

    /// The de Bruijn index of the innermost binding of `target`.
    pub fn get(&self, target: &str) -> (r: Option<usize>)
        ensures
            r matches Some(i) ==> lookup(self@, target@) == Some(i as nat),
            r is None ==> lookup(self@, target@) is None,
    {
        let len = self.names.len();
        let mut k: usize = len;
        assert(self@.take(len as int) =~= self@);
        while k > 0
            invariant
                k <= len,
                len == self@.len(),
                lookup(self@, target@) == shift_opt(lookup(self@.take(k as int), target@), (len - k) as nat),
            decreases k,
        {
            assert(self@.take(k as int).drop_last() =~= self@.take(k - 1));
            assert(self@.take(k as int).last() == self.names@[k - 1]@);
            if same_text(self.names[k - 1].as_str(), target) {
                return Some(len - k);
            }
            k -= 1;
        }
        None
    }

    /// The name that index `index` refers to, if it is in scope.
    pub fn name(&self, index: usize) -> (r: Option<&String>)
        ensures
            index < self@.len() ==> (r matches Some(s) && s@ == self@[self@.len() - 1 - index]),
            index >= self@.len() ==> r is None,
    {
        if index < self.names.len() {
            Some(&self.names[self.names.len() - 1 - index])
        } else {
            None
        }
    }

    pub fn len(&self) -> (r: usize)
        ensures
            r == self@.len(),
    {
        self.names.len()
    }

    /// This context with `name` bound innermost.
    pub fn extended(&self, name: String) -> (r: Context)
        ensures
            r@ == self@.push(name@),
    {
        let mut c = self.clone();
        c.names.push(name);
        assert(c@ =~= self@.push(name@));
        c
    }
}

} // verus!
