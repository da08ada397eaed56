use super::unnamed;
use crate::file_position::{FilePosition, FilePositionRange, Position};
use unnamed::{lookup, to_unnamed, wf, Context, Term as UnnamedTerm};
use vstd::prelude::*;

verus! {

/// A term whose variables are referred to by name.
#[derive(PartialEq, Eq, Debug)]
pub enum Term {
    Var(Var),
    Abs(Box<Abs>),
    App(Box<App>),
}

#[derive(PartialEq, Eq, Debug)]
pub struct Var {
    pub position: FilePositionRange,
    pub name: String,
}

#[derive(PartialEq, Eq, Debug)]
pub struct Abs {
    pub position: FilePositionRange,
    pub param: Var,
    pub body: Term,
}

#[derive(PartialEq, Eq, Debug)]
pub struct App {
    pub position: FilePositionRange,
    pub callee: Term,
    pub arg: Term,
}

/// A named term with its names as characters.
pub enum NamedModel {
    Var(Seq<char>, FilePositionRange),
    /// Parameter name, parameter position, body, position.
    Abs(Seq<char>, FilePositionRange, Box<NamedModel>, FilePositionRange),
    App(Box<NamedModel>, Box<NamedModel>, FilePositionRange),
}

pub open spec fn model_of(t: Term) -> NamedModel
    decreases t,
{
    match t {
        Term::Var(v) => NamedModel::Var(v.name@, v.position),
        Term::Abs(a) => NamedModel::Abs(
            a.param.name@,
            a.param.position,
            Box::new(model_of(a.body)),
            a.position,
        ),
        Term::App(a) => NamedModel::App(
            Box::new(model_of(a.callee)),
            Box::new(model_of(a.arg)),
            a.position,
        ),
    }
}

pub open spec fn model_range(m: NamedModel) -> FilePositionRange {
    match m {
        NamedModel::Var(_, p) => p,
        NamedModel::Abs(_, _, _, p) => p,
        NamedModel::App(_, _, p) => p,
    }
}

impl View for Term {
    type V = NamedModel;

    open spec fn view(&self) -> NamedModel {
        model_of(*self)
    }
}

impl Clone for Term {
    fn clone(&self) -> (r: Term)
        ensures
            r == *self,
        decreases self,
    {
        match self {
            Term::Var(v) => Term::Var(v.clone()),
            Term::Abs(a) => Term::Abs(
                Box::new(Abs { position: a.position, param: a.param.clone(), body: a.body.clone() }),
            ),
            Term::App(a) => Term::App(
                Box::new(App { position: a.position, callee: a.callee.clone(), arg: a.arg.clone() }),
            ),
        }
    }
}

impl Clone for Var {
    fn clone(&self) -> (r: Var)
        ensures
            r == *self,
    {
        Var { position: self.position, name: self.name.clone() }
    }
}

impl Clone for Abs {
    fn clone(&self) -> (r: Abs)
        ensures
            r == *self,
    {
        Abs { position: self.position, param: self.param.clone(), body: self.body.clone() }
    }
}

impl Clone for App {
    fn clone(&self) -> (r: App)
        ensures
            r == *self,
    {
        App { position: self.position, callee: self.callee.clone(), arg: self.arg.clone() }
    }
}

impl Term {
    pub fn is_var(&self) -> (r: bool)
        ensures
            r == (*self is Var),
    {
        match self {
            Term::Var(_) => true,
            _ => false,
        }
    }

    pub fn is_abs(&self) -> (r: bool)
        ensures
            r == (*self is Abs),
    {
        match self {
            Term::Abs(_) => true,
            _ => false,
        }
    }

    pub fn is_app(&self) -> (r: bool)
        ensures
            r == (*self is App),
    {
        match self {
            Term::App(_) => true,
            _ => false,
        }
    }
}

pub open spec fn term_range(t: Term) -> FilePositionRange {
    match t {
        Term::Var(v) => v.position,
        Term::Abs(a) => a.position,
        Term::App(a) => a.position,
    }
}

impl Position for Term {
    open spec fn range(&self) -> FilePositionRange {
        term_range(*self)
    }

    fn position(&self) -> (r: FilePositionRange) {
        match self {
            Term::Var(var) => var.position,
            Term::Abs(abs) => abs.position,
            Term::App(app) => app.position,
        }
    }
}

impl Position for Var {
    open spec fn range(&self) -> FilePositionRange {
        self.position
    }

    fn position(&self) -> (r: FilePositionRange) {
        self.position
    }
}

impl Position for Abs {
    open spec fn range(&self) -> FilePositionRange {
        self.position
    }

    fn position(&self) -> (r: FilePositionRange) {
        self.position
    }
}

impl Position for App {
    open spec fn range(&self) -> FilePositionRange {
        self.position
    }

    fn position(&self) -> (r: FilePositionRange) {
        self.position
    }
}

/// The position given to terms that were not read from source text.
pub open spec fn no_position() -> FilePositionRange {
    FilePositionRange {
        start: FilePosition { index: 0, column: 0, line: 0 },
        end: FilePosition { index: 0, column: 0, line: 0 },
    }
}

pub fn dummy_position() -> (r: FilePositionRange)
    ensures
        r == no_position(),
{
    FilePositionRange {
        start: FilePosition { index: 0, column: 0, line: 0 },
        end: FilePosition { index: 0, column: 0, line: 0 },
    }
}

/// The longest name among `names`.
pub open spec fn max_len(names: Seq<Seq<char>>) -> nat
    decreases names.len(),
{
    if names.len() == 0 {
        0
    } else if names.last().len() > max_len(names.drop_last()) {
        names.last().len()
    } else {
        max_len(names.drop_last())
    }
}

/// `hint` followed by as few `'` as make it a name not among `names`.
pub open spec fn fresh_name(names: Seq<Seq<char>>, hint: Seq<char>) -> Seq<char>
    decreases max_len(names) + 1 - hint.len(),
{
    if lookup(names, hint) is Some && hint.len() <= max_len(names) {
        fresh_name(names, hint.push('\''))
    } else {
        hint
    }
}

pub open spec fn digit_char(d: nat) -> char {
    if d == 0 {
        '0'
    } else if d == 1 {
        '1'
    } else if d == 2 {
        '2'
    } else if d == 3 {
        '3'
    } else if d == 4 {
        '4'
    } else if d == 5 {
        '5'
    } else if d == 6 {
        '6'
    } else if d == 7 {
        '7'
    } else if d == 8 {
        '8'
    } else {
        '9'
    }
}

/// The decimal digits of `n`.
pub open spec fn decimal(n: nat) -> Seq<char>
    decreases n,
{
    if n < 10 {
        seq![digit_char(n)]
    } else {
        decimal(n / 10).push(digit_char(n % 10))
    }
}

/// The name shown for index `i` under `names`: the name it refers to, or
/// `$i` for an index beyond them.
pub open spec fn display_name(names: Seq<Seq<char>>, i: nat) -> Seq<char> {
    if i < names.len() {
        names[names.len() - 1 - i]
    } else {
        seq!['$'] + decimal(i)
    }
}

/// `r` is `u` with names put back under `names`: each variable takes the
/// name it refers to, and each parameter takes its hint, primed until it is
/// new to the names in scope. Every node has no position.
pub open spec fn is_named_of(r: Term, u: UnnamedTerm, names: Seq<Seq<char>>) -> bool
    decreases u,
{
    match u {
        UnnamedTerm::Var(v) => r matches Term::Var(rv) && rv.position == no_position() && rv.name@
            == display_name(names, v.index as nat),
        UnnamedTerm::Abs(a) => {
            let p = fresh_name(names, a.param_name@);
            r matches Term::Abs(ra) && ra.position == no_position() && ra.param.position
                == no_position() && ra.param.name@ == p && is_named_of(ra.body, a.body, names.push(p))
        },
        UnnamedTerm::App(a) => r matches Term::App(ra) && ra.position == no_position()
            && is_named_of(ra.callee, a.callee, names) && is_named_of(ra.arg, a.arg, names),
    }
}

/// No name occurs twice among `names`.
pub open spec fn distinct(names: Seq<Seq<char>>) -> bool {
    forall|i: int, j: int| 0 <= i < j < names.len() ==> names[i] != names[j]
}

/// `u1` and `u2` are the same nameless term, up to positions and display
/// names.
pub open spec fn same_nameless(u1: UnnamedTerm, u2: UnnamedTerm) -> bool
    decreases u1,
{
    match (u1, u2) {
        (UnnamedTerm::Var(a), UnnamedTerm::Var(b)) => a.index == b.index && a.context_length
            == b.context_length,
        (UnnamedTerm::Abs(a), UnnamedTerm::Abs(b)) => same_nameless(a.body, b.body),
        (UnnamedTerm::App(a), UnnamedTerm::App(b)) => same_nameless(a.callee, b.callee)
            && same_nameless(a.arg, b.arg),
        _ => false,
    }
}

/// The number of abstractions on the longest path of a named term.
pub open spec fn named_depth(t: Term) -> nat
    decreases t,
{
    match t {
        Term::Var(_) => 0,
        Term::Abs(a) => 1 + named_depth(a.body),
        Term::App(a) => if named_depth(a.callee) >= named_depth(a.arg) {
            named_depth(a.callee)
        } else {
            named_depth(a.arg)
        },
    }
}

pub proof fn lemma_lookup_bound(names: Seq<Seq<char>>, s: Seq<char>)
    ensures
        lookup(names, s) matches Some(i) ==> i < names.len(),
        lookup(names, s) is None ==> forall|k: int| 0 <= k < names.len() ==> names[k] != s,
    decreases names.len(),
{
    if names.len() > 0 {
        lemma_lookup_bound(names.drop_last(), s);
        assert forall|k: int| 0 <= k < names.len() - 1 implies names.drop_last()[k] == names[k] by {}
    }
}

/// In a list without repeats, a name is found at the index it stands at.
pub proof fn lemma_lookup_distinct(names: Seq<Seq<char>>, k: int)
    requires
        distinct(names),
        0 <= k < names.len(),
    ensures
        lookup(names, names[names.len() - 1 - k]) == Some(k as nat),
    decreases names.len(),
{
    if k > 0 {
        let d = names.drop_last();
        assert(d[d.len() - 1 - (k - 1)] == names[names.len() - 1 - k]);
        assert(distinct(d));
        lemma_lookup_distinct(d, k - 1);
    }
}

/// The name that `fresh_name` picks is not among `names`.
pub proof fn lemma_fresh_name(names: Seq<Seq<char>>, hint: Seq<char>)
    ensures
        lookup(names, fresh_name(names, hint)) is None,
    decreases max_len(names) + 1 - hint.len(),
{
    if lookup(names, hint) is Some {
        lemma_lookup_len(names, hint);
        lemma_fresh_name(names, hint.push('\''));
    }
}

/// Resolving the displayed form of a well-formed nameless term, under names
/// without repeats, gives the same nameless term back.
pub proof fn lemma_display_resolves(u: UnnamedTerm, r: Term, names: Seq<Seq<char>>)
    requires
        wf(u, names.len() as int),
        distinct(names),
        is_named_of(r, u, names),
    ensures
        to_unnamed(r, names) matches Ok(u2) && same_nameless(u, u2),
    decreases u,
{
    match u {
        UnnamedTerm::Var(v) => {
            lemma_lookup_distinct(names, v.index as int);
        },
        UnnamedTerm::Abs(a) => {
            let p = fresh_name(names, a.param_name@);
            lemma_fresh_name(names, a.param_name@);
            lemma_lookup_bound(names, p);
            let ext = names.push(p);
            assert(distinct(ext));
            match r {
                Term::Abs(ra) => lemma_display_resolves(a.body, ra.body, ext),
                _ => {},
            }
        },
        UnnamedTerm::App(a) => {
            match r {
                Term::App(ra) => {
                    lemma_display_resolves(a.callee, ra.callee, names);
                    lemma_display_resolves(a.arg, ra.arg, names);
                },
                _ => {},
            }
        },
    }
}

/// Resolving a named term within `usize` bounds gives a well-formed term.
pub proof fn lemma_to_unnamed_wf(t: Term, names: Seq<Seq<char>>)
    requires
        names.len() + named_depth(t) <= usize::MAX,
    ensures
        to_unnamed(t, names) matches Ok(u) ==> wf(u, names.len() as int),
    decreases t,
{
    match t {
        Term::Var(v) => lemma_lookup_bound(names, v.name@),
        Term::Abs(a) => lemma_to_unnamed_wf(a.body, names.push(a.param.name@)),
        Term::App(a) => {
            lemma_to_unnamed_wf(a.callee, names);
            lemma_to_unnamed_wf(a.arg, names);
        },
    }
}

/// Round trip: a closed named term, resolved to indices and shown with names
/// again, resolves to the same nameless term; the two named terms differ at
/// most in positions and in primes added to parameter names.
pub proof fn lemma_round_trip(t: Term, u: UnnamedTerm, r: Term)
    requires
        named_depth(t) <= usize::MAX,
        to_unnamed(t, Seq::empty()) == Ok::<UnnamedTerm, Var>(u),
        is_named_of(r, u, Seq::empty()),
    ensures
        to_unnamed(r, Seq::empty()) matches Ok(u2) && same_nameless(u, u2),
{
    lemma_to_unnamed_wf(t, Seq::empty());
    lemma_display_resolves(u, r, Seq::empty());
}

/// Relies on `String::push`: appends one character.
#[verifier::external_body]
pub(crate) fn push_char(s: &mut String, c: char)
    ensures
        final(s)@ == old(s)@.push(c),
{
    s.push(c)
}

fn digit(d: usize) -> (c: char)
    requires
        d < 10,
    ensures
        c == digit_char(d as nat),
{
    if d == 0 {
        '0'
    } else if d == 1 {
        '1'
    } else if d == 2 {
        '2'
    } else if d == 3 {
        '3'
    } else if d == 4 {
        '4'
    } else if d == 5 {
        '5'
    } else if d == 6 {
        '6'
    } else if d == 7 {
        '7'
    } else if d == 8 {
        '8'
    } else {
        '9'
    }
}

pub(crate) fn decimal_string(n: usize) -> (r: String)
    ensures
        r@ == decimal(n as nat),
    decreases n,
{
    let mut s = if n < 10 {
        String::new()
    } else {
        decimal_string(n / 10)
    };
    push_char(&mut s, digit(n % 10));
    s
}

proof fn lemma_lookup_len(names: Seq<Seq<char>>, s: Seq<char>)
    requires
        lookup(names, s) is Some,
    ensures
        s.len() <= max_len(names),
    decreases names.len(),
{
    if names.last() != s {
        lemma_lookup_len(names.drop_last(), s);
    }
}

fn fresh_param_name(ctx: &Context, hint: String) -> (r: String)
    ensures
        r@ == fresh_name(ctx@, hint@),
{
    let mut used = hint;
    while ctx.get(used.as_str()).is_some()
        invariant
            fresh_name(ctx@, used@) == fresh_name(ctx@, hint@),
        decreases max_len(ctx@) + 1 - used@.len(),
    {
        proof {
            lemma_lookup_len(ctx@, used@);
        }
        push_char(&mut used, '\'');
    }
    used
}

impl Term {
    /// The named form of `un` under the names of `ctx`, for display.
    pub fn unpositioned_from_unnamed(un: UnnamedTerm, ctx: &Context) -> (r: Term)
        ensures
            is_named_of(r, un, ctx@),
        decreases un,
    {
        match un {
            UnnamedTerm::Var(var) => Term::Var(Var::unpositioned_from_unnamed(var, ctx)),
            UnnamedTerm::Abs(abs) => Term::Abs(Box::new(Abs::unpositioned_from_unnamed(*abs, ctx))),
            UnnamedTerm::App(app) => Term::App(Box::new(App::unpositioned_from_unnamed(*app, ctx))),
        }
    }
}

impl Var {
    pub fn unpositioned_from_unnamed(un: unnamed::Var, ctx: &Context) -> (r: Var)
        ensures
            is_named_of(Term::Var(r), UnnamedTerm::Var(un), ctx@),
    {
        let name = match ctx.name(un.index) {
            Some(name) => name.clone(),
            None => {
                let mut s = String::new();
                push_char(&mut s, '$');
                let digits = decimal_string(un.index);
                let mut i: usize = 0;
                let n = digits.as_str().unicode_len();
                while i < n
                    invariant
                        n == digits@.len(),
                        i <= n,
                        s@ == seq!['$'] + digits@.take(i as int),
                    decreases n - i,
                {
                    push_char(&mut s, digits.as_str().get_char(i));
                    assert(digits@.take(i + 1) =~= digits@.take(i as int).push(digits@[i as int]));
                    i += 1;
                }
                assert(digits@.take(n as int) =~= digits@);
                s
            },
        };
        assert(name@ == display_name(ctx@, un.index as nat));
        Var { name, position: dummy_position() }
    }
}

impl Abs {
    pub fn unpositioned_from_unnamed(un: unnamed::Abs, ctx: &Context) -> (r: Abs)
        ensures
            is_named_of(Term::Abs(Box::new(r)), UnnamedTerm::Abs(Box::new(un)), ctx@),
        decreases un,
    {
        let used_param_name = fresh_param_name(ctx, un.param_name);
        let body_ctx = ctx.extended(used_param_name.clone());
        Abs {
            position: dummy_position(),
            param: Var { position: dummy_position(), name: used_param_name },
            body: Term::unpositioned_from_unnamed(un.body, &body_ctx),
        }
    }
}

impl App {
    pub fn unpositioned_from_unnamed(un: unnamed::App, ctx: &Context) -> (r: App)
        ensures
            is_named_of(Term::App(Box::new(r)), UnnamedTerm::App(Box::new(un)), ctx@),
        decreases un,
    {
        App {
            position: dummy_position(),
            callee: Term::unpositioned_from_unnamed(un.callee, ctx),
            arg: Term::unpositioned_from_unnamed(un.arg, ctx),
        }
    }
}

} // verus!
