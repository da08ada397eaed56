use tapl::chapter_4::big_step_evaluator;
use tapl::chapter_7::evaluator::{is_well_formed, is_within_limits};
use tapl::chapter_7::parser::err::{ExpectedToken, ParseErr};
use tapl::chapter_7::parser::lexer::Token;
use tapl::chapter_7::parser::unpositioned as unp;
use tapl::chapter_7::term::named::{self, dummy_position, Term as NamedTerm};
use tapl::chapter_7::term::unnamed::{Context, Term, Var};
use tapl::chapter_7::{eval, eval1, eval_count, parse};
use tapl::file_position::Position;
use unp::IntoUnpositioned;

fn unnamed(src: &str, names: &[&str]) -> Term {
    let named = parse(src).expect("parses");
    Term::from_named(named, &Context::from_strs(names)).expect("all names bound")
}

fn shown(t: Term, names: &[&str]) -> unp::Term {
    NamedTerm::unpositioned_from_unnamed(t, &Context::from_strs(names)).into_unpositioned()
}

fn var(index: usize, context_length: usize) -> Term {
    Term::Var(Var { position: dummy_position(), index, context_length })
}

#[test]
fn identity_is_already_a_value() {
    let parsed = parse(r"\x. x").into_unpositioned();
    let expected: Result<_, unp::ParseErr> = Ok(unp::abs("x", unp::var("x")));
    assert_eq!(parsed, expected);
    let t = unnamed(r"\x. x", &[]);
    assert!(t.is_val());
    assert_eq!(eval1(t.clone()), None);
    assert_eq!(eval(t.clone()), t);
    assert_eq!(eval_count(t.clone()), (t, 0));
}

#[test]
fn one_step_beta_reduces_to_the_argument() {
    let t = unnamed(r"(\x. x) (\y. y)", &[]);
    let stepped = eval1(t).expect("a redex");
    assert_eq!(shown(stepped, &[]), unp::abs("y", unp::var("y")));
}

#[test]
fn worked_example_takes_two_steps() {
    let t = unnamed(r"(\a. a \b. a) \x.x", &[]);
    let first = eval1(t.clone()).expect("first step");
    assert_eq!(
        shown(first.clone(), &[]),
        unp::app(unp::abs("x", unp::var("x")), unp::abs("b", unp::abs("x", unp::var("x"))))
    );
    let second = eval1(first).expect("second step");
    assert_eq!(eval1(second.clone()), None);
    let (normal_form, count) = eval_count(t);
    assert_eq!(count, 2);
    assert_eq!(normal_form, second);
    assert_eq!(shown(normal_form, &[]), unp::abs("b", unp::abs("x", unp::var("x"))));
}

#[test]
fn unbound_variable_is_reported() {
    let named = parse("x y").expect("parses");
    match Term::from_named(named, &Context::from_strs(&["y"])) {
        Err(e) => assert_eq!(e.0.name, "x"),
        Ok(_) => panic!("x is not bound"),
    }
}

#[test]
fn stray_trailing_token_is_rejected() {
    let actual = parse(r"(\x.x) (\y.y) )").into_unpositioned();
    let expected: Result<unp::Term, _> = Err(unp::ParseErr::UnexpectedTokenOrEof(
        unp::UnexpectedTokenOrEofErr { expected: vec![ExpectedToken::Eof], actual: unp::TokenOrEof::Token(Token::RParen) },
    ));
    assert_eq!(actual, expected);
}

#[test]
fn trailing_identifier_is_one_more_argument() {
    let actual = parse(r"(\x.x) (\y.y) extra").into_unpositioned();
    let expected: Result<_, unp::ParseErr> = Ok(unp::app(
        unp::app(unp::abs("x", unp::var("x")), unp::abs("y", unp::var("y"))),
        unp::var("extra"),
    ));
    assert_eq!(actual, expected);
}

#[test]
fn each_grammar_error_names_what_was_expected() {
    let cases: [(&str, Vec<ExpectedToken>, unp::TokenOrEof); 5] = [
        ("", vec![ExpectedToken::Lambda, ExpectedToken::LParen, ExpectedToken::Ident], unp::TokenOrEof::Eof),
        (r"\ . x", vec![ExpectedToken::Ident], unp::TokenOrEof::Token(Token::Dot)),
        (r"\x x", vec![ExpectedToken::Dot], unp::TokenOrEof::Token(Token::Ident("x".to_string()))),
        ("(x", vec![ExpectedToken::RParen], unp::TokenOrEof::Eof),
        (")", vec![ExpectedToken::Lambda, ExpectedToken::LParen, ExpectedToken::Ident], unp::TokenOrEof::Token(Token::RParen)),
    ];
    for (src, expected, actual) in cases {
        let got = parse(src).into_unpositioned();
        let want: Result<unp::Term, _> =
            Err(unp::ParseErr::UnexpectedTokenOrEof(unp::UnexpectedTokenOrEofErr { expected, actual }));
        assert_eq!(got, want, "input {:?}", src);
    }
}

#[test]
fn unknown_character_is_a_tokenization_error() {
    match parse("x # y") {
        Err(ParseErr::Tokenization(e)) => assert_eq!(e.str(), "# y"),
        other => panic!("unexpected {:?}", other),
    }
}

#[test]
fn positions_span_first_to_last_token() {
    let t = parse("x\n  yy").expect("parses");
    match t {
        NamedTerm::App(app) => {
            assert_eq!(app.position.start.index, 0);
            assert_eq!(app.position.end.index, 6);
            assert_eq!(app.position.end.line, 2);
            assert_eq!(app.position.end.column, 4);
            match app.arg {
                NamedTerm::Var(v) => {
                    assert_eq!(v.position.start.line, 2);
                    assert_eq!(v.position.start.column, 2);
                }
                _ => panic!("argument is a variable"),
            }
        }
        _ => panic!("an application"),
    }
}

#[test]
fn divergent_term_keeps_stepping_to_itself() {
    let t = unnamed(r"(\x. x x) (\x. x x)", &[]);
    let shape = shown(t.clone(), &[]);
    let mut current = t;
    for _ in 0..5 {
        current = eval1(current).expect("never stuck");
        assert_eq!(shown(current.clone(), &[]), shape);
    }
}

#[test]
fn stuck_application_of_a_variable() {
    let t = unnamed("x y", &["x", "y"]);
    assert!(t.is_app());
    assert_eq!(eval1(t), None);
}

#[test]
fn argument_is_reduced_once_callee_is_a_value() {
    let t = unnamed(r"(\x. x) ((\y. y) (\z. z))", &[]);
    let stepped = eval1(t).expect("a step");
    assert_eq!(
        shown(stepped, &[]),
        unp::app(unp::abs("x", unp::var("x")), unp::abs("z", unp::var("z")))
    );
}

#[test]
fn shift_up_then_down_restores_the_term() {
    let t = unnamed(r"\a. a f (\b. b g)", &["f", "g"]);
    let up = t.clone().shift(1);
    assert_ne!(up, t);
    assert_eq!(up.clone().shift(-1), t);
}

#[test]
fn substituting_into_a_shifted_term_changes_nothing() {
    let t = unnamed(r"\a. a f g", &["f", "g"]);
    let s = var(0, 2);
    let up = t.shift(1);
    assert_eq!(up.clone().subst(0, &s), up);
}

#[test]
fn shift_renumbers_free_variables_only() {
    let t = unnamed(r"\a. a f", &["f"]);
    let shifted = t.shift(2);
    match shifted {
        Term::Abs(abs) => match abs.body {
            Term::App(app) => {
                match app.callee {
                    Term::Var(v) => {
                        assert_eq!(v.index, 0);
                        assert_eq!(v.context_length, 4);
                    }
                    _ => panic!("a variable"),
                }
                match app.arg {
                    Term::Var(v) => {
                        assert_eq!(v.index, 3);
                        assert_eq!(v.context_length, 4);
                    }
                    _ => panic!("a variable"),
                }
            }
            _ => panic!("an application"),
        },
        _ => panic!("an abstraction"),
    }
}

#[test]
fn subst_replaces_the_matching_index() {
    let s = var(1, 2);
    assert_eq!(var(0, 2).subst(0, &s), s);
    assert_eq!(var(1, 2).subst(0, &s), var(1, 2));
}

#[test]
fn context_lookup_finds_innermost_binding() {
    let ctx = Context::from_strs(&["x", "y", "x"]);
    assert_eq!(ctx.get("x"), Some(0));
    assert_eq!(ctx.get("y"), Some(1));
    assert_eq!(ctx.get("z"), None);
    assert_eq!(ctx.len(), 3);
    let strings = vec!["a".to_string(), "b".to_string()];
    assert_eq!(Context::from_strings(&strings).get("a"), Some(1));
}

#[test]
fn round_trip_keeps_the_term() {
    let t = unnamed(r"\x. \y. x y (\z. z x)", &[]);
    let back = NamedTerm::unpositioned_from_unnamed(t.clone(), &Context::new());
    assert_eq!(
        back.clone().into_unpositioned(),
        unp::abs(
            "x",
            unp::abs(
                "y",
                unp::app(unp::app(unp::var("x"), unp::var("y")), unp::abs("z", unp::app(unp::var("z"), unp::var("x"))))
            )
        )
    );
    let again = Term::from_named(back, &Context::new()).expect("closed");
    assert_eq!(shown(again, &[]), shown(t, &[]));
}

#[test]
fn shadowing_parameter_is_primed_for_display() {
    let t = unnamed(r"\x. \x. x", &[]);
    assert_eq!(shown(t, &[]), unp::abs("x", unp::abs("x'", unp::var("x'"))));
    let u = unnamed(r"\y. y z", &["z", "y"]);
    assert_eq!(shown(u, &["z", "y"]), unp::abs("y'", unp::app(unp::var("y'"), unp::var("z"))));
}

#[test]
fn unnamed_free_variable_is_shown_by_index() {
    assert_eq!(shown(var(0, 1), &[]), unp::var("$0"));
    assert_eq!(shown(var(12, 13), &["a"]), unp::var("$12"));
    assert_eq!(shown(var(0, 1), &["a"]), unp::var("a"));
}

#[test]
fn named_term_kinds() {
    let t = parse(r"\x. x").expect("parses");
    assert!(t.is_abs());
    assert!(!t.is_var());
    assert!(!t.is_app());
    match t {
        NamedTerm::Abs(a) => {
            let _: &named::Var = &a.param;
            assert_eq!(a.position.start.index, 0);
            assert_eq!(a.position.end.index, 5);
        }
        _ => panic!("an abstraction"),
    }
}

#[test]
fn big_step_agrees_on_numerals() {
    let cases = ["pred succ 0", "iszero pred succ 0", "if iszero 0 then succ 0 else 0", "succ true", "pred pred 0"];
    for src in cases {
        let t = tapl::chapter_4::parse(src).expect("parses");
        assert_eq!(big_step_evaluator::eval(t.clone()), tapl::chapter_4::eval(t), "input {:?}", src);
    }
}

#[test]
fn small_step_pred_of_successor_steps_inside() {
    let t = tapl::chapter_4::parse("pred succ if true then 0 else 0").expect("parses");
    assert_eq!(tapl::chapter_4::evaluator::eval1(t), Some(tapl::chapter_4::Term::Zero));
}

#[test]
fn nameless_text_shows_indices() {
    let t = unnamed(r"(\x. x) y", &["y"]);
    assert_eq!(t.to_string(), r"((\. 0) 0)");
    assert_eq!(var(12, 13).to_string(), "12");
}

#[test]
fn limits_are_checked_at_run_time() {
    let t = unnamed(r"(\x. x) y", &["y"]);
    assert!(is_well_formed(&t));
    assert!(is_within_limits(&t));
    assert!(!is_well_formed(&var(1, 1)));
    assert!(is_within_limits(&var(0, usize::MAX)));
}

#[test]
fn nameless_terms_keep_source_positions() {
    let t = unnamed("x  y", &["x", "y"]);
    let range = t.position();
    assert_eq!(range.start.index, 0);
    assert_eq!(range.end.index, 4);
    assert_eq!(range.end.column, 4);
}
