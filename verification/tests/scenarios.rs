use bao::env::{Env, Store};
use bao::error::ErrorData;
use bao::session::run_source;

const FUEL: usize = 200;

fn run(source: &str) -> (Vec<String>, Option<bao::error::Error>) {
    let mut store = Store::new();
    let env = Env::prelude(&mut store);
    let out = run_source(source, &env, &mut store, FUEL);
    (out.printed, out.error)
}

fn prints(source: &str) -> Vec<String> {
    let (printed, error) = run(source);
    assert!(error.is_none(), "unexpected error: {:?}", error);
    printed
}

#[test]
fn adds_two_integers() {
    assert_eq!(prints("(+ 1 2)"), vec!["3"]);
}

#[test]
fn car_of_a_built_list() {
    assert_eq!(prints("(car (cons 1 (cons 2 nil)))"), vec!["1"]);
}

#[test]
fn applies_an_anonymous_function() {
    assert_eq!(prints("((fn (x) (+ x x)) 21)"), vec!["42"]);
}

#[test]
fn defines_then_calls() {
    assert_eq!(prints("(def inc (fn (x) (+ x 1))) (inc 41)"), vec!["nil", "42"]);
}

#[test]
fn quasiquote_with_unquote() {
    assert_eq!(prints("`(1 ~(+ 1 1) 3)"), vec!["(1 2 3)"]);
}

#[test]
fn if_falls_through_to_else() {
    assert_eq!(prints("(if nil 1 nil 2 3)"), vec!["3"]);
}

#[test]
fn car_of_nil_is_a_cast_error() {
    let (printed, error) = run("(car nil)");
    assert!(printed.is_empty());
    let error = error.expect("an error");
    assert!(matches!(error.data, ErrorData::Function(_)));
    assert!(matches!(error.root().data, ErrorData::Cast(_, _)));
    assert_eq!(error.root().message(), "type error: 'nil' is not a pair");
}
