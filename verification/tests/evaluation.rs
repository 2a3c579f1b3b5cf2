use bao::env::{Env, Frame, Store};
use bao::error::{Error, ErrorData};
use bao::eval::{apply, eval, macroexpand, quasiquote};
use bao::reader::read;
use bao::value::{Fn, Primitive, Value};

const FUEL: usize = 300;

struct World {
    store: Store,
    env: Env,
}

impl World {
    fn new() -> World {
        let mut store = Store::new();
        let env = Env::prelude(&mut store);
        World { store, env }
    }

    fn eval(&mut self, source: &str) -> Result<Value, Error> {
        let mut reader = read(source);
        let mut last = Ok(Value::Nil);
        while let Some(form) = reader.next() {
            last = eval(form.expect("no read error"), &self.env, &mut self.store, FUEL);
            if last.is_err() {
                break;
            }
        }
        last
    }

    fn show(&mut self, source: &str) -> String {
        match self.eval(source) {
            Ok(v) => v.to_text(),
            Err(e) => panic!("{:?} failed: {:?}", source, bao::error::report(&e)),
        }
    }

    fn fail(&mut self, source: &str) -> Error {
        match self.eval(source) {
            Ok(v) => panic!("{:?} gave {}", source, v.to_text()),
            Err(e) => e,
        }
    }
}

fn form(source: &str) -> Value {
    read(source).next().expect("a form").expect("no error")
}

#[test]
fn atoms_evaluate_to_themselves() {
    let mut w = World::new();
    assert_eq!(w.show("5"), "5");
    assert_eq!(w.show("-5"), "-5");
    assert_eq!(w.show("()"), "nil");
    let f = Value::primitive(Primitive::Car);
    let r = eval(f, &w.env, &mut w.store, FUEL).unwrap();
    assert!(matches!(r, Value::Fn(Fn::Primitive(Primitive::Car), false)));
}

#[test]
fn symbols_are_looked_up() {
    let mut w = World::new();
    assert_eq!(w.show("nil"), "nil");
    assert_eq!(w.show("car"), "<primitive: Car>");
    assert_eq!(w.show("+"), "<primitive: Add>");
    let e = w.fail("nowhere");
    assert!(matches!(&e.data, ErrorData::UnknownSym(s) if s == "nowhere"));
    assert!(e.source.is_none());
}

#[test]
fn quote_returns_its_operand_unevaluated() {
    let mut w = World::new();
    assert_eq!(w.show("(quote (a b))"), "(a b)");
    assert_eq!(w.show("'(a b)"), "(a b)");
    assert_eq!(w.show("'unbound"), "unbound");
    assert_eq!(w.show("(quote (quote x))"), "(quote x)");
    assert_eq!(w.show("(quote a ignored)"), "a");
    assert_eq!(w.show("'()"), "nil");
}

#[test]
fn quoting_a_source_expression_gives_what_it_reads_as() {
    let mut w = World::new();
    for s in [
        "1",
        "-12",
        "a",
        "(a b)",
        "(a . b)",
        "'x",
        "`(p ~q ~@r)",
        "((())) ",
        "(if a b)\n",
        "  a ; a note\n",
        "; first\n(a) ; then\n ; and\n",
    ] {
        let quoted = format!("(quote {})", s);
        let value = w.eval(&quoted).expect("no error");
        assert!(value.same(&form(s)), "{}", s);
    }
}

#[test]
fn a_comment_left_open_swallows_the_closing_parenthesis() {
    let mut reader = read("(quote a ; note)");
    assert!(matches!(reader.next(), Some(Err(e)) if matches!(e.data, ErrorData::UnexpectedEof)));
}

#[test]
fn quote_without_operand_fails() {
    let mut w = World::new();
    let e = w.fail("(quote)");
    assert!(matches!(&e.data, ErrorData::Cast(v, t) if v.is_nil() && t == "a pair"));
}

#[test]
fn if_picks_the_first_true_clause() {
    let mut w = World::new();
    assert_eq!(w.show("(if 1 2 3)"), "2");
    assert_eq!(w.show("(if nil 2 3)"), "3");
    assert_eq!(w.show("(if () 2 3)"), "3");
    assert_eq!(w.show("(if 0 2 3)"), "2");
    assert_eq!(w.show("(if 'a 2 3)"), "2");
    assert_eq!(w.show("(if nil 1 nil 2 3)"), "3");
    assert_eq!(w.show("(if nil 1 5 2 3)"), "2");
    assert_eq!(w.show("(if nil 1 nil 2 nil 3 nil 4 5)"), "5");
    assert_eq!(w.show("(if (= 1 2) 'a (= 2 2) 'b 'c)"), "b");
}

#[test]
fn if_without_a_match_is_nil() {
    let mut w = World::new();
    assert_eq!(w.show("(if)"), "nil");
    assert_eq!(w.show("(if nil 1)"), "nil");
    assert_eq!(w.show("(if nil 1 nil 2)"), "nil");
}

#[test]
fn if_with_a_lone_clause_is_the_else_branch() {
    let mut w = World::new();
    assert_eq!(w.show("(if 7)"), "7");
    assert_eq!(w.show("(if (+ 1 2))"), "3");
}

#[test]
fn if_does_not_evaluate_the_branch_not_taken() {
    let mut w = World::new();
    assert_eq!(w.show("(if nil (error) 1)"), "1");
    assert_eq!(w.show("(if 1 2 (error))"), "2");
    assert_eq!(w.show("(if 1 2 unbound 3 (error))"), "2");
    assert_eq!(w.show("(if nil (def x 1) 2)"), "2");
    assert!(matches!(w.fail("x").data, ErrorData::UnknownSym(_)));
}

#[test]
fn if_on_an_improper_list_fails() {
    let mut w = World::new();
    let e = w.fail("(if . 5)");
    assert!(matches!(&e.data, ErrorData::Cast(v, t) if v.to_text() == "5" && t == "a pair"));
    let e = w.fail("(if nil . 5)");
    assert!(matches!(&e.data, ErrorData::Cast(v, t) if v.to_text() == "5" && t == "a pair"));
}

#[test]
fn def_binds_a_value_and_gives_nil() {
    let mut w = World::new();
    assert_eq!(w.show("(def x (+ 1 2))"), "nil");
    assert_eq!(w.show("x"), "3");
    assert_eq!(w.show("(def x (* x x))"), "nil");
    assert_eq!(w.show("x"), "9");
    assert_eq!(w.show("(def y x extra)"), "nil");
    assert_eq!(w.show("y"), "9");
}

#[test]
fn def_with_a_pattern_defines_a_function() {
    let mut w = World::new();
    assert_eq!(w.show("(def (double x) (+ x x))"), "nil");
    assert_eq!(w.show("double"), "<closure>");
    assert_eq!(w.show("(double 21)"), "42");
    assert_eq!(w.show("(def (second a b . rest) b)"), "nil");
    assert_eq!(w.show("(second 1 2 3 4)"), "2");
    assert_eq!(w.show("(def (all . xs) xs)"), "nil");
    assert_eq!(w.show("(all 1 2 3)"), "(1 2 3)");
    assert_eq!(w.show("(all)"), "nil");
}

#[test]
fn def_rejects_bad_shapes() {
    let mut w = World::new();
    assert!(matches!(&w.fail("(def)").data, ErrorData::Cast(v, t) if v.is_nil() && t == "a pair"));
    assert!(matches!(&w.fail("(def 5 1)").data, ErrorData::Cast(v, t) if v.to_text() == "5" && t == "a sym"));
    assert!(matches!(&w.fail("(def x)").data, ErrorData::Cast(v, t) if v.is_nil() && t == "a pair"));
    assert!(matches!(&w.fail("(def (5 x) x)").data, ErrorData::Cast(v, t) if v.to_text() == "5" && t == "a sym"));
    assert!(matches!(&w.fail("(def (f x))").data, ErrorData::Cast(v, t) if v.is_nil() && t == "a pair"));
    assert!(matches!(&w.fail("(def x unbound)").data, ErrorData::UnknownSym(s) if s == "unbound"));
    assert!(matches!(w.fail("x").data, ErrorData::UnknownSym(_)));
}

#[test]
fn fn_makes_a_closure() {
    let mut w = World::new();
    assert_eq!(w.show("(fn (x) x)"), "<closure>");
    assert_eq!(w.show("((fn (x) x) 5)"), "5");
    assert_eq!(w.show("((fn (x y) (- x y)) 5 3)"), "2");
    assert_eq!(w.show("((fn () 7))"), "7");
    assert_eq!(w.show("((fn args args) 1 2 3)"), "(1 2 3)");
    assert_eq!(w.show("((fn (a . rest) rest) 1 2 3)"), "(2 3)");
    assert_eq!(w.show("((fn ((a b) c) (+ a (+ b c))) '(1 2) 3)"), "6");
}

#[test]
fn fn_needs_a_body() {
    let mut w = World::new();
    assert!(matches!(&w.fail("(fn (x))").data, ErrorData::Cast(v, t) if v.is_nil() && t == "a pair"));
    assert!(matches!(&w.fail("(fn)").data, ErrorData::Cast(v, t) if v.is_nil() && t == "a pair"));
    assert!(matches!(&w.fail("(fn (x) . 5)").data, ErrorData::Cast(v, t) if v.to_text() == "5" && t == "a pair"));
}

#[test]
fn fn_does_not_evaluate_its_body() {
    let mut w = World::new();
    assert_eq!(w.show("(def f (fn () (error)))"), "nil");
    let e = w.fail("(f)");
    assert!(matches!(&e.data, ErrorData::Function(v) if v.to_text() == "f"));
    assert!(matches!(&e.root().data, ErrorData::UnknownSym(s) if s == "error"));
}

#[test]
fn body_forms_run_in_order_and_the_last_counts() {
    let mut w = World::new();
    assert_eq!(w.show("((fn (x) 1 2 (+ x 1)) 10)"), "11");
    assert_eq!(w.show("(def (f) (def inner 5) (* inner 2))"), "nil");
    assert_eq!(w.show("(f)"), "10");
    assert!(matches!(w.fail("inner").data, ErrorData::UnknownSym(_)));
    let e = w.fail("((fn () 1 . 2))");
    assert!(matches!(&e.root().data, ErrorData::Cast(v, t) if v.to_text() == "2" && t == "a pair"));
}

#[test]
fn application_evaluates_operator_and_operands() {
    let mut w = World::new();
    assert_eq!(w.show("(+ (* 2 3) (- 10 4))"), "12");
    assert_eq!(w.show("((if 1 + *) 3 4)"), "7");
    assert_eq!(w.show("((if nil + *) 3 4)"), "12");
    assert_eq!(w.show("(cons 1 (cons 2 (cons 3 nil)))"), "(1 2 3)");
    assert_eq!(w.show("(cons (car '(a b)) (cdr '(c d)))"), "(a d)");
}

#[test]
fn operands_are_evaluated_left_to_right() {
    let mut w = World::new();
    assert_eq!(w.show("(def (note x) (def seen (cons x seen)) x)"), "nil");
    assert_eq!(w.show("(def seen nil)"), "nil");
    assert_eq!(w.show("(def (three a b c) (cons a (cons b (cons c nil))))"), "nil");
    assert_eq!(w.show("(three (def first-ran 1) (def second-ran first-ran) (def third-ran second-ran))"), "(nil nil nil)");
    assert_eq!(w.show("third-ran"), "1");
}

#[test]
fn a_dotted_operand_tail_is_evaluated_as_the_rest() {
    let mut w = World::new();
    assert_eq!(w.show("(def pair '(1 2))"), "nil");
    assert_eq!(w.show("(+ . pair)"), "3");
    assert_eq!(w.show("((fn args args) 0 . pair)"), "(0 1 2)");
}

#[test]
fn applying_what_is_no_function_fails() {
    let mut w = World::new();
    let e = w.fail("(1 2 3)");
    assert!(matches!(&e.data, ErrorData::Function(v) if v.to_text() == "1"));
    assert!(matches!(&e.cause().unwrap().data, ErrorData::Cast(v, t) if v.to_text() == "1" && t == "a fn"));
    let e = w.fail("('a)");
    assert!(matches!(&e.root().data, ErrorData::Cast(v, t) if v.to_text() == "a" && t == "a fn"));
    let e = w.fail("(nil)");
    assert!(matches!(&e.root().data, ErrorData::Cast(v, t) if v.is_nil() && t == "a fn"));
}

#[test]
fn a_failed_application_names_the_callee() {
    let mut w = World::new();
    let e = w.fail("(car nil)");
    assert!(matches!(&e.data, ErrorData::Function(v) if v.to_text() == "car"));
    assert!(matches!(&e.cause().unwrap().data, ErrorData::Cast(v, t) if v.is_nil() && t == "a pair"));
    let e = w.fail("(+ 1)");
    assert!(matches!(&e.data, ErrorData::Function(v) if v.to_text() == "+"));
    assert!(matches!(e.cause().unwrap().data, ErrorData::TooFewArgs(2)));
    let e = w.fail("(+ 1 'a)");
    assert!(matches!(&e.cause().unwrap().data, ErrorData::Cast(v, t) if v.to_text() == "a" && t == "an int"));
    let e = w.fail("((fn (x) x))");
    assert!(matches!(&e.data, ErrorData::Function(v) if v.to_text() == "(fn (x) x)"));
    assert!(matches!(&e.cause().unwrap().data, ErrorData::Bind(p) if p.to_text() == "(x)"));
    assert!(matches!(e.root().data, ErrorData::TooFewArgs(1)));
    let e = w.fail("((fn (x) x) 1 2)");
    assert!(matches!(e.root().data, ErrorData::TooManyArgs(1)));
    let e = w.fail("(/ 1 0)");
    assert!(matches!(&e.data, ErrorData::Function(v) if v.to_text() == "/"));
    assert!(matches!(&e.root().data, ErrorData::Cast(v, t) if v.to_text() == "0" && t == "a nonzero int"));
}

#[test]
fn failures_in_operator_or_operands_are_not_wrapped() {
    let mut w = World::new();
    assert!(matches!(&w.fail("(unbound 1)").data, ErrorData::UnknownSym(s) if s == "unbound"));
    assert!(matches!(&w.fail("(+ 1 unbound)").data, ErrorData::UnknownSym(s) if s == "unbound"));
    let e = w.fail("(+ 1 (car nil))");
    assert!(matches!(&e.data, ErrorData::Function(v) if v.to_text() == "car"));
}

#[test]
fn nested_failures_chain_outward() {
    let mut w = World::new();
    assert_eq!(w.show("(def (inner x) (car x)) (def (outer x) (inner x))"), "nil");
    let e = w.fail("(outer 5)");
    let lines = bao::error::report(&e);
    assert_eq!(
        lines,
        vec!["in function 'outer'", "in function 'inner'", "in function 'car'", "type error: '5' is not a pair"]
    );
}

#[test]
fn closures_capture_their_scope() {
    let mut w = World::new();
    assert_eq!(w.show("(def (adder n) (fn (x) (+ x n)))"), "nil");
    assert_eq!(w.show("(def add5 (adder 5)) (def add7 (adder 7))"), "nil");
    assert_eq!(w.show("(add5 1)"), "6");
    assert_eq!(w.show("(add7 1)"), "8");
    assert_eq!(w.show("(def n 100)"), "nil");
    assert_eq!(w.show("(add5 1)"), "6");
    assert_eq!(w.show("((adder 1) 1)"), "2");
}

#[test]
fn closures_see_later_bindings_of_visible_scopes() {
    let mut w = World::new();
    assert_eq!(w.show("(def (get-late) late)"), "nil");
    assert!(matches!(w.fail("(get-late)").root().data, ErrorData::UnknownSym(_)));
    assert_eq!(w.show("(def late 1)"), "nil");
    assert_eq!(w.show("(get-late)"), "1");
    assert_eq!(w.show("(def late 2)"), "nil");
    assert_eq!(w.show("(get-late)"), "2");
}

#[test]
fn closures_do_not_see_the_scope_of_their_caller() {
    let mut w = World::new();
    assert_eq!(w.show("(def (peek) hidden)"), "nil");
    assert_eq!(w.show("(def (caller hidden) (peek))"), "nil");
    let e = w.fail("(caller 5)");
    assert!(matches!(&e.root().data, ErrorData::UnknownSym(s) if s == "hidden"));
    assert_eq!(w.show("(def (local) (def hidden 1) hidden)"), "nil");
    assert_eq!(w.show("(local)"), "1");
    assert!(matches!(w.fail("(peek)").root().data, ErrorData::UnknownSym(_)));
}

#[test]
fn parameters_shadow_outer_names() {
    let mut w = World::new();
    assert_eq!(w.show("(def x 1) (def (f x) (+ x 1))"), "nil");
    assert_eq!(w.show("(f 10)"), "11");
    assert_eq!(w.show("x"), "1");
    assert_eq!(w.show("((fn (car) car) 5)"), "5");
}

#[test]
fn functions_can_call_themselves() {
    let mut w = World::new();
    assert_eq!(w.show("(def (fact n) (if (= n 0) 1 (* n (fact (- n 1)))))"), "nil");
    assert_eq!(w.show("(fact 0)"), "1");
    assert_eq!(w.show("(fact 5)"), "120");
    assert_eq!(w.show("(fact 10)"), "3628800");
    assert_eq!(w.show("(def (len xs) (if xs (+ 1 (len (cdr xs))) 0))"), "nil");
    assert_eq!(w.show("(len '(a b c d))"), "4");
    assert_eq!(w.show("(def (even? n) (if (= n 0) 'yes (odd? (- n 1))))"), "nil");
    assert_eq!(w.show("(def (odd? n) (if (= n 0) nil (even? (- n 1))))"), "nil");
    assert_eq!(w.show("(even? 10)"), "yes");
    assert_eq!(w.show("(even? 7)"), "nil");
}

#[test]
fn evaluation_stops_at_its_limit() {
    let mut w = World::new();
    assert_eq!(w.show("(def (loop) (loop))"), "nil");
    let e = w.fail("(loop)");
    assert!(matches!(&e.data, ErrorData::Function(v) if v.to_text() == "loop"));
    assert!(matches!(e.root().data, ErrorData::RecursionLimit));
    assert_eq!(w.show("(+ 1 2)"), "3");
}

#[test]
fn the_limit_counts_nesting() {
    let mut store = Store::new();
    let env = Env::prelude(&mut store);
    let zero = eval(Value::Int(1), &env, &mut store, 0).unwrap_err();
    assert!(matches!(zero.data, ErrorData::RecursionLimit));
    assert!(eval(Value::Int(1), &env, &mut store, 1).is_ok());
    let sum = form("(+ 1 2)");
    assert!(matches!(eval(sum.clone(), &env, &mut store, 1).unwrap_err().data, ErrorData::RecursionLimit));
    assert_eq!(eval(sum.clone(), &env, &mut store, 2).unwrap().to_text(), "3");
    assert_eq!(eval(sum, &env, &mut store, 50).unwrap().to_text(), "3");
    let nested = form("(+ 1 (+ 2 (+ 3 4)))");
    assert!(eval(nested.clone(), &env, &mut store, 3).is_err());
    assert_eq!(eval(nested.clone(), &env, &mut store, 4).unwrap().to_text(), "10");
    assert_eq!(eval(nested, &env, &mut store, 400).unwrap().to_text(), "10");
}

#[test]
fn quasiquote_rewrites_to_cons_and_concat() {
    let q = |s: &str| quasiquote(&form(s)).unwrap().to_text();
    assert_eq!(q("1"), "1");
    assert_eq!(q("()"), "nil");
    assert_eq!(q("a"), "(quote a)");
    assert_eq!(q("(unquote x)"), "x");
    assert_eq!(q("(unquote (+ 1 2))"), "(+ 1 2)");
    assert_eq!(q("(a)"), "(cons (quote a) nil)");
    assert_eq!(q("(1 2)"), "(cons 1 (cons 2 nil))");
    assert_eq!(q("(a (unquote b))"), "(cons (quote a) (cons b nil))");
    assert_eq!(q("((splice-unquote xs) 1)"), "(concat xs (cons 1 nil))");
    assert_eq!(q("(1 (splice-unquote xs))"), "(cons 1 (concat xs nil))");
    assert_eq!(q("((a))"), "(cons (cons (quote a) nil) nil)");
    assert_eq!(q("(a . b)"), "(cons (quote a) (quote b))");
    assert_eq!(q("(a unquote b)"), "(cons (quote a) b)");
}

#[test]
fn quasiquote_rejects_marks_without_operand() {
    let e = quasiquote(&form("(unquote)")).unwrap_err();
    assert!(matches!(&e.data, ErrorData::Cast(v, t) if v.is_nil() && t == "a pair"));
    let e = quasiquote(&form("((splice-unquote) 1)")).unwrap_err();
    assert!(matches!(&e.data, ErrorData::Cast(v, t) if v.is_nil() && t == "a pair"));
    let e = quasiquote(&form("(a (unquote . 5))")).unwrap_err();
    assert!(matches!(&e.data, ErrorData::Cast(v, t) if v.to_text() == "5" && t == "a pair"));
}

#[test]
fn quasiquote_builds_with_substitutions() {
    let mut w = World::new();
    assert_eq!(w.show("`(1 ~(+ 1 1) 3)"), "(1 2 3)");
    assert_eq!(w.show("`a"), "a");
    assert_eq!(w.show("`5"), "5");
    assert_eq!(w.show("`()"), "nil");
    assert_eq!(w.show("`(a b c)"), "(a b c)");
    assert_eq!(w.show("(def x 7) (def xs '(1 2 3))"), "nil");
    assert_eq!(w.show("`(x ~x)"), "(x 7)");
    assert_eq!(w.show("`(a ~@xs b)"), "(a 1 2 3 b)");
    assert_eq!(w.show("`(~@xs ~@xs)"), "(1 2 3 1 2 3)");
    assert_eq!(w.show("`(a (b ~x) ~@xs)"), "(a (b 7) 1 2 3)");
    assert_eq!(w.show("`(a . ~x)"), "(a . 7)");
    assert_eq!(w.show("`~x"), "7");
    assert_eq!(w.show("(quasiquote (a (unquote (+ x 1))))"), "(a 8)");
}

#[test]
fn quasiquote_of_quoted_text_is_that_text() {
    let mut w = World::new();
    for s in ["(a b c)", "(1 (2 (3)))", "(a . b)", "sym", "42", "((x) . y)"] {
        let v = w.eval(&format!("`{}", s)).unwrap();
        assert!(v.same(&form(s)), "{}", s);
    }
}

#[test]
fn defmacro_defines_a_rewriter() {
    let mut w = World::new();
    assert_eq!(w.show("(defmacro (unless c then else) `(if ~c ~else ~then))"), "nil");
    assert_eq!(w.show("(unless nil 1 2)"), "1");
    assert_eq!(w.show("(unless 5 1 2)"), "2");
    assert_eq!(w.show("(unless 5 (error) 2)"), "2");
    assert!(w.eval("unless").unwrap().is_macro());
    assert_eq!(w.show("unless"), "<closure>");
}

#[test]
fn macros_get_their_operands_unevaluated() {
    let mut w = World::new();
    assert_eq!(w.show("(defmacro (name-of x) `(quote ~x))"), "nil");
    assert_eq!(w.show("(name-of unbound)"), "unbound");
    assert_eq!(w.show("(name-of (+ 1 2))"), "(+ 1 2)");
    assert_eq!(w.show("(defmacro (count-args . xs) (if xs (if (cdr xs) 2 1) 0))"), "nil");
    assert_eq!(w.show("(count-args a b)"), "2");
    assert_eq!(w.show("(count-args)"), "0");
}

#[test]
fn macroexpand_shows_the_expansion() {
    let mut w = World::new();
    assert_eq!(w.show("(defmacro (unless c then else) `(if ~c ~else ~then))"), "nil");
    assert_eq!(w.show("(macroexpand (unless a b c))"), "(if a c b)");
    assert_eq!(w.show("(macroexpand (+ 1 2))"), "(+ 1 2)");
    assert_eq!(w.show("(macroexpand x)"), "x");
    assert_eq!(w.show("(macroexpand 5)"), "5");
    assert_eq!(w.show("(macroexpand (unbound 1))"), "(unbound 1)");
    assert!(matches!(&w.fail("(macroexpand)").data, ErrorData::Cast(v, _) if v.is_nil()));
}

#[test]
fn macroexpand_goes_on_until_no_macro_is_called() {
    let mut w = World::new();
    assert_eq!(w.show("(defmacro (one x) `(two ~x))"), "nil");
    assert_eq!(w.show("(defmacro (two x) `(three ~x ~x))"), "nil");
    assert_eq!(w.show("(defmacro (three x y) `(+ ~x ~y))"), "nil");
    assert_eq!(w.show("(macroexpand (one 4))"), "(+ 4 4)");
    assert_eq!(w.show("(one 4)"), "8");
    let expanded = macroexpand(form("(one 4)"), &w.env, &mut w.store, FUEL).unwrap();
    assert_eq!(expanded.to_text(), "(+ 4 4)");
    let again = macroexpand(expanded.clone(), &w.env, &mut w.store, FUEL).unwrap();
    assert!(again.same(&expanded));
    let once_more = macroexpand(again, &w.env, &mut w.store, 0).unwrap();
    assert!(once_more.same(&expanded));
}

#[test]
fn macroexpand_does_not_expand_inner_forms() {
    let mut w = World::new();
    assert_eq!(w.show("(defmacro (twice x) `(+ ~x ~x))"), "nil");
    assert_eq!(w.show("(macroexpand (list (twice 1)))"), "(list (twice 1))");
    assert_eq!(w.show("(+ 1 (twice 2))"), "5");
}

#[test]
fn an_expansion_may_be_a_special_form_or_an_atom() {
    let mut w = World::new();
    assert_eq!(w.show("(defmacro (define-it n v) `(def ~n ~v))"), "nil");
    assert_eq!(w.show("(define-it z 9)"), "nil");
    assert_eq!(w.show("z"), "9");
    assert_eq!(w.show("(defmacro (five) 5)"), "nil");
    assert_eq!(w.show("(five)"), "5");
    assert_eq!(w.show("(defmacro (its-name) 'z)"), "nil");
    assert_eq!(w.show("(its-name)"), "9");
}

#[test]
fn endless_expansion_stops_at_the_limit() {
    let mut w = World::new();
    assert_eq!(w.show("(defmacro (again) '(again))"), "nil");
    let e = w.fail("(again)");
    assert!(matches!(e.data, ErrorData::RecursionLimit));
    let e = w.fail("(macroexpand (again))");
    assert!(matches!(e.data, ErrorData::RecursionLimit));
    let e = macroexpand(form("(again)"), &w.env, &mut w.store, 0).unwrap_err();
    assert!(matches!(e.data, ErrorData::RecursionLimit));
}

#[test]
fn special_forms_come_before_macros_of_the_same_name() {
    let mut w = World::new();
    assert_eq!(w.show("(defmacro (if . xs) 'shadowed)"), "nil");
    assert_eq!(w.show("(if nil 1 2)"), "2");
    assert_eq!(w.show("(defmacro (quote x) 'shadowed)"), "nil");
    assert_eq!(w.show("(quote y)"), "y");
    assert_eq!(w.show("(def fn 5)"), "nil");
    assert_eq!(w.show("((fn (x) x) 1)"), "1");
    assert_eq!(w.show("fn"), "5");
}

#[test]
fn defmacro_rejects_bad_shapes() {
    let mut w = World::new();
    assert!(matches!(&w.fail("(defmacro)").data, ErrorData::Cast(v, t) if v.is_nil() && t == "a pair"));
    assert!(matches!(&w.fail("(defmacro m 1)").data, ErrorData::Cast(v, t) if v.to_text() == "m" && t == "a pair"));
    assert!(matches!(&w.fail("(defmacro (5) 1)").data, ErrorData::Cast(v, t) if v.to_text() == "5" && t == "a sym"));
    assert!(matches!(&w.fail("(defmacro (m))").data, ErrorData::Cast(v, t) if v.is_nil() && t == "a pair"));
}

#[test]
fn a_macro_applied_as_a_value_gets_evaluated_operands() {
    let mut w = World::new();
    assert_eq!(w.show("(defmacro (show x) `(quote ~x))"), "nil");
    assert_eq!(w.show("((if 1 show) (+ 1 2))"), "(quote 3)");
}

#[test]
fn apply_runs_primitives_and_closures() {
    let mut w = World::new();
    let plus = w.eval("+").unwrap();
    let r = apply(&plus, &form("(1 2)"), &mut w.store, FUEL).unwrap();
    assert_eq!(r.to_text(), "3");
    let f = w.eval("(fn (a b) (cons b a))").unwrap();
    let r = apply(&f, &form("(1 2)"), &mut w.store, FUEL).unwrap();
    assert_eq!(r.to_text(), "(2 . 1)");
    let e = apply(&Value::Int(1), &form("(1 2)"), &mut w.store, FUEL).unwrap_err();
    assert!(matches!(&e.data, ErrorData::Cast(v, t) if v.to_text() == "1" && t == "a fn"));
    let e = apply(&f, &form("(1)"), &mut w.store, FUEL).unwrap_err();
    assert!(matches!(&e.data, ErrorData::Bind(p) if p.to_text() == "(a b)"));
}

#[test]
fn each_call_of_a_closure_opens_a_scope() {
    let mut w = World::new();
    let before = w.store.len();
    assert_eq!(w.show("((fn (x) x) 1)"), "1");
    assert_eq!(w.store.len(), before + 1);
    assert_eq!(w.show("(+ 1 2)"), "3");
    assert_eq!(w.store.len(), before + 1);
    assert!(w.eval("((fn (x) x))").is_err());
    assert_eq!(w.store.len(), before + 1);
}

#[test]
fn evaluation_in_a_child_scope() {
    let mut w = World::new();
    let mut frame = Frame::new();
    frame.insert("x".to_string(), Value::Int(5));
    let child = w.env.extend(frame, &mut w.store);
    let r = eval(form("(* x x)"), &child, &mut w.store, FUEL).unwrap();
    assert_eq!(r.to_text(), "25");
    eval(form("(def y 1)"), &child, &mut w.store, FUEL).unwrap();
    assert!(child.get("y", &w.store).is_some());
    assert!(w.env.get("y", &w.store).is_none());
}
