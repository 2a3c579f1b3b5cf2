//! What evaluation means: the evaluator as a function on views.
//!
//! Evaluation may go on forever, so every function here takes a limit on
//! how deep it may nest and fails with `RecursionLimit` where the limit is
//! spent. A [`Run`] holds the store afterwards beside the result, since
//! `def` and every call of a closure change the store.

use crate::args::bind_of;
use crate::cast::{cadr_of, car_of, cdr_of, sym_of};
use crate::env::{define, extended, law_new_scope_sees_its_parent, lookup, Level};
use crate::error::{Failure, Fault};
use crate::args::arity_of;
use crate::primitives::apply_primitive;
use crate::value::Primitive;
use crate::value::Datum;
use vstd::prelude::*;

verus! {

/// The outcome of an evaluation: the store afterwards and the value or the
/// failure.
pub struct Run {
    pub store: Seq<Level>,
    pub result: Result<Datum, Failure>,
}

impl Run {
    /// The outcome that is a value.
    pub open spec fn ok(store: Seq<Level>, value: Datum) -> Run {
        Run { store, result: Ok(value) }
    }

    /// The outcome that is a failure.
    pub open spec fn fail(store: Seq<Level>, failure: Failure) -> Run {
        Run { store, result: Err(failure) }
    }

    /// The outcome of a step that changes no store.
    pub open spec fn pure(store: Seq<Level>, result: Result<Datum, Failure>) -> Run {
        Run { store, result }
    }
}

/// The names of the special forms.
pub open spec fn special(name: Seq<char>) -> bool {
    name == "def"@ || name == "defmacro"@ || name == "fn"@ || name == "if"@ || name
        == "quasiquote"@ || name == "quote"@ || name == "macroexpand"@
}

/// The form that rebuilds `x` when it is evaluated, but for the parts that
/// `x` marks as unquoted.
///
/// A symbol is quoted, another atom stands for itself, `(unquote e)` gives
/// `e`, a pair that begins with `(splice-unquote e)` gives
/// `(concat e rest)`, and any other pair gives `(cons head rest)`, with
/// `head` and `rest` rewritten in the same way.
pub open spec fn quasiquote_of(x: Datum) -> Result<Datum, Failure>
    decreases x,
{
    match x {
        Datum::Sym(_) => Ok(Datum::list2(Datum::Sym("quote"@), x)),
        Datum::Pair(head, tail) => {
            if *head == Datum::Sym("unquote"@) {
                car_of(*tail)
            } else if *head is Pair && head.head() == Datum::Sym("splice-unquote"@) {
                match car_of(head.tail()) {
                    Err(e) => Err(e),
                    Ok(e) => match quasiquote_of(*tail) {
                        Err(f) => Err(f),
                        Ok(rest) => Ok(Datum::list3(Datum::Sym("concat"@), e, rest)),
                    },
                }
            } else {
                match quasiquote_of(*head) {
                    Err(e) => Err(e),
                    Ok(first) => match quasiquote_of(*tail) {
                        Err(f) => Err(f),
                        Ok(rest) => Ok(Datum::list3(Datum::Sym("cons"@), first, rest)),
                    },
                }
            }
        },
        _ => Ok(x),
    }
}

/// The closure of a parameter pattern and a body made in the scope `env`;
/// a body that is no pair, so holds no form, is a cast failure.
pub open spec fn closure_of(params: Datum, body: Datum, env: usize) -> Result<Datum, Failure> {
    if body is Pair {
        Ok(Datum::Closure { params: Box::new(params), body: Box::new(body), env, is_macro: false })
    } else {
        Err(Failure::cast(body, "a pair"@))
    }
}

/// Whether `v` is a pair whose head is a symbol that means a macro in the
/// scope `env`.
pub open spec fn is_macro_call(v: Datum, env: usize, store: Seq<Level>) -> bool {
    v matches Datum::Pair(op, _) && *op matches Datum::Sym(name) && lookup(store, env, name)
        matches Some(m) && m.is_macro()
}

/// The value of `v` in the scope `env`, nesting at most `fuel` deep.
///
/// An atom but a symbol is its own value, a symbol means what the scope
/// binds it to. A pair whose head names a special form is handed to that
/// form. Any other pair is first expanded while it is a macro call, and the
/// expansion evaluated in its place; else its head is evaluated to a
/// function, its tail to arguments, and the function applied, where a
/// failure of the application is wrapped in a `Function` failure that
/// holds the head.
pub open spec fn eval_of(v: Datum, env: usize, store: Seq<Level>, fuel: nat) -> Run
    decreases fuel, 0nat, v,
{
    if fuel == 0 {
        Run::fail(store, Failure::of(Fault::RecursionLimit))
    } else {
        let f = (fuel - 1) as nat;
        match v {
            Datum::Sym(name) => match lookup(store, env, name) {
                Some(x) => Run::ok(store, x),
                None => Run::fail(store, Failure::of(Fault::UnknownSym(name))),
            },
            Datum::Pair(op, rest) => {
                if *op matches Datum::Sym(name) && special(name) {
                    special_of(op->Sym_0, *rest, env, store, f)
                } else if is_macro_call(v, env, store) {
                    let expanded = macroexpand_of(v, env, store, f);
                    match expanded.result {
                        Err(_) => expanded,
                        Ok(form) => eval_of(form, env, expanded.store, f),
                    }
                } else {
                    let head = eval_of(*op, env, store, f);
                    match head.result {
                        Err(_) => head,
                        Ok(function) => {
                            let tail = eval_list_of(*rest, env, head.store, f);
                            match tail.result {
                                Err(_) => tail,
                                Ok(args) => {
                                    let applied = apply_of(function, args, tail.store, f);
                                    match applied.result {
                                        Ok(_) => applied,
                                        Err(e) => Run::fail(
                                            applied.store,
                                            Failure::of(Fault::Function(*op)).because(e),
                                        ),
                                    }
                                },
                            }
                        },
                    }
                }
            },
            _ => Run::ok(store, v),
        }
    }
}

/// The special form `name` with the operands `rest`, none of which is
/// evaluated before the form asks for it.
pub open spec fn special_of(name: Seq<char>, rest: Datum, env: usize, store: Seq<Level>, fuel: nat) -> Run
    decreases fuel, 6nat, rest,
{
    if name == "def"@ {
        eval_def_of(rest, env, store, fuel)
    } else if name == "defmacro"@ {
        eval_defmacro_of(rest, env, store)
    } else if name == "fn"@ {
        Run::pure(store, eval_fn_of(rest, env))
    } else if name == "if"@ {
        eval_if_of(rest, env, store, fuel)
    } else if name == "quasiquote"@ {
        match eval_quasiquote_of(rest) {
            Err(e) => Run::fail(store, e),
            Ok(form) => eval_of(form, env, store, fuel),
        }
    } else if name == "quote"@ {
        Run::pure(store, car_of(rest))
    } else {
        match car_of(rest) {
            Err(e) => Run::fail(store, e),
            Ok(form) => macroexpand_of(form, env, store, fuel),
        }
    }
}

/// `(fn params body...)`: the closure of the pattern and the body in the
/// scope `env`.
pub open spec fn eval_fn_of(rest: Datum, env: usize) -> Result<Datum, Failure> {
    match car_of(rest) {
        Err(e) => Err(e),
        Ok(params) => match cdr_of(rest) {
            Err(e) => Err(e),
            Ok(body) => closure_of(params, body, env),
        },
    }
}

/// `(quasiquote x)`: the rewritten `x`, still to be evaluated.
pub open spec fn eval_quasiquote_of(rest: Datum) -> Result<Datum, Failure> {
    match car_of(rest) {
        Err(e) => Err(e),
        Ok(x) => quasiquote_of(x),
    }
}

/// `(def name value)` binds `name` to the value of `value`;
/// `(def (name params...) body...)` binds `name` to the closure of
/// `params` and `body`. Both bind in the scope `env` itself and give `Nil`.
pub open spec fn eval_def_of(args: Datum, env: usize, store: Seq<Level>, fuel: nat) -> Run
    decreases fuel, 1nat, args,
{
    match car_of(args) {
        Err(e) => Run::fail(store, e),
        Ok(Datum::Pair(name, params)) => match sym_of(*name) {
            Err(e) => Run::fail(store, e),
            Ok(n) => match cdr_of(args) {
                Err(e) => Run::fail(store, e),
                Ok(body) => match closure_of(*params, body, env) {
                    Err(e) => Run::fail(store, e),
                    Ok(function) => Run::ok(define(store, env, n, function), Datum::Nil),
                },
            },
        },
        Ok(target) => match sym_of(target) {
            Err(e) => Run::fail(store, e),
            Ok(n) => match cadr_of(args) {
                Err(e) => Run::fail(store, e),
                Ok(form) => {
                    let valued = eval_of(form, env, store, fuel);
                    match valued.result {
                        Err(_) => valued,
                        Ok(value) => Run::ok(define(valued.store, env, n, value), Datum::Nil),
                    }
                },
            },
        },
    }
}

/// `(defmacro (name params...) body...)` binds `name` in the scope `env`
/// itself to the closure of `params` and `body`, marked as a macro, and
/// gives `Nil`.
pub open spec fn eval_defmacro_of(args: Datum, env: usize, store: Seq<Level>) -> Run {
    match car_of(args) {
        Err(e) => Run::fail(store, e),
        Ok(target) => match car_of(target) {
            Err(e) => Run::fail(store, e),
            Ok(name) => match sym_of(name) {
                Err(e) => Run::fail(store, e),
                Ok(n) => match cdr_of(target) {
                    Err(e) => Run::fail(store, e),
                    Ok(params) => match cdr_of(args) {
                        Err(e) => Run::fail(store, e),
                        Ok(body) => match closure_of(params, body, env) {
                            Err(e) => Run::fail(store, e),
                            Ok(function) => Run::ok(
                                define(store, env, n, function.as_macro()),
                                Datum::Nil,
                            ),
                        },
                    },
                },
            },
        },
    }
}

/// `(if c1 t1 c2 t2 ... [else])`: the value of the branch after the first
/// condition whose value is not `Nil`; a last lone form is the else branch;
/// `Nil` where nothing applies. No other branch is evaluated.
pub open spec fn eval_if_of(args: Datum, env: usize, store: Seq<Level>, fuel: nat) -> Run
    decreases fuel, 1nat, args,
{
    match args {
        Datum::Nil => Run::ok(store, Datum::Nil),
        Datum::Pair(condition, rest) => if *rest is Nil {
            eval_of(*condition, env, store, fuel)
        } else {
            let tested = eval_of(*condition, env, store, fuel);
            match tested.result {
                Err(_) => tested,
                Ok(c) => match *rest {
                    Datum::Pair(branch, more) => if c.truthy() {
                        eval_of(*branch, env, tested.store, fuel)
                    } else {
                        eval_if_of(*more, env, tested.store, fuel)
                    },
                    _ => Run::fail(tested.store, Failure::cast(*rest, "a pair"@)),
                },
            }
        },
        _ => Run::fail(store, Failure::cast(args, "a pair"@)),
    }
}

/// The values of the elements of a list, in order, as a list; a tail that
/// is no pair is evaluated as it stands.
pub open spec fn eval_list_of(v: Datum, env: usize, store: Seq<Level>, fuel: nat) -> Run
    decreases fuel, 1nat, v,
{
    match v {
        Datum::Pair(x, rest) => {
            let first = eval_of(*x, env, store, fuel);
            match first.result {
                Err(_) => first,
                Ok(a) => {
                    let others = eval_list_of(*rest, env, first.store, fuel);
                    match others.result {
                        Err(_) => others,
                        Ok(b) => Run::ok(others.store, Datum::cons(a, b)),
                    }
                },
            }
        },
        _ => eval_of(v, env, store, fuel),
    }
}

/// The forms of a body evaluated in order; the value of the last one.
pub open spec fn body_of(body: Datum, env: usize, store: Seq<Level>, fuel: nat) -> Run
    decreases fuel, 1nat, body,
{
    match body {
        Datum::Pair(form, rest) => if *rest is Nil {
            eval_of(*form, env, store, fuel)
        } else {
            let done = eval_of(*form, env, store, fuel);
            match done.result {
                Err(_) => done,
                Ok(_) => body_of(*rest, env, done.store, fuel),
            }
        },
        _ => Run::fail(store, Failure::cast(body, "a pair"@)),
    }
}

/// A closure applied to arguments: the arguments are bound to the pattern
/// in a fresh scope inside the scope that the closure was made in, and the
/// body is evaluated there.
pub open spec fn apply_closure_of(
    params: Datum,
    body: Datum,
    captured: usize,
    args: Datum,
    store: Seq<Level>,
    fuel: nat,
) -> Run
    decreases fuel, 2nat, body,
{
    let (frame, bound) = bind_of(params, args, Map::<Seq<char>, Datum>::empty());
    match bound {
        Err(e) => Run::fail(store, e),
        Ok(_) => body_of(body, store.len() as usize, extended(store, captured, frame), fuel),
    }
}

/// A function applied to arguments; anything but a function is a cast
/// failure.
pub open spec fn apply_of(function: Datum, args: Datum, store: Seq<Level>, fuel: nat) -> Run
    decreases fuel, 3nat, function,
{
    match function {
        Datum::Primitive(p, _) => Run::pure(store, apply_primitive(p, args)),
        Datum::Closure { params, body, env, .. } => apply_closure_of(
            *params,
            *body,
            env,
            args,
            store,
            fuel,
        ),
        _ => Run::fail(store, Failure::cast(function, "a fn"@)),
    }
}

/// While `v` is a macro call, the macro applied to the unevaluated tail of
/// `v`, in place of `v`. Each expansion uses up one unit of `fuel`.
pub open spec fn macroexpand_of(v: Datum, env: usize, store: Seq<Level>, fuel: nat) -> Run
    decreases fuel, 5nat, v,
{
    if !is_macro_call(v, env, store) {
        Run::ok(store, v)
    } else if fuel == 0 {
        Run::fail(store, Failure::of(Fault::RecursionLimit))
    } else {
        let expanded = apply_of(
            lookup(store, env, v.head()->Sym_0)->0,
            v.tail(),
            store,
            (fuel - 1) as nat,
        );
        match expanded.result {
            Err(_) => expanded,
            Ok(form) => macroexpand_of(form, env, expanded.store, (fuel - 1) as nat),
        }
    }
}

/// The names of the special forms are pairwise distinct, and `car`, `cdr`
/// and `cons` are none of them.
pub proof fn lemma_special_names()
    ensures
        special("def"@),
        special("defmacro"@),
        special("fn"@),
        special("if"@),
        special("quasiquote"@),
        special("quote"@),
        special("macroexpand"@),
        "def"@ != "defmacro"@,
        "def"@ != "fn"@,
        "def"@ != "if"@,
        "def"@ != "quasiquote"@,
        "def"@ != "quote"@,
        "def"@ != "macroexpand"@,
        "defmacro"@ != "fn"@,
        "defmacro"@ != "if"@,
        "defmacro"@ != "quasiquote"@,
        "defmacro"@ != "quote"@,
        "defmacro"@ != "macroexpand"@,
        "fn"@ != "if"@,
        "fn"@ != "quasiquote"@,
        "fn"@ != "quote"@,
        "fn"@ != "macroexpand"@,
        "if"@ != "quasiquote"@,
        "if"@ != "quote"@,
        "if"@ != "macroexpand"@,
        "quasiquote"@ != "quote"@,
        "quasiquote"@ != "macroexpand"@,
        "quote"@ != "macroexpand"@,
        !special("car"@),
        !special("cdr"@),
        !special("cons"@),
{
    reveal_strlit("def");
    reveal_strlit("defmacro");
    reveal_strlit("fn");
    reveal_strlit("if");
    reveal_strlit("quasiquote");
    reveal_strlit("quote");
    reveal_strlit("macroexpand");
    reveal_strlit("car");
    reveal_strlit("cdr");
    reveal_strlit("cons");
    assert("def"@.len() == 3 && "def"@[0] == 'd');
    assert("defmacro"@.len() == 8);
    assert("fn"@.len() == 2 && "fn"@[0] == 'f');
    assert("if"@.len() == 2 && "if"@[0] == 'i');
    assert("quasiquote"@.len() == 10);
    assert("quote"@.len() == 5);
    assert("macroexpand"@.len() == 11);
    assert("car"@.len() == 3 && "car"@[0] == 'c');
    assert("cdr"@.len() == 3 && "cdr"@[0] == 'c');
    assert("cons"@.len() == 4);
}

/// `quote` hands back its operand as it stands: nothing in the operand is
/// looked up or applied, and the store stays as it was. What follows the
/// operand is ignored.
pub proof fn law_quote_returns_operand(
    x: Datum,
    more: Datum,
    env: usize,
    store: Seq<Level>,
    fuel: nat,
)
    requires
        fuel > 0,
    ensures
        eval_of(Datum::cons(Datum::Sym("quote"@), Datum::cons(x, more)), env, store, fuel)
            == Run::ok(store, x),
{
    lemma_special_names();
    let rest = Datum::cons(x, more);
    assert(special_of("quote"@, rest, env, store, (fuel - 1) as nat) == Run::pure(
        store,
        car_of(rest),
    ));
}

/// `fn` evaluates neither its pattern nor its body: it hands back the
/// closure of both in the current scope, and the store stays as it was.
pub proof fn law_fn_builds_closure(
    params: Datum,
    body: Datum,
    env: usize,
    store: Seq<Level>,
    fuel: nat,
)
    requires
        fuel > 0,
        body is Pair,
    ensures
        eval_of(Datum::cons(Datum::Sym("fn"@), Datum::cons(params, body)), env, store, fuel)
            == Run::ok(
            store,
            Datum::Closure {
                params: Box::new(params),
                body: Box::new(body),
                env,
                is_macro: false,
            },
        ),
{
    lemma_special_names();
    let rest = Datum::cons(params, body);
    assert(special_of("fn"@, rest, env, store, (fuel - 1) as nat) == Run::pure(
        store,
        eval_fn_of(rest, env),
    ));
}

/// `(def name form)` evaluates `form` and nothing else, binds `name` to its
/// value in the current scope itself, and gives `Nil`.
pub proof fn law_def_binds_the_value(
    name: Seq<char>,
    form: Datum,
    env: usize,
    store: Seq<Level>,
    fuel: nat,
)
    requires
        fuel > 0,
    ensures
        ({
            let valued = eval_of(form, env, store, (fuel - 1) as nat);
            eval_of(Datum::list3(Datum::Sym("def"@), Datum::Sym(name), form), env, store, fuel)
                == match valued.result {
                Err(_) => valued,
                Ok(value) => Run::ok(define(valued.store, env, name, value), Datum::Nil),
            }
        }),
{
    lemma_special_names();
    let rest = Datum::list2(Datum::Sym(name), form);
    let f = (fuel - 1) as nat;
    assert(special_of("def"@, rest, env, store, f) == eval_def_of(rest, env, store, f));
}

/// `(def (name params...) body...)` and `(defmacro (name params...)
/// body...)` evaluate nothing: they bind `name` in the current scope itself
/// to the closure of `params` and `body`, which `defmacro` marks as a
/// macro, and give `Nil`.
pub proof fn law_definitions_of_functions_evaluate_nothing(
    name: Seq<char>,
    params: Datum,
    body: Datum,
    env: usize,
    store: Seq<Level>,
    fuel: nat,
)
    requires
        fuel > 0,
        body is Pair,
    ensures
        ({
            let target = Datum::cons(Datum::Sym(name), params);
            let closure = Datum::Closure {
                params: Box::new(params),
                body: Box::new(body),
                env,
                is_macro: false,
            };
            &&& eval_of(
                Datum::cons(Datum::Sym("def"@), Datum::cons(target, body)),
                env,
                store,
                fuel,
            ) == Run::ok(define(store, env, name, closure), Datum::Nil)
            &&& eval_of(
                Datum::cons(Datum::Sym("defmacro"@), Datum::cons(target, body)),
                env,
                store,
                fuel,
            ) == Run::ok(define(store, env, name, closure.as_macro()), Datum::Nil)
        }),
{
    lemma_special_names();
    let target = Datum::cons(Datum::Sym(name), params);
    let rest = Datum::cons(target, body);
    let f = (fuel - 1) as nat;
    assert(special_of("def"@, rest, env, store, f) == eval_def_of(rest, env, store, f));
    assert(special_of("defmacro"@, rest, env, store, f) == eval_defmacro_of(rest, env, store));
}

/// `(quasiquote x)` evaluates the rewritten `x`, and `(macroexpand x)`
/// expands `x` without evaluating what comes out.
pub proof fn law_quasiquote_and_macroexpand_forms(
    x: Datum,
    env: usize,
    store: Seq<Level>,
    fuel: nat,
)
    requires
        fuel > 0,
    ensures
        eval_of(Datum::list2(Datum::Sym("quasiquote"@), x), env, store, fuel) == match quasiquote_of(
            x,
        ) {
            Err(e) => Run::fail(store, e),
            Ok(form) => eval_of(form, env, store, (fuel - 1) as nat),
        },
        eval_of(Datum::list2(Datum::Sym("macroexpand"@), x), env, store, fuel) == macroexpand_of(
            x,
            env,
            store,
            (fuel - 1) as nat,
        ),
{
    lemma_special_names();
    let rest = Datum::list1(x);
    let f = (fuel - 1) as nat;
    assert(special_of("quasiquote"@, rest, env, store, f) == match eval_quasiquote_of(rest) {
        Err(e) => Run::fail(store, e),
        Ok(form) => eval_of(form, env, store, f),
    });
    assert(special_of("macroexpand"@, rest, env, store, f) == macroexpand_of(x, env, store, f));
}

/// `if` evaluates its condition and then the one branch that the condition
/// selects. The other branch is not evaluated: the outcome does not depend
/// on it.
pub proof fn law_if_evaluates_one_branch(
    condition: Datum,
    consequent: Datum,
    alternative: Datum,
    env: usize,
    store: Seq<Level>,
    fuel: nat,
)
    requires
        fuel > 0,
    ensures
        ({
            let form = Datum::cons(
                Datum::Sym("if"@),
                Datum::list3(condition, consequent, alternative),
            );
            let tested = eval_of(condition, env, store, (fuel - 1) as nat);
            eval_of(form, env, store, fuel) == match tested.result {
                Err(_) => tested,
                Ok(c) => if c.truthy() {
                    eval_of(consequent, env, tested.store, (fuel - 1) as nat)
                } else {
                    eval_of(alternative, env, tested.store, (fuel - 1) as nat)
                },
            }
        }),
{
    lemma_special_names();
    let f = (fuel - 1) as nat;
    let clauses = Datum::list3(condition, consequent, alternative);
    assert(special_of("if"@, clauses, env, store, f) == eval_if_of(clauses, env, store, f));
    let tested = eval_of(condition, env, store, f);
    match tested.result {
        Err(_) => {},
        Ok(c) => {
            if !c.truthy() {
                assert(eval_if_of(Datum::list1(alternative), env, tested.store, f) == eval_of(
                    alternative,
                    env,
                    tested.store,
                    f,
                ));
            }
        },
    }
}

/// What `macroexpand` hands back is no macro call any more: expansion goes
/// on until it has reached a form that no macro rewrites.
pub proof fn law_macroexpand_reaches_fixed_point(
    v: Datum,
    env: usize,
    store: Seq<Level>,
    fuel: nat,
)
    ensures
        macroexpand_of(v, env, store, fuel).result matches Ok(form) ==> !is_macro_call(
            form,
            env,
            macroexpand_of(v, env, store, fuel).store,
        ),
    decreases fuel,
{
    if is_macro_call(v, env, store) && fuel > 0 {
        let expanded = apply_of(
            lookup(store, env, v.head()->Sym_0)->0,
            v.tail(),
            store,
            (fuel - 1) as nat,
        );
        match expanded.result {
            Err(_) => {},
            Ok(form) => {
                law_macroexpand_reaches_fixed_point(form, env, expanded.store, (fuel - 1) as nat);
            },
        }
    }
}

/// Expanding an expanded form changes nothing, whatever the limit.
pub proof fn law_macroexpand_is_idempotent(
    v: Datum,
    env: usize,
    store: Seq<Level>,
    fuel: nat,
    again: nat,
)
    ensures
        macroexpand_of(v, env, store, fuel).result matches Ok(form) ==> macroexpand_of(
            form,
            env,
            macroexpand_of(v, env, store, fuel).store,
            again,
        ) == macroexpand_of(v, env, store, fuel),
{
    law_macroexpand_reaches_fixed_point(v, env, store, fuel);
}

/// A pair that is a macro call and no special form is evaluated by
/// evaluating its expansion, and that expansion is no macro call.
pub proof fn law_eval_expands_macros_first(v: Datum, env: usize, store: Seq<Level>, fuel: nat)
    requires
        fuel > 0,
        is_macro_call(v, env, store),
        !special(v.head()->Sym_0),
    ensures
        ({
            let expanded = macroexpand_of(v, env, store, (fuel - 1) as nat);
            &&& eval_of(v, env, store, fuel) == match expanded.result {
                Err(_) => expanded,
                Ok(form) => eval_of(form, env, expanded.store, (fuel - 1) as nat),
            }
            &&& expanded.result matches Ok(form) ==> !is_macro_call(form, env, expanded.store)
        }),
{
    law_macroexpand_reaches_fixed_point(v, env, store, (fuel - 1) as nat);
}

/// A closure runs where it was made: its body is evaluated in a fresh scope
/// that binds the parameters, and every other name means there what it
/// means, at the time of the call, in the scope that the closure captured.
pub proof fn law_closure_sees_its_defining_scope(
    params: Datum,
    body: Datum,
    captured: usize,
    is_macro: bool,
    args: Datum,
    store: Seq<Level>,
    fuel: nat,
    name: Seq<char>,
)
    requires
        store.len() < usize::MAX,
        bind_of(params, args, Map::<Seq<char>, Datum>::empty()).1 is Ok,
    ensures
        ({
            let frame = bind_of(params, args, Map::<Seq<char>, Datum>::empty()).0;
            let inner = store.len() as usize;
            let grown = extended(store, captured, frame);
            let closure = Datum::Closure {
                params: Box::new(params),
                body: Box::new(body),
                env: captured,
                is_macro,
            };
            &&& apply_of(closure, args, store, fuel) == body_of(body, inner, grown, fuel)
            &&& lookup(grown, inner, name) == if frame.contains_key(name) {
                Some(frame[name])
            } else {
                lookup(store, captured, name)
            }
        }),
{
    let frame = bind_of(params, args, Map::<Seq<char>, Datum>::empty()).0;
    law_new_scope_sees_its_parent(store, captured, frame, name);
    assert(apply_closure_of(params, body, captured, args, store, fuel) == body_of(
        body,
        store.len() as usize,
        extended(store, captured, frame),
        fuel,
    ));
}

/// `(car (cons x y))` is the value of `x` and `(cdr (cons x y))` is the
/// value of `y`, wherever `car`, `cdr` and `cons` mean the primitives:
/// both operands are evaluated, `x` first, and a failure of either is the
/// failure of the whole.
pub proof fn law_car_cdr_of_cons(x: Datum, y: Datum, env: usize, store: Seq<Level>, fuel: nat)
    requires
        fuel >= 3,
        lookup(store, env, "car"@) == Some(Datum::Primitive(Primitive::Car, false)),
        lookup(store, env, "cdr"@) == Some(Datum::Primitive(Primitive::Cdr, false)),
        lookup(store, env, "cons"@) == Some(Datum::Primitive(Primitive::Cons, false)),
    ensures
        ({
            let built = Datum::list3(Datum::Sym("cons"@), x, y);
            let first = eval_of(x, env, store, (fuel - 2) as nat);
            let second = eval_of(y, env, first.store, (fuel - 2) as nat);
            &&& eval_of(Datum::list2(Datum::Sym("car"@), built), env, store, fuel) == match (
                first.result,
                second.result,
            ) {
                (Err(_), _) => first,
                (Ok(_), Err(_)) => second,
                (Ok(a), Ok(_)) => Run::ok(second.store, a),
            }
            &&& eval_of(Datum::list2(Datum::Sym("cdr"@), built), env, store, fuel) == match (
                first.result,
                second.result,
            ) {
                (Err(_), _) => first,
                (Ok(_), Err(_)) => second,
                (Ok(_), Ok(b)) => Run::ok(second.store, b),
            }
        }),
{
    lemma_special_names();
    let built = Datum::list3(Datum::Sym("cons"@), x, y);
    let f1 = (fuel - 1) as nat;
    let f2 = (fuel - 2) as nat;
    let first = eval_of(x, env, store, f2);
    let second = eval_of(y, env, first.store, f2);
    let inner = eval_of(built, env, store, f1);
    // the inner form: (cons x y)
    assert(eval_of(Datum::Sym("cons"@), env, store, f2) == Run::ok(
        store,
        Datum::Primitive(Primitive::Cons, false),
    ));
    let operands = eval_list_of(Datum::list2(x, y), env, store, f2);
    assert(eval_of(Datum::Nil, env, second.store, f2) == Run::ok(second.store, Datum::Nil));
    assert(eval_list_of(Datum::Nil, env, second.store, f2) == Run::ok(second.store, Datum::Nil));
    assert(eval_list_of(Datum::list1(y), env, first.store, f2) == match second.result {
        Err(_) => second,
        Ok(b) => Run::ok(second.store, Datum::list1(b)),
    });
    assert(operands == match (first.result, second.result) {
        (Err(_), _) => first,
        (Ok(_), Err(_)) => second,
        (Ok(a), Ok(b)) => Run::ok(second.store, Datum::list2(a, b)),
    });
    assert(inner == match (first.result, second.result) {
        (Err(_), _) => first,
        (Ok(_), Err(_)) => second,
        (Ok(a), Ok(b)) => Run::ok(second.store, Datum::cons(a, b)),
    }) by {
        reveal_with_fuel(arity_of, 3);
        match operands.result {
            Ok(args) => {
                assert(apply_of(Datum::Primitive(Primitive::Cons, false), args, operands.store, f2)
                    == Run::pure(operands.store, apply_primitive(Primitive::Cons, args)));
            },
            Err(_) => {},
        }
    }
    // the outer forms: (car _) and (cdr _)
    assert(eval_of(Datum::Sym("car"@), env, store, f1) == Run::ok(
        store,
        Datum::Primitive(Primitive::Car, false),
    ));
    assert(eval_of(Datum::Sym("cdr"@), env, store, f1) == Run::ok(
        store,
        Datum::Primitive(Primitive::Cdr, false),
    ));
    let outer = eval_list_of(Datum::list1(built), env, store, f1);
    assert(eval_of(Datum::Nil, env, inner.store, f1) == Run::ok(inner.store, Datum::Nil));
    assert(eval_list_of(Datum::Nil, env, inner.store, f1) == Run::ok(inner.store, Datum::Nil));
    assert(outer == match inner.result {
        Err(_) => inner,
        Ok(pair) => Run::ok(inner.store, Datum::list1(pair)),
    });
    match outer.result {
        Ok(args) => {
            reveal_with_fuel(arity_of, 2);
            assert(apply_of(Datum::Primitive(Primitive::Car, false), args, outer.store, f1)
                == Run::pure(outer.store, apply_primitive(Primitive::Car, args)));
            assert(apply_of(Datum::Primitive(Primitive::Cdr, false), args, outer.store, f1)
                == Run::pure(outer.store, apply_primitive(Primitive::Cdr, args)));
        },
        Err(_) => {},
    }
}

} // verus!
