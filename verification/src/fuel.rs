//! The limit on nesting does not change what evaluation gives.
//!
//! An evaluation that ends within its limit, with a value or with an error
//! of the program, ends in the same way under every larger limit. Only an
//! evaluation that ran into the limit can end otherwise when it is given
//! more room.

use crate::args::bind_of;
use crate::cast::{cadr_of, car_of, sym_of};
use crate::env::{extended, lookup, Level};
use crate::error::{Failure, Fault};
use crate::semantics::{
    apply_closure_of, apply_of, body_of, eval_def_of, eval_if_of, eval_list_of, eval_of,
    eval_quasiquote_of, is_macro_call, macroexpand_of, special, special_of, Run,
};
use crate::value::Datum;
use vstd::prelude::*;

verus! {

/// Whether a run ended because it ran into the limit on nesting: it failed,
/// and the first cause of the failure is `RecursionLimit`.
pub open spec fn exhausted(run: Run) -> bool {
    run.result matches Err(e) && e.root().fault is RecursionLimit
}

/// Wrapping a failure keeps its first cause.
proof fn lemma_root_of_wrapped(outer: Failure, cause: Failure)
    ensures
        outer.because(cause).root() == cause.root(),
{
}

/// More room for `eval_of`.
proof fn lemma_eval(v: Datum, env: usize, store: Seq<Level>, fuel: nat)
    ensures
        !exhausted(eval_of(v, env, store, fuel)) ==> eval_of(v, env, store, fuel + 1) == eval_of(
            v,
            env,
            store,
            fuel,
        ),
    decreases fuel, 0nat, v,
{
    if fuel > 0 && !exhausted(eval_of(v, env, store, fuel)) {
        let f = (fuel - 1) as nat;
        match v {
            Datum::Pair(op, rest) => {
                if *op matches Datum::Sym(name) && special(name) {
                    lemma_special(op->Sym_0, *rest, env, store, f);
                } else if is_macro_call(v, env, store) {
                    let expanded = macroexpand_of(v, env, store, f);
                    lemma_macroexpand(v, env, store, f);
                    match expanded.result {
                        Err(_) => {},
                        Ok(form) => {
                            lemma_eval(form, env, expanded.store, f);
                        },
                    }
                } else {
                    let head = eval_of(*op, env, store, f);
                    lemma_eval(*op, env, store, f);
                    match head.result {
                        Err(_) => {},
                        Ok(function) => {
                            let tail = eval_list_of(*rest, env, head.store, f);
                            lemma_eval_list(*rest, env, head.store, f);
                            match tail.result {
                                Err(_) => {},
                                Ok(args) => {
                                    let applied = apply_of(function, args, tail.store, f);
                                    match applied.result {
                                        Ok(_) => {},
                                        Err(e) => {
                                            lemma_root_of_wrapped(
                                                Failure::of(Fault::Function(*op)),
                                                e,
                                            );
                                        },
                                    }
                                    lemma_apply(function, args, tail.store, f);
                                },
                            }
                        },
                    }
                }
            },
            _ => {},
        }
    }
}

/// More room for `special_of`.
proof fn lemma_special(name: Seq<char>, rest: Datum, env: usize, store: Seq<Level>, fuel: nat)
    ensures
        !exhausted(special_of(name, rest, env, store, fuel)) ==> special_of(
            name,
            rest,
            env,
            store,
            fuel + 1,
        ) == special_of(name, rest, env, store, fuel),
    decreases fuel, 6nat, rest,
{
    if name == "def"@ {
        lemma_eval_def(rest, env, store, fuel);
    } else if name == "defmacro"@ {
    } else if name == "fn"@ {
    } else if name == "if"@ {
        lemma_eval_if(rest, env, store, fuel);
    } else if name == "quasiquote"@ {
        match eval_quasiquote_of(rest) {
            Err(_) => {},
            Ok(form) => {
                lemma_eval(form, env, store, fuel);
            },
        }
    } else if name == "quote"@ {
    } else {
        match car_of(rest) {
            Err(_) => {},
            Ok(form) => {
                lemma_macroexpand(form, env, store, fuel);
            },
        }
    }
}

/// More room for `eval_def_of`.
proof fn lemma_eval_def(args: Datum, env: usize, store: Seq<Level>, fuel: nat)
    ensures
        !exhausted(eval_def_of(args, env, store, fuel)) ==> eval_def_of(
            args,
            env,
            store,
            fuel + 1,
        ) == eval_def_of(args, env, store, fuel),
    decreases fuel, 1nat, args,
{
    match car_of(args) {
        Ok(Datum::Pair(_, _)) => {},
        Ok(target) => {
            if sym_of(target) is Ok {
                match cadr_of(args) {
                    Ok(form) => {
                        lemma_eval(form, env, store, fuel);
                    },
                    Err(_) => {},
                }
            }
        },
        Err(_) => {},
    }
}

/// More room for `eval_if_of`.
proof fn lemma_eval_if(args: Datum, env: usize, store: Seq<Level>, fuel: nat)
    ensures
        !exhausted(eval_if_of(args, env, store, fuel)) ==> eval_if_of(args, env, store, fuel + 1)
            == eval_if_of(args, env, store, fuel),
    decreases fuel, 1nat, args,
{
    match args {
        Datum::Pair(condition, rest) => {
            lemma_eval(*condition, env, store, fuel);
            if !(*rest is Nil) {
                let tested = eval_of(*condition, env, store, fuel);
                match tested.result {
                    Err(_) => {},
                    Ok(c) => match *rest {
                        Datum::Pair(branch, more) => {
                            if c.truthy() {
                                lemma_eval(*branch, env, tested.store, fuel);
                            } else {
                                lemma_eval_if(*more, env, tested.store, fuel);
                            }
                        },
                        _ => {},
                    },
                }
            }
        },
        _ => {},
    }
}

/// More room for `eval_list_of`.
proof fn lemma_eval_list(v: Datum, env: usize, store: Seq<Level>, fuel: nat)
    ensures
        !exhausted(eval_list_of(v, env, store, fuel)) ==> eval_list_of(v, env, store, fuel + 1)
            == eval_list_of(v, env, store, fuel),
    decreases fuel, 1nat, v,
{
    match v {
        Datum::Pair(x, rest) => {
            let first = eval_of(*x, env, store, fuel);
            lemma_eval(*x, env, store, fuel);
            match first.result {
                Err(_) => {},
                Ok(_) => {
                    lemma_eval_list(*rest, env, first.store, fuel);
                },
            }
        },
        _ => {
            lemma_eval(v, env, store, fuel);
        },
    }
}

/// More room for `body_of`.
proof fn lemma_body(body: Datum, env: usize, store: Seq<Level>, fuel: nat)
    ensures
        !exhausted(body_of(body, env, store, fuel)) ==> body_of(body, env, store, fuel + 1)
            == body_of(body, env, store, fuel),
    decreases fuel, 1nat, body,
{
    match body {
        Datum::Pair(form, rest) => {
            lemma_eval(*form, env, store, fuel);
            if !(*rest is Nil) {
                let done = eval_of(*form, env, store, fuel);
                match done.result {
                    Err(_) => {},
                    Ok(_) => {
                        lemma_body(*rest, env, done.store, fuel);
                    },
                }
            }
        },
        _ => {},
    }
}

/// More room for `apply_closure_of`.
proof fn lemma_apply_closure(
    params: Datum,
    body: Datum,
    captured: usize,
    args: Datum,
    store: Seq<Level>,
    fuel: nat,
)
    ensures
        !exhausted(apply_closure_of(params, body, captured, args, store, fuel))
            ==> apply_closure_of(params, body, captured, args, store, fuel + 1)
            == apply_closure_of(params, body, captured, args, store, fuel),
    decreases fuel, 2nat, body,
{
    let (frame, bound) = bind_of(params, args, Map::<Seq<char>, Datum>::empty());
    match bound {
        Err(_) => {},
        Ok(_) => {
            lemma_body(body, store.len() as usize, extended(store, captured, frame), fuel);
        },
    }
}

/// More room for `apply_of`.
proof fn lemma_apply(function: Datum, args: Datum, store: Seq<Level>, fuel: nat)
    ensures
        !exhausted(apply_of(function, args, store, fuel)) ==> apply_of(
            function,
            args,
            store,
            fuel + 1,
        ) == apply_of(function, args, store, fuel),
    decreases fuel, 3nat, function,
{
    match function {
        Datum::Closure { params, body, env, .. } => {
            lemma_apply_closure(*params, *body, env, args, store, fuel);
        },
        _ => {},
    }
}

/// More room for `macroexpand_of`.
proof fn lemma_macroexpand(v: Datum, env: usize, store: Seq<Level>, fuel: nat)
    ensures
        !exhausted(macroexpand_of(v, env, store, fuel)) ==> macroexpand_of(
            v,
            env,
            store,
            fuel + 1,
        ) == macroexpand_of(v, env, store, fuel),
    decreases fuel, 5nat, v,
{
    if is_macro_call(v, env, store) && fuel > 0 {
        let f = (fuel - 1) as nat;
        let function = lookup(store, env, v.head()->Sym_0)->0;
        let expanded = apply_of(function, v.tail(), store, f);
        lemma_apply(function, v.tail(), store, f);
        match expanded.result {
            Err(_) => {},
            Ok(form) => {
                lemma_macroexpand(form, env, expanded.store, f);
            },
        }
    }
}

/// More room changes nothing: an evaluation that did not run into its
/// limit gives the same value or the same error, and leaves the same store,
/// under every larger limit.
pub proof fn law_more_fuel_changes_nothing(
    v: Datum,
    env: usize,
    store: Seq<Level>,
    fuel: nat,
    more: nat,
)
    requires
        !exhausted(eval_of(v, env, store, fuel)),
    ensures
        eval_of(v, env, store, fuel + more) == eval_of(v, env, store, fuel),
    decreases more,
{
    if more > 0 {
        law_more_fuel_changes_nothing(v, env, store, fuel, (more - 1) as nat);
        lemma_eval(v, env, store, fuel + (more - 1) as nat);
    }
}

} // verus!
