//! The evaluator: special forms, macro expansion, application.
//!
//! Every function here does what its counterpart in [`crate::semantics`]
//! says, on the store it is handed.

use crate::args;
use crate::cast;
use crate::env::{lookup, Env, Frame, Level, Store};
use crate::error::{outcome, Error};
use crate::semantics::{
    apply_closure_of, apply_of, body_of, closure_of, eval_def_of, eval_defmacro_of, eval_if_of,
    eval_list_of, eval_of, eval_quasiquote_of, is_macro_call, macroexpand_of, quasiquote_of,
    special_of, Run,
};
use crate::value::{Closure, Datum, Fn, Value};
use vstd::prelude::*;

verus! {

/// The run that an executable result and the store afterwards stand for.
pub open spec fn ran(r: Result<Value, Error>, store: Seq<Level>) -> Run {
    Run { store, result: outcome(r) }
}

/// Rewrites a quasiquoted form, see [`quasiquote_of`].
pub fn quasiquote(arg: &Value) -> (r: Result<Value, Error>)
    ensures
        outcome(r) == quasiquote_of(arg@),
    decreases arg@.size(),
{
    let pair = match arg.as_pair() {
        Some(pair) => pair,
        None => {
            return match arg.as_symbol() {
                Some(_) => Ok(
                    Value::cons(Value::symbol("quote"), Value::cons(arg.clone(), Value::Nil)),
                ),
                None => Ok(arg.clone()),
            };
        },
    };
    let head = pair.car();
    let tail = pair.cdr();
    if let Some(name) = head.as_symbol() {
        if name.eq("unquote") {
            return Ok(cast::car(tail)?.clone());
        }
    }
    if let Some(inner) = head.as_pair() {
        if let Some(name) = inner.car().as_symbol() {
            if name.eq("splice-unquote") {
                let spliced = cast::car(inner.cdr())?.clone();
                let rest = quasiquote(tail)?;
                return Ok(
                    Value::cons(
                        Value::symbol("concat"),
                        Value::cons(spliced, Value::cons(rest, Value::Nil)),
                    ),
                );
            }
        }
    }
    let first = quasiquote(head)?;
    let rest = quasiquote(tail)?;
    Ok(Value::cons(Value::symbol("cons"), Value::cons(first, Value::cons(rest, Value::Nil))))
}

/// Makes the closure of `params` and `body` in the scope `env`.
fn eval_fn(params: &Value, body: &Value, env: &Env) -> (r: Result<Value, Error>)
    ensures
        outcome(r) == closure_of(params@, body@, env.id),
{
    match body.as_pair() {
        Some(_) => Ok(Value::closure(params.clone(), body.clone(), *env)),
        None => Err(Error::cast(body.clone(), "a pair".to_owned())),
    }
}

/// The operand of `quote`, as it stands.
fn eval_quote(args: &Value) -> (r: Result<Value, Error>)
    ensures
        outcome(r) == cast::car_of(args@),
{
    Ok(cast::car(args)?.clone())
}

/// The macro that `value` calls in the scope `env`, if it is a macro call.
fn macro_of(value: &Value, env: &Env, store: &Store) -> (r: Option<Value>)
    ensures
        match r {
            Some(m) => is_macro_call(value@, env.id, store@) && lookup(
                store@,
                env.id,
                value@.head()->Sym_0,
            ) == Some(m@),
            None => !is_macro_call(value@, env.id, store@),
        },
{
    if let Some(pair) = value.as_pair() {
        if let Some(name) = pair.car().as_symbol() {
            if let Some(found) = env.get(name, store) {
                if found.is_macro() {
                    return Some(found);
                }
            }
        }
    }
    None
}

/// Applies a closure to arguments, see [`apply_closure_of`].
#[verifier::loop_isolation(false)]
fn apply_closure(closure: &Closure, args: &Value, store: &mut Store, fuel: usize) -> (r: Result<
    Value,
    Error,
>)
    ensures
        ran(r, final(store)@) == apply_closure_of(
            closure.params@,
            closure.body@,
            closure.env.id,
            args@,
            old(store)@,
            fuel as nat,
        ),
    decreases fuel, 2nat, 0nat,
{
    let mut frame = Frame::new();
    args::bind(&closure.params, args, &mut frame)?;
    let env = closure.env.extend(frame, store);
    let ghost goal = body_of(closure.body@, env.id, store@, fuel as nat);
    let mut body: &Value = &closure.body;
    loop
        invariant
            body_of(body@, env.id, store@, fuel as nat) == goal,
        decreases body@.size(),
    {
        let rest = cast::cdr(body)?;
        if rest.is_nil() {
            return eval(cast::car(body)?.clone(), &env, store, fuel);
        }
        eval(cast::car(body)?.clone(), &env, store, fuel)?;
        body = rest;
    }
}

/// Applies a function to arguments, see [`apply_of`].
pub fn apply(function: &Value, args: &Value, store: &mut Store, fuel: usize) -> (r: Result<
    Value,
    Error,
>)
    ensures
        ran(r, final(store)@) == apply_of(function@, args@, old(store)@, fuel as nat),
    decreases fuel, 3nat, 0nat,
{
    match function {
        Value::Fn(Fn::Closure(closure), _) => apply_closure(closure, args, store, fuel),
        Value::Fn(Fn::Primitive(primitive), _) => primitive.apply(args),
        _ => Err(Error::cast(function.clone(), "a fn".to_owned())),
    }
}

/// Evaluates the elements of a list, see [`eval_list_of`].
fn eval_list(value: &Value, env: &Env, store: &mut Store, fuel: usize) -> (r: Result<Value, Error>)
    ensures
        ran(r, final(store)@) == eval_list_of(value@, env.id, old(store)@, fuel as nat),
    decreases fuel, 1nat, value@.size(),
{
    match value.as_pair() {
        Some(pair) => {
            let first = eval(pair.car().clone(), env, store, fuel)?;
            let rest = eval_list(pair.cdr(), env, store, fuel)?;
            Ok(Value::cons(first, rest))
        },
        None => eval(value.clone(), env, store, fuel),
    }
}

/// The special form `def`, see [`eval_def_of`].
fn eval_def(args: &Value, env: &Env, store: &mut Store, fuel: usize) -> (r: Result<Value, Error>)
    ensures
        ran(r, final(store)@) == eval_def_of(args@, env.id, old(store)@, fuel as nat),
    decreases fuel, 1nat, 0nat,
{
    let target = cast::car(args)?;
    match target.as_pair() {
        Some(pair) => {
            let name = cast::sym(pair.car())?.to_owned();
            let function = eval_fn(pair.cdr(), cast::cdr(args)?, env)?;
            env.set(name, function, store);
        },
        None => {
            let name = cast::sym(target)?.to_owned();
            let value = eval(cast::cadr(args)?.clone(), env, store, fuel)?;
            env.set(name, value, store);
        },
    }
    Ok(Value::Nil)
}

/// The special form `defmacro`, see [`eval_defmacro_of`].
fn eval_defmacro(args: &Value, env: &Env, store: &mut Store) -> (r: Result<Value, Error>)
    ensures
        ran(r, final(store)@) == eval_defmacro_of(args@, env.id, old(store)@),
{
    let target = cast::car(args)?;
    let name = cast::sym(cast::car(target)?)?.to_owned();
    let function = eval_fn(cast::cdr(target)?, cast::cdr(args)?, env)?;
    let marked = Value::as_macro(cast::function(&function)?.clone());
    env.set(name, marked, store);
    Ok(Value::Nil)
}

/// The special form `if`, see [`eval_if_of`].
#[verifier::loop_isolation(false)]
fn eval_if(args: &Value, env: &Env, store: &mut Store, fuel: usize) -> (r: Result<Value, Error>)
    ensures
        ran(r, final(store)@) == eval_if_of(args@, env.id, old(store)@, fuel as nat),
    decreases fuel, 1nat, 0nat,
{
    let ghost goal = eval_if_of(args@, env.id, store@, fuel as nat);
    let mut clauses: &Value = args;
    loop
        invariant
            eval_if_of(clauses@, env.id, store@, fuel as nat) == goal,
        decreases clauses@.size(),
    {
        if clauses.is_nil() {
            return Ok(Value::Nil);
        }
        if cast::cdr(clauses)?.is_nil() {
            return eval(cast::car(clauses)?.clone(), env, store, fuel);
        }
        if !eval(cast::car(clauses)?.clone(), env, store, fuel)?.is_nil() {
            return eval(cast::cadr(clauses)?.clone(), env, store, fuel);
        }
        proof {
            reveal_with_fuel(Datum::size, 3);
        }
        clauses = cast::cddr(clauses)?;
    }
}

/// The special form `quasiquote`: rewrites its operand and evaluates the
/// result.
fn eval_quasiquote(args: &Value, env: &Env, store: &mut Store, fuel: usize) -> (r: Result<
    Value,
    Error,
>)
    ensures
        ran(r, final(store)@) == match eval_quasiquote_of(args@) {
            Err(e) => Run::fail(old(store)@, e),
            Ok(form) => eval_of(form, env.id, old(store)@, fuel as nat),
        },
    decreases fuel, 1nat, 0nat,
{
    let form = quasiquote(cast::car(args)?)?;
    eval(form, env, store, fuel)
}

/// Expands `value` while it is a macro call, see [`macroexpand_of`].
#[verifier::loop_isolation(false)]
pub fn macroexpand(value: Value, env: &Env, store: &mut Store, fuel: usize) -> (r: Result<
    Value,
    Error,
>)
    ensures
        ran(r, final(store)@) == macroexpand_of(value@, env.id, old(store)@, fuel as nat),
    decreases fuel, 5nat, 0nat,
{
    let ghost goal = macroexpand_of(value@, env.id, store@, fuel as nat);
    let mut form = value;
    let mut left: usize = fuel;
    loop
        invariant
            left <= fuel,
            macroexpand_of(form@, env.id, store@, left as nat) == goal,
        decreases left,
    {
        let function = match macro_of(&form, env, store) {
            Some(m) => m,
            None => {
                return Ok(form);
            },
        };
        if left == 0 {
            return Err(Error::recursion_limit());
        }
        left = left - 1;
        let operands = match form.as_pair() {
            Some(pair) => pair.cdr().clone(),
            None => Value::Nil,
        };
        form = apply(&function, &operands, store, left)?;
    }
}

/// Evaluates `value` in the scope `env` of `store`, nesting at most `fuel`
/// deep, see [`eval_of`].
pub fn eval(value: Value, env: &Env, store: &mut Store, fuel: usize) -> (r: Result<Value, Error>)
    ensures
        ran(r, final(store)@) == eval_of(value@, env.id, old(store)@, fuel as nat),
    decreases fuel, 0nat, 0nat,
{
    if fuel == 0 {
        return Err(Error::recursion_limit());
    }
    let deeper = fuel - 1;
    if let Some(name) = value.as_symbol() {
        return match env.get(name, store) {
            Some(found) => Ok(found),
            None => Err(Error::unknown_sym(name.to_owned())),
        };
    }
    let pair = match value.as_pair() {
        Some(pair) => pair,
        None => {
            return Ok(value);
        },
    };
    let op = pair.car();
    let rest = pair.cdr();
    if let Some(name) = op.as_symbol() {
        let ghost dispatched = special_of(name@, rest@, env.id, store@, deeper as nat);
        if name.eq("def") {
            return eval_def(rest, env, store, deeper);
        } else if name.eq("defmacro") {
            return eval_defmacro(rest, env, store);
        } else if name.eq("fn") {
            return eval_fn(cast::car(rest)?, cast::cdr(rest)?, env);
        } else if name.eq("if") {
            return eval_if(rest, env, store, deeper);
        } else if name.eq("quasiquote") {
            return eval_quasiquote(rest, env, store, deeper);
        } else if name.eq("quote") {
            return eval_quote(rest);
        } else if name.eq("macroexpand") {
            return macroexpand(cast::car(rest)?.clone(), env, store, deeper);
        }
    }
    if macro_of(&value, env, store).is_some() {
        let form = macroexpand(value.clone(), env, store, deeper)?;
        return eval(form, env, store, deeper);
    }
    let function = eval(op.clone(), env, store, deeper)?;
    let operands = eval_list(rest, env, store, deeper)?;
    match apply(&function, &operands, store, deeper) {
        Ok(result) => Ok(result),
        Err(err) => Err(Error::function(op.clone()).source(err)),
    }
}

} // verus!
