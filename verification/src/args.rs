//! Argument lists: checking their length and binding them to a parameter
//! pattern.

use crate::cast;
use crate::env::Frame;
use crate::error::{outcome_unit, Error, Failure, Fault};
use crate::value::{Datum, Value};
use vstd::prelude::*;

verus! {

/// Whether `args` is a proper list of exactly `n` more elements, where
/// `expected` elements were asked for in all.
///
/// A list that goes on after `n` elements has too many, one that ends in
/// `Nil` before has too few, and one that ends in another atom before is no
/// list, which is a cast failure on that atom.
pub open spec fn arity_of(args: Datum, n: nat, expected: usize) -> Result<(), Failure>
    decreases n,
{
    if n == 0 {
        if args is Nil {
            Ok(())
        } else {
            Err(Failure::of(Fault::TooManyArgs(expected)))
        }
    } else {
        match args {
            Datum::Nil => Err(Failure::of(Fault::TooFewArgs(expected))),
            Datum::Pair(_, rest) => arity_of(*rest, (n - 1) as nat, expected),
            _ => Err(Failure::cast(args, "a pair"@)),
        }
    }
}

/// Checks that `args` is a proper list of exactly `n` elements.
pub fn arity(args: &Value, n: usize) -> (r: Result<(), Error>)
    ensures
        outcome_unit(r) == arity_of(args@, n as nat, n),
{
    let mut rest: &Value = args;
    let mut left: usize = n;
    loop
        invariant
            arity_of(rest@, left as nat, n) == arity_of(args@, n as nat, n),
        decreases left,
    {
        if left == 0 {
            if rest.is_nil() {
                return Ok(());
            } else {
                return Err(Error::too_many_args(n));
            }
        }
        if rest.is_nil() {
            return Err(Error::too_few_args(n));
        }
        rest = cast::cdr(rest)?;
        left = left - 1;
    }
}

/// The number of positional parameters of a pattern: its leading pairs.
pub open spec fn positional(params: Datum) -> nat
    decreases params,
{
    match params {
        Datum::Pair(_, rest) => 1 + positional(*rest),
        _ => 0,
    }
}

/// What a list ends in: the first tail that is no pair. A proper list ends
/// in `Nil`.
pub open spec fn list_end(args: Datum) -> Datum
    decreases args,
{
    match args {
        Datum::Pair(_, rest) => list_end(*rest),
        _ => args,
    }
}

/// Arity by length: a list of `n` elements that ends in `Nil` is accepted,
/// a list that is longer, or as long and ending in something else, has too
/// many, a shorter list that ends in `Nil` has too few, and a shorter list
/// that ends in something else is a cast failure on what it ends in.
pub proof fn law_arity_by_length(args: Datum, n: nat, expected: usize)
    ensures
        arity_of(args, n, expected) == if positional(args) == n && list_end(args) is Nil {
            Ok::<(), Failure>(())
        } else if positional(args) >= n {
            Err(Failure::of(Fault::TooManyArgs(expected)))
        } else if list_end(args) is Nil {
            Err(Failure::of(Fault::TooFewArgs(expected)))
        } else {
            Err(Failure::cast(list_end(args), "a pair"@))
        },
    decreases args,
{
    match args {
        Datum::Pair(_, rest) => {
            if n > 0 {
                law_arity_by_length(*rest, (n - 1) as nat, expected);
            }
        },
        _ => {},
    }
}

/// A count as a machine word, held at the largest word where it would not
/// fit.
pub open spec fn clipped(n: nat) -> usize {
    if n > usize::MAX {
        usize::MAX
    } else {
        n as usize
    }
}

/// Binding the pattern `params` to `args` on top of `frame`: the bindings
/// afterwards, and whether the arguments fit.
///
/// `Nil` takes no arguments, a symbol takes all of them, a pair takes a pair
/// slot by slot. Every failure is a `Bind` failure that holds the pattern
/// and has the reason as its cause. Bindings made before a failure stay.
pub open spec fn bind_of(params: Datum, args: Datum, frame: Map<Seq<char>, Datum>) -> (
    Map<Seq<char>, Datum>,
    Result<(), Failure>,
)
    decreases params, 1nat,
{
    match params {
        Datum::Nil => if args is Nil {
            (frame, Ok(()))
        } else {
            (
                frame,
                Err(Failure::of(Fault::Bind(params)).because(Failure::of(Fault::TooManyArgs(0)))),
            )
        },
        Datum::Sym(s) => (frame.insert(s, args), Ok(())),
        Datum::Pair(_, _) => {
            let (bound, r) = bind_list_of(params, args, frame, clipped(positional(params)));
            match r {
                Ok(_) => (bound, Ok(())),
                Err(e) => (bound, Err(Failure::of(Fault::Bind(params)).because(e))),
            }
        },
        _ => (frame, Err(Failure::of(Fault::Bind(params)).because(Failure::cast(params, "a pair"@)))),
    }
}

/// Binding a pattern that is a pair, slot by slot; `expected` is the number
/// that an arity failure reports.
pub open spec fn bind_list_of(
    params: Datum,
    args: Datum,
    frame: Map<Seq<char>, Datum>,
    expected: usize,
) -> (Map<Seq<char>, Datum>, Result<(), Failure>)
    decreases params, 0nat,
{
    match params {
        Datum::Pair(p, p_rest) => match args {
            Datum::Pair(a, a_rest) => {
                let (bound, r) = bind_of(*p, *a, frame);
                match r {
                    Err(e) => (bound, Err(e)),
                    Ok(_) => match *p_rest {
                        Datum::Nil => if *a_rest is Nil {
                            (bound, Ok(()))
                        } else {
                            (bound, Err(Failure::of(Fault::TooManyArgs(expected))))
                        },
                        Datum::Sym(s) => (bound.insert(s, *a_rest), Ok(())),
                        Datum::Pair(_, _) => bind_list_of(*p_rest, *a_rest, bound, expected),
                        _ => (bound, Err(Failure::cast(*p_rest, "a pair"@))),
                    },
                }
            },
            _ => (frame, Err(Failure::of(Fault::TooFewArgs(expected)))),
        },
        _ => (frame, Err(Failure::cast(params, "a pair"@))),
    }
}

/// Counts the positional parameters of a pattern.
fn count_positional(params: &Value) -> (n: usize)
    ensures
        n == clipped(positional(params@)),
{
    let mut rest: &Value = params;
    let mut n: usize = 0;
    loop
        invariant
            clipped((n + positional(rest@)) as nat) == clipped(positional(params@)),
        decreases rest@.size(),
    {
        match rest {
            Value::Pair(p) => {
                if n == usize::MAX {
                    return n;
                }
                n = n + 1;
                rest = p.cdr();
            },
            _ => {
                return n;
            },
        }
    }
}

/// Binds a pattern that is a pair, slot by slot, see [`bind_list_of`].
fn bind_list(params: &Value, args: &Value, frame: &mut Frame) -> (r: Result<(), Error>)
    requires
        params@ is Pair,
    ensures
        (final(frame)@, outcome_unit(r)) == bind_list_of(
            params@,
            args@,
            old(frame)@,
            clipped(positional(params@)),
        ),
    decreases params@.size(), 0nat,
{
    let expected = count_positional(params);
    let ghost goal = bind_list_of(params@, args@, frame@, expected);
    let mut pattern: &Value = params;
    let mut given: &Value = args;
    loop
        invariant
            pattern@ is Pair,
            pattern@.size() <= params@.size(),
            goal == bind_list_of(params@, args@, old(frame)@, clipped(positional(params@))),
            bind_list_of(pattern@, given@, frame@, expected) == goal,
        decreases pattern@.size(),
    {
        let p = match pattern {
            Value::Pair(p) => p,
            _ => {
                return Err(Error::cast(pattern.clone(), "a pair".to_owned()));
            },
        };
        let a = match given {
            Value::Pair(a) => a,
            _ => {
                return Err(Error::too_few_args(expected));
            },
        };
        let ghost before = frame@;
        assert(pattern@ == Datum::cons(p.0@, p.1@));
        assert(given@ == Datum::cons(a.0@, a.1@));
        bind(p.car(), a.car(), frame)?;
        assert(bind_of(p.0@, a.0@, before) == (frame@, Ok::<(), Failure>(())));
        match p.cdr() {
            Value::Nil => {
                if a.cdr().is_nil() {
                    return Ok(());
                } else {
                    return Err(Error::too_many_args(expected));
                }
            },
            Value::Sym(s) => {
                frame.insert((**s).clone(), a.cdr().clone());
                return Ok(());
            },
            Value::Pair(_) => {
                pattern = p.cdr();
                given = a.cdr();
            },
            other => {
                return Err(Error::cast(other.clone(), "a pair".to_owned()));
            },
        }
    }
}

/// Binds the pattern `params` to the argument list `args` in `frame`.
pub fn bind(params: &Value, args: &Value, frame: &mut Frame) -> (r: Result<(), Error>)
    ensures
        (final(frame)@, outcome_unit(r)) == bind_of(params@, args@, old(frame)@),
    decreases params@.size(), 1nat,
{
    match params {
        Value::Nil => {
            if args.is_nil() {
                Ok(())
            } else {
                Err(Error::bind(params.clone()).source(Error::too_many_args(0)))
            }
        },
        Value::Sym(s) => {
            frame.insert((**s).clone(), args.clone());
            Ok(())
        },
        Value::Pair(_) => {
            match bind_list(params, args, frame) {
                Ok(()) => Ok(()),
                Err(err) => Err(Error::bind(params.clone()).source(err)),
            }
        },
        _ => Err(
            Error::bind(params.clone()).source(
                Error::cast(params.clone(), "a pair".to_owned()),
            ),
        ),
    }
}

} // verus!
