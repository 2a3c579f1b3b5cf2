//! Partial views of a value: each function hands out the expected shape or
//! fails with a `Cast` error that holds the value and names the shape.

use crate::error::{outcome_ref, Error, Failure};
use crate::value::{Datum, Fn, Pair, Value};
use vstd::prelude::*;

verus! {

/// The first slot of a pair, or the failure to see a pair.
pub open spec fn car_of(d: Datum) -> Result<Datum, Failure> {
    match d {
        Datum::Pair(x, _) => Ok(*x),
        _ => Err(Failure::cast(d, "a pair"@)),
    }
}

/// The second slot of a pair, or the failure to see a pair.
pub open spec fn cdr_of(d: Datum) -> Result<Datum, Failure> {
    match d {
        Datum::Pair(_, y) => Ok(*y),
        _ => Err(Failure::cast(d, "a pair"@)),
    }
}

/// The first slot of the second slot.
pub open spec fn cadr_of(d: Datum) -> Result<Datum, Failure> {
    match cdr_of(d) {
        Ok(t) => car_of(t),
        Err(e) => Err(e),
    }
}

/// The second slot of the second slot.
pub open spec fn cddr_of(d: Datum) -> Result<Datum, Failure> {
    match cdr_of(d) {
        Ok(t) => cdr_of(t),
        Err(e) => Err(e),
    }
}

/// The number of an integer, or the failure to see an integer.
pub open spec fn int_of(d: Datum) -> Result<i32, Failure> {
    match d {
        Datum::Int(n) => Ok(n),
        _ => Err(Failure::cast(d, "an int"@)),
    }
}

/// The name of a symbol, or the failure to see a symbol.
pub open spec fn sym_of(d: Datum) -> Result<Seq<char>, Failure> {
    match d {
        Datum::Sym(s) => Ok(s),
        _ => Err(Failure::cast(d, "a sym"@)),
    }
}

/// The function itself, or the failure to see a function.
pub open spec fn function_of(d: Datum) -> Result<Datum, Failure> {
    if d.is_function() {
        Ok(d)
    } else {
        Err(Failure::cast(d, "a fn"@))
    }
}

/// The number of an integer.
pub fn as_int(v: &Value) -> (r: Result<&i32, Error>)
    ensures
        match r {
            Ok(n) => int_of(v@) == Ok::<i32, Failure>(*n),
            Err(e) => int_of(v@) == Err::<i32, Failure>(e@),
        },
{
    match v {
        Value::Int(n) => Ok(n),
        _ => Err(Error::cast(v.clone(), "an int".to_owned())),
    }
}

/// The name of a symbol.
pub fn sym(v: &Value) -> (r: Result<&str, Error>)
    ensures
        match r {
            Ok(s) => sym_of(v@) == Ok::<Seq<char>, Failure>(s@),
            Err(e) => sym_of(v@) == Err::<Seq<char>, Failure>(e@),
        },
{
    match v {
        Value::Sym(s) => Ok(s.as_str()),
        _ => Err(Error::cast(v.clone(), "a sym".to_owned())),
    }
}

/// The cell of a pair.
pub fn pair(v: &Value) -> (r: Result<&Pair, Error>)
    ensures
        match r {
            Ok(p) => v@ == Datum::cons(p.0@, p.1@),
            Err(e) => !(v@ is Pair) && e@ == Failure::cast(v@, "a pair"@),
        },
{
    match v {
        Value::Pair(p) => Ok(&**p),
        _ => Err(Error::cast(v.clone(), "a pair".to_owned())),
    }
}

/// The function held by a function value, without its macro flag.
pub fn function(v: &Value) -> (r: Result<&Fn, Error>)
    ensures
        match r {
            Ok(f) => v@.is_function() && f@.as_macro() == v@.as_macro(),
            Err(e) => function_of(v@) == Err::<Datum, Failure>(e@),
        },
{
    match v {
        Value::Fn(f, _) => Ok(f),
        _ => Err(Error::cast(v.clone(), "a fn".to_owned())),
    }
}

/// The first slot of a pair.
pub fn car(v: &Value) -> (r: Result<&Value, Error>)
    ensures
        outcome_ref(r) == car_of(v@),
{
    Ok(pair(v)?.car())
}

/// The second slot of a pair.
pub fn cdr(v: &Value) -> (r: Result<&Value, Error>)
    ensures
        outcome_ref(r) == cdr_of(v@),
{
    Ok(pair(v)?.cdr())
}

/// The first slot of the second slot: the second element of a list.
pub fn cadr(v: &Value) -> (r: Result<&Value, Error>)
    ensures
        outcome_ref(r) == cadr_of(v@),
{
    car(cdr(v)?)
}

/// The second slot of the second slot: a list without its first two
/// elements.
pub fn cddr(v: &Value) -> (r: Result<&Value, Error>)
    ensures
        outcome_ref(r) == cddr_of(v@),
{
    cdr(cdr(v)?)
}

} // verus!
