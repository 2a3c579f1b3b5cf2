//! The built-in operators: each maps a proper list of arguments to a value
//! or to an error.

use crate::args::{arity, arity_of};
use crate::cast;
use crate::cast::{car_of, cdr_of, int_of};
use crate::error::{outcome, Error, Failure};
use crate::value::{Datum, Primitive, Value};
use vstd::prelude::*;

verus! {

/// The 32-bit two's complement number that `x` wraps to.
pub open spec fn wrap(x: int) -> i32 {
    if x % 0x1_0000_0000 > i32::MAX {
        (x % 0x1_0000_0000 - 0x1_0000_0000) as i32
    } else {
        (x % 0x1_0000_0000) as i32
    }
}

/// The quotient of `x` by `y`, rounded toward zero.
pub open spec fn quotient(x: int, y: int) -> int
    recommends
        y != 0,
{
    if x >= 0 && y > 0 {
        x / y
    } else if x < 0 && y < 0 {
        (-x) / (-y)
    } else if x < 0 {
        -((-x) / y)
    } else {
        -(x / (-y))
    }
}

/// The marker that a test returns when it holds: the symbol `true`.
pub open spec fn truth(b: bool) -> Datum {
    if b {
        Datum::Sym("true"@)
    } else {
        Datum::Nil
    }
}

/// The one argument of a list of one.
pub open spec fn unary(args: Datum) -> Result<Datum, Failure> {
    match arity_of(args, 1, 1) {
        Ok(_) => Ok(args.head()),
        Err(e) => Err(e),
    }
}

/// The two arguments of a list of two.
pub open spec fn binary(args: Datum) -> Result<(Datum, Datum), Failure> {
    match arity_of(args, 2, 2) {
        Ok(_) => Ok((args.head(), args.tail().head())),
        Err(e) => Err(e),
    }
}

/// The two integers of a list of two integers; the first argument is
/// examined first.
pub open spec fn operands(args: Datum) -> Result<(i32, i32), Failure> {
    match binary(args) {
        Err(e) => Err(e),
        Ok((a, b)) => match int_of(a) {
            Err(e) => Err(e),
            Ok(x) => match int_of(b) {
                Err(e) => Err(e),
                Ok(y) => Ok((x, y)),
            },
        },
    }
}

/// The pair of the two arguments.
pub open spec fn cons_of(args: Datum) -> Result<Datum, Failure> {
    match binary(args) {
        Ok((x, y)) => Ok(Datum::cons(x, y)),
        Err(e) => Err(e),
    }
}

/// The first slot of the one argument, which must be a pair.
pub open spec fn car_of_args(args: Datum) -> Result<Datum, Failure> {
    match unary(args) {
        Ok(p) => car_of(p),
        Err(e) => Err(e),
    }
}

/// The second slot of the one argument, which must be a pair.
pub open spec fn cdr_of_args(args: Datum) -> Result<Datum, Failure> {
    match unary(args) {
        Ok(p) => cdr_of(p),
        Err(e) => Err(e),
    }
}

/// The sum, wrapped to 32 bits.
pub open spec fn add_of(args: Datum) -> Result<Datum, Failure> {
    match operands(args) {
        Ok((x, y)) => Ok(Datum::Int(wrap(x + y))),
        Err(e) => Err(e),
    }
}

/// The product, wrapped to 32 bits.
pub open spec fn mul_of(args: Datum) -> Result<Datum, Failure> {
    match operands(args) {
        Ok((x, y)) => Ok(Datum::Int(wrap(x * y))),
        Err(e) => Err(e),
    }
}

/// The difference, wrapped to 32 bits.
pub open spec fn sub_of(args: Datum) -> Result<Datum, Failure> {
    match operands(args) {
        Ok((x, y)) => Ok(Datum::Int(wrap(x - y))),
        Err(e) => Err(e),
    }
}

/// The quotient rounded toward zero, wrapped to 32 bits; a zero divisor is
/// a cast failure on that zero.
pub open spec fn div_of(args: Datum) -> Result<Datum, Failure> {
    match operands(args) {
        Ok((x, y)) => if y == 0 {
            Err(Failure::cast(Datum::Int(0), "a nonzero int"@))
        } else {
            Ok(Datum::Int(wrap(quotient(x as int, y as int))))
        },
        Err(e) => Err(e),
    }
}

/// `true` when the two arguments are structurally equal, else `Nil`.
pub open spec fn eq_of(args: Datum) -> Result<Datum, Failure> {
    match binary(args) {
        Ok((x, y)) => Ok(truth(x.alike(y))),
        Err(e) => Err(e),
    }
}

/// `true` when the first integer is less than the second, else `Nil`.
pub open spec fn lt_of(args: Datum) -> Result<Datum, Failure> {
    match operands(args) {
        Ok((x, y)) => Ok(truth(x < y)),
        Err(e) => Err(e),
    }
}

/// `true` when the first integer is at most the second, else `Nil`.
pub open spec fn lte_of(args: Datum) -> Result<Datum, Failure> {
    match operands(args) {
        Ok((x, y)) => Ok(truth(x <= y)),
        Err(e) => Err(e),
    }
}

/// The elements of the proper list `front` put before `back`.
pub open spec fn append_of(front: Datum, back: Datum) -> Result<Datum, Failure>
    decreases front,
{
    match front {
        Datum::Nil => Ok(back),
        Datum::Pair(x, rest) => match append_of(*rest, back) {
            Ok(joined) => Ok(Datum::cons(*x, joined)),
            Err(e) => Err(e),
        },
        _ => Err(Failure::cast(front, "a pair"@)),
    }
}

/// The elements of the first argument, a proper list, put before the
/// second argument.
pub open spec fn concat_of(args: Datum) -> Result<Datum, Failure> {
    match binary(args) {
        Ok((front, back)) => append_of(front, back),
        Err(e) => Err(e),
    }
}

/// What applying the operator to the argument list gives.
pub open spec fn apply_primitive(p: Primitive, args: Datum) -> Result<Datum, Failure> {
    match p {
        Primitive::Cons => cons_of(args),
        Primitive::Car => car_of_args(args),
        Primitive::Cdr => cdr_of_args(args),
        Primitive::Add => add_of(args),
        Primitive::Mul => mul_of(args),
        Primitive::Sub => sub_of(args),
        Primitive::Div => div_of(args),
        Primitive::Eq => eq_of(args),
        Primitive::Lt => lt_of(args),
        Primitive::Lte => lte_of(args),
        Primitive::Concat => concat_of(args),
    }
}

/// A list of exactly one element is a pair over `Nil`.
proof fn lemma_unary(args: Datum)
    ensures
        unary(args) is Ok ==> args == Datum::list1(args.head()),
{
    reveal_with_fuel(arity_of, 2);
}

/// A list of exactly two elements is two pairs over `Nil`.
proof fn lemma_binary(args: Datum)
    ensures
        binary(args) is Ok ==> args == Datum::list2(args.head(), args.tail().head()),
{
    reveal_with_fuel(arity_of, 3);
}

/// The one argument of a list of one.
fn one(args: &Value) -> (r: Result<&Value, Error>)
    ensures
        match r {
            Ok(x) => unary(args@) == Ok::<Datum, Failure>(x@),
            Err(e) => unary(args@) == Err::<Datum, Failure>(e@),
        },
{
    arity(args, 1)?;
    proof {
        lemma_unary(args@);
    }
    cast::car(args)
}

/// The two arguments of a list of two.
fn two(args: &Value) -> (r: Result<(&Value, &Value), Error>)
    ensures
        match r {
            Ok((x, y)) => binary(args@) == Ok::<(Datum, Datum), Failure>((x@, y@)),
            Err(e) => binary(args@) == Err::<(Datum, Datum), Failure>(e@),
        },
{
    arity(args, 2)?;
    proof {
        lemma_binary(args@);
    }
    Ok((cast::car(args)?, cast::cadr(args)?))
}

/// The two integers of a list of two integers.
fn two_ints(args: &Value) -> (r: Result<(i32, i32), Error>)
    ensures
        match r {
            Ok(xy) => operands(args@) == Ok::<(i32, i32), Failure>(xy),
            Err(e) => operands(args@) == Err::<(i32, i32), Failure>(e@),
        },
{
    let (a, b) = two(args)?;
    let x = *cast::as_int(a)?;
    let y = *cast::as_int(b)?;
    Ok((x, y))
}

/// The marker of a test that holds, or `Nil`.
fn marker(b: bool) -> (r: Value)
    ensures
        r@ == truth(b),
{
    if b {
        Value::symbol("true")
    } else {
        Value::Nil
    }
}

/// `cons`: pairs its two arguments.
pub fn cons(args: &Value) -> (r: Result<Value, Error>)
    ensures
        outcome(r) == cons_of(args@),
{
    let (x, y) = two(args)?;
    Ok(Value::cons(x.clone(), y.clone()))
}

/// `car`: the first slot of its argument.
pub fn car(args: &Value) -> (r: Result<Value, Error>)
    ensures
        outcome(r) == car_of_args(args@),
{
    Ok(cast::car(one(args)?)?.clone())
}

/// `cdr`: the second slot of its argument.
pub fn cdr(args: &Value) -> (r: Result<Value, Error>)
    ensures
        outcome(r) == cdr_of_args(args@),
{
    Ok(cast::cdr(one(args)?)?.clone())
}

/// `+`: the sum of two integers, wrapped to 32 bits.
pub fn add(args: &Value) -> (r: Result<Value, Error>)
    ensures
        outcome(r) == add_of(args@),
{
    let (x, y) = two_ints(args)?;
    Ok(Value::Int(x.wrapping_add(y)))
}

/// `*`: the product of two integers, wrapped to 32 bits.
pub fn mul(args: &Value) -> (r: Result<Value, Error>)
    ensures
        outcome(r) == mul_of(args@),
{
    let (x, y) = two_ints(args)?;
    Ok(Value::Int(x.wrapping_mul(y)))
}

/// `-`: the difference of two integers, wrapped to 32 bits.
pub fn sub(args: &Value) -> (r: Result<Value, Error>)
    ensures
        outcome(r) == sub_of(args@),
{
    let (x, y) = two_ints(args)?;
    Ok(Value::Int(x.wrapping_sub(y)))
}

/// `/`: the quotient of two integers, rounded toward zero.
pub fn div(args: &Value) -> (r: Result<Value, Error>)
    ensures
        outcome(r) == div_of(args@),
{
    let (x, y) = two_ints(args)?;
    if y == 0 {
        return Err(Error::cast(Value::Int(0), "a nonzero int".to_owned()));
    }
    match x.checked_div(y) {
        Some(q) => {
            assert(q == quotient(x as int, y as int)) by (nonlinear_arith)
                requires
                    y != 0,
                    ({
                        let a = x as int;
                        let d = y as int;
                        q as int == if a == 0 {
                            0
                        } else if a > 0 && d > 0 {
                            a / d
                        } else if a < 0 && d < 0 {
                            ((a * -1) / (d * -1))
                        } else if a < 0 {
                            ((a * -1) / d) * -1
                        } else {
                            (a / (d * -1)) * -1
                        }
                    }),
            ;
            Ok(Value::Int(q))
        },
        None => {
            assert(x == i32::MIN && y == -1) by (nonlinear_arith)
                requires
                    y != 0,
                    i32::MIN <= x <= i32::MAX,
                    i32::MIN <= y <= i32::MAX,
                    ({
                        let a = x as int;
                        let d = y as int;
                        let output = if a == 0 {
                            0
                        } else if a > 0 && d > 0 {
                            a / d
                        } else if a < 0 && d < 0 {
                            ((a * -1) / (d * -1))
                        } else if a < 0 {
                            ((a * -1) / d) * -1
                        } else {
                            (a / (d * -1)) * -1
                        };
                        output < i32::MIN || output > i32::MAX
                    }),
            ;
            Ok(Value::Int(i32::MIN))
        },
    }
}

/// `=`: whether two values are structurally equal.
pub fn eq(args: &Value) -> (r: Result<Value, Error>)
    ensures
        outcome(r) == eq_of(args@),
{
    let (x, y) = two(args)?;
    Ok(marker(x.same(y)))
}

/// `<`: whether the first integer is less than the second.
pub fn lt(args: &Value) -> (r: Result<Value, Error>)
    ensures
        outcome(r) == lt_of(args@),
{
    let (x, y) = two_ints(args)?;
    Ok(marker(x < y))
}

/// `<=`: whether the first integer is at most the second.
pub fn lte(args: &Value) -> (r: Result<Value, Error>)
    ensures
        outcome(r) == lte_of(args@),
{
    let (x, y) = two_ints(args)?;
    Ok(marker(x <= y))
}

/// The elements of `front` put before `back`.
fn append(front: &Value, back: &Value) -> (r: Result<Value, Error>)
    ensures
        outcome(r) == append_of(front@, back@),
    decreases front@.size(),
{
    match front {
        Value::Nil => Ok(back.clone()),
        Value::Pair(p) => {
            let joined = append(p.cdr(), back)?;
            Ok(Value::cons(p.car().clone(), joined))
        },
        _ => Err(Error::cast(front.clone(), "a pair".to_owned())),
    }
}

/// `concat`: the elements of a list put before a value.
pub fn concat(args: &Value) -> (r: Result<Value, Error>)
    ensures
        outcome(r) == concat_of(args@),
{
    let (front, back) = two(args)?;
    append(front, back)
}

impl Primitive {
    /// Applies the operator to a list of arguments.
    pub fn apply(&self, args: &Value) -> (r: Result<Value, Error>)
        ensures
            outcome(r) == apply_primitive(*self, args@),
    {
        match self {
            Primitive::Cons => self::cons(args),
            Primitive::Car => self::car(args),
            Primitive::Cdr => self::cdr(args),
            Primitive::Add => self::add(args),
            Primitive::Mul => self::mul(args),
            Primitive::Sub => self::sub(args),
            Primitive::Div => self::div(args),
            Primitive::Eq => self::eq(args),
            Primitive::Lt => self::lt(args),
            Primitive::Lte => self::lte(args),
            Primitive::Concat => self::concat(args),
        }
    }
}

} // verus!
