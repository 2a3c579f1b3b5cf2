//! The universe of runtime data: nil, integers, symbols, pairs and functions.
//!
//! Every executable value has a mathematical view, a [`Datum`], and all
//! contracts of the crate are stated over that view.

use crate::env::Env;
use std::rc::Rc;
use vstd::prelude::*;

verus! {

/// The built-in operators.
#[derive(Debug, Clone, Copy, PartialEq, Eq, Structural)]
pub enum Primitive {
    Cons,
    Car,
    Cdr,
    Add,
    Mul,
    Sub,
    Div,
    Eq,
    Lt,
    Lte,
    Concat,
}

/// An immutable two-slot cell.
#[derive(Debug)]
pub struct Pair(pub Value, pub Value);

/// A function written in the language: a parameter pattern, a body (a list of
/// forms) and the environment that was live where the function was made.
#[derive(Debug)]
pub struct Closure {
    pub params: Value,
    pub body: Value,
    pub env: Env,
}

/// What a function value runs when it is applied.
#[derive(Debug)]
pub enum Fn {
    Closure(Rc<Closure>),
    Primitive(Primitive),
}

/// A runtime value. The flag of `Fn` marks a macro.
#[derive(Debug)]
pub enum Value {
    Nil,
    Int(i32),
    Sym(Rc<String>),
    Pair(Rc<Pair>),
    Fn(Fn, bool),
}

/// The mathematical view of a [`Value`]: symbols are character sequences,
/// sharing is forgotten, and a closure names its environment by the index of
/// a scope in the store.
pub enum Datum {
    Nil,
    Int(i32),
    Sym(Seq<char>),
    Pair(Box<Datum>, Box<Datum>),
    Primitive(Primitive, bool),
    Closure { params: Box<Datum>, body: Box<Datum>, env: usize, is_macro: bool },
}

impl Datum {
    /// The pair of `x` and `y`.
    pub open spec fn cons(x: Datum, y: Datum) -> Datum {
        Datum::Pair(Box::new(x), Box::new(y))
    }

    /// The first slot of a pair; arbitrary on anything else.
    pub open spec fn head(self) -> Datum {
        match self {
            Datum::Pair(x, _) => *x,
            _ => arbitrary(),
        }
    }

    /// The second slot of a pair; arbitrary on anything else.
    pub open spec fn tail(self) -> Datum {
        match self {
            Datum::Pair(_, y) => *y,
            _ => arbitrary(),
        }
    }

    /// The proper list of one element.
    pub open spec fn list1(a: Datum) -> Datum {
        Datum::cons(a, Datum::Nil)
    }

    /// The proper list of two elements.
    pub open spec fn list2(a: Datum, b: Datum) -> Datum {
        Datum::cons(a, Datum::list1(b))
    }

    /// The proper list of three elements.
    pub open spec fn list3(a: Datum, b: Datum, c: Datum) -> Datum {
        Datum::cons(a, Datum::list2(b, c))
    }

    /// Any value but `Nil` counts as true.
    pub open spec fn truthy(self) -> bool {
        !(self is Nil)
    }

    /// Holds of functions, whether primitive or closure.
    pub open spec fn is_function(self) -> bool {
        self is Primitive || self is Closure
    }

    /// Holds of functions whose macro flag is set.
    pub open spec fn is_macro(self) -> bool {
        match self {
            Datum::Primitive(_, m) => m,
            Datum::Closure { is_macro, .. } => is_macro,
            _ => false,
        }
    }

    /// The same function with its macro flag set; anything else unchanged.
    pub open spec fn as_macro(self) -> Datum {
        match self {
            Datum::Primitive(p, _) => Datum::Primitive(p, true),
            Datum::Closure { params, body, env, .. } => Datum::Closure {
                params,
                body,
                env,
                is_macro: true,
            },
            other => other,
        }
    }

    /// The number of nodes of the value, the measure of structural recursion.
    pub open spec fn size(self) -> nat
        decreases self,
    {
        match self {
            Datum::Pair(x, y) => 1 + x.size() + y.size(),
            Datum::Closure { params, body, .. } => 1 + params.size() + body.size(),
            _ => 1,
        }
    }

    /// Holds when no function occurs anywhere in the value.
    pub open spec fn is_data(self) -> bool
        decreases self,
    {
        match self {
            Datum::Nil => true,
            Datum::Int(_) => true,
            Datum::Sym(_) => true,
            Datum::Pair(x, y) => x.is_data() && y.is_data(),
            Datum::Primitive(_, _) => false,
            Datum::Closure { .. } => false,
        }
    }

    /// Structural equality as the language sees it: atoms by value, pairs
    /// slot by slot, primitives by operator and flag. A closure equals
    /// nothing, not even itself.
    pub open spec fn alike(self, other: Datum) -> bool
        decreases self,
    {
        match (self, other) {
            (Datum::Nil, Datum::Nil) => true,
            (Datum::Int(a), Datum::Int(b)) => a == b,
            (Datum::Sym(a), Datum::Sym(b)) => a == b,
            (Datum::Pair(a, b), Datum::Pair(c, d)) => a.alike(*c) && b.alike(*d),
            (Datum::Primitive(p, m), Datum::Primitive(q, n)) => p == q && m == n,
            _ => false,
        }
    }
}

impl View for Fn {
    type V = Datum;

    /// The function as a datum whose macro flag is clear.
    open spec fn view(&self) -> Datum {
        Value::Fn(*self, false)@
    }
}

impl View for Value {
    type V = Datum;

    open spec fn view(&self) -> Datum
        decreases self,
    {
        match self {
            Value::Nil => Datum::Nil,
            Value::Int(n) => Datum::Int(*n),
            Value::Sym(s) => Datum::Sym(s@),
            Value::Pair(p) => Datum::cons(p.0@, p.1@),
            Value::Fn(Fn::Primitive(p), m) => Datum::Primitive(*p, *m),
            Value::Fn(Fn::Closure(c), m) => Datum::Closure {
                params: Box::new(c.params@),
                body: Box::new(c.body@),
                env: c.env.id,
                is_macro: *m,
            },
        }
    }
}

/// `Rc::clone`: the new handle points at the same allocation, so it denotes
/// the same value as the one it was made from.
#[verifier::external_body]
pub(crate) fn share<T>(rc: &Rc<T>) -> (r: Rc<T>)
    ensures
        r == *rc,
{
    Rc::clone(rc)
}

impl Clone for Fn {
    /// A copy that shares its closure with the function it was made from.
    fn clone(&self) -> (r: Self)
        ensures
            r == *self,
    {
        match self {
            Fn::Closure(c) => Fn::Closure(share(c)),
            Fn::Primitive(p) => Fn::Primitive(*p),
        }
    }
}

impl Clone for Value {
    /// A copy that shares its pairs, names and closures with the value it
    /// was made from.
    fn clone(&self) -> (r: Self)
        ensures
            r == *self,
    {
        match self {
            Value::Nil => Value::Nil,
            Value::Int(n) => Value::Int(*n),
            Value::Sym(s) => Value::Sym(share(s)),
            Value::Pair(p) => Value::Pair(share(p)),
            Value::Fn(f, m) => Value::Fn(f.clone(), *m),
        }
    }
}

impl Value {
    /// The pair of `x` and `y`.
    pub fn cons(x: Value, y: Value) -> (r: Value)
        ensures
            r@ == Datum::cons(x@, y@),
    {
        Value::Pair(Rc::new(Pair(x, y)))
    }

    /// The symbol named `s`.
    pub fn sym(s: String) -> (r: Value)
        ensures
            r@ == Datum::Sym(s@),
    {
        Value::Sym(Rc::new(s))
    }

    /// The built-in operator `p` as a function value that is no macro.
    pub fn primitive(p: Primitive) -> (r: Value)
        ensures
            r@ == Datum::Primitive(p, false),
    {
        Value::Fn(Fn::Primitive(p), false)
    }

    /// The closure of a pattern and a body made in the scope `env`, as a
    /// function value that is no macro.
    pub fn closure(params: Value, body: Value, env: Env) -> (r: Value)
        ensures
            r@ == (Datum::Closure {
                params: Box::new(params@),
                body: Box::new(body@),
                env: env.id,
                is_macro: false,
            }),
    {
        Value::Fn(Fn::Closure(Rc::new(Closure { params, body, env })), false)
    }

    /// The function `f` as a function value that is a macro.
    pub fn as_macro(f: Fn) -> (r: Value)
        ensures
            r@ == f@.as_macro(),
            r@.is_macro(),
    {
        Value::Fn(f, true)
    }

    /// Whether the value is `Nil`.
    pub fn is_nil(&self) -> (r: bool)
        ensures
            r == (self@ is Nil),
    {
        matches!(self, Value::Nil)
    }

    /// Whether the value is a function marked as a macro.
    pub fn is_macro(&self) -> (r: bool)
        ensures
            r == self@.is_macro(),
    {
        matches!(self, Value::Fn(_, true))
    }

    /// The pair behind the value, if it is one.
    pub fn as_pair(&self) -> (r: Option<&Pair>)
        ensures
            match r {
                Some(p) => self@ == Datum::cons(p.0@, p.1@),
                None => !(self@ is Pair),
            },
    {
        match self {
            Value::Pair(p) => Some(&**p),
            _ => None,
        }
    }

    /// The name of the value, if it is a symbol.
    pub fn as_symbol(&self) -> (r: Option<&str>)
        ensures
            match r {
                Some(name) => self@ == Datum::Sym(name@),
                None => !(self@ is Sym),
            },
    {
        match self {
            Value::Sym(s) => Some(s.as_str()),
            _ => None,
        }
    }

    /// The symbol spelled by `name`.
    pub fn symbol(name: &str) -> (r: Value)
        ensures
            r@ == Datum::Sym(name@),
    {
        Value::sym(name.to_owned())
    }

    /// Structural equality, see [`Datum::alike`].
    pub fn same(&self, other: &Value) -> (r: bool)
        ensures
            r == self@.alike(other@),
        decreases self,
    {
        match (self, other) {
            (Value::Nil, Value::Nil) => true,
            (Value::Int(a), Value::Int(b)) => *a == *b,
            (Value::Sym(a), Value::Sym(b)) => **a == **b,
            (Value::Pair(a), Value::Pair(b)) => a.0.same(&b.0) && a.1.same(&b.1),
            (Value::Fn(Fn::Primitive(p), m), Value::Fn(Fn::Primitive(q), n)) => *p == *q && *m
                == *n,
            _ => false,
        }
    }
}

impl Pair {
    /// The first slot.
    pub fn car(&self) -> (r: &Value)
        ensures
            *r == self.0,
    {
        &self.0
    }

    /// The second slot.
    pub fn cdr(&self) -> (r: &Value)
        ensures
            *r == self.1,
    {
        &self.1
    }
}

/// On values that hold no function, structural equality is equality: `=`
/// tells two such values apart exactly when they differ.
pub proof fn law_alike_is_equality(a: Datum, b: Datum)
    requires
        a.is_data(),
    ensures
        a.alike(b) <==> a == b,
    decreases a,
{
    match (a, b) {
        (Datum::Pair(a1, a2), Datum::Pair(b1, b2)) => {
            law_alike_is_equality(*a1, *b1);
            law_alike_is_equality(*a2, *b2);
        },
        _ => {},
    }
}

} // verus!
