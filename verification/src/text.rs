//! The printed form of values.

use crate::value::{Datum, Fn, Pair, Primitive, Value};
use vstd::prelude::*;
use vstd::string::StringExecFns;

verus! {

/// `String::push` appends the character to the end of the string.
pub assume_specification[ String::push ](s: &mut String, ch: char)
    ensures
        final(s)@ == old(s)@.push(ch),
;

/// The character of a decimal digit.
pub open spec fn digit_char(d: nat) -> char {
    (('0' as nat) + d) as char
}

/// The decimal digits of a natural number, most significant first, without
/// leading zeros.
pub open spec fn digits(n: nat) -> Seq<char>
    decreases n,
{
    if n < 10 {
        seq![digit_char(n)]
    } else {
        digits(n / 10).push(digit_char(n % 10))
    }
}

/// The decimal form of an integer: a minus sign for negative numbers, then
/// the digits of its magnitude.
pub open spec fn decimal(i: int) -> Seq<char> {
    if i < 0 {
        seq!['-'] + digits((-i) as nat)
    } else {
        digits(i as nat)
    }
}

/// Appends the decimal digits of `n` to `out`.
pub fn push_natural(n: u64, out: &mut String)
    ensures
        final(out)@ == old(out)@ + digits(n as nat),
    decreases n,
{
    if n >= 10 {
        push_natural(n / 10, out);
    }
    let d: u8 = (n % 10) as u8;
    out.push((('0' as u8) + d) as char);
}

/// Appends the decimal form of `i` to `out`.
pub fn push_decimal(i: i64, out: &mut String)
    ensures
        final(out)@ == old(out)@ + decimal(i as int),
{
    if i < 0 {
        out.push('-');
        let magnitude: u64 = if i == i64::MIN {
            0x8000_0000_0000_0000u64
        } else {
            (-i) as u64
        };
        push_natural(magnitude, out);
    } else {
        push_natural(i as u64, out);
    }
}

impl Primitive {
    /// The name under which the operator is printed.
    pub open spec fn name(self) -> Seq<char> {
        match self {
            Primitive::Cons => "Cons"@,
            Primitive::Car => "Car"@,
            Primitive::Cdr => "Cdr"@,
            Primitive::Add => "Add"@,
            Primitive::Mul => "Mul"@,
            Primitive::Sub => "Sub"@,
            Primitive::Div => "Div"@,
            Primitive::Eq => "Eq"@,
            Primitive::Lt => "Lt"@,
            Primitive::Lte => "Lte"@,
            Primitive::Concat => "Concat"@,
        }
    }

    /// The name under which the operator is printed.
    pub fn label(&self) -> (r: &'static str)
        ensures
            r@ == self.name(),
    {
        match self {
            Primitive::Cons => "Cons",
            Primitive::Car => "Car",
            Primitive::Cdr => "Cdr",
            Primitive::Add => "Add",
            Primitive::Mul => "Mul",
            Primitive::Sub => "Sub",
            Primitive::Div => "Div",
            Primitive::Eq => "Eq",
            Primitive::Lt => "Lt",
            Primitive::Lte => "Lte",
            Primitive::Concat => "Concat",
        }
    }
}

/// The printed form of a value.
///
/// `nil` for the empty list, decimal digits for an integer, the name for a
/// symbol. A pair opens a parenthesis, prints its first slot and goes on
/// with [`printed_rest`]. Functions print as `<closure>` or
/// `<primitive: NAME>`.
pub open spec fn printed(d: Datum) -> Seq<char>
    decreases d, 0nat,
{
    match d {
        Datum::Nil => seq!['n', 'i', 'l'],
        Datum::Int(n) => decimal(n as int),
        Datum::Sym(s) => s,
        Datum::Pair(x, y) => seq!['('] + printed(*x) + printed_rest(*y),
        Datum::Primitive(p, _) => "<primitive: "@ + p.name() + seq!['>'],
        Datum::Closure { .. } => "<closure>"@,
    }
}

/// What follows an element inside parentheses: the closing parenthesis
/// after the last element, a space and the next element while the tail is a
/// pair, and ` . tail` before the closing parenthesis when the tail is an
/// atom other than `Nil`.
pub open spec fn printed_rest(t: Datum) -> Seq<char>
    decreases t, 1nat,
{
    match t {
        Datum::Nil => seq![')'],
        Datum::Pair(x, y) => seq![' '] + printed(*x) + printed_rest(*y),
        other => seq![' ', '.', ' '] + printed(other) + seq![')'],
    }
}

impl Value {
    /// Appends the printed form of the value to `out`.
    pub fn write(&self, out: &mut String)
        ensures
            final(out)@ == old(out)@ + printed(self@),
        decreases self@.size(),
    {
        let ghost start = out@;
        match self {
            Value::Nil => {
                out.push('n');
                out.push('i');
                out.push('l');
                assert(out@ == start + printed(self@));
            },
            Value::Int(n) => {
                push_decimal(*n as i64, out);
            },
            Value::Sym(s) => {
                out.append(s.as_str());
            },
            Value::Fn(Fn::Primitive(p), _) => {
                out.append("<primitive: ");
                out.append(p.label());
                out.push('>');
                assert(out@ == start + printed(self@));
            },
            Value::Fn(Fn::Closure(_), _) => {
                out.append("<closure>");
            },
            Value::Pair(p) => {
                out.push('(');
                let mut cur: &Pair = &**p;
                loop
                    invariant_except_break
                        1 + cur.0@.size() + cur.1@.size() <= self@.size(),
                        start + printed(self@) == out@ + printed(cur.0@) + printed_rest(cur.1@),
                    ensures
                        out@ == start + printed(self@),
                    decreases cur.1@.size(),
                {
                    let ghost before = out@;
                    cur.0.write(out);
                    match &cur.1 {
                        Value::Nil => {
                            out.push(')');
                            assert(out@ == before + printed(cur.0@) + printed_rest(cur.1@));
                            break ;
                        },
                        Value::Pair(q) => {
                            out.push(' ');
                            assert(before + printed(cur.0@) + printed_rest(cur.1@) == out@
                                + printed(q.0@) + printed_rest(q.1@));
                            cur = &**q;
                        },
                        other => {
                            out.push(' ');
                            out.push('.');
                            out.push(' ');
                            other.write(out);
                            out.push(')');
                            assert(out@ == before + printed(cur.0@) + printed_rest(cur.1@));
                            break ;
                        },
                    }
                }
            },
        }
    }

    /// The printed form of the value.
    pub fn to_text(&self) -> (r: String)
        ensures
            r@ == printed(self@),
    {
        let mut out = String::new();
        self.write(&mut out);
        out
    }
}

} // verus!
