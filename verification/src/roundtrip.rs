//! Reading back what was printed.
//!
//! The printed form of a value reads back as that value, provided the value
//! can be written down at all: it holds no function, its symbols are names
//! that the tokenizer takes for symbols, and `Nil` occurs only as the end
//! of a list (on its own it prints as `nil`, which reads as a symbol).

use crate::reader::{lemma_parse_bounds, parse_form, parse_list, Parse};
use crate::text::{decimal, digit_char, digits, printed, printed_rest};
use crate::token::{
    blank, digit, digit_value, digits_value, lemma_run_end_bounds, lemma_scan_bounds,
    lemma_skip_filler_bounds, parse_decimal, run_end, scan, scan_at, skip_blanks, skip_filler,
    symbolic, Lexeme, Scan,
};
use crate::value::Datum;
use vstd::prelude::*;

verus! {

/// A name that the tokenizer reads as one symbol: it is not empty, holds
/// symbolic characters only, and begins like no other token: not with
/// whitespace, a dot, a tilde or a digit, nor with a sign before a digit.
pub open spec fn readable_name(name: Seq<char>) -> bool {
    &&& name.len() > 0
    &&& forall|k: int| 0 <= k < name.len() ==> symbolic(#[trigger] name[k])
    &&& !blank(name[0])
    &&& name[0] != '.'
    &&& name[0] != '~'
    &&& !digit(name[0])
    &&& (name[0] == '-' || name[0] == '+') && name.len() > 1 ==> !digit(name[1])
}

/// A value that can be written down: an integer, a readable symbol, or a
/// pair of a readable value and a readable tail.
pub open spec fn readable(v: Datum) -> bool
    decreases v, 0nat,
{
    match v {
        Datum::Int(_) => true,
        Datum::Sym(name) => readable_name(name),
        Datum::Pair(x, y) => readable(*x) && readable_tail(*y),
        _ => false,
    }
}

/// A tail that can be written down: the end of the list, more elements, or
/// a readable atom after a dot.
pub open spec fn readable_tail(t: Datum) -> bool
    decreases t, 1nat,
{
    match t {
        Datum::Nil => true,
        Datum::Pair(x, y) => readable(*x) && readable_tail(*y),
        other => readable(other),
    }
}

/// The text `s` holds `t` from position `i` on.
pub open spec fn holds(s: Seq<char>, i: int, t: Seq<char>) -> bool {
    &&& 0 <= i
    &&& i + t.len() <= s.len()
    &&& forall|k: int| 0 <= k < t.len() ==> s[i + k] == #[trigger] t[k]
}

/// A token that ends before position `j` cannot go on there: the text ends
/// or holds a character that is not symbolic.
pub open spec fn boundary(s: Seq<char>, j: int) -> bool {
    j == s.len() || (0 <= j < s.len() && !symbolic(s[j]))
}

proof fn lemma_holds_split(s: Seq<char>, i: int, a: Seq<char>, b: Seq<char>)
    requires
        holds(s, i, a + b),
    ensures
        holds(s, i, a),
        holds(s, i + a.len(), b),
{
    assert forall|k: int| 0 <= k < a.len() implies s[i + k] == #[trigger] a[k] by {
        assert((a + b)[k] == a[k]);
    }
    assert forall|k: int| 0 <= k < b.len() implies s[i + a.len() + k] == #[trigger] b[k] by {
        assert((a + b)[a.len() + k] == b[k]);
    }
}

proof fn lemma_holds_text(s: Seq<char>, i: int, t: Seq<char>)
    requires
        holds(s, i, t),
    ensures
        s.subrange(i, i + t.len()) == t,
{
    assert(s.subrange(i, i + t.len()) =~= t);
}

/// A run of symbolic characters that stops at a boundary is taken whole.
proof fn lemma_run_end_exact(s: Seq<char>, from: int, to: int)
    requires
        0 <= from <= to <= s.len(),
        forall|k: int| from <= k < to ==> symbolic(#[trigger] s[k]),
        boundary(s, to),
    ensures
        run_end(s, from) == to,
    decreases to - from,
{
    if from < to {
        lemma_run_end_exact(s, from + 1, to);
    }
}

/// The tokenizer stays where a token begins.
proof fn lemma_no_filler(s: Seq<char>, i: int)
    requires
        0 <= i < s.len(),
        !blank(s[i]),
        s[i] != ';',
    ensures
        skip_filler(s, i) == i,
        scan(s, i) == scan_at(s, i),
{
}

/// The tokenizer passes over one character of whitespace.
proof fn lemma_skip_one_blank(s: Seq<char>, i: int)
    requires
        0 <= i < s.len(),
        blank(s[i]),
    ensures
        scan(s, i) == scan(s, i + 1),
        parse_form(s, i) == parse_form(s, i + 1),
        parse_list(s, i) == parse_list(s, i + 1),
{
    assert(skip_blanks(s, i) == skip_blanks(s, i + 1));
    assert(skip_filler(s, i) == skip_filler(s, i + 1));
    lemma_scan_bounds(s, i + 1);
    lemma_parse_bounds(s, i + 1);
    lemma_parse_bounds(s, i);
}

proof fn lemma_digit_char(d: nat)
    requires
        d < 10,
    ensures
        digit(digit_char(d)),
        digit_value(digit_char(d)) == d,
        symbolic(digit_char(d)),
        !blank(digit_char(d)),
        digit_char(d) != ';',
        digit_char(d) != '-',
        digit_char(d) != '+',
{
}

/// The digits of a number are digits, and they spell the number.
proof fn lemma_digits(n: nat)
    ensures
        digits(n).len() > 0,
        forall|k: int| 0 <= k < digits(n).len() ==> digit(#[trigger] digits(n)[k]),
        digits_value(digits(n)) == Some(n),
    decreases n,
{
    if n < 10 {
        lemma_digit_char(n);
    } else {
        lemma_digits(n / 10);
        lemma_digit_char(n % 10);
        let t = digits(n);
        assert(t.drop_last() == digits(n / 10));
        assert(t.last() == digit_char(n % 10));
    }
}

/// The decimal form of a 32-bit integer spells that integer, begins with a
/// digit or with a minus sign before a digit, and holds symbolic characters
/// only.
proof fn lemma_decimal(n: i32)
    ensures
        parse_decimal(decimal(n as int)) == Some(n),
        decimal(n as int).len() > 0,
        forall|k: int| 0 <= k < decimal(n as int).len() ==> symbolic(#[trigger] decimal(n as int)[k]),
        digit(decimal(n as int)[0]) || (decimal(n as int)[0] == '-' && decimal(n as int).len() > 1
            && digit(decimal(n as int)[1])),
{
    let t = decimal(n as int);
    if n < 0 {
        let m = (-(n as int)) as nat;
        lemma_digits(m);
        assert(t.drop_first() == digits(m));
        assert(t[0] == '-');
        assert forall|k: int| 0 <= k < t.len() implies symbolic(#[trigger] t[k]) by {
            if k > 0 {
                assert(t[k] == digits(m)[k - 1]);
                assert(digit(digits(m)[k - 1]));
            }
        }
        assert(t[1] == digits(m)[0]);
    } else {
        lemma_digits(n as nat);
        assert forall|k: int| 0 <= k < t.len() implies symbolic(#[trigger] t[k]) by {
            assert(digit(digits(n as nat)[k]));
        }
        assert(digit(t[0]));
    }
}

/// The printed form of a readable value begins like a form: not with
/// whitespace, a comment, a closing parenthesis or a dot.
proof fn lemma_printed_begins(v: Datum)
    requires
        readable(v),
    ensures
        printed(v).len() > 0,
        !blank(printed(v)[0]),
        printed(v)[0] != ';',
        printed(v)[0] != ')',
        printed(v)[0] != '.',
{
    match v {
        Datum::Int(n) => {
            lemma_decimal(n);
        },
        Datum::Sym(name) => {
            assert(symbolic(name[0]));
        },
        Datum::Pair(x, y) => {
            assert(printed(v)[0] == '(');
        },
        _ => {},
    }
}

/// A readable atom reads back where it stands before a boundary.
proof fn lemma_atom_reads_back(v: Datum, s: Seq<char>, i: int)
    requires
        readable(v),
        v is Int || v is Sym,
        holds(s, i, printed(v)),
        boundary(s, i + printed(v).len()),
    ensures
        parse_form(s, i) == (Parse::Form { value: v, next: i + printed(v).len() }),
        scan(s, i) matches Scan::Token { lexeme, .. } && !(lexeme is RightParen) && !(lexeme
            is Dot),
{
    let p = printed(v);
    let end = i + p.len();
    lemma_printed_begins(v);
    assert(s[i] == p[0]);
    lemma_no_filler(s, i);
    lemma_holds_text(s, i, p);
    match v {
        Datum::Int(n) => {
            lemma_decimal(n);
            assert forall|k: int| i + 1 <= k < end implies symbolic(#[trigger] s[k]) by {
                assert(s[i + (k - i)] == p[k - i]);
            }
            lemma_run_end_exact(s, i + 1, end);
            if p.len() > 1 {
                assert(s[i + 1] == p[1]);
            }
        },
        Datum::Sym(name) => {
            assert(symbolic(name[0]));
            assert forall|k: int| i + 1 <= k < end implies symbolic(#[trigger] s[k]) by {
                assert(s[i + (k - i)] == p[k - i]);
            }
            lemma_run_end_exact(s, i + 1, end);
            if p.len() > 1 {
                assert(s[i + 1] == p[1]);
            }
        },
        _ => {},
    }
}

/// A readable value reads back where it stands; an atom needs a boundary
/// after it.
pub proof fn lemma_form_reads_back(v: Datum, s: Seq<char>, i: int)
    requires
        readable(v),
        holds(s, i, printed(v)),
        v is Pair || boundary(s, i + printed(v).len()),
    ensures
        parse_form(s, i) == (Parse::Form { value: v, next: i + printed(v).len() }),
        scan(s, i) matches Scan::Token { lexeme, .. } && !(lexeme is RightParen) && !(lexeme
            is Dot),
    decreases v.size(), 1nat,
{
    match v {
        Datum::Pair(x, y) => {
            let p = printed(v);
            assert(p == seq!['('] + (printed(*x) + printed_rest(*y)));
            lemma_holds_split(s, i, seq!['('], printed(*x) + printed_rest(*y));
            assert(s[i] == seq!['('][0]);
            lemma_no_filler(s, i);
            lemma_elements_read_back(*x, *y, s, i + 1);
        },
        _ => {
            lemma_atom_reads_back(v, s, i);
        },
    }
}

/// An element and what follows it inside parentheses read back as the list
/// of both.
proof fn lemma_elements_read_back(x: Datum, y: Datum, s: Seq<char>, i: int)
    requires
        readable(x),
        readable_tail(y),
        holds(s, i, printed(x) + printed_rest(y)),
    ensures
        parse_list(s, i) == (Parse::Form {
            value: Datum::cons(x, y),
            next: i + printed(x).len() + printed_rest(y).len(),
        }),
    decreases 1 + x.size() + y.size(), 0nat,
{
    let px = printed(x);
    let pr = printed_rest(y);
    lemma_holds_split(s, i, px, pr);
    lemma_rest_begins(y);
    assert(s[i + px.len() + 0] == pr[0]);
    lemma_form_reads_back(x, s, i);
    lemma_rest_reads_back(y, s, i + px.len());
    lemma_parse_bounds(s, i);
}

/// What follows an element begins with a space or a closing parenthesis,
/// so the element before it ends at a boundary.
proof fn lemma_rest_begins(t: Datum)
    ensures
        printed_rest(t).len() > 0,
        printed_rest(t)[0] == ' ' || printed_rest(t)[0] == ')',
        !symbolic(' '),
        !symbolic(')'),
        blank(' '),
{
}

/// What follows an element inside parentheses reads back as the tail.
proof fn lemma_rest_reads_back(t: Datum, s: Seq<char>, i: int)
    requires
        readable_tail(t),
        holds(s, i, printed_rest(t)),
    ensures
        parse_list(s, i) == (Parse::Form { value: t, next: i + printed_rest(t).len() }),
    decreases t.size(), 2nat,
{
    lemma_rest_begins(t);
    match t {
        Datum::Nil => {
            assert(s[i + 0] == printed_rest(t)[0]);
            lemma_no_filler(s, i);
        },
        Datum::Pair(x, y) => {
            let body = printed(*x) + printed_rest(*y);
            assert(printed_rest(t) == seq![' '] + body);
            lemma_holds_split(s, i, seq![' '], body);
            assert(s[i] == seq![' '][0]);
            lemma_skip_one_blank(s, i);
            lemma_elements_read_back(*x, *y, s, i + 1);
        },
        other => {
            assert(readable(other));
            let p = printed(other);
            assert(printed_rest(t) == seq![' ', '.', ' '] + (p + seq![')']));
            lemma_holds_split(s, i, seq![' ', '.', ' '], p + seq![')']);
            lemma_holds_split(s, i + 3, p, seq![')']);
            assert(s[i + 0] == seq![' ', '.', ' '][0]);
            assert(s[i + 1] == seq![' ', '.', ' '][1]);
            assert(s[i + 2] == seq![' ', '.', ' '][2]);
            let end = i + 3 + p.len();
            assert(s[end + 0] == seq![')'][0]);
            // the dot
            lemma_skip_one_blank(s, i);
            lemma_no_filler(s, i + 1);
            assert(scan(s, i) == (Scan::Token { lexeme: Lexeme::Dot, start: i + 1, next: i + 2 }));
            // the atom after the dot
            lemma_skip_one_blank(s, i + 2);
            lemma_atom_reads_back(other, s, i + 3);
            // the closing parenthesis
            lemma_no_filler(s, end);
            assert(scan(s, end) == (Scan::Token {
                lexeme: Lexeme::RightParen,
                start: end,
                next: end + 1,
            }));
        },
    }
}

/// What is printed reads back: the printed form of a readable value, read
/// from its start, is that value, and the reader stops at its end.
pub proof fn law_read_print_round_trip(v: Datum)
    requires
        readable(v),
    ensures
        parse_form(printed(v), 0) == (Parse::Form { value: v, next: printed(v).len() as int }),
{
    lemma_form_reads_back(v, printed(v), 0);
}

/// A value as the reader makes them: it holds no function and its symbols
/// are readable names. Unlike a readable value it may hold `Nil` anywhere.
pub open spec fn written(v: Datum) -> bool
    decreases v,
{
    match v {
        Datum::Nil => true,
        Datum::Int(_) => true,
        Datum::Sym(name) => readable_name(name),
        Datum::Pair(x, y) => written(*x) && written(*y),
        _ => false,
    }
}

/// The names that the reader macros stand for are readable.
proof fn lemma_macro_names_are_readable()
    ensures
        readable_name("quote"@),
        readable_name("quasiquote"@),
        readable_name("unquote"@),
        readable_name("splice-unquote"@),
{
    reveal_strlit("quote");
    reveal_strlit("quasiquote");
    reveal_strlit("unquote");
    reveal_strlit("splice-unquote");
    assert("quote"@.len() == 5);
    assert("quasiquote"@.len() == 10);
    assert("unquote"@.len() == 7);
    assert("splice-unquote"@.len() == 14);
}

/// The text of a symbol token is a readable name.
proof fn lemma_symbol_token_is_readable(s: Seq<char>, i: int)
    requires
        0 <= i <= s.len(),
    ensures
        scan(s, i) matches Scan::Token { lexeme: Lexeme::Sym(name), .. } ==> readable_name(name),
{
    lemma_skip_filler_bounds(s, i);
    let j = skip_filler(s, i);
    if j < s.len() {
        lemma_run_end_bounds(s, j + 1);
        let k = run_end(s, j + 1);
        let name = s.subrange(j, k);
        if scan(s, i) matches Scan::Token { lexeme: Lexeme::Sym(_), .. } {
            assert(name[0] == s[j]);
            assert forall|n: int| 0 <= n < name.len() implies symbolic(#[trigger] name[n]) by {
                assert(name[n] == s[j + n]);
            }
            if name.len() > 1 {
                assert(name[1] == s[j + 1]);
            }
        }
    }
}

/// Whatever the reader makes of a text is a written value.
pub proof fn lemma_forms_are_written(s: Seq<char>, i: int)
    requires
        0 <= i <= s.len(),
    ensures
        parse_form(s, i) matches Parse::Form { value, .. } ==> written(value),
    decreases s.len() - i, 0nat,
{
    lemma_scan_bounds(s, i);
    lemma_symbol_token_is_readable(s, i);
    lemma_macro_names_are_readable();
    reveal_with_fuel(written, 3);
    match scan(s, i) {
        Scan::Token { lexeme, next, .. } => {
            match lexeme {
                Lexeme::LeftParen => {
                    lemma_lists_are_written(s, next);
                },
                Lexeme::Quote | Lexeme::Quasiquote | Lexeme::Unquote | Lexeme::SpliceUnquote => {
                    lemma_forms_are_written(s, next);
                },
                _ => {},
            }
        },
        _ => {},
    }
}

/// Whatever the reader makes of the rest of a list is a written value.
proof fn lemma_lists_are_written(s: Seq<char>, i: int)
    requires
        0 <= i <= s.len(),
    ensures
        parse_list(s, i) matches Parse::Form { value, .. } ==> written(value),
    decreases s.len() - i, 1nat,
{
    lemma_scan_bounds(s, i);
    match scan(s, i) {
        Scan::Token { lexeme: Lexeme::RightParen, .. } => {},
        Scan::Token { lexeme: Lexeme::Dot, next, .. } => {
            lemma_forms_are_written(s, next);
        },
        _ => {
            lemma_forms_are_written(s, i);
            lemma_parse_bounds(s, i);
            match parse_form(s, i) {
                Parse::Form { next, .. } => {
                    lemma_lists_are_written(s, next);
                },
                _ => {},
            }
        },
    }
}

/// The printed form of `Nil` reads as the symbol `nil`.
proof fn lemma_nil_reads_as_a_symbol(s: Seq<char>, i: int)
    requires
        holds(s, i, printed(Datum::Nil)),
    ensures
        !(parse_form(s, i) matches Parse::Form { value: Datum::Nil, .. }),
{
    let p = printed(Datum::Nil);
    assert(s[i + 0] == p[0]);
    lemma_no_filler(s, i);
    lemma_scan_bounds(s, i);
}

/// A written value begins like a form when it is printed.
proof fn lemma_written_begins(v: Datum)
    requires
        written(v),
    ensures
        printed(v).len() > 0,
        !blank(printed(v)[0]),
        printed(v)[0] != ';',
        printed(v)[0] != ')',
        printed(v)[0] != '.',
{
    match v {
        Datum::Nil => {},
        Datum::Pair(_, _) => {
            assert(printed(v)[0] == '(');
        },
        Datum::Sym(name) => {
            assert(symbolic(name[0]));
        },
        Datum::Int(n) => {
            lemma_decimal(n);
        },
        _ => {},
    }
}

/// A value that reads back where it stands is readable.
proof fn lemma_read_back_form_is_readable(v: Datum, s: Seq<char>, i: int)
    requires
        written(v),
        holds(s, i, printed(v)),
        parse_form(s, i) matches Parse::Form { value, .. } && value == v,
    ensures
        readable(v),
    decreases v.size(), 1nat,
{
    match v {
        Datum::Nil => {
            lemma_nil_reads_as_a_symbol(s, i);
        },
        Datum::Pair(x, y) => {
            assert(printed(v) == seq!['('] + (printed(*x) + printed_rest(*y)));
            lemma_holds_split(s, i, seq!['('], printed(*x) + printed_rest(*y));
            assert(s[i] == seq!['('][0]);
            lemma_no_filler(s, i);
            lemma_read_back_elements_are_readable(*x, *y, s, i + 1);
        },
        _ => {},
    }
}

/// An element and a tail that read back where they stand are readable.
proof fn lemma_read_back_elements_are_readable(x: Datum, y: Datum, s: Seq<char>, i: int)
    requires
        written(x),
        written(y),
        holds(s, i, printed(x) + printed_rest(y)),
        parse_list(s, i) matches Parse::Form { value, .. } && value == Datum::cons(x, y),
    ensures
        readable(x),
        readable_tail(y),
    decreases 1 + x.size() + y.size(), 0nat,
{
    let px = printed(x);
    let pr = printed_rest(y);
    lemma_holds_split(s, i, px, pr);
    lemma_written_begins(x);
    assert(s[i + 0] == px[0]);
    lemma_no_filler(s, i);
    lemma_scan_bounds(s, i);
    lemma_parse_bounds(s, i);
    // the element
    let first = parse_form(s, i);
    assert(first matches Parse::Form { value, .. } && value == x);
    lemma_read_back_form_is_readable(x, s, i);
    lemma_rest_begins(y);
    assert(s[i + px.len() + 0] == pr[0]);
    lemma_form_reads_back(x, s, i);
    // the tail
    let mid = i + px.len();
    lemma_parse_bounds(s, mid);
    assert(parse_list(s, mid) matches Parse::Form { value, .. } && value == y);
    match y {
        Datum::Pair(x2, y2) => {
            let body = printed(*x2) + printed_rest(*y2);
            assert(pr == seq![' '] + body);
            lemma_holds_split(s, mid, seq![' '], body);
            assert(s[mid] == seq![' '][0]);
            lemma_skip_one_blank(s, mid);
            lemma_read_back_elements_are_readable(*x2, *y2, s, mid + 1);
            assert(readable_tail(y));
        },
        Datum::Nil => {},
        _ => {
            assert(readable(y));
        },
    }
}

/// Only readable values read back: a value whose printed form reads as that
/// value again is readable. With [`law_read_print_round_trip`], the
/// readable values are exactly those that survive being printed and read.
pub proof fn law_only_readable_values_read_back(v: Datum)
    requires
        parse_form(printed(v), 0) matches Parse::Form { value, .. } && value == v,
    ensures
        readable(v),
{
    let s = printed(v);
    lemma_forms_are_written(s, 0);
    lemma_read_back_form_is_readable(v, s, 0);
}

} // verus!
