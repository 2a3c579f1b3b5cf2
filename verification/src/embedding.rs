//! A form reads the same wherever its text stands.
//!
//! What the reader makes of a text does not change when other text is put
//! before it, or after it behind a boundary. From that follows the law of
//! `quote`: a source expression wrapped in `(quote ...)` evaluates to what
//! the expression reads as.

use crate::env::Level;
use crate::reader::{closed, lemma_parse_bounds, parse_form, parse_list, Parse};
use crate::semantics::{eval_of, law_quote_returns_operand, Run};
use crate::token::{
    blank, lemma_line_end_bounds, lemma_run_end_bounds, lemma_scan_bounds,
    lemma_skip_blanks_bounds, lemma_skip_filler_bounds, line_end, run_end, scan, skip_blanks,
    skip_filler, symbolic, Lexeme, Scan,
};
use crate::value::Datum;
use vstd::prelude::*;

verus! {

/// Text that may follow a form without running into its last token: none,
/// or text that begins with a character that is not symbolic.
pub open spec fn detached(after: Seq<char>) -> bool {
    after.len() == 0 || !symbolic(after[0])
}

proof fn lemma_embedded_chars(before: Seq<char>, s: Seq<char>, after: Seq<char>)
    ensures
        (before + s + after).len() == before.len() + s.len() + after.len(),
        forall|k: int|
            0 <= k < s.len() ==> (before + s + after)[before.len() + k] == #[trigger] s[k],
        forall|k: int|
            0 <= k < after.len() ==> (before + s + after)[before.len() + s.len() + k]
                == #[trigger] after[k],
{
}

proof fn lemma_embedded_blanks(before: Seq<char>, s: Seq<char>, after: Seq<char>, i: int)
    requires
        0 <= i <= s.len(),
        skip_blanks(s, i) < s.len(),
    ensures
        skip_blanks(before + s + after, before.len() + i) == before.len() + skip_blanks(s, i),
    decreases s.len() - i,
{
    lemma_embedded_chars(before, s, after);
    let w = before + s + after;
    if i < s.len() {
        assert(w[before.len() + i] == s[i]);
        if blank(s[i]) {
            lemma_embedded_blanks(before, s, after, i + 1);
        }
    }
}

proof fn lemma_embedded_line(before: Seq<char>, s: Seq<char>, after: Seq<char>, i: int)
    requires
        0 <= i <= s.len(),
        line_end(s, i) < s.len(),
    ensures
        line_end(before + s + after, before.len() + i) == before.len() + line_end(s, i),
    decreases s.len() - i,
{
    lemma_embedded_chars(before, s, after);
    let w = before + s + after;
    if i < s.len() {
        assert(w[before.len() + i] == s[i]);
        if s[i] != '\n' {
            lemma_embedded_line(before, s, after, i + 1);
        }
    }
}

proof fn lemma_embedded_filler(before: Seq<char>, s: Seq<char>, after: Seq<char>, i: int)
    requires
        0 <= i <= s.len(),
        skip_filler(s, i) < s.len(),
    ensures
        skip_filler(before + s + after, before.len() + i) == before.len() + skip_filler(s, i),
    decreases s.len() - i,
{
    lemma_embedded_chars(before, s, after);
    let w = before + s + after;
    lemma_skip_blanks_bounds(s, i);
    let j = skip_blanks(s, i);
    if j < s.len() {
        lemma_embedded_blanks(before, s, after, i);
        assert(w[before.len() + j] == s[j]);
        if s[j] == ';' {
            lemma_line_end_bounds(s, j + 1);
            let k = line_end(s, j + 1);
            lemma_skip_filler_bounds(s, k);
            if k < s.len() {
                lemma_embedded_line(before, s, after, j + 1);
                lemma_embedded_filler(before, s, after, k);
            }
        }
    }
}

proof fn lemma_embedded_run(before: Seq<char>, s: Seq<char>, after: Seq<char>, i: int)
    requires
        0 <= i <= s.len(),
        detached(after),
    ensures
        run_end(before + s + after, before.len() + i) == before.len() + run_end(s, i),
    decreases s.len() - i,
{
    lemma_embedded_chars(before, s, after);
    let w = before + s + after;
    if i < s.len() {
        assert(w[before.len() + i] == s[i]);
        if symbolic(s[i]) {
            lemma_embedded_run(before, s, after, i + 1);
        }
    } else if after.len() > 0 {
        assert(w[before.len() + s.len() + 0int] == after[0]);
    }
}

/// The same scan with every position moved by `d`.
pub open spec fn moved(found: Scan, d: int) -> Scan {
    match found {
        Scan::End { next } => Scan::End { next: next + d },
        Scan::Token { lexeme, start, next } => Scan::Token {
            lexeme,
            start: start + d,
            next: next + d,
        },
        Scan::Fail { fault, start, next } => Scan::Fail { fault, start: start + d, next: next + d },
    }
}

/// A token is the same token wherever its text stands.
proof fn lemma_embedded_scan(before: Seq<char>, s: Seq<char>, after: Seq<char>, i: int)
    requires
        0 <= i <= s.len(),
        detached(after),
        !(scan(s, i) is End),
    ensures
        scan(before + s + after, before.len() + i) == moved(scan(s, i), before.len() as int),
{
    lemma_embedded_chars(before, s, after);
    let w = before + s + after;
    let d = before.len() as int;
    lemma_skip_filler_bounds(s, i);
    let j = skip_filler(s, i);
    lemma_embedded_filler(before, s, after, i);
    assert(w[d + j] == s[j]);
    lemma_embedded_run(before, s, after, j + 1);
    lemma_run_end_bounds(s, j + 1);
    let k = run_end(s, j + 1);
    assert(w.subrange(d + j, d + k) =~= s.subrange(j, k));
    if j + 1 < s.len() {
        assert(w[d + (j + 1)] == s[j + 1]);
    } else if after.len() > 0 {
        assert(w[d + s.len() + 0] == after[0]);
    }
}

/// A form reads as the same value wherever its text stands.
pub proof fn lemma_embedded_form(before: Seq<char>, s: Seq<char>, after: Seq<char>, i: int)
    requires
        0 <= i <= s.len(),
        detached(after),
        parse_form(s, i) is Form,
    ensures
        parse_form(before + s + after, before.len() + i) == (Parse::Form {
            value: parse_form(s, i)->value,
            next: before.len() + parse_form(s, i).next(),
        }),
    decreases s.len() - i, 0nat,
{
    lemma_scan_bounds(s, i);
    lemma_embedded_scan(before, s, after, i);
    match scan(s, i) {
        Scan::Token { lexeme, start, next } => {
            lemma_parse_bounds(s, next);
            match lexeme {
                Lexeme::LeftParen => {
                    lemma_embedded_list(before, s, after, next);
                },
                Lexeme::Quote | Lexeme::Quasiquote | Lexeme::Unquote | Lexeme::SpliceUnquote => {
                    lemma_embedded_form(before, s, after, next);
                },
                _ => {},
            }
        },
        _ => {},
    }
}

/// A dotted tail reads as the same value wherever its text stands.
proof fn lemma_embedded_dotted(before: Seq<char>, s: Seq<char>, after: Seq<char>, i: int)
    requires
        0 <= i <= s.len(),
        detached(after),
        parse_list(s, i) is Form,
        scan(s, i) matches Scan::Token { lexeme: Lexeme::Dot, .. },
    ensures
        parse_list(before + s + after, before.len() + i) == (Parse::Form {
            value: parse_list(s, i)->value,
            next: before.len() + parse_list(s, i).next(),
        }),
    decreases s.len() - i, 1nat,
{
    let w = before + s + after;
    let d = before.len() as int;
    lemma_scan_bounds(s, i);
    lemma_embedded_scan(before, s, after, i);
    let next = scan(s, i).next();
    let tail = parse_form(s, next);
    lemma_parse_bounds(s, next);
    lemma_scan_bounds(s, tail.next());
    assert(parse_list(s, i) == closed(s, tail, scan(s, tail.next())));
    assert(tail is Form);
    lemma_embedded_form(before, s, after, next);
    lemma_embedded_scan(before, s, after, tail.next());
    let moved_tail = parse_form(w, d + next);
    assert(parse_list(w, d + i) == closed(w, moved_tail, scan(w, moved_tail.next())));
}

/// An element and the rest of its list read as the same value wherever
/// their text stands.
proof fn lemma_embedded_elements(before: Seq<char>, s: Seq<char>, after: Seq<char>, i: int)
    requires
        0 <= i <= s.len(),
        detached(after),
        parse_list(s, i) is Form,
        !(scan(s, i) matches Scan::Token { lexeme: Lexeme::Dot, .. }),
        !(scan(s, i) matches Scan::Token { lexeme: Lexeme::RightParen, .. }),
    ensures
        parse_list(before + s + after, before.len() + i) == (Parse::Form {
            value: parse_list(s, i)->value,
            next: before.len() + parse_list(s, i).next(),
        }),
    decreases s.len() - i, 1nat,
{
    let w = before + s + after;
    let d = before.len() as int;
    lemma_scan_bounds(s, i);
    lemma_parse_bounds(s, i);
    let first = parse_form(s, i);
    assert(first is Form);
    lemma_embedded_scan(before, s, after, i);
    lemma_embedded_form(before, s, after, i);
    lemma_parse_bounds(s, first.next());
    assert(parse_list(s, first.next()) is Form);
    lemma_embedded_list(before, s, after, first.next());
    assert(parse_form(w, d + i) == (Parse::Form { value: first->value, next: d + first.next() }));
    assert(!(scan(w, d + i) matches Scan::Token { lexeme: Lexeme::Dot, .. }));
    assert(!(scan(w, d + i) matches Scan::Token { lexeme: Lexeme::RightParen, .. }));
}

/// The rest of a list reads as the same value wherever its text stands.
pub proof fn lemma_embedded_list(before: Seq<char>, s: Seq<char>, after: Seq<char>, i: int)
    requires
        0 <= i <= s.len(),
        detached(after),
        parse_list(s, i) is Form,
    ensures
        parse_list(before + s + after, before.len() + i) == (Parse::Form {
            value: parse_list(s, i)->value,
            next: before.len() + parse_list(s, i).next(),
        }),
    decreases s.len() - i, 2nat,
{
    lemma_scan_bounds(s, i);
    match scan(s, i) {
        Scan::Token { lexeme: Lexeme::RightParen, .. } => {
            lemma_embedded_scan(before, s, after, i);
        },
        Scan::Token { lexeme: Lexeme::Dot, .. } => {
            lemma_embedded_dotted(before, s, after, i);
        },
        _ => {
            lemma_embedded_elements(before, s, after, i);
        },
    }
}

/// Whether the text from position `i` on holds nothing but whitespace and
/// comments, each of which ends with a newline inside the text.
pub open spec fn only_filler(s: Seq<char>, i: int) -> bool
    decreases s.len() - i,
{
    if i < 0 || i >= s.len() {
        i == s.len()
    } else if blank(s[i]) {
        only_filler(s, i + 1)
    } else if s[i] == ';' {
        let k = line_end(s, i + 1);
        i < k < s.len() && only_filler(s, k)
    } else {
        false
    }
}

/// A closing parenthesis after whitespace and comments closes the list.
proof fn lemma_closes(before: Seq<char>, s: Seq<char>, after: Seq<char>, i: int)
    requires
        0 <= i <= s.len(),
        only_filler(s, i),
        after.len() > 0,
        after[0] == ')',
    ensures
        skip_filler(before + s + after, before.len() + i) == before.len() + s.len(),
        parse_list(before + s + after, before.len() + i) == (Parse::Form {
            value: Datum::Nil,
            next: before.len() + s.len() + 1int,
        }),
    decreases s.len() - i,
{
    let w = before + s + after;
    let d = before.len() as int;
    lemma_embedded_chars(before, s, after);
    assert(w[d + s.len() + 0int] == after[0]);
    if i < s.len() {
        assert(w[d + i] == s[i]);
        if blank(s[i]) {
            lemma_closes(before, s, after, i + 1);
            assert(skip_blanks(w, d + i) == skip_blanks(w, d + i + 1));
            assert(skip_filler(w, d + i) == skip_filler(w, d + i + 1));
        } else {
            let k = line_end(s, i + 1);
            lemma_embedded_line(before, s, after, i + 1);
            lemma_closes(before, s, after, k);
            assert(skip_blanks(w, d + i) == d + i);
        }
    } else {
        assert(skip_filler(w, d + i) == d + i);
    }
    assert(scan(w, d + i) == (Scan::Token {
        lexeme: Lexeme::RightParen,
        start: d + s.len(),
        next: d + s.len() + 1,
    }));
}

/// The text `(quote ` begins a list whose first element is the symbol
/// `quote`.
proof fn lemma_quote_opens(w: Seq<char>)
    requires
        w.len() > 7,
        w[0] == '(',
        w[1] == 'q',
        w[2] == 'u',
        w[3] == 'o',
        w[4] == 't',
        w[5] == 'e',
        w[6] == ' ',
    ensures
        scan(w, 0) == (Scan::Token { lexeme: Lexeme::LeftParen, start: 0, next: 1 }),
        scan(w, 1) == (Scan::Token { lexeme: Lexeme::Sym("quote"@), start: 1, next: 6 }),
        parse_form(w, 1) == (Parse::Form { value: Datum::Sym("quote"@), next: 6 }),
        scan(w, 6) == scan(w, 7),
        parse_form(w, 6) == parse_form(w, 7),
{
    reveal_strlit("quote");
    assert(skip_filler(w, 0) == 0);
    assert(skip_filler(w, 1) == 1);
    assert(run_end(w, 2) == 6) by {
        reveal_with_fuel(run_end, 6);
    }
    assert(w.subrange(1, 6) =~= "quote"@);
    assert(skip_blanks(w, 6) == skip_blanks(w, 7));
    assert(skip_filler(w, 6) == skip_filler(w, 7));
    lemma_scan_bounds(w, 6);
    lemma_scan_bounds(w, 7);
    lemma_parse_bounds(w, 6);
    lemma_parse_bounds(w, 7);
}

/// A list that begins with a symbol and one more element, read element by
/// element.
proof fn lemma_two_elements(w: Seq<char>, first: Datum, second: Datum, mid: int)
    requires
        w.len() > 7,
        parse_form(w, 1) == (Parse::Form { value: first, next: 6 }),
        scan(w, 1) matches Scan::Token { lexeme: Lexeme::Sym(_), .. },
        scan(w, 0) == (Scan::Token { lexeme: Lexeme::LeftParen, start: 0, next: 1 }),
        parse_form(w, 6) == (Parse::Form { value: second, next: mid }),
        scan(w, 6) matches Scan::Token { lexeme, .. } && !(lexeme is Dot) && !(lexeme
            is RightParen),
        6 < mid <= w.len(),
    ensures
        parse_form(w, 0) == match parse_list(w, mid) {
            Parse::Form { value: rest, next } => Parse::Form {
                value: Datum::cons(first, Datum::cons(second, rest)),
                next,
            },
            other => other,
        },
{
    assert(parse_list(w, 6) == match parse_list(w, mid) {
        Parse::Form { value: rest, next } => Parse::Form { value: Datum::cons(second, rest), next },
        other => other,
    });
    assert(parse_list(w, 1) == match parse_list(w, 6) {
        Parse::Form { value: rest, next } => Parse::Form { value: Datum::cons(first, rest), next },
        other => other,
    });
}

/// What a text wrapped in `(quote ` and `)` reads as, where the text begins
/// with a form: the list of the symbol `quote`, that form, and whatever the
/// rest of the text adds to the list.
proof fn lemma_quoted_reads(s: Seq<char>)
    requires
        parse_form(s, 0) is Form,
    ensures
        ({
            let w = "(quote "@ + s + ")"@;
            let then = 7 + parse_form(s, 0).next();
            &&& 7 < then < w.len()
            &&& parse_form(w, 0) == match parse_list(w, then) {
                Parse::Form { value: rest, next } => Parse::Form {
                    value: Datum::cons(
                        Datum::Sym("quote"@),
                        Datum::cons(parse_form(s, 0)->value, rest),
                    ),
                    next,
                },
                other => other,
            }
        }),
{
    reveal_strlit("(quote ");
    reveal_strlit(")");
    let before = "(quote "@;
    let after = ")"@;
    let w = before + s + after;
    let n = parse_form(s, 0).next();
    let v = parse_form(s, 0)->value;
    lemma_embedded_chars(before, s, after);
    lemma_parse_bounds(s, 0);
    lemma_scan_bounds(s, 0);
    assert(w[0] == '(' && w[1] == 'q' && w[2] == 'u' && w[3] == 'o' && w[4] == 't' && w[5] == 'e'
        && w[6] == ' ') by {
        assert(forall|k: int| 0 <= k < 7 ==> w[k] == before[k]);
    }
    assert(w[7 + s.len() + 0int] == after[0]);
    assert(!symbolic(after[0]));
    lemma_quote_opens(w);
    lemma_embedded_form(before, s, after, 0);
    lemma_embedded_scan(before, s, after, 0);
    lemma_two_elements(w, Datum::Sym("quote"@), v, 7 + n);
}

/// Quoting gives what is read: where a text `s` begins with a form and the
/// text `(quote ` + `s` + `)` can be read, what is read evaluates to the
/// value that `s` reads as, in any scope, without a change to the store.
pub proof fn law_quote_gives_what_is_read(s: Seq<char>, env: usize, store: Seq<Level>, fuel: nat)
    requires
        fuel > 0,
        parse_form(s, 0) is Form,
        parse_form("(quote "@ + s + ")"@, 0) is Form,
    ensures
        eval_of(parse_form("(quote "@ + s + ")"@, 0)->value, env, store, fuel) == Run::ok(
            store,
            parse_form(s, 0)->value,
        ),
{
    lemma_quoted_reads(s);
    let w = "(quote "@ + s + ")"@;
    let rest = parse_list(w, 7 + parse_form(s, 0).next())->value;
    law_quote_returns_operand(parse_form(s, 0)->value, rest, env, store, fuel);
}

/// A source expression can be quoted: where a text `s` holds one form and,
/// after it, nothing but whitespace and comments that end inside the text,
/// the text `(quote ` + `s` + `)` reads, from its start to its end, as the
/// list of the symbol `quote` and the form.
pub proof fn law_source_expression_can_be_quoted(s: Seq<char>)
    requires
        parse_form(s, 0) is Form,
        only_filler(s, parse_form(s, 0).next()),
    ensures
        parse_form("(quote "@ + s + ")"@, 0) == (Parse::Form {
            value: Datum::list2(Datum::Sym("quote"@), parse_form(s, 0)->value),
            next: ("(quote "@ + s + ")"@).len() as int,
        }),
{
    reveal_strlit("(quote ");
    reveal_strlit(")");
    lemma_quoted_reads(s);
    lemma_parse_bounds(s, 0);
    lemma_closes("(quote "@, s, ")"@, parse_form(s, 0).next());
}

} // verus!
