//! The reader: from tokens to values.

use crate::error::{Error, Failure, Fault};
use crate::token::{
    lemma_scan_bounds, line_of, scan, Lexeme, Scan, Token, TokenData, Tokens,
};
use crate::value::{Datum, Value};
use vstd::prelude::*;

verus! {

/// What the reader finds from a position on: the end of the text, a form,
/// or an error; `next` is where it goes on.
pub enum Parse {
    End { next: int },
    Form { value: Datum, next: int },
    Fail { failure: Failure, next: int },
}

impl Parse {
    /// Where the reader goes on.
    pub open spec fn next(self) -> int {
        match self {
            Parse::End { next } => next,
            Parse::Form { next, .. } => next,
            Parse::Fail { next, .. } => next,
        }
    }
}

/// The form `(name value)` that a reader macro stands for; the end of the
/// text in place of the value is an error.
pub open spec fn applied(name: Seq<char>, operand: Parse) -> Parse {
    match operand {
        Parse::End { next } => Parse::Fail { failure: Failure::of(Fault::UnexpectedEof), next },
        Parse::Form { value, next } => Parse::Form {
            value: Datum::list2(Datum::Sym(name), value),
            next,
        },
        Parse::Fail { failure, next } => Parse::Fail { failure, next },
    }
}

/// What closes a dotted list: `tail` is what was read after the dot, `close`
/// what the tokenizer finds after that. Anything but a closing parenthesis
/// is an error, and that error comes before an error in the tail.
pub open spec fn closed(s: Seq<char>, tail: Parse, close: Scan) -> Parse {
    match close {
        Scan::End { next } => Parse::Fail { failure: Failure::of(Fault::UnexpectedEof), next },
        Scan::Fail { fault, start, next } => Parse::Fail {
            failure: Failure::of(fault).at(line_of(s, start)),
            next,
        },
        Scan::Token { lexeme, start, next } => if lexeme is RightParen {
            match tail {
                Parse::End { .. } => Parse::Fail {
                    failure: Failure::of(Fault::UnexpectedEof),
                    next,
                },
                Parse::Form { value, .. } => Parse::Form { value, next },
                Parse::Fail { failure, .. } => Parse::Fail { failure, next },
            }
        } else {
            Parse::Fail {
                failure: Failure::of(Fault::Todo("unexpected token"@)).at(line_of(s, start)),
                next,
            }
        },
    }
}

/// The form that begins at position `i`.
///
/// An integer or a symbol is itself. An opening parenthesis begins a list,
/// see [`parse_list`]. A quote, quasiquote, unquote or splice-unquote mark
/// wraps the form after it. A closing parenthesis or a dot begins no form.
pub open spec fn parse_form(s: Seq<char>, i: int) -> Parse
    decreases s.len() - i, 0nat,
    when 0 <= i <= s.len()
{
    match scan(s, i) {
        Scan::End { next } => Parse::End { next },
        Scan::Fail { fault, start, next } => Parse::Fail {
            failure: Failure::of(fault).at(line_of(s, start)),
            next,
        },
        Scan::Token { lexeme, start, next } => {
            proof {
                lemma_scan_bounds(s, i);
            }
            match lexeme {
                Lexeme::Int(n) => Parse::Form { value: Datum::Int(n), next },
                Lexeme::Sym(name) => Parse::Form { value: Datum::Sym(name), next },
                Lexeme::LeftParen => parse_list(s, next),
                Lexeme::RightParen => Parse::Fail {
                    failure: Failure::of(Fault::UnexpectedChar(')')).at(line_of(s, start)),
                    next,
                },
                Lexeme::Dot => Parse::Fail {
                    failure: Failure::of(Fault::UnexpectedChar('.')).at(line_of(s, start)),
                    next,
                },
                Lexeme::Quote => applied("quote"@, parse_form(s, next)),
                Lexeme::Quasiquote => applied("quasiquote"@, parse_form(s, next)),
                Lexeme::Unquote => applied("unquote"@, parse_form(s, next)),
                Lexeme::SpliceUnquote => applied("splice-unquote"@, parse_form(s, next)),
            }
        },
    }
}

/// The rest of a list whose opening parenthesis has been read.
///
/// A closing parenthesis ends the list with `Nil`. A dot is followed by one
/// form, which becomes the tail, and a closing parenthesis. Anything else
/// is an element, followed by the rest of the list. The end of the text
/// inside the list is an error.
pub open spec fn parse_list(s: Seq<char>, i: int) -> Parse
    decreases s.len() - i, 1nat,
    when 0 <= i <= s.len()
{
    match scan(s, i) {
        Scan::Token { lexeme: Lexeme::RightParen, next, .. } => Parse::Form {
            value: Datum::Nil,
            next,
        },
        Scan::Token { lexeme: Lexeme::Dot, next, .. } => {
            proof {
                lemma_scan_bounds(s, i);
            }
            let tail = parse_form(s, next);
            closed(s, tail, scan(s, tail.next()))
        },
        _ => match parse_form(s, i) {
            Parse::End { next } => Parse::Fail {
                failure: Failure::of(Fault::UnexpectedEof),
                next,
            },
            Parse::Fail { failure, next } => Parse::Fail { failure, next },
            Parse::Form { value, next } => if i < next <= s.len() {
                match parse_list(s, next) {
                    Parse::Form { value: rest, next: end } => Parse::Form {
                        value: Datum::cons(value, rest),
                        next: end,
                    },
                    other => other,
                }
            } else {
                Parse::End { next }
            },
        },
    }
}

/// The reader never leaves the text, a form takes at least one character,
/// and a list is never cut short without an error.
pub proof fn lemma_parse_bounds(s: Seq<char>, i: int)
    requires
        0 <= i <= s.len(),
    ensures
        i <= parse_form(s, i).next() <= s.len(),
        parse_form(s, i) is Form ==> i < parse_form(s, i).next(),
        parse_form(s, i) is End ==> parse_form(s, i).next() == s.len(),
        i <= parse_list(s, i).next() <= s.len(),
        !(parse_list(s, i) is End),
    decreases s.len() - i, 2nat,
{
    lemma_scan_bounds(s, i);
    lemma_parse_form_bounds(s, i);
    lemma_parse_list_bounds(s, i);
}

proof fn lemma_parse_form_bounds(s: Seq<char>, i: int)
    requires
        0 <= i <= s.len(),
    ensures
        i <= parse_form(s, i).next() <= s.len(),
        parse_form(s, i) is Form ==> i < parse_form(s, i).next(),
        parse_form(s, i) is End ==> parse_form(s, i).next() == s.len(),
    decreases s.len() - i, 0nat,
{
    lemma_scan_bounds(s, i);
    match scan(s, i) {
        Scan::Token { lexeme, start, next } => {
            match lexeme {
                Lexeme::LeftParen => {
                    lemma_parse_list_bounds(s, next);
                },
                Lexeme::Quote | Lexeme::Quasiquote | Lexeme::Unquote | Lexeme::SpliceUnquote => {
                    lemma_parse_form_bounds(s, next);
                },
                _ => {},
            }
        },
        _ => {},
    }
}

proof fn lemma_parse_list_bounds(s: Seq<char>, i: int)
    requires
        0 <= i <= s.len(),
    ensures
        i <= parse_list(s, i).next() <= s.len(),
        !(parse_list(s, i) is End),
        parse_list(s, i) is Form ==> i < parse_list(s, i).next(),
    decreases s.len() - i, 1nat,
{
    lemma_scan_bounds(s, i);
    match scan(s, i) {
        Scan::Token { lexeme: Lexeme::RightParen, .. } => {},
        Scan::Token { lexeme: Lexeme::Dot, next, .. } => {
            lemma_parse_form_bounds(s, next);
            lemma_scan_bounds(s, parse_form(s, next).next());
        },
        _ => {
            lemma_parse_form_bounds(s, i);
            match parse_form(s, i) {
                Parse::Form { value, next } => {
                    lemma_parse_list_bounds(s, next);
                },
                _ => {},
            }
        },
    }
}

/// The reader: a tokenizer and the forms read from it, one at a time.
#[derive(Debug)]
pub struct Reader {
    tokens: Tokens,
}

/// What `next` hands out for a parse: `None` at the end, else the value or
/// the error; and the position afterwards.
pub open spec fn read_out(r: Option<Result<Value, Error>>, offset: int, found: Parse) -> bool {
    match found {
        Parse::End { next } => r is None && offset == next,
        Parse::Form { value, next } => r matches Some(Ok(v)) && v@ == value && offset == next,
        Parse::Fail { failure, next } => r matches Some(Err(e)) && e@ == failure && offset
            == next,
    }
}

/// What `read_list` and its like hand out for a parse that is no end.
pub open spec fn read_whole(r: Result<Value, Error>, offset: int, found: Parse) -> bool {
    match found {
        Parse::End { .. } => false,
        Parse::Form { value, next } => r matches Ok(v) && v@ == value && offset == next,
        Parse::Fail { failure, next } => r matches Err(e) && e@ == failure && offset == next,
    }
}

impl Reader {
    /// The text that is being read.
    pub closed spec fn text(&self) -> Seq<char> {
        self.tokens.text()
    }

    /// The position reached in the text.
    pub closed spec fn offset(&self) -> int {
        self.tokens.offset()
    }

    /// The position reached in the text.
    pub fn position(&self) -> (r: usize)
        ensures
            r == self.offset(),
            r <= self.text().len(),
    {
        self.tokens.end()
    }

    /// Whether the next token is of the kind `data`.
    fn peek_token_is(&mut self, data: &TokenData) -> (r: bool)
        ensures
            final(self).text() == old(self).text(),
            final(self).offset() == old(self).offset(),
            r == (scan(old(self).text(), old(self).offset()) matches Scan::Token { lexeme, .. }
                && lexeme == data@),
    {
        match self.tokens.peek_token() {
            Some(Ok(token)) => token.data.same(data),
            _ => false,
        }
    }

    /// Reads the operand of a reader macro and wraps it as `(sym operand)`.
    fn application(&mut self, sym: &str) -> (r: Result<Value, Error>)
        ensures
            final(self).text() == old(self).text(),
            read_whole(
                r,
                final(self).offset(),
                applied(sym@, parse_form(old(self).text(), old(self).offset())),
            ),
        decreases old(self).text().len() - old(self).offset(), 1nat,
    {
        match self.next() {
            Some(v) => Ok(Value::cons(Value::symbol(sym), Value::cons(v?, Value::Nil))),
            None => Err(Error::unexpected_eof()),
        }
    }

    /// Takes the next token, which must be of the kind `data`.
    fn consume(&mut self, data: TokenData) -> (r: Result<(), Error>)
        ensures
            final(self).text() == old(self).text(),
            final(self).offset() == scan(old(self).text(), old(self).offset()).next(),
            match scan(old(self).text(), old(self).offset()) {
                Scan::End { .. } => r matches Err(e) && e@ == Failure::of(Fault::UnexpectedEof),
                Scan::Fail { fault, start, .. } => r matches Err(e) && e@ == Failure::of(fault).at(
                    line_of(old(self).text(), start),
                ),
                Scan::Token { lexeme, start, .. } => if lexeme == data@ {
                    r is Ok
                } else {
                    r matches Err(e) && e@ == Failure::of(Fault::Todo("unexpected token"@)).at(
                        line_of(old(self).text(), start),
                    )
                },
            },
    {
        match self.tokens.next() {
            Some(Ok(token)) => {
                if token.data.same(&data) {
                    Ok(())
                } else {
                    Err(Error::todo("unexpected token".to_owned()).at(token.line))
                }
            },
            Some(Err(err)) => Err(err),
            None => Err(Error::unexpected_eof()),
        }
    }

    /// Reads the rest of a list, see [`parse_list`].
    fn read_list(&mut self) -> (r: Result<Value, Error>)
        ensures
            final(self).text() == old(self).text(),
            read_whole(r, final(self).offset(), parse_list(old(self).text(), old(self).offset())),
        decreases old(self).text().len() - old(self).offset(), 2nat,
    {
        let ghost s = self.text();
        let ghost i = self.offset();
        let begin = self.position();
        proof {
            lemma_scan_bounds(s, i);
            lemma_parse_bounds(s, i);
        }
        if self.peek_token_is(&TokenData::RightParen) {
            self.consume(TokenData::RightParen)?;
            Ok(Value::Nil)
        } else if self.peek_token_is(&TokenData::Dot) {
            self.consume(TokenData::Dot)?;
            let res = match self.next() {
                Some(r) => r,
                None => Err(Error::unexpected_eof()),
            };
            self.consume(TokenData::RightParen)?;
            res
        } else {
            let first = match self.next() {
                Some(r) => r?,
                None => {
                    return Err(Error::unexpected_eof());
                },
            };
            let rest = self.read_list()?;
            Ok(Value::cons(first, rest))
        }
    }

    /// Reads the next form, see [`parse_form`]. `None` at the end of the
    /// text.
    pub fn next(&mut self) -> (r: Option<Result<Value, Error>>)
        ensures
            final(self).text() == old(self).text(),
            read_out(r, final(self).offset(), parse_form(old(self).text(), old(self).offset())),
        decreases old(self).text().len() - old(self).offset(), 0nat,
    {
        let ghost s = self.text();
        let ghost i = self.offset();
        let begin = self.position();
        proof {
            lemma_scan_bounds(s, i);
        }
        let token = match self.tokens.next() {
            None => {
                return None;
            },
            Some(Err(err)) => {
                return Some(Err(err));
            },
            Some(Ok(token)) => token,
        };
        Some(
            match token.data {
                TokenData::Int(n) => Ok(Value::Int(n)),
                TokenData::Sym(name) => Ok(Value::sym(name)),
                TokenData::LeftParen => self.read_list(),
                TokenData::RightParen => Err(Error::unexpected_char(')').at(token.line)),
                TokenData::Dot => Err(Error::unexpected_char('.').at(token.line)),
                TokenData::Quote => self.application("quote"),
                TokenData::Quasiquote => self.application("quasiquote"),
                TokenData::Unquote => self.application("unquote"),
                TokenData::SpliceUnquote => self.application("splice-unquote"),
            },
        )
    }
}

/// A reader at the start of `source`.
pub fn read(source: &str) -> (r: Reader)
    ensures
        r.text() == source@,
        r.offset() == 0,
{
    Reader { tokens: Tokens::new(source) }
}

} // verus!
