//! The tokenizer: from characters to tokens with line numbers.

use crate::error::{Error, Failure, Fault};
use vstd::prelude::*;
use vstd::std_specs::iter::IteratorSpec;

verus! {

/// Whether a character has the Unicode property `White_Space`, as
/// `char::is_whitespace` reports it.
pub uninterp spec fn unicode_whitespace(c: char) -> bool;

/// Whether a character is alphabetic or numeric in Unicode, as
/// `char::is_alphanumeric` reports it.
pub uninterp spec fn unicode_alphanumeric(c: char) -> bool;

/// `char::is_whitespace` is a function of the character alone.
pub assume_specification[ char::is_whitespace ](c: char) -> (r: bool)
    ensures
        r == unicode_whitespace(c),
;

/// `char::is_alphanumeric` is a function of the character alone.
pub assume_specification[ char::is_alphanumeric ](c: char) -> (r: bool)
    ensures
        r == unicode_alphanumeric(c),
;

/// Whitespace: in ASCII the space and the controls from tab to carriage
/// return, beyond ASCII what Unicode calls whitespace.
pub open spec fn blank(c: char) -> bool {
    if (c as u32) < 128 {
        c == ' ' || ('\t' as u32 <= c as u32 && c as u32 <= '\r' as u32)
    } else {
        unicode_whitespace(c)
    }
}

/// An ASCII decimal digit.
pub open spec fn digit(c: char) -> bool {
    '0' as u32 <= c as u32 && c as u32 <= '9' as u32
}

/// An ASCII letter.
pub open spec fn letter(c: char) -> bool {
    ('a' as u32 <= c as u32 && c as u32 <= 'z' as u32) || ('A' as u32 <= c as u32 && c as u32
        <= 'Z' as u32)
}

/// The punctuation that may stand in a symbol.
pub open spec fn listed(c: char) -> bool {
    c == '!' || c == '$' || c == '%' || c == '&' || c == '*' || c == '+' || c == '-' || c == '.'
        || c == '/' || c == ':' || c == '<' || c == '=' || c == '>' || c == '?' || c == '@' || c
        == '^' || c == '_' || c == '~'
}

/// A character that may stand in a symbol: alphanumeric, or one of the
/// listed punctuation characters.
pub open spec fn symbolic(c: char) -> bool {
    if (c as u32) < 128 {
        digit(c) || letter(c) || listed(c)
    } else {
        unicode_alphanumeric(c)
    }
}

/// Whether `c` is whitespace.
pub fn is_blank(c: char) -> (r: bool)
    ensures
        r == blank(c),
{
    let x = c as u32;
    if x < 128 {
        x == 32 || (9 <= x && x <= 13)
    } else {
        c.is_whitespace()
    }
}

/// Whether `c` is an ASCII decimal digit.
pub fn is_digit(c: char) -> (r: bool)
    ensures
        r == digit(c),
{
    let x = c as u32;
    48 <= x && x <= 57
}

/// Whether `c` may stand in a symbol.
pub fn is_symbolic(c: char) -> (r: bool)
    ensures
        r == symbolic(c),
{
    let x = c as u32;
    if x < 128 {
        (48 <= x && x <= 57) || (97 <= x && x <= 122) || (65 <= x && x <= 90) || c == '!' || c
            == '$' || c == '%' || c == '&' || c == '*' || c == '+' || c == '-' || c == '.' || c
            == '/' || c == ':' || c == '<' || c == '=' || c == '>' || c == '?' || c == '@' || c
            == '^' || c == '_' || c == '~'
    } else {
        c.is_alphanumeric()
    }
}

/// The first position from `i` on that holds no whitespace.
pub open spec fn skip_blanks(s: Seq<char>, i: int) -> int
    decreases s.len() - i,
{
    if 0 <= i < s.len() && blank(s[i]) {
        skip_blanks(s, i + 1)
    } else {
        i
    }
}

/// The position of the first newline from `i` on, or the end of the text.
pub open spec fn line_end(s: Seq<char>, i: int) -> int
    decreases s.len() - i,
{
    if 0 <= i < s.len() && s[i] != '\n' {
        line_end(s, i + 1)
    } else {
        i
    }
}

/// The first position from `i` on that a symbolic character does not hold.
pub open spec fn run_end(s: Seq<char>, i: int) -> int
    decreases s.len() - i,
{
    if 0 <= i < s.len() && symbolic(s[i]) {
        run_end(s, i + 1)
    } else {
        i
    }
}

/// Passing over whitespace stays in the text and stops at a character that
/// is no whitespace.
pub proof fn lemma_skip_blanks_bounds(s: Seq<char>, i: int)
    requires
        0 <= i <= s.len(),
    ensures
        i <= skip_blanks(s, i) <= s.len(),
        skip_blanks(s, i) < s.len() ==> !blank(s[skip_blanks(s, i)]),
    decreases s.len() - i,
{
    if i < s.len() && blank(s[i]) {
        lemma_skip_blanks_bounds(s, i + 1);
    }
}

/// The end of a line lies in the text.
pub proof fn lemma_line_end_bounds(s: Seq<char>, i: int)
    requires
        0 <= i <= s.len(),
    ensures
        i <= line_end(s, i) <= s.len(),
    decreases s.len() - i,
{
    if i < s.len() && s[i] != '\n' {
        lemma_line_end_bounds(s, i + 1);
    }
}

/// A run of symbolic characters stays in the text, holds symbolic characters
/// only, and stops at a character that is not symbolic.
pub proof fn lemma_run_end_bounds(s: Seq<char>, i: int)
    requires
        0 <= i <= s.len(),
    ensures
        i <= run_end(s, i) <= s.len(),
        run_end(s, i) < s.len() ==> !symbolic(s[run_end(s, i)]),
        forall|k: int| i <= k < run_end(s, i) ==> symbolic(#[trigger] s[k]),
    decreases s.len() - i,
{
    if i < s.len() && symbolic(s[i]) {
        lemma_run_end_bounds(s, i + 1);
    }
}

/// The first position from `i` on that starts a token: whitespace is passed
/// over, and so is each comment, from its `;` up to the end of its line.
pub open spec fn skip_filler(s: Seq<char>, i: int) -> int
    decreases s.len() - i,
{
    let j = skip_blanks(s, i);
    if 0 <= i && j < s.len() && s[j] == ';' {
        proof {
            if i <= s.len() {
                lemma_skip_blanks_bounds(s, i);
                lemma_line_end_bounds(s, j + 1);
            }
        }
        skip_filler(s, line_end(s, j + 1))
    } else {
        j
    }
}

/// Passing over whitespace and comments stays in the text and stops where a
/// token begins.
pub proof fn lemma_skip_filler_bounds(s: Seq<char>, i: int)
    requires
        0 <= i <= s.len(),
    ensures
        i <= skip_filler(s, i) <= s.len(),
        skip_filler(s, i) < s.len() ==> !blank(s[skip_filler(s, i)]) && s[skip_filler(s, i)]
            != ';',
    decreases s.len() - i,
{
    lemma_skip_blanks_bounds(s, i);
    let j = skip_blanks(s, i);
    if j < s.len() && s[j] == ';' {
        lemma_line_end_bounds(s, j + 1);
        lemma_skip_filler_bounds(s, line_end(s, j + 1));
    }
}

/// The number of newlines before position `i`.
pub open spec fn newlines(s: Seq<char>, i: int) -> nat
    decreases i,
{
    if i <= 0 {
        0
    } else {
        newlines(s, i - 1) + if s[i - 1] == '\n' {
            1nat
        } else {
            0nat
        }
    }
}

/// There are no more newlines before a position than characters.
pub proof fn lemma_newlines_bound(s: Seq<char>, i: int)
    requires
        0 <= i,
    ensures
        newlines(s, i) <= i,
    decreases i,
{
    if i > 0 {
        lemma_newlines_bound(s, i - 1);
    }
}

/// The line of position `i`, counted from 1.
pub open spec fn line_of(s: Seq<char>, i: int) -> usize {
    (newlines(s, i) + 1) as usize
}

/// The number that a decimal digit stands for.
pub open spec fn digit_value(c: char) -> nat {
    (c as u32 - '0' as u32) as nat
}

/// The number that a nonempty run of decimal digits stands for; `None`
/// where the run is empty or holds anything but digits.
pub open spec fn digits_value(t: Seq<char>) -> Option<nat>
    decreases t.len(),
{
    if t.len() == 0 {
        None
    } else if !digit(t.last()) {
        None
    } else if t.len() == 1 {
        Some(digit_value(t.last()))
    } else {
        match digits_value(t.drop_last()) {
            Some(m) => Some(m * 10 + digit_value(t.last())),
            None => None,
        }
    }
}

/// The 32-bit integer that the text spells in decimal: an optional sign,
/// then digits. `None` where the text is no such number or the number does
/// not fit.
pub open spec fn parse_decimal(t: Seq<char>) -> Option<i32> {
    if t.len() > 0 && t[0] == '-' {
        match digits_value(t.drop_first()) {
            Some(m) => if m <= 0x8000_0000 {
                Some((-(m as int)) as i32)
            } else {
                None
            },
            None => None,
        }
    } else if t.len() > 0 && t[0] == '+' {
        match digits_value(t.drop_first()) {
            Some(m) => if m <= 0x7fff_ffff {
                Some(m as i32)
            } else {
                None
            },
            None => None,
        }
    } else {
        match digits_value(t) {
            Some(m) => if m <= 0x7fff_ffff {
                Some(m as i32)
            } else {
                None
            },
            None => None,
        }
    }
}

/// A run of digits stands for at least what any of its beginnings stands
/// for, and a beginning that is no number makes the whole no number.
pub proof fn lemma_digits_prefix(t: Seq<char>, k: int)
    requires
        0 < k <= t.len(),
    ensures
        digits_value(t.take(k)) is None ==> digits_value(t) is None,
        digits_value(t) matches Some(m) ==> digits_value(t.take(k)) matches Some(p) && p <= m,
    decreases t.len() - k,
{
    if k == t.len() {
        assert(t.take(k) == t);
    } else {
        lemma_digits_prefix(t.drop_last(), k);
        assert(t.drop_last().take(k) == t.take(k));
    }
}

/// The kinds of token.
#[derive(Debug)]
pub enum TokenData {
    LeftParen,
    RightParen,
    Dot,
    Int(i32),
    Sym(String),
    Quote,
    Quasiquote,
    Unquote,
    SpliceUnquote,
}

/// The view of a kind of token.
pub enum Lexeme {
    LeftParen,
    RightParen,
    Dot,
    Int(i32),
    Sym(Seq<char>),
    Quote,
    Quasiquote,
    Unquote,
    SpliceUnquote,
}

impl View for TokenData {
    type V = Lexeme;

    open spec fn view(&self) -> Lexeme {
        match self {
            TokenData::LeftParen => Lexeme::LeftParen,
            TokenData::RightParen => Lexeme::RightParen,
            TokenData::Dot => Lexeme::Dot,
            TokenData::Int(n) => Lexeme::Int(*n),
            TokenData::Sym(s) => Lexeme::Sym(s@),
            TokenData::Quote => Lexeme::Quote,
            TokenData::Quasiquote => Lexeme::Quasiquote,
            TokenData::Unquote => Lexeme::Unquote,
            TokenData::SpliceUnquote => Lexeme::SpliceUnquote,
        }
    }
}

impl TokenData {
    /// Whether two kinds of token are the same, payload included.
    pub fn same(&self, other: &TokenData) -> (r: bool)
        ensures
            r == (self@ == other@),
    {
        match (self, other) {
            (TokenData::LeftParen, TokenData::LeftParen) => true,
            (TokenData::RightParen, TokenData::RightParen) => true,
            (TokenData::Dot, TokenData::Dot) => true,
            (TokenData::Int(a), TokenData::Int(b)) => *a == *b,
            (TokenData::Sym(a), TokenData::Sym(b)) => *a == *b,
            (TokenData::Quote, TokenData::Quote) => true,
            (TokenData::Quasiquote, TokenData::Quasiquote) => true,
            (TokenData::Unquote, TokenData::Unquote) => true,
            (TokenData::SpliceUnquote, TokenData::SpliceUnquote) => true,
            _ => false,
        }
    }
}

/// A token and the line it stands on.
#[derive(Debug)]
pub struct Token {
    pub data: TokenData,
    pub line: usize,
}

/// What the tokenizer finds from a position on: the end of the text, a
/// token, or an error. `start` is where the token or the offending text
/// begins, `next` is where the tokenizer goes on.
pub enum Scan {
    End { next: int },
    Token { lexeme: Lexeme, start: int, next: int },
    Fail { fault: Fault, start: int, next: int },
}

impl Scan {
    /// Where the tokenizer goes on.
    pub open spec fn next(self) -> int {
        match self {
            Scan::End { next } => next,
            Scan::Token { next, .. } => next,
            Scan::Fail { next, .. } => next,
        }
    }
}

/// The token that begins at position `j`, which holds neither whitespace
/// nor `;`.
pub open spec fn scan_at(s: Seq<char>, j: int) -> Scan
    recommends
        0 <= j < s.len(),
{
    let c = s[j];
    if c == '(' {
        Scan::Token { lexeme: Lexeme::LeftParen, start: j, next: j + 1 }
    } else if c == ')' {
        Scan::Token { lexeme: Lexeme::RightParen, start: j, next: j + 1 }
    } else if c == '.' {
        Scan::Token { lexeme: Lexeme::Dot, start: j, next: j + 1 }
    } else if c == '\'' {
        Scan::Token { lexeme: Lexeme::Quote, start: j, next: j + 1 }
    } else if c == '`' {
        Scan::Token { lexeme: Lexeme::Quasiquote, start: j, next: j + 1 }
    } else if c == '~' {
        if j + 1 < s.len() && s[j + 1] == '@' {
            Scan::Token { lexeme: Lexeme::SpliceUnquote, start: j, next: j + 2 }
        } else {
            Scan::Token { lexeme: Lexeme::Unquote, start: j, next: j + 1 }
        }
    } else if digit(c) || ((c == '-' || c == '+') && j + 1 < s.len() && digit(s[j + 1])) {
        let k = run_end(s, j + 1);
        match parse_decimal(s.subrange(j, k)) {
            Some(n) => Scan::Token { lexeme: Lexeme::Int(n), start: j, next: k },
            None => Scan::Fail { fault: Fault::ParseInt(s.subrange(j, k)), start: j, next: k },
        }
    } else if symbolic(c) {
        let k = run_end(s, j + 1);
        Scan::Token { lexeme: Lexeme::Sym(s.subrange(j, k)), start: j, next: k }
    } else {
        Scan::Fail { fault: Fault::UnexpectedChar(c), start: j, next: j + 1 }
    }
}

/// What the tokenizer finds from position `i` on, after whitespace and
/// comments.
pub open spec fn scan(s: Seq<char>, i: int) -> Scan {
    let j = skip_filler(s, i);
    if 0 <= j < s.len() {
        scan_at(s, j)
    } else {
        Scan::End { next: j }
    }
}

/// A token takes at least one character, and the tokenizer never leaves
/// the text.
pub proof fn lemma_scan_bounds(s: Seq<char>, i: int)
    requires
        0 <= i <= s.len(),
    ensures
        i <= scan(s, i).next() <= s.len(),
        scan(s, i) matches Scan::Token { start, next, .. } ==> i <= start < next,
        scan(s, i) matches Scan::Fail { start, next, .. } ==> i <= start < next,
        scan(s, i) matches Scan::End { next } ==> next == s.len(),
{
    lemma_skip_filler_bounds(s, i);
    let j = skip_filler(s, i);
    if j < s.len() {
        lemma_run_end_bounds(s, j + 1);
    }
}

/// A position in the text and the number of newlines before it.
#[derive(Debug, Clone, Copy)]
struct Place {
    pos: usize,
    newlines: usize,
}

/// The tokenizer: a text and the position reached in it.
#[derive(Debug)]
pub struct Tokens {
    source: Vec<char>,
    at: Place,
}

/// What `next` hands out for a scan: `None` at the end, else the token or
/// the error with its line; and the position afterwards.
pub open spec fn handed_out(
    r: Option<Result<Token, Error>>,
    offset: int,
    found: Scan,
    s: Seq<char>,
) -> bool {
    match found {
        Scan::End { next } => r is None && offset == next,
        Scan::Token { lexeme, start, next } => r matches Some(Ok(token)) && token.data@ == lexeme
            && token.line == line_of(s, start) && offset == next,
        Scan::Fail { fault, start, next } => r matches Some(Err(e)) && e@ == Failure::of(
            fault,
        ).at(line_of(s, start)) && offset == next,
    }
}

/// The number spelled by `chars[from..to]`, see [`parse_decimal`].
#[verifier::loop_isolation(false)]
fn parse_int(chars: &Vec<char>, from: usize, to: usize) -> (r: Option<i32>)
    requires
        from < to <= chars@.len(),
    ensures
        r == parse_decimal(chars@.subrange(from as int, to as int)),
{
    let ghost t = chars@.subrange(from as int, to as int);
    let negative = chars[from] == '-';
    let signed = negative || chars[from] == '+';
    let first: usize = if signed {
        from + 1
    } else {
        from
    };
    let ghost body = if signed {
        t.drop_first()
    } else {
        t
    };
    assert(body == chars@.subrange(first as int, to as int));
    if first == to {
        return None;
    }
    let limit: u64 = if negative {
        0x8000_0000
    } else {
        0x7fff_ffff
    };
    let mut acc: u64 = 0;
    let mut i: usize = first;
    while i < to
        invariant
            first <= i <= to <= chars@.len(),
            first < to,
            body == chars@.subrange(first as int, to as int),
            acc <= limit <= 0x8000_0000,
            i > first ==> digits_value(body.take(i - first)) == Some(acc as nat),
            i == first ==> acc == 0,
        decreases to - i,
    {
        let c = chars[i];
        assert(body.take(i - first + 1).last() == c);
        assert(body.take(i - first + 1).drop_last() == body.take(i - first));
        proof {
            lemma_digits_prefix(body, i - first + 1);
        }
        if !is_digit(c) {
            return None;
        }
        let d: u64 = (c as u32 - 48) as u64;
        acc = acc * 10 + d;
        if acc > limit {
            return None;
        }
        i = i + 1;
    }
    assert(body.take(to - first) == body);
    if negative {
        Some((-(acc as i64)) as i32)
    } else {
        Some(acc as i32)
    }
}

impl Tokens {
    /// The position lies in the text, and the newlines before it are
    /// counted.
    #[verifier::type_invariant]
    spec fn wf(&self) -> bool {
        self.at.pos <= self.source@.len() && self.at.newlines == newlines(
            self.source@,
            self.at.pos as int,
        )
    }

    /// The text that is being read.
    pub closed spec fn text(&self) -> Seq<char> {
        self.source@
    }

    /// The position reached in the text.
    pub closed spec fn offset(&self) -> int {
        self.at.pos as int
    }

    /// A tokenizer at the start of `source`.
    pub fn new(source: &str) -> (r: Tokens)
        ensures
            r.text() == source@,
            r.offset() == 0,
    {
        let mut chars: Vec<char> = Vec::new();
        let mut it = source.chars();
        loop
            invariant
                chars@ + it.remaining() == source@,
                it.obeys_prophetic_iter_laws(),
                it.decrease() is Some,
            ensures
                chars@ == source@,
            decreases it.decrease()->0,
        {
            match it.next() {
                Some(c) => {
                    chars.push(c);
                },
                None => {
                    assert(chars@ == source@);
                    break ;
                },
            }
        }
        Tokens { source: chars, at: Place { pos: 0, newlines: 0 } }
    }

    /// The position reached in the text.
    pub fn end(&self) -> (r: usize)
        ensures
            r == self.offset(),
            r <= self.text().len(),
    {
        proof {
            use_type_invariant(self);
        }
        self.at.pos
    }

    /// The character at the position, if the text has not ended.
    fn peek(&self) -> (r: Option<char>)
        ensures
            0 <= self.offset() <= self.text().len() <= usize::MAX,
            match r {
                Some(c) => self.offset() < self.text().len() && c == self.text()[self.offset()],
                None => self.offset() == self.text().len(),
            },
    {
        proof {
            use_type_invariant(self);
        }
        if self.at.pos < self.source.len() {
            Some(self.source[self.at.pos])
        } else {
            None
        }
    }

    /// Whether the character at the position is `c`.
    fn peek_char_is(&self, c: char) -> (r: bool)
        ensures
            r == (self.offset() < self.text().len() && self.text()[self.offset()] == c),
    {
        match self.peek() {
            Some(found) => found == c,
            None => false,
        }
    }

    /// Takes the character at the position, if the text has not ended.
    fn next_char(&mut self) -> (r: Option<char>)
        ensures
            final(self).text() == old(self).text(),
            match r {
                Some(c) => old(self).offset() < old(self).text().len() && c == old(self).text()[old(
                    self,
                ).offset()] && final(self).offset() == old(self).offset() + 1,
                None => old(self).offset() == old(self).text().len() && final(self).offset()
                    == old(self).offset(),
            },
    {
        proof {
            use_type_invariant(&*self);
            lemma_newlines_bound(self.source@, self.at.pos as int);
        }
        if self.at.pos < self.source.len() {
            let c = self.source[self.at.pos];
            let newlines = if c == '\n' {
                self.at.newlines + 1
            } else {
                self.at.newlines
            };
            self.at = Place { pos: self.at.pos + 1, newlines };
            Some(c)
        } else {
            None
        }
    }

    /// Passes over whitespace and comments.
    fn skip_filler(&mut self)
        ensures
            final(self).text() == old(self).text(),
            final(self).offset() == skip_filler(old(self).text(), old(self).offset()),
    {
        proof {
            use_type_invariant(&*self);
        }
        loop
            invariant
                self.text() == old(self).text(),
                0 <= self.offset() <= self.text().len(),
                skip_filler(self.text(), self.offset()) == skip_filler(
                    old(self).text(),
                    old(self).offset(),
                ),
            decreases self.text().len() - self.offset(),
        {
            let ghost begin = self.offset();
            loop
                invariant
                    self.text() == old(self).text(),
                    begin <= self.offset() <= self.text().len(),
                    skip_blanks(self.text(), self.offset()) == skip_blanks(self.text(), begin),
                ensures
                    self.offset() == skip_blanks(self.text(), begin),
                decreases self.text().len() - self.offset(),
            {
                match self.peek() {
                    Some(c) => {
                        if is_blank(c) {
                            self.next_char();
                        } else {
                            break ;
                        }
                    },
                    None => {
                        break ;
                    },
                }
            }
            if !self.peek_char_is(';') {
                return ;
            }
            self.next_char();
            let ghost after = self.offset();
            loop
                invariant
                    self.text() == old(self).text(),
                    after <= self.offset() <= self.text().len(),
                    line_end(self.text(), self.offset()) == line_end(self.text(), after),
                ensures
                    self.offset() == line_end(self.text(), after),
                decreases self.text().len() - self.offset(),
            {
                match self.peek() {
                    Some(c) => {
                        if c != '\n' {
                            self.next_char();
                        } else {
                            break ;
                        }
                    },
                    None => {
                        break ;
                    },
                }
            }
        }
    }

    /// Passes over symbolic characters.
    fn skip_run(&mut self)
        ensures
            final(self).text() == old(self).text(),
            final(self).offset() == run_end(old(self).text(), old(self).offset()),
            old(self).offset() <= final(self).offset() <= old(self).text().len(),
    {
        proof {
            use_type_invariant(&*self);
        }
        loop
            invariant
                self.text() == old(self).text(),
                old(self).offset() <= self.offset() <= self.text().len(),
                run_end(self.text(), self.offset()) == run_end(
                    old(self).text(),
                    old(self).offset(),
                ),
            ensures
                self.offset() == run_end(old(self).text(), old(self).offset()),
            decreases self.text().len() - self.offset(),
        {
            match self.peek() {
                Some(c) => {
                    if is_symbolic(c) {
                        self.next_char();
                    } else {
                        break ;
                    }
                },
                None => {
                    break ;
                },
            }
        }
    }

    /// The text from `from` up to the position.
    fn taken(&self, from: usize) -> (r: String)
        requires
            from <= self.offset(),
        ensures
            r@ == self.text().subrange(from as int, self.offset()),
    {
        proof {
            use_type_invariant(self);
        }
        let mut r = String::new();
        let mut i: usize = from;
        while i < self.at.pos
            invariant
                from <= i <= self.at.pos <= self.source@.len(),
                r@ == self.source@.subrange(from as int, i as int),
            decreases self.at.pos - i,
        {
            r.push(self.source[i]);
            i = i + 1;
            assert(r@ == self.source@.subrange(from as int, i as int));
        }
        r
    }

    /// Reads the rest of an integer that began at `start`, on `line`.
    fn read_int(&mut self, start: usize, line: usize) -> (r: Result<Token, Error>)
        requires
            start < old(self).offset(),
        ensures
            final(self).text() == old(self).text(),
            final(self).offset() == run_end(old(self).text(), old(self).offset()),
            match parse_decimal(old(self).text().subrange(start as int, final(self).offset())) {
                Some(n) => r matches Ok(token) && token.data@ == Lexeme::Int(n) && token.line
                    == line,
                None => r matches Err(e) && e@ == Failure::of(
                    Fault::ParseInt(old(self).text().subrange(start as int, final(self).offset())),
                ).at(line),
            },
    {
        self.skip_run();
        proof {
            use_type_invariant(&*self);
        }
        match parse_int(&self.source, start, self.at.pos) {
            Some(n) => Ok(Token { data: TokenData::Int(n), line }),
            None => Err(Error::parse_int(self.taken(start)).at(line)),
        }
    }

    /// Reads the rest of a symbol that began at `start`, on `line`.
    fn read_symbol(&mut self, start: usize, line: usize) -> (r: Token)
        requires
            start < old(self).offset(),
        ensures
            final(self).text() == old(self).text(),
            final(self).offset() == run_end(old(self).text(), old(self).offset()),
            r.data@ == Lexeme::Sym(old(self).text().subrange(start as int, final(self).offset())),
            r.line == line,
    {
        self.skip_run();
        Token { data: TokenData::Sym(self.taken(start)), line }
    }

    /// The next token, without moving on.
    pub fn peek_token(&mut self) -> (r: Option<Result<Token, Error>>)
        ensures
            final(self).text() == old(self).text(),
            final(self).offset() == old(self).offset(),
            handed_out(
                r,
                scan(old(self).text(), old(self).offset()).next(),
                scan(old(self).text(), old(self).offset()),
                old(self).text(),
            ),
    {
        proof {
            use_type_invariant(&*self);
        }
        let at = self.at;
        let r = self.next();
        self.at = at;
        r
    }

    /// The next token, see [`scan`].
    pub fn next(&mut self) -> (r: Option<Result<Token, Error>>)
        ensures
            final(self).text() == old(self).text(),
            handed_out(
                r,
                final(self).offset(),
                scan(old(self).text(), old(self).offset()),
                old(self).text(),
            ),
    {
        self.skip_filler();
        proof {
            use_type_invariant(&*self);
            lemma_newlines_bound(self.source@, self.at.pos as int);
        }
        let start = self.at.pos;
        let c = match self.peek() {
            Some(c) => c,
            None => {
                return None;
            },
        };
        let line = self.at.newlines + 1;
        self.next_char();
        let token = |data: TokenData| -> (t: Token)
            ensures
                t.data == data,
                t.line == line,
            { Token { data, line } };
        if c == '(' {
            Some(Ok(token(TokenData::LeftParen)))
        } else if c == ')' {
            Some(Ok(token(TokenData::RightParen)))
        } else if c == '.' {
            Some(Ok(token(TokenData::Dot)))
        } else if c == '\'' {
            Some(Ok(token(TokenData::Quote)))
        } else if c == '`' {
            Some(Ok(token(TokenData::Quasiquote)))
        } else if c == '~' {
            if self.peek_char_is('@') {
                self.next_char();
                Some(Ok(token(TokenData::SpliceUnquote)))
            } else {
                Some(Ok(token(TokenData::Unquote)))
            }
        } else if is_digit(c) || ((c == '-' || c == '+') && match self.peek() {
            Some(d) => is_digit(d),
            None => false,
        }) {
            Some(self.read_int(start, line))
        } else if is_symbolic(c) {
            Some(Ok(self.read_symbol(start, line)))
        } else {
            Some(Err(Error::unexpected_char(c).at(line)))
        }
    }
}

} // verus!
