//! Errors: a tagged kind, an optional source line and an optional cause.

use crate::text::{digits, printed, push_natural};
use crate::value::{Datum, Value};
use vstd::prelude::*;
use vstd::string::StringExecFns;

verus! {

/// What went wrong.
#[derive(Debug)]
pub enum ErrorData {
    /// Reading a file or the terminal failed; holds the message of the
    /// operating system.
    IO(String),
    /// An integer literal that is no 32-bit decimal number.
    ParseInt(String),
    /// A character that starts no token, or a token that starts no form.
    UnexpectedChar(char),
    /// The text ended inside a form.
    UnexpectedEof,
    /// A name that no scope binds.
    UnknownSym(String),
    /// Applying this callee failed; the cause is chained.
    Function(Value),
    /// The value has not the expected shape.
    Cast(Value, String),
    /// Binding arguments to this pattern failed; the cause is chained.
    Bind(Value),
    /// More arguments than the expected number.
    TooManyArgs(usize),
    /// Fewer arguments than the expected number.
    TooFewArgs(usize),
    /// A construct that the reader does not accept.
    Todo(String),
    /// Evaluation nested deeper than its limit allows.
    RecursionLimit,
}

/// The view of [`ErrorData`].
pub enum Fault {
    IO(Seq<char>),
    ParseInt(Seq<char>),
    UnexpectedChar(char),
    UnexpectedEof,
    UnknownSym(Seq<char>),
    Function(Datum),
    Cast(Datum, Seq<char>),
    Bind(Datum),
    TooManyArgs(usize),
    TooFewArgs(usize),
    Todo(Seq<char>),
    RecursionLimit,
}

impl View for ErrorData {
    type V = Fault;

    open spec fn view(&self) -> Fault {
        match self {
            ErrorData::IO(m) => Fault::IO(m@),
            ErrorData::ParseInt(s) => Fault::ParseInt(s@),
            ErrorData::UnexpectedChar(c) => Fault::UnexpectedChar(*c),
            ErrorData::UnexpectedEof => Fault::UnexpectedEof,
            ErrorData::UnknownSym(s) => Fault::UnknownSym(s@),
            ErrorData::Function(v) => Fault::Function(v@),
            ErrorData::Cast(v, t) => Fault::Cast(v@, t@),
            ErrorData::Bind(p) => Fault::Bind(p@),
            ErrorData::TooManyArgs(n) => Fault::TooManyArgs(*n),
            ErrorData::TooFewArgs(n) => Fault::TooFewArgs(*n),
            ErrorData::Todo(m) => Fault::Todo(m@),
            ErrorData::RecursionLimit => Fault::RecursionLimit,
        }
    }
}

/// An error with the line it was found on, if known, and the error that
/// caused it, if any.
#[derive(Debug)]
pub struct Error {
    pub data: ErrorData,
    pub line: Option<usize>,
    pub source: Option<Box<Error>>,
}

/// The view of an [`Error`].
pub struct Failure {
    pub fault: Fault,
    pub line: Option<usize>,
    pub source: Option<Box<Failure>>,
}

impl Failure {
    /// The failure of this kind with no line and no cause.
    pub open spec fn of(fault: Fault) -> Failure {
        Failure { fault, line: None, source: None }
    }

    /// This failure with `cause` as its cause.
    pub open spec fn because(self, cause: Failure) -> Failure {
        Failure { fault: self.fault, line: self.line, source: Some(Box::new(cause)) }
    }

    /// This failure found on `line`.
    pub open spec fn at(self, line: usize) -> Failure {
        Failure { fault: self.fault, line: Some(line), source: self.source }
    }

    /// A mismatch between `v` and the shape named by `expected`.
    pub open spec fn cast(v: Datum, expected: Seq<char>) -> Failure {
        Failure::of(Fault::Cast(v, expected))
    }

    /// The number of failures in the chain of causes, this one included.
    pub open spec fn depth(self) -> nat
        decreases self,
    {
        match self.source {
            Some(cause) => 1 + cause.depth(),
            None => 1,
        }
    }

    /// The failure at the end of the chain of causes.
    pub open spec fn root(self) -> Failure
        decreases self,
    {
        match self.source {
            Some(cause) => cause.root(),
            None => self,
        }
    }

    /// The text of this failure alone: the line, if known, then what the
    /// kind says.
    pub open spec fn message(self) -> Seq<char> {
        let place = match self.line {
            Some(n) => "line "@ + digits(n as nat) + ": "@,
            None => Seq::<char>::empty(),
        };
        place + match self.fault {
            Fault::IO(m) => m,
            Fault::ParseInt(s) => "failed to parse '"@ + s + "' as an int"@,
            Fault::UnexpectedChar(c) => "unexpected char '"@ + seq![c] + "'"@,
            Fault::UnexpectedEof => "unexpected end of input"@,
            Fault::UnknownSym(s) => "unknown symbol '"@ + s + "'"@,
            Fault::Function(v) => "in function '"@ + printed(v) + "'"@,
            Fault::Cast(v, t) => "type error: '"@ + printed(v) + "' is not "@ + t,
            Fault::Bind(p) => "cannot bind '"@ + printed(p) + "'"@,
            Fault::TooManyArgs(n) => "too many arguments, expected "@ + digits(n as nat),
            Fault::TooFewArgs(n) => "too few arguments, expected "@ + digits(n as nat),
            Fault::Todo(m) => "unsupported: "@ + m,
            Fault::RecursionLimit => "recursion limit reached"@,
        }
    }

    /// The messages of the chain of causes, this failure's first.
    pub open spec fn report(self) -> Seq<Seq<char>>
        decreases self,
    {
        match self.source {
            Some(cause) => seq![self.message()] + cause.report(),
            None => seq![self.message()],
        }
    }
}

impl View for Error {
    type V = Failure;

    open spec fn view(&self) -> Failure
        decreases self,
    {
        Failure {
            fault: self.data@,
            line: self.line,
            source: match self.source {
                Some(cause) => Some(Box::new((*cause).view())),
                None => None,
            },
        }
    }
}

impl Error {
    /// The error of this kind with no line and no cause.
    pub fn new(data: ErrorData) -> (r: Error)
        ensures
            r@ == Failure::of(data@),
    {
        Error { data, line: None, source: None }
    }

    /// Reading a file or the terminal failed with `message`.
    pub fn io(message: String) -> (r: Error)
        ensures
            r@ == Failure::of(Fault::IO(message@)),
    {
        Error::new(ErrorData::IO(message))
    }

    /// The text `s` is no 32-bit decimal number.
    pub fn parse_int(s: String) -> (r: Error)
        ensures
            r@ == Failure::of(Fault::ParseInt(s@)),
    {
        Error::new(ErrorData::ParseInt(s))
    }

    /// The character `c` begins no token, or the token it spells begins no form.
    pub fn unexpected_char(c: char) -> (r: Error)
        ensures
            r@ == Failure::of(Fault::UnexpectedChar(c)),
    {
        Error::new(ErrorData::UnexpectedChar(c))
    }

    /// The text ended inside a form.
    pub fn unexpected_eof() -> (r: Error)
        ensures
            r@ == Failure::of(Fault::UnexpectedEof),
    {
        Error::new(ErrorData::UnexpectedEof)
    }

    /// No scope binds `sym`.
    pub fn unknown_sym(sym: String) -> (r: Error)
        ensures
            r@ == Failure::of(Fault::UnknownSym(sym@)),
    {
        Error::new(ErrorData::UnknownSym(sym))
    }

    /// Applying the callee `value` failed.
    pub fn function(value: Value) -> (r: Error)
        ensures
            r@ == Failure::of(Fault::Function(value@)),
    {
        Error::new(ErrorData::Function(value))
    }

    /// The value `v` has not the shape that `t` names.
    pub fn cast(v: Value, t: String) -> (r: Error)
        ensures
            r@ == Failure::cast(v@, t@),
    {
        Error::new(ErrorData::Cast(v, t))
    }

    /// Binding arguments to the pattern `params` failed.
    pub fn bind(params: Value) -> (r: Error)
        ensures
            r@ == Failure::of(Fault::Bind(params@)),
    {
        Error::new(ErrorData::Bind(params))
    }

    /// More arguments than the `n` expected.
    pub fn too_many_args(n: usize) -> (r: Error)
        ensures
            r@ == Failure::of(Fault::TooManyArgs(n)),
    {
        Error::new(ErrorData::TooManyArgs(n))
    }

    /// Fewer arguments than the `n` expected.
    pub fn too_few_args(n: usize) -> (r: Error)
        ensures
            r@ == Failure::of(Fault::TooFewArgs(n)),
    {
        Error::new(ErrorData::TooFewArgs(n))
    }

    /// A construct that the reader does not accept, described by `msg`.
    pub fn todo(msg: String) -> (r: Error)
        ensures
            r@ == Failure::of(Fault::Todo(msg@)),
    {
        Error::new(ErrorData::Todo(msg))
    }

    /// Evaluation nested deeper than its limit allows.
    pub fn recursion_limit() -> (r: Error)
        ensures
            r@ == Failure::of(Fault::RecursionLimit),
    {
        Error::new(ErrorData::RecursionLimit)
    }

    /// This error with `err` chained as its cause, in place of any earlier
    /// cause.
    pub fn source(self, err: Error) -> (r: Error)
        ensures
            r@ == self@.because(err@),
    {
        Error { data: self.data, line: self.line, source: Some(Box::new(err)) }
    }

    /// This error marked as found on `line`.
    pub fn at(self, line: usize) -> (r: Error)
        ensures
            r@ == self@.at(line),
    {
        Error { data: self.data, line: Some(line), source: self.source }
    }

    /// The error that caused this one, if any.
    pub fn cause(&self) -> (r: Option<&Error>)
        ensures
            match r {
                Some(c) => self@.source == Some(Box::new(c@)),
                None => self@.source is None,
            },
    {
        match &self.source {
            Some(cause) => Some(&**cause),
            None => None,
        }
    }

    /// The error at the end of the chain of causes.
    pub fn root(&self) -> (r: &Error)
        ensures
            r@ == self@.root(),
    {
        let mut cur: &Error = self;
        loop
            invariant
                cur@.root() == self@.root(),
            ensures
                cur@ == self@.root(),
            decreases cur@.depth(),
        {
            match &cur.source {
                Some(cause) => {
                    cur = &**cause;
                },
                None => {
                    break ;
                },
            }
        }
        cur
    }

    /// The text of this error alone, see [`Failure::message`].
    pub fn message(&self) -> (r: String)
        ensures
            r@ == self@.message(),
    {
        let mut out = String::new();
        match self.line {
            Some(n) => {
                out.append("line ");
                push_natural(n as u64, &mut out);
                out.append(": ");
            },
            None => {},
        }
        let ghost place = out@;
        match &self.data {
            ErrorData::IO(m) => {
                out.append(m.as_str());
            },
            ErrorData::ParseInt(s) => {
                out.append("failed to parse '");
                out.append(s.as_str());
                out.append("' as an int");
            },
            ErrorData::UnexpectedChar(c) => {
                out.append("unexpected char '");
                out.push(*c);
                out.append("'");
            },
            ErrorData::UnexpectedEof => {
                out.append("unexpected end of input");
            },
            ErrorData::UnknownSym(s) => {
                out.append("unknown symbol '");
                out.append(s.as_str());
                out.append("'");
            },
            ErrorData::Function(v) => {
                out.append("in function '");
                v.write(&mut out);
                out.append("'");
            },
            ErrorData::Cast(v, t) => {
                out.append("type error: '");
                v.write(&mut out);
                out.append("' is not ");
                out.append(t.as_str());
            },
            ErrorData::Bind(p) => {
                out.append("cannot bind '");
                p.write(&mut out);
                out.append("'");
            },
            ErrorData::TooManyArgs(n) => {
                out.append("too many arguments, expected ");
                push_natural(*n as u64, &mut out);
            },
            ErrorData::TooFewArgs(n) => {
                out.append("too few arguments, expected ");
                push_natural(*n as u64, &mut out);
            },
            ErrorData::Todo(m) => {
                out.append("unsupported: ");
                out.append(m.as_str());
            },
            ErrorData::RecursionLimit => {
                out.append("recursion limit reached");
            },
        }
        assert(out@ == self@.message());
        out
    }
}

/// The view of a result that holds a value.
pub open spec fn outcome(r: Result<Value, Error>) -> Result<Datum, Failure> {
    match r {
        Ok(v) => Ok(v@),
        Err(e) => Err(e@),
    }
}

/// The view of a result that borrows a value.
pub open spec fn outcome_ref(r: Result<&Value, Error>) -> Result<Datum, Failure> {
    match r {
        Ok(v) => Ok(v@),
        Err(e) => Err(e@),
    }
}

/// The view of a result that holds nothing.
pub open spec fn outcome_unit(r: Result<(), Error>) -> Result<(), Failure> {
    match r {
        Ok(_) => Ok(()),
        Err(e) => Err(e@),
    }
}

/// The spellings of a list of strings.
pub open spec fn spellings(lines: Seq<String>) -> Seq<Seq<char>> {
    lines.map_values(|s: String| s@)
}

/// The lines that tell of an error: its message, then the message of each
/// cause down the chain.
pub fn report(err: &Error) -> (lines: Vec<String>)
    ensures
        spellings(lines@) == err@.report(),
{
    let mut lines: Vec<String> = Vec::new();
    let mut cur: &Error = err;
    loop
        invariant_except_break
            spellings(lines@) + cur@.report() == err@.report(),
        ensures
            spellings(lines@) == err@.report(),
        decreases cur@.depth(),
    {
        lines.push(cur.message());
        match &cur.source {
            Some(cause) => {
                assert(spellings(lines@) + cause@.report() == err@.report());
                cur = &**cause;
            },
            None => {
                assert(spellings(lines@) == err@.report());
                break ;
            },
        }
    }
    lines
}

} // verus!
