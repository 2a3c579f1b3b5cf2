//! Running source text: every top-level form is read, evaluated and
//! printed in turn; and the decisions of an interactive prompt.

use crate::env::{Env, Level, Store};
use crate::error::{spellings, Error, ErrorData, Failure};
use crate::eval::eval;
use crate::reader::{lemma_parse_bounds, parse_form, read, Parse};
use crate::semantics::eval_of;
use crate::text::printed;
use vstd::prelude::*;
use vstd::string::StringExecFns;

verus! {

/// What running a text gave: the printed form of the value of each form
/// that was evaluated, and the error that stopped the run, if one did.
#[derive(Debug)]
pub struct Output {
    pub printed: Vec<String>,
    pub error: Option<Error>,
}

/// The view of a run of a text, with the store afterwards.
pub struct Session {
    pub printed: Seq<Seq<char>>,
    pub store: Seq<Level>,
    pub failure: Option<Failure>,
}

/// Running the forms of `s` from position `i` on, in the scope `env`: each
/// form is read, evaluated with the limit `fuel` and printed, until the
/// text ends or a form fails to read or to evaluate.
pub open spec fn run_of(s: Seq<char>, i: int, env: usize, store: Seq<Level>, fuel: nat) -> Session
    decreases s.len() - i,
    when 0 <= i <= s.len()
{
    match parse_form(s, i) {
        Parse::End { .. } => Session { printed: Seq::empty(), store, failure: None },
        Parse::Fail { failure, .. } => Session {
            printed: Seq::empty(),
            store,
            failure: Some(failure),
        },
        Parse::Form { value, next } => {
            proof {
                lemma_parse_bounds(s, i);
            }
            let run = eval_of(value, env, store, fuel);
            match run.result {
                Err(e) => Session { printed: Seq::empty(), store: run.store, failure: Some(e) },
                Ok(v) => {
                    let rest = run_of(s, next, env, run.store, fuel);
                    Session {
                        printed: seq![printed(v)] + rest.printed,
                        store: rest.store,
                        failure: rest.failure,
                    }
                },
            }
        },
    }
}

/// Whether reading the forms of `s` from position `i` on runs out of text
/// inside a form, before any other error.
pub open spec fn incomplete(s: Seq<char>, i: int) -> bool
    decreases s.len() - i,
    when 0 <= i <= s.len()
{
    match parse_form(s, i) {
        Parse::End { .. } => false,
        Parse::Fail { failure, .. } => failure.fault is UnexpectedEof,
        Parse::Form { next, .. } => {
            proof {
                lemma_parse_bounds(s, i);
            }
            incomplete(s, next)
        },
    }
}

/// The view of an optional error.
pub open spec fn failure_of(error: Option<Error>) -> Option<Failure> {
    match error {
        Some(e) => Some(e@),
        None => None,
    }
}

/// Reads, evaluates and prints every form of `source`, see [`run_of`].
#[verifier::loop_isolation(false)]
pub fn run_source(source: &str, env: &Env, store: &mut Store, fuel: usize) -> (r: Output)
    ensures
        (Session {
            printed: spellings(r.printed@),
            store: final(store)@,
            failure: failure_of(r.error),
        }) == run_of(source@, 0, env.id, old(store)@, fuel as nat),
{
    let ghost goal = run_of(source@, 0, env.id, store@, fuel as nat);
    let mut reader = read(source);
    let mut lines: Vec<String> = Vec::new();
    loop
        invariant
            reader.text() == source@,
            0 <= reader.offset() <= source@.len(),
            ({
                let rest = run_of(source@, reader.offset(), env.id, store@, fuel as nat);
                goal == Session {
                    printed: spellings(lines@) + rest.printed,
                    store: rest.store,
                    failure: rest.failure,
                }
            }),
        decreases source@.len() - reader.offset(),
    {
        proof {
            lemma_parse_bounds(source@, reader.offset());
        }
        let value = match reader.next() {
            None => {
                assert(spellings(lines@) + Seq::<Seq<char>>::empty() == spellings(lines@));
                return Output { printed: lines, error: None };
            },
            Some(Err(err)) => {
                assert(spellings(lines@) + Seq::<Seq<char>>::empty() == spellings(lines@));
                return Output { printed: lines, error: Some(err) };
            },
            Some(Ok(value)) => value,
        };
        let ghost before = spellings(lines@);
        match eval(value, env, store, fuel) {
            Err(err) => {
                assert(spellings(lines@) + Seq::<Seq<char>>::empty() == spellings(lines@));
                return Output { printed: lines, error: Some(err) };
            },
            Ok(result) => {
                lines.push(result.to_text());
                assert(spellings(lines@) == before + seq![printed(result@)]);
                assert forall|tail: Seq<Seq<char>>|
                    spellings(lines@) + tail == before + (seq![printed(result@)] + tail) by {
                    assert(spellings(lines@) + tail =~= before + (seq![printed(result@)] + tail));
                }
            },
        }
    }
}

/// Whether `source` ends inside a form, see [`incomplete`].
#[verifier::loop_isolation(false)]
pub fn needs_more(source: &str) -> (r: bool)
    ensures
        r == incomplete(source@, 0),
{
    let mut reader = read(source);
    loop
        invariant
            reader.text() == source@,
            0 <= reader.offset() <= source@.len(),
            incomplete(source@, reader.offset()) == incomplete(source@, 0),
        decreases source@.len() - reader.offset(),
    {
        proof {
            lemma_parse_bounds(source@, reader.offset());
        }
        match reader.next() {
            None => {
                return false;
            },
            Some(Err(err)) => {
                return matches!(err.data, ErrorData::UnexpectedEof);
            },
            Some(Ok(_)) => {},
        }
    }
}

/// What a command line asks for.
#[derive(Debug)]
pub enum Command {
    /// An interactive prompt.
    Repl,
    /// Run the file at this path.
    File(String),
    /// Run this source text.
    Source(String),
}

/// What the command line `args` asks for, where `args` begins with the name
/// of the program: with no argument a prompt, with one argument the file
/// that it names, with two or more the source text that the second one
/// holds; the first of them is then not looked at.
pub fn command(args: &Vec<String>) -> (r: Command)
    ensures
        match r {
            Command::Repl => args@.len() <= 1,
            Command::File(path) => args@.len() == 2 && path@ == args@[1]@,
            Command::Source(text) => args@.len() >= 3 && text@ == args@[2]@,
        },
{
    if args.len() <= 1 {
        Command::Repl
    } else if args.len() == 2 {
        Command::File(args[1].clone())
    } else {
        Command::Source(args[2].clone())
    }
}

/// What an interactive prompt asks for next.
#[derive(Debug, Clone, Copy, PartialEq, Eq, Structural)]
pub enum Prompt {
    /// A new entry, shown as `> `.
    Fresh,
    /// More lines of the entry begun, shown as two spaces.
    Continuation,
}

impl Prompt {
    /// The text that the prompt shows.
    pub open spec fn shown(self) -> Seq<char> {
        match self {
            Prompt::Fresh => "> "@,
            Prompt::Continuation => "  "@,
        }
    }

    /// The text that the prompt shows: `> ` for a new entry, two spaces for
    /// more lines of the entry begun.
    pub fn text(&self) -> (r: &'static str)
        ensures
            r@ == self.shown(),
    {
        match self {
            Prompt::Fresh => "> ",
            Prompt::Continuation => "  ",
        }
    }
}

/// What an interactive prompt does with one line of input.
#[derive(Debug)]
pub struct Turn {
    pub output: Output,
    pub prompt: Prompt,
}

/// One turn of an interactive prompt: `line` is added to `buffer`, the
/// lines entered so far.
///
/// Where the buffer ends inside a form, nothing is evaluated: the buffer is
/// kept, with a newline added, and the prompt asks for more. Else the
/// buffer is run, what it printed and the error that stopped it are handed
/// out, and the buffer is emptied for a new entry.
pub fn repl_turn(
    buffer: &mut String,
    line: &str,
    env: &Env,
    store: &mut Store,
    fuel: usize,
) -> (r: Turn)
    ensures
        incomplete(old(buffer)@ + line@, 0) ==> {
            &&& r.prompt == Prompt::Continuation
            &&& final(buffer)@ == old(buffer)@ + line@ + seq!['\n']
            &&& final(store)@ == old(store)@
            &&& r.output.printed@.len() == 0
            &&& r.output.error is None
        },
        !incomplete(old(buffer)@ + line@, 0) ==> {
            &&& r.prompt == Prompt::Fresh
            &&& final(buffer)@ == Seq::<char>::empty()
            &&& (Session {
                printed: spellings(r.output.printed@),
                store: final(store)@,
                failure: failure_of(r.output.error),
            }) == run_of(old(buffer)@ + line@, 0, env.id, old(store)@, fuel as nat)
        },
{
    buffer.append(line);
    if needs_more(buffer.as_str()) {
        buffer.push('\n');
        Turn { output: Output { printed: Vec::new(), error: None }, prompt: Prompt::Continuation }
    } else {
        let output = run_source(buffer.as_str(), env, store, fuel);
        *buffer = String::new();
        Turn { output, prompt: Prompt::Fresh }
    }
}

} // verus!
