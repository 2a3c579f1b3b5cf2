use bao::error::{report, Error, ErrorData};
use bao::value::{Primitive, Value};

fn sym(name: &str) -> Value {
    Value::sym(name.to_string())
}

#[test]
fn constructors_set_the_kind_only() {
    let all = vec![
        Error::io("gone".to_string()),
        Error::parse_int("1x".to_string()),
        Error::unexpected_char('#'),
        Error::unexpected_eof(),
        Error::unknown_sym("x".to_string()),
        Error::function(sym("f")),
        Error::cast(Value::Nil, "a pair".to_string()),
        Error::bind(sym("p")),
        Error::too_many_args(2),
        Error::too_few_args(3),
        Error::todo("later".to_string()),
        Error::recursion_limit(),
        Error::new(ErrorData::UnexpectedEof),
    ];
    for e in &all {
        assert!(e.line.is_none());
        assert!(e.source.is_none());
        assert!(e.cause().is_none());
    }
    assert!(matches!(&all[0].data, ErrorData::IO(m) if m == "gone"));
    assert!(matches!(&all[1].data, ErrorData::ParseInt(s) if s == "1x"));
    assert!(matches!(all[2].data, ErrorData::UnexpectedChar('#')));
    assert!(matches!(all[3].data, ErrorData::UnexpectedEof));
    assert!(matches!(&all[4].data, ErrorData::UnknownSym(s) if s == "x"));
    assert!(matches!(&all[5].data, ErrorData::Function(v) if v.to_text() == "f"));
    assert!(matches!(&all[6].data, ErrorData::Cast(v, t) if v.is_nil() && t == "a pair"));
    assert!(matches!(&all[7].data, ErrorData::Bind(v) if v.to_text() == "p"));
    assert!(matches!(all[8].data, ErrorData::TooManyArgs(2)));
    assert!(matches!(all[9].data, ErrorData::TooFewArgs(3)));
    assert!(matches!(&all[10].data, ErrorData::Todo(m) if m == "later"));
    assert!(matches!(all[11].data, ErrorData::RecursionLimit));
    assert!(matches!(all[12].data, ErrorData::UnexpectedEof));
}

#[test]
fn messages_of_every_kind() {
    assert_eq!(Error::io("No such file".to_string()).message(), "No such file");
    assert_eq!(Error::parse_int("12abc".to_string()).message(), "failed to parse '12abc' as an int");
    assert_eq!(Error::unexpected_char('#').message(), "unexpected char '#'");
    assert_eq!(Error::unexpected_char('é').message(), "unexpected char 'é'");
    assert_eq!(Error::unexpected_eof().message(), "unexpected end of input");
    assert_eq!(Error::unknown_sym("foo".to_string()).message(), "unknown symbol 'foo'");
    assert_eq!(Error::function(sym("car")).message(), "in function 'car'");
    assert_eq!(
        Error::function(Value::primitive(Primitive::Car)).message(),
        "in function '<primitive: Car>'"
    );
    assert_eq!(
        Error::cast(Value::cons(Value::Int(1), Value::Int(2)), "an int".to_string()).message(),
        "type error: '(1 . 2)' is not an int"
    );
    assert_eq!(Error::bind(Value::cons(sym("a"), Value::Nil)).message(), "cannot bind '(a)'");
    assert_eq!(Error::too_many_args(2).message(), "too many arguments, expected 2");
    assert_eq!(Error::too_few_args(10).message(), "too few arguments, expected 10");
    assert_eq!(Error::too_few_args(0).message(), "too few arguments, expected 0");
    assert_eq!(Error::todo("unexpected token".to_string()).message(), "unsupported: unexpected token");
    assert_eq!(Error::recursion_limit().message(), "recursion limit reached");
}

#[test]
fn message_begins_with_the_line() {
    assert_eq!(Error::unexpected_char(')').at(3).message(), "line 3: unexpected char ')'");
    assert_eq!(Error::unexpected_eof().at(120).message(), "line 120: unexpected end of input");
    assert_eq!(
        Error::too_few_args(usize::MAX).at(1).message(),
        format!("line 1: too few arguments, expected {}", usize::MAX)
    );
}

#[test]
fn at_sets_the_line_and_keeps_the_rest() {
    let e = Error::unknown_sym("x".to_string()).source(Error::unexpected_eof()).at(7);
    assert_eq!(e.line, Some(7));
    assert!(matches!(&e.data, ErrorData::UnknownSym(s) if s == "x"));
    assert!(matches!(e.cause().unwrap().data, ErrorData::UnexpectedEof));
    let moved = e.at(9);
    assert_eq!(moved.line, Some(9));
}

#[test]
fn source_chains_a_cause() {
    let e = Error::function(sym("f")).source(Error::too_few_args(1));
    assert!(matches!(&e.data, ErrorData::Function(_)));
    assert!(matches!(e.cause().unwrap().data, ErrorData::TooFewArgs(1)));
    assert!(e.cause().unwrap().cause().is_none());
}

#[test]
fn source_replaces_an_earlier_cause() {
    let e = Error::function(sym("f")).at(2).source(Error::too_few_args(1)).source(Error::unexpected_eof());
    assert!(matches!(e.cause().unwrap().data, ErrorData::UnexpectedEof));
    assert_eq!(e.line, Some(2));
}

#[test]
fn root_is_the_end_of_the_chain() {
    let plain = Error::unexpected_eof();
    assert!(matches!(plain.root().data, ErrorData::UnexpectedEof));
    let chained = Error::function(sym("f")).source(Error::bind(sym("p")).source(Error::too_many_args(4)));
    assert!(matches!(chained.root().data, ErrorData::TooManyArgs(4)));
    assert!(matches!(chained.cause().unwrap().root().data, ErrorData::TooManyArgs(4)));
}

#[test]
fn report_walks_the_chain() {
    assert_eq!(report(&Error::unexpected_eof()), vec!["unexpected end of input"]);
    let chained = Error::function(sym("f"))
        .source(Error::bind(Value::cons(sym("x"), Value::Nil)).source(Error::too_many_args(1).at(4)));
    assert_eq!(
        report(&chained),
        vec!["in function 'f'", "cannot bind '(x)'", "line 4: too many arguments, expected 1"]
    );
}
