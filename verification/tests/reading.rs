use bao::error::{Error, ErrorData};
use bao::reader::read;
use bao::value::Value;

fn sym(name: &str) -> Value {
    Value::sym(name.to_string())
}

fn list(items: Vec<Value>) -> Value {
    let mut out = Value::Nil;
    for item in items.into_iter().rev() {
        out = Value::cons(item, out);
    }
    out
}

fn one(source: &str) -> Value {
    let mut reader = read(source);
    let v = reader.next().expect("a form").expect("no error");
    assert!(reader.next().is_none(), "more than one form in {:?}", source);
    v
}

fn fails(source: &str) -> Error {
    let mut reader = read(source);
    match reader.next() {
        Some(Err(e)) => e,
        other => panic!("no error for {:?}: {:?}", source, other),
    }
}

#[test]
fn reads_atoms() {
    assert!(one("42").same(&Value::Int(42)));
    assert!(one("-7").same(&Value::Int(-7)));
    assert!(one("foo").same(&sym("foo")));
    assert!(one("nil").same(&sym("nil")));
}

#[test]
fn reads_proper_lists() {
    assert!(one("()").same(&Value::Nil));
    assert!(one("( )").same(&Value::Nil));
    assert!(one("(a)").same(&list(vec![sym("a")])));
    assert!(one("(+ 1 2)").same(&list(vec![sym("+"), Value::Int(1), Value::Int(2)])));
    assert!(one("(a (b (c)) ())").same(&list(vec![
        sym("a"),
        list(vec![sym("b"), list(vec![sym("c")])]),
        Value::Nil
    ])));
}

#[test]
fn reads_dotted_pairs() {
    assert!(one("(a . b)").same(&Value::cons(sym("a"), sym("b"))));
    assert!(one("(a b . c)").same(&Value::cons(sym("a"), Value::cons(sym("b"), sym("c")))));
    assert!(one("(a . (b c))").same(&list(vec![sym("a"), sym("b"), sym("c")])));
    assert!(one("(a . ())").same(&list(vec![sym("a")])));
    assert!(one("(. a)").same(&sym("a")));
}

#[test]
fn reader_macros_become_applications() {
    assert!(one("'x").same(&list(vec![sym("quote"), sym("x")])));
    assert!(one("`x").same(&list(vec![sym("quasiquote"), sym("x")])));
    assert!(one("~x").same(&list(vec![sym("unquote"), sym("x")])));
    assert!(one("~@x").same(&list(vec![sym("splice-unquote"), sym("x")])));
    assert!(one("'(1 2)").same(&list(vec![sym("quote"), list(vec![Value::Int(1), Value::Int(2)])])));
    assert!(one("''a").same(&list(vec![sym("quote"), list(vec![sym("quote"), sym("a")])])));
    assert_eq!(one("`(a ~b ~@c)").to_text(), "(quasiquote (a (unquote b) (splice-unquote c)))");
}

#[test]
fn reads_forms_one_after_another() {
    let mut reader = read("1 (2 3) four ; done\n");
    assert_eq!(reader.position(), 0);
    assert!(reader.next().unwrap().unwrap().same(&Value::Int(1)));
    assert_eq!(reader.position(), 1);
    assert_eq!(reader.next().unwrap().unwrap().to_text(), "(2 3)");
    assert_eq!(reader.position(), 7);
    assert!(reader.next().unwrap().unwrap().same(&sym("four")));
    assert_eq!(reader.position(), 12);
    assert!(reader.next().is_none());
    assert_eq!(reader.position(), 20);
    assert!(reader.next().is_none());
}

#[test]
fn empty_text_holds_no_form() {
    assert!(read("").next().is_none());
    assert!(read("  \n ; nothing\n").next().is_none());
}

#[test]
fn end_of_text_inside_a_list() {
    for source in ["(", "(a", "(a b", "((a)", "(a (b)", "(a .", "(a . b", "'", "`", "~", "~@", "'(", "(a '"] {
        let e = fails(source);
        assert!(matches!(e.data, ErrorData::UnexpectedEof), "{:?}: {:?}", source, e);
        assert_eq!(e.line, None);
    }
}

#[test]
fn closing_parenthesis_begins_no_form() {
    let e = fails(")");
    assert!(matches!(e.data, ErrorData::UnexpectedChar(')')));
    assert_eq!(e.line, Some(1));
    let e = fails("\n\n  )");
    assert!(matches!(e.data, ErrorData::UnexpectedChar(')')));
    assert_eq!(e.line, Some(3));
    let e = fails("')");
    assert!(matches!(e.data, ErrorData::UnexpectedChar(')')));
}

#[test]
fn dot_begins_no_form() {
    let e = fails(". a");
    assert!(matches!(e.data, ErrorData::UnexpectedChar('.')));
    assert_eq!(e.line, Some(1));
    let e = fails("(a . . b)");
    assert!(matches!(&e.data, ErrorData::Todo(msg) if msg == "unexpected token"));
}

#[test]
fn dotted_tail_must_be_closed() {
    let e = fails("(a . b c)");
    match &e.data {
        ErrorData::Todo(msg) => assert_eq!(msg, "unexpected token"),
        other => panic!("{:?}", other),
    }
    assert_eq!(e.line, Some(1));
    let e = fails("(a .\n b\n (c))");
    assert!(matches!(e.data, ErrorData::Todo(_)));
    assert_eq!(e.line, Some(3));
}

#[test]
fn closing_a_dotted_tail_comes_before_its_error() {
    let e = fails("(a . )");
    assert!(matches!(e.data, ErrorData::UnexpectedEof));
    let e = fails("(a . ))");
    assert!(matches!(e.data, ErrorData::UnexpectedChar(')')));
}

#[test]
fn tokenizer_errors_pass_through_the_reader() {
    let e = fails("(a 12x)");
    assert!(matches!(&e.data, ErrorData::ParseInt(s) if s == "12x"));
    assert_eq!(e.line, Some(1));
    let e = fails("(a\n [b])");
    assert!(matches!(e.data, ErrorData::UnexpectedChar('[')));
    assert_eq!(e.line, Some(2));
    let e = fails("'#");
    assert!(matches!(e.data, ErrorData::UnexpectedChar('#')));
}

#[test]
fn reading_goes_on_after_an_error() {
    let mut reader = read(") a");
    assert!(matches!(reader.next(), Some(Err(_))));
    assert!(reader.next().unwrap().unwrap().same(&sym("a")));
    assert!(reader.next().is_none());
}

#[test]
fn printed_values_read_back() {
    let values = vec![
        Value::Int(0),
        Value::Int(-5),
        Value::Int(i32::MIN),
        Value::Int(i32::MAX),
        sym("a"),
        sym("nil"),
        sym("+"),
        sym("-"),
        sym("-x"),
        sym("a.b~c@d"),
        sym("λ"),
        list(vec![Value::Int(1), Value::Int(2)]),
        list(vec![sym("quote"), sym("x")]),
        Value::cons(sym("a"), sym("b")),
        Value::cons(Value::Int(1), Value::cons(Value::Int(-2), Value::Int(3))),
        list(vec![list(vec![list(vec![sym("deep")])]), sym("x"), list(vec![Value::Int(1), sym("y")])]),
    ];
    for v in values {
        let text = v.to_text();
        let mut reader = read(&text);
        let back = reader.next().expect("a form").expect("no error");
        assert!(back.same(&v), "{}", text);
        assert_eq!(reader.position(), text.chars().count());
        assert!(reader.next().is_none());
    }
}

#[test]
fn nil_alone_reads_back_as_a_symbol() {
    let text = Value::Nil.to_text();
    assert!(one(&text).same(&sym("nil")));
    let text = list(vec![Value::Nil]).to_text();
    assert!(one(&text).same(&list(vec![sym("nil")])));
}

#[test]
fn names_that_are_no_symbols_do_not_read_back() {
    assert!(one(&sym("12").to_text()).same(&Value::Int(12)));
    assert!(one(&sym("-3").to_text()).same(&Value::Int(-3)));
    assert!(read(&sym("").to_text()).next().is_none());
    assert_eq!(one(&sym("~a").to_text()).to_text(), "(unquote a)");
    assert!(matches!(read(&sym(".").to_text()).next(), Some(Err(_))));
    let mut reader = read("a b");
    assert!(reader.next().unwrap().unwrap().same(&sym("a")));
    assert!(!one("a").same(&sym("a b")));
}
