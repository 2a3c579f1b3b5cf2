use bao::cast;
use bao::env::Env;
use bao::error::{Error, ErrorData};
use bao::value::{Fn, Primitive, Value};

fn sym(name: &str) -> Value {
    Value::sym(name.to_string())
}

fn list(items: Vec<Value>) -> Value {
    let mut out = Value::Nil;
    for item in items.into_iter().rev() {
        out = Value::cons(item, out);
    }
    out
}

fn is_cast(e: &Error, value: &str, expected: &str) -> bool {
    match &e.data {
        ErrorData::Cast(v, t) => v.to_text() == value && t == expected && e.source.is_none() && e.line.is_none(),
        _ => false,
    }
}

#[test]
fn as_int_gives_the_number() {
    assert_eq!(*cast::as_int(&Value::Int(5)).unwrap(), 5);
    assert_eq!(*cast::as_int(&Value::Int(-5)).unwrap(), -5);
    assert!(is_cast(&cast::as_int(&sym("5")).unwrap_err(), "5", "an int"));
    assert!(is_cast(&cast::as_int(&Value::Nil).unwrap_err(), "nil", "an int"));
    assert!(is_cast(&cast::as_int(&list(vec![Value::Int(1)])).unwrap_err(), "(1)", "an int"));
}

#[test]
fn sym_gives_the_name() {
    assert_eq!(cast::sym(&sym("abc")).unwrap(), "abc");
    assert!(is_cast(&cast::sym(&Value::Int(1)).unwrap_err(), "1", "a sym"));
    assert!(is_cast(&cast::sym(&Value::Nil).unwrap_err(), "nil", "a sym"));
}

#[test]
fn pair_gives_the_cell() {
    let v = Value::cons(Value::Int(1), Value::Int(2));
    let p = cast::pair(&v).unwrap();
    assert!(p.car().same(&Value::Int(1)));
    assert!(p.cdr().same(&Value::Int(2)));
    assert!(is_cast(&cast::pair(&Value::Nil).unwrap_err(), "nil", "a pair"));
    assert!(is_cast(&cast::pair(&sym("p")).unwrap_err(), "p", "a pair"));
}

#[test]
fn function_gives_the_function() {
    let v = Value::primitive(Primitive::Sub);
    assert!(matches!(cast::function(&v).unwrap(), Fn::Primitive(Primitive::Sub)));
    let m = Value::as_macro(Fn::Primitive(Primitive::Sub));
    assert!(matches!(cast::function(&m).unwrap(), Fn::Primitive(Primitive::Sub)));
    let c = Value::closure(Value::Nil, list(vec![Value::Nil]), Env { id: 0 });
    assert!(matches!(cast::function(&c).unwrap(), Fn::Closure(_)));
    assert!(is_cast(&cast::function(&Value::Int(1)).unwrap_err(), "1", "a fn"));
    assert!(is_cast(&cast::function(&sym("car")).unwrap_err(), "car", "a fn"));
}

#[test]
fn car_and_cdr_select_the_slots() {
    let v = list(vec![Value::Int(1), Value::Int(2), Value::Int(3)]);
    assert!(cast::car(&v).unwrap().same(&Value::Int(1)));
    assert_eq!(cast::cdr(&v).unwrap().to_text(), "(2 3)");
    assert!(cast::cadr(&v).unwrap().same(&Value::Int(2)));
    assert_eq!(cast::cddr(&v).unwrap().to_text(), "(3)");
}

#[test]
fn car_and_cdr_fail_on_atoms() {
    assert!(is_cast(&cast::car(&Value::Nil).unwrap_err(), "nil", "a pair"));
    assert!(is_cast(&cast::cdr(&Value::Nil).unwrap_err(), "nil", "a pair"));
    assert!(is_cast(&cast::car(&Value::Int(9)).unwrap_err(), "9", "a pair"));
    assert!(is_cast(&cast::cdr(&sym("x")).unwrap_err(), "x", "a pair"));
}

#[test]
fn cadr_and_cddr_name_the_slot_that_failed() {
    let one = list(vec![Value::Int(1)]);
    assert!(is_cast(&cast::cadr(&one).unwrap_err(), "nil", "a pair"));
    assert!(is_cast(&cast::cddr(&one).unwrap_err(), "nil", "a pair"));
    let dotted = Value::cons(Value::Int(1), Value::Int(2));
    assert!(is_cast(&cast::cadr(&dotted).unwrap_err(), "2", "a pair"));
    assert!(is_cast(&cast::cddr(&dotted).unwrap_err(), "2", "a pair"));
    assert!(is_cast(&cast::cadr(&Value::Int(7)).unwrap_err(), "7", "a pair"));
    assert!(is_cast(&cast::cddr(&Value::Int(7)).unwrap_err(), "7", "a pair"));
}
