//! End-to-end scenarios of the lazy proxy.

use hobachi::error::Error;
use hobachi::factories::{ConstFactory, FlakyFactory, NeverCallable};
use hobachi::proxy::{extract, is_resolved, resolve, Proxy};
use hobachi::value::{CmpOp, Scalar, Value};

fn chars(s: &str) -> Vec<char> {
    s.chars().collect()
}

fn num(i: i64) -> Value {
    Value::Atom(Scalar::Int(i))
}

#[test]
fn lazy_int_resolves_once() {
    let f = ConstFactory::new(num(42), chars("f"));
    let mut p = Proxy::new(f).unwrap();
    assert!(!is_resolved(&p));
    assert_eq!(p.factory_ref().hits(), 0);
    assert_eq!(extract(&mut p).unwrap(), &num(42));
    assert!(is_resolved(&p));
    assert_eq!(p.factory_ref().hits(), 1);
}

#[test]
fn list_item_write_shows_through_extract() {
    let items = vec![Scalar::Int(1), Scalar::Int(2), Scalar::Int(3)];
    let f = ConstFactory::new(Value::List(items), chars("f"));
    let mut p = Proxy::new(f).unwrap();
    assert_eq!(p.len_value().unwrap(), 3);
    assert_eq!(p.get_item(&num(0)).unwrap(), num(1));
    p.set_item(&num(0), &num(9)).unwrap();
    let got = extract(&mut p).unwrap();
    assert_eq!(
        got,
        &Value::List(vec![Scalar::Int(9), Scalar::Int(2), Scalar::Int(3)])
    );
    assert_eq!(p.factory_ref().hits(), 1);
}

#[test]
fn flaky_factory_retries_then_succeeds() {
    let f = FlakyFactory::new(
        Value::Atom(Scalar::Text(chars("ok"))),
        Error::ZeroDivision,
        1,
        chars("f"),
    );
    let mut p = Proxy::new(f).unwrap();
    assert_eq!(p.str_value(), Err(Error::ZeroDivision));
    assert!(!is_resolved(&p));
    assert_eq!(p.str_value().unwrap(), chars("ok"));
    assert!(is_resolved(&p));
    assert_eq!(p.factory_ref().hits(), 2);
}

#[test]
fn non_callable_factory_is_rejected_at_construction() {
    match Proxy::new(NeverCallable) {
        Err(e) => assert_eq!(e, Error::NotCallable),
        Ok(_) => panic!("a non-callable factory must be rejected"),
    }
}

#[test]
fn arithmetic_comparison_and_truth_forward() {
    let f = ConstFactory::new(num(10), chars("f"));
    let mut p = Proxy::new(f).unwrap();
    assert_eq!(p.add_value(&num(5)).unwrap(), num(15));
    assert_eq!(p.richcmp(&num(100), CmpOp::Lt).unwrap(), true);
    assert_eq!(p.truth_value().unwrap(), true);
    assert_eq!(p.factory_ref().hits(), 1);
}

#[test]
fn resolve_prewarms_for_side_effect() {
    let f = ConstFactory::new(num(7), chars("f"));
    let mut p = Proxy::new(f).unwrap();
    resolve(&mut p).unwrap();
    assert!(is_resolved(&p));
    assert_eq!(p.factory_ref().hits(), 1);
    resolve(&mut p).unwrap();
    assert_eq!(p.factory_ref().hits(), 1);
}

#[test]
fn factory_runs_at_most_once_across_many_operations() {
    let f = ConstFactory::new(num(3), chars("f"));
    let mut p = Proxy::new(f).unwrap();
    let _ = p.str_value().unwrap();
    let _ = p.hash_value().unwrap();
    let _ = p.truth_value().unwrap();
    let _ = p.add_value(&num(1)).unwrap();
    let _ = p.richcmp(&num(4), CmpOp::Le).unwrap();
    let _ = extract(&mut p).unwrap();
    assert_eq!(p.factory_ref().hits(), 1);
}

#[test]
fn flaky_factory_keeps_failing_until_spent() {
    let f = FlakyFactory::new(num(1), Error::Overflow, 3, chars("f"));
    let mut p = Proxy::new(f).unwrap();
    assert_eq!(p.truth_value(), Err(Error::Overflow));
    assert_eq!(p.truth_value(), Err(Error::Overflow));
    assert_eq!(p.truth_value(), Err(Error::Overflow));
    assert!(!is_resolved(&p));
    assert_eq!(p.truth_value().unwrap(), true);
    assert!(is_resolved(&p));
    assert_eq!(p.factory_ref().hits(), 4);
    assert_eq!(p.truth_value().unwrap(), true);
    assert_eq!(p.factory_ref().hits(), 4);
}
