//! The value model's own operations, exercised through the proxy.

use hobachi::error::Error;
use hobachi::factories::ConstFactory;
use hobachi::proxy::Proxy;
use hobachi::value::{CmpOp, Scalar, Value};

fn chars(s: &str) -> Vec<char> {
    s.chars().collect()
}

fn num(i: i64) -> Value {
    Value::Atom(Scalar::Int(i))
}

fn text(s: &str) -> Value {
    Value::Atom(Scalar::Text(chars(s)))
}

fn over(v: Value) -> Proxy<ConstFactory> {
    Proxy::new(ConstFactory::new(v, chars("f"))).unwrap()
}

#[test]
fn textual_conversion_renders_atoms() {
    assert_eq!(over(num(42)).str_value().unwrap(), chars("42"));
    assert_eq!(over(num(-7)).str_value().unwrap(), chars("-7"));
    assert_eq!(over(num(0)).str_value().unwrap(), chars("0"));
    assert_eq!(
        over(num(i64::MIN)).str_value().unwrap(),
        chars("-9223372036854775808")
    );
    assert_eq!(over(text("ok")).str_value().unwrap(), chars("ok"));
    assert_eq!(
        over(Value::Atom(Scalar::Bool(true))).str_value().unwrap(),
        chars("true")
    );
    assert_eq!(
        over(Value::Atom(Scalar::Unit)).str_value().unwrap(),
        chars("unit")
    );
}

#[test]
fn hashes_are_stable_and_containers_unhashable() {
    assert_eq!(over(num(42)).hash_value().unwrap(), 42);
    assert_eq!(over(num(-3)).hash_value().unwrap(), -3);
    let h1 = over(text("abc")).hash_value().unwrap();
    let h2 = over(text("abc")).hash_value().unwrap();
    assert_eq!(h1, h2);
    assert_eq!(
        over(Value::List(vec![])).hash_value(),
        Err(Error::Unsupported)
    );
}

#[test]
fn comparisons_follow_numeric_and_lexicographic_order() {
    assert_eq!(over(num(1)).richcmp(&num(2), CmpOp::Lt).unwrap(), true);
    assert_eq!(over(num(2)).richcmp(&num(2), CmpOp::Le).unwrap(), true);
    assert_eq!(over(num(2)).richcmp(&num(2), CmpOp::Eq).unwrap(), true);
    assert_eq!(over(num(2)).richcmp(&num(3), CmpOp::Ne).unwrap(), true);
    assert_eq!(over(num(3)).richcmp(&num(2), CmpOp::Gt).unwrap(), true);
    assert_eq!(over(num(2)).richcmp(&num(3), CmpOp::Ge).unwrap(), false);
    assert_eq!(
        over(text("abc")).richcmp(&text("abd"), CmpOp::Lt).unwrap(),
        true
    );
    assert_eq!(
        over(text("ab")).richcmp(&text("abc"), CmpOp::Lt).unwrap(),
        true
    );
    assert_eq!(
        over(text("b")).richcmp(&text("ab"), CmpOp::Lt).unwrap(),
        false
    );
    assert_eq!(
        over(num(1)).richcmp(&text("a"), CmpOp::Eq).unwrap(),
        false
    );
    assert_eq!(
        over(Value::List(vec![])).richcmp(&num(1), CmpOp::Eq),
        Err(Error::Unsupported)
    );
    assert_eq!(
        over(num(1)).richcmp(&text("a"), CmpOp::Lt),
        Err(Error::Unsupported)
    );
}

#[test]
fn addition_concatenates_text_and_lists() {
    assert_eq!(over(num(2)).add_value(&num(3)).unwrap(), num(5));
    assert_eq!(
        over(text("ab")).add_value(&text("cd")).unwrap(),
        text("abcd")
    );
    assert_eq!(
        over(Value::List(vec![Scalar::Int(1)]))
            .add_value(&Value::List(vec![Scalar::Int(2)]))
            .unwrap(),
        Value::List(vec![Scalar::Int(1), Scalar::Int(2)])
    );
    assert_eq!(
        over(num(i64::MAX)).add_value(&num(1)),
        Err(Error::Overflow)
    );
    assert_eq!(over(num(1)).add_value(&text("x")), Err(Error::Unsupported));
}

#[test]
fn subtraction_and_multiplication() {
    assert_eq!(over(num(5)).sub_value(&num(8)).unwrap(), num(-3));
    assert_eq!(over(num(6)).mul_value(&num(7)).unwrap(), num(42));
    assert_eq!(
        over(num(i64::MIN)).sub_value(&num(1)),
        Err(Error::Overflow)
    );
    assert_eq!(
        over(num(i64::MAX)).mul_value(&num(2)),
        Err(Error::Overflow)
    );
}

#[test]
fn true_division_requires_a_whole_quotient() {
    assert_eq!(over(num(10)).true_div_value(&num(2)).unwrap(), num(5));
    assert_eq!(over(num(-10)).true_div_value(&num(2)).unwrap(), num(-5));
    assert_eq!(over(num(10)).true_div_value(&num(4)), Err(Error::Inexact));
    assert_eq!(
        over(num(10)).true_div_value(&num(0)),
        Err(Error::ZeroDivision)
    );
    assert_eq!(
        over(num(i64::MIN)).true_div_value(&num(-1)),
        Err(Error::Overflow)
    );
}

#[test]
fn floor_division_rounds_toward_minus_infinity() {
    assert_eq!(over(num(7)).floor_div_value(&num(2)).unwrap(), num(3));
    assert_eq!(over(num(-7)).floor_div_value(&num(2)).unwrap(), num(-4));
    assert_eq!(over(num(7)).floor_div_value(&num(-2)).unwrap(), num(-4));
    assert_eq!(over(num(-7)).floor_div_value(&num(-2)).unwrap(), num(3));
    assert_eq!(
        over(num(1)).floor_div_value(&num(0)),
        Err(Error::ZeroDivision)
    );
    assert_eq!(
        over(num(i64::MIN)).floor_div_value(&num(-1)),
        Err(Error::Overflow)
    );
}

#[test]
fn shifts_scale_by_powers_of_two() {
    assert_eq!(over(num(1)).lshift_value(&num(3)).unwrap(), num(8));
    assert_eq!(over(num(-2)).lshift_value(&num(2)).unwrap(), num(-8));
    assert_eq!(
        over(num(i64::MAX)).lshift_value(&num(1)),
        Err(Error::Overflow)
    );
    assert_eq!(over(num(1)).lshift_value(&num(-1)), Err(Error::BadShift));
    assert_eq!(over(num(20)).rshift_value(&num(2)).unwrap(), num(5));
    assert_eq!(over(num(-5)).rshift_value(&num(1)).unwrap(), num(-3));
    assert_eq!(over(num(9)).rshift_value(&num(100)).unwrap(), num(0));
    assert_eq!(over(num(-9)).rshift_value(&num(100)).unwrap(), num(-1));
    assert_eq!(over(num(1)).rshift_value(&num(-2)), Err(Error::BadShift));
}

#[test]
fn truthiness_of_each_kind() {
    assert_eq!(over(Value::Atom(Scalar::Unit)).truth_value().unwrap(), false);
    assert_eq!(over(num(0)).truth_value().unwrap(), false);
    assert_eq!(over(num(1)).truth_value().unwrap(), true);
    assert_eq!(over(text("")).truth_value().unwrap(), false);
    assert_eq!(over(text("x")).truth_value().unwrap(), true);
    assert_eq!(over(Value::List(vec![])).truth_value().unwrap(), false);
    assert_eq!(
        over(Value::List(vec![Scalar::Unit])).truth_value().unwrap(),
        true
    );
}

#[test]
fn invocation_is_not_part_of_the_value_model() {
    let mut p = over(num(1));
    assert_eq!(p.call_value(&vec![num(2)]), Err(Error::Unsupported));
}

#[test]
fn operations_through_the_proxy_match_operations_on_the_target() {
    let t = num(10);
    assert_eq!(
        over(t.clone()).add_value(&num(5)),
        hobachi::arith::add(&t, &num(5))
    );
    assert_eq!(
        over(t.clone()).richcmp(&num(3), CmpOp::Lt),
        hobachi::value::compare(CmpOp::Lt, &t, &num(3))
    );
    assert_eq!(over(t.clone()).str_value().unwrap(), hobachi::value::str_of(&t));
    assert_eq!(over(t.clone()).truth_value().unwrap(), hobachi::value::truthy_of(&t));
    let l = nums2(&[1, 2]);
    assert_eq!(
        over(l.clone()).get_item(&num(1)),
        hobachi::items::get_item(&l, &num(1))
    );
}

fn nums2(ns: &[i64]) -> Value {
    Value::List(ns.iter().map(|&n| Scalar::Int(n)).collect())
}
