//! Container access, attributes and iteration through the proxy.

use hobachi::error::Error;
use hobachi::factories::ConstFactory;
use hobachi::proxy::{extract, Proxy};
use hobachi::value::{Attr, Scalar, Value};

fn chars(s: &str) -> Vec<char> {
    s.chars().collect()
}

fn num(i: i64) -> Value {
    Value::Atom(Scalar::Int(i))
}

fn over(v: Value) -> Proxy<ConstFactory> {
    Proxy::new(ConstFactory::new(v, chars("f"))).unwrap()
}

fn nums(ns: &[i64]) -> Value {
    Value::List(ns.iter().map(|&n| Scalar::Int(n)).collect())
}

#[test]
fn length_of_lists_and_text() {
    assert_eq!(over(nums(&[4, 5, 6])).len_value().unwrap(), 3);
    assert_eq!(
        over(Value::Atom(Scalar::Text(chars("abcd")))).len_value().unwrap(),
        4
    );
    assert_eq!(over(num(1)).len_value(), Err(Error::Unsupported));
}

#[test]
fn item_reads_support_negative_indices() {
    let mut p = over(nums(&[4, 5, 6]));
    assert_eq!(p.get_item(&num(0)).unwrap(), num(4));
    assert_eq!(p.get_item(&num(2)).unwrap(), num(6));
    assert_eq!(p.get_item(&num(-1)).unwrap(), num(6));
    assert_eq!(p.get_item(&num(-3)).unwrap(), num(4));
    assert_eq!(p.get_item(&num(3)), Err(Error::BadIndex));
    assert_eq!(p.get_item(&num(-4)), Err(Error::BadIndex));
    assert_eq!(
        p.get_item(&Value::Atom(Scalar::Unit)),
        Err(Error::Unsupported)
    );
}

#[test]
fn item_writes_and_removals_land_in_the_target() {
    let mut p = over(nums(&[4, 5, 6]));
    p.set_item(&num(-1), &num(60)).unwrap();
    assert_eq!(extract(&mut p).unwrap(), &nums(&[4, 5, 60]));
    p.del_item(&num(0)).unwrap();
    assert_eq!(extract(&mut p).unwrap(), &nums(&[5, 60]));
    assert_eq!(p.del_item(&num(5)), Err(Error::BadIndex));
    assert_eq!(extract(&mut p).unwrap(), &nums(&[5, 60]));
    assert_eq!(p.factory_ref().hits(), 1);
}

#[test]
fn membership_compares_content() {
    let mut p = over(nums(&[4, 5, 6]));
    assert_eq!(p.contains_value(&num(5)).unwrap(), true);
    assert_eq!(p.contains_value(&num(7)).unwrap(), false);
    assert_eq!(p.contains_value(&nums(&[4])).unwrap(), false);
    let mut q = over(num(1));
    assert_eq!(q.contains_value(&num(1)), Err(Error::Unsupported));
}

#[test]
fn iteration_walks_a_snapshot() {
    let mut p = over(nums(&[1, 2]));
    let it = p.iter_value().unwrap();
    let mut q = over(it);
    assert_eq!(q.next_value().unwrap(), num(1));
    assert_eq!(q.next_value().unwrap(), num(2));
    assert_eq!(q.next_value(), Err(Error::Exhausted));
    assert_eq!(q.next_value(), Err(Error::Exhausted));
    // iterating an iterator hands it back as it stands
    let mut r = over(Value::Iter(vec![Scalar::Int(9)], 0));
    assert_eq!(r.iter_value().unwrap(), Value::Iter(vec![Scalar::Int(9)], 0));
    assert_eq!(r.next_value().unwrap(), num(9));
    // a plain atom is not iterable
    assert_eq!(over(num(1)).iter_value(), Err(Error::Unsupported));
    assert_eq!(over(num(1)).next_value(), Err(Error::Unsupported));
}

#[test]
fn attributes_read_write_and_delete() {
    let obj = Value::Obj(vec![Attr { name: chars("size"), val: Scalar::Int(1) }]);
    let mut p = over(obj);
    assert_eq!(p.get_attr(&chars("size")).unwrap(), num(1));
    assert_eq!(p.get_attr(&chars("missing")), Err(Error::NoAttribute));
    p.set_attr(&chars("size"), &num(2)).unwrap();
    assert_eq!(p.get_attr(&chars("size")).unwrap(), num(2));
    p.set_attr(&chars("kind"), &Value::Atom(Scalar::Text(chars("box"))))
        .unwrap();
    assert_eq!(
        p.get_attr(&chars("kind")).unwrap(),
        Value::Atom(Scalar::Text(chars("box")))
    );
    p.del_attr(&chars("size")).unwrap();
    assert_eq!(p.get_attr(&chars("size")), Err(Error::NoAttribute));
    assert_eq!(p.del_attr(&chars("size")), Err(Error::NoAttribute));
    assert_eq!(p.factory_ref().hits(), 1);
}

#[test]
fn attributes_only_live_on_objects() {
    let mut p = over(num(1));
    assert_eq!(p.get_attr(&chars("size")), Err(Error::Unsupported));
    assert_eq!(p.set_attr(&chars("size"), &num(1)), Err(Error::Unsupported));
    assert_eq!(p.del_attr(&chars("size")), Err(Error::Unsupported));
}
