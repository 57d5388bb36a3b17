//! Non-resolving inspection and the isolation of the proxy's own slots.

use hobachi::error::Error;
use hobachi::factories::ConstFactory;
use hobachi::proxy::{extract, is_resolved, Proxy};
use hobachi::value::{Scalar, Value};

fn chars(s: &str) -> Vec<char> {
    s.chars().collect()
}

fn num(i: i64) -> Value {
    Value::Atom(Scalar::Int(i))
}

#[test]
fn is_resolved_does_not_invoke_the_factory() {
    let f = ConstFactory::new(num(1), chars("counted"));
    let p = Proxy::new(f).unwrap();
    assert!(!is_resolved(&p));
    assert!(!is_resolved(&p));
    assert_eq!(p.factory_ref().hits(), 0);
}

#[test]
fn debug_form_of_fresh_proxy_does_not_resolve() {
    let f = ConstFactory::new(num(5), chars("maker"));
    let p = Proxy::new(f).unwrap();
    assert_eq!(p.repr_value(), chars("<Proxy with factory maker>"));
    assert!(!is_resolved(&p));
    assert_eq!(p.factory_ref().hits(), 0);
}

#[test]
fn debug_form_of_resolved_proxy_shows_target() {
    let f = ConstFactory::new(num(5), chars("maker"));
    let mut p = Proxy::new(f).unwrap();
    let _ = extract(&mut p).unwrap();
    assert_eq!(
        p.repr_value(),
        chars("<Proxy wrapping 5 with factory maker>")
    );
    assert_eq!(p.factory_ref().hits(), 1);
}

#[test]
fn reading_internal_slots_never_reaches_the_target() {
    let f = ConstFactory::new(
        Value::Obj(vec![hobachi::value::Attr {
            name: chars("__factory__"),
            val: Scalar::Int(1),
        }]),
        chars("f"),
    );
    let mut p = Proxy::new(f).unwrap();
    assert_eq!(p.get_attr(&chars("__factory__")), Err(Error::NoAttribute));
    assert_eq!(p.get_attr(&chars("__target__")), Err(Error::NoAttribute));
    // the guard answered without resolving anything
    assert!(!is_resolved(&p));
    assert_eq!(p.factory_ref().hits(), 0);
}

#[test]
fn writing_internal_slots_never_corrupts_the_proxy() {
    let f = ConstFactory::new(Value::Obj(vec![]), chars("f"));
    let mut p = Proxy::new(f).unwrap();
    assert_eq!(
        p.set_attr(&chars("__target__"), &num(3)),
        Err(Error::NoAttribute)
    );
    assert_eq!(p.del_attr(&chars("__factory__")), Err(Error::NoAttribute));
    assert!(!is_resolved(&p));
    assert_eq!(p.factory_ref().hits(), 0);
    // ordinary attributes still forward, and the proxy still works
    p.set_attr(&chars("size"), &num(3)).unwrap();
    assert_eq!(p.get_attr(&chars("size")).unwrap(), num(3));
    assert_eq!(
        extract(&mut p).unwrap(),
        &Value::Obj(vec![hobachi::value::Attr {
            name: chars("size"),
            val: Scalar::Int(3),
        }])
    );
}

#[test]
fn factory_accessor_is_dedicated_and_non_forwarded() {
    let f = ConstFactory::new(num(2), chars("tagged"));
    let p = Proxy::new(f).unwrap();
    // reading the factory goes through its own accessor, not the
    // attribute path, and resolves nothing
    assert_eq!(p.factory_ref().hits(), 0);
    assert!(!is_resolved(&p));
}
