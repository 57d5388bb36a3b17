//! The closed value model the proxy forwards to: atoms (unit, booleans,
//! integers, text), lists of atoms, list iterators, and objects with named
//! attributes. Every operation category the proxy supports is defined here
//! as a function on values, with a spec-level mirror that the proxy's
//! contracts quote, so that an operation on the proxy provably agrees with
//! the same operation on the target itself.

use vstd::prelude::*;
use vstd::string::*;
use crate::error::Error;
use crate::text;

verus! {

/// An atomic value: the kinds a container may hold.
#[derive(Debug, PartialEq, Eq)]
pub enum Scalar {
    Unit,
    Bool(bool),
    Int(i64),
    Text(Vec<char>),
}

/// Spec-level form of a scalar.
pub enum ScalarV {
    Unit,
    Bool(bool),
    Int(int),
    Text(Seq<char>),
}

impl View for Scalar {
    type V = ScalarV;

    open spec fn view(&self) -> ScalarV {
        match self {
            Scalar::Unit => ScalarV::Unit,
            Scalar::Bool(b) => ScalarV::Bool(*b),
            Scalar::Int(i) => ScalarV::Int(*i as int),
            Scalar::Text(t) => ScalarV::Text(t@),
        }
    }
}

impl Clone for Scalar {
    /// Produces a scalar with the same view.
    fn clone(&self) -> (r: Scalar)
        ensures
            r@ == self@,
    {
        match self {
            Scalar::Unit => Scalar::Unit,
            Scalar::Bool(b) => Scalar::Bool(*b),
            Scalar::Int(i) => Scalar::Int(*i),
            Scalar::Text(t) => {
                let c = t.clone();
                proof {
                    assert(c@ =~= t@);
                }
                Scalar::Text(c)
            },
        }
    }
}

/// A named attribute of an object value.
#[derive(Debug, PartialEq, Eq)]
pub struct Attr {
    pub name: Vec<char>,
    pub val: Scalar,
}

/// Spec-level form of an attribute.
pub struct AttrV {
    pub name: Seq<char>,
    pub val: ScalarV,
}

impl View for Attr {
    type V = AttrV;

    open spec fn view(&self) -> AttrV {
        AttrV { name: self.name@, val: self.val@ }
    }
}

impl Clone for Attr {
    /// Produces an attribute with the same view.
    fn clone(&self) -> (r: Attr)
        ensures
            r@ == self@,
    {
        let n = self.name.clone();
        proof {
            assert(n@ =~= self.name@);
        }
        Attr { name: n, val: self.val.clone() }
    }
}

/// The views of a sequence of scalars.
pub open spec fn scalars_view(l: Seq<Scalar>) -> Seq<ScalarV> {
    l.map_values(|s: Scalar| s@)
}

/// The views of a sequence of attributes.
pub open spec fn attrs_view(l: Seq<Attr>) -> Seq<AttrV> {
    l.map_values(|x: Attr| x@)
}

/// A value of the model.
#[derive(Debug, PartialEq, Eq)]
pub enum Value {
    /// An atom.
    Atom(Scalar),
    /// A list of atoms.
    List(Vec<Scalar>),
    /// An iterator over a snapshot of a list: the items and a cursor.
    Iter(Vec<Scalar>, usize),
    /// An object carrying named attributes.
    Obj(Vec<Attr>),
}

/// Spec-level form of a value.
pub enum ValueV {
    Atom(ScalarV),
    List(Seq<ScalarV>),
    Iter(Seq<ScalarV>, int),
    Obj(Seq<AttrV>),
}

impl View for Value {
    type V = ValueV;

    open spec fn view(&self) -> ValueV {
        match self {
            Value::Atom(s) => ValueV::Atom(s@),
            Value::List(l) => ValueV::List(scalars_view(l@)),
            Value::Iter(l, p) => ValueV::Iter(scalars_view(l@), *p as int),
            Value::Obj(a) => ValueV::Obj(attrs_view(a@)),
        }
    }
}

/// Copies every scalar of `v`, keeping the view.
pub fn clone_scalars(v: &Vec<Scalar>) -> (r: Vec<Scalar>)
    ensures
        scalars_view(r@) == scalars_view(v@),
{
    let c = v.clone();
    proof {
        assert forall|i: int| 0 <= i < c@.len() implies c@[i]@ == v@[i]@ by {
            assert(cloned::<Scalar>(v@[i], c@[i]));
        }
        assert(scalars_view(c@) =~= scalars_view(v@));
    }
    c
}

/// Copies every attribute of `v`, keeping the view.
pub fn clone_attrs(v: &Vec<Attr>) -> (r: Vec<Attr>)
    ensures
        attrs_view(r@) == attrs_view(v@),
{
    let c = v.clone();
    proof {
        assert forall|i: int| 0 <= i < c@.len() implies c@[i]@ == v@[i]@ by {
            assert(cloned::<Attr>(v@[i], c@[i]));
        }
        assert(attrs_view(c@) =~= attrs_view(v@));
    }
    c
}

impl Clone for Value {
    /// Produces a value with the same view.
    fn clone(&self) -> (r: Value)
        ensures
            r@ == self@,
    {
        match self {
            Value::Atom(s) => Value::Atom(s.clone()),
            Value::List(l) => Value::List(clone_scalars(l)),
            Value::Iter(l, p) => Value::Iter(clone_scalars(l), *p),
            Value::Obj(a) => Value::Obj(clone_attrs(a)),
        }
    }
}

/// Whether an integer fits the model's machine integer range.
pub open spec fn in_i64(x: int) -> bool {
    i64::MIN <= x <= i64::MAX
}

/// The view of an operation result: the produced value's view on success,
/// the error unchanged on failure.
pub open spec fn res_view(r: Result<Value, Error>) -> Result<ValueV, Error> {
    match r {
        Ok(v) => Ok(v@),
        Err(e) => Err(e),
    }
}

/// Boolean coercion: the unit atom, zero, empty text and the empty list are
/// false; every other value is true.
pub open spec fn truthy_spec(v: ValueV) -> bool {
    match v {
        ValueV::Atom(ScalarV::Unit) => false,
        ValueV::Atom(ScalarV::Bool(b)) => b,
        ValueV::Atom(ScalarV::Int(i)) => i != 0,
        ValueV::Atom(ScalarV::Text(t)) => t.len() > 0,
        ValueV::List(l) => l.len() > 0,
        ValueV::Iter(_, _) => true,
        ValueV::Obj(_) => true,
    }
}

/// Boolean coercion of a value.
pub fn truthy_of(v: &Value) -> (r: bool)
    ensures
        r == truthy_spec(v@),
{
    match v {
        Value::Atom(Scalar::Unit) => false,
        Value::Atom(Scalar::Bool(b)) => *b,
        Value::Atom(Scalar::Int(i)) => *i != 0,
        Value::Atom(Scalar::Text(t)) => t.len() > 0,
        Value::List(l) => l.len() > 0,
        Value::Iter(_, _) => true,
        Value::Obj(_) => true,
    }
}

/// Length: defined for lists and for text; every other kind has none.
pub open spec fn len_spec(v: ValueV) -> Result<int, Error> {
    match v {
        ValueV::List(l) => Ok(l.len() as int),
        ValueV::Atom(ScalarV::Text(t)) => Ok(t.len() as int),
        _ => Err(Error::Unsupported),
    }
}

/// Length of a value.
pub fn len_of(v: &Value) -> (r: Result<usize, Error>)
    ensures
        match r {
            Ok(n) => len_spec(v@) == Ok::<int, Error>(n as int),
            Err(e) => len_spec(v@) == Err::<int, Error>(e),
        },
{
    match v {
        Value::List(l) => Ok(l.len()),
        Value::Atom(Scalar::Text(t)) => Ok(t.len()),
        _ => Err(Error::Unsupported),
    }
}

/// The human-readable text of a scalar.
pub open spec fn scalar_text(s: ScalarV) -> Seq<char> {
    match s {
        ScalarV::Unit => "unit"@,
        ScalarV::Bool(b) => if b {
            "true"@
        } else {
            "false"@
        },
        ScalarV::Int(i) => text::int_dec(i),
        ScalarV::Text(t) => t,
    }
}

/// The human-readable text of a value. Containers keep a fixed short form:
/// rendering does not descend into their items.
pub open spec fn str_spec(v: ValueV) -> Seq<char> {
    match v {
        ValueV::Atom(s) => scalar_text(s),
        ValueV::List(_) => "[...]"@,
        ValueV::Iter(_, _) => "<iterator>"@,
        ValueV::Obj(_) => "<object>"@,
    }
}

/// Collects the characters of a string slice.
pub fn text_of(s: &str) -> (r: Vec<char>)
    ensures
        r@ == s@,
{
    let n = s.unicode_len();
    let mut r: Vec<char> = Vec::new();
    let mut i: usize = 0;
    while i < n
        invariant
            i <= n,
            n == s@.len(),
            r@ == s@.subrange(0, i as int),
        decreases n - i,
    {
        r.push(s.get_char(i));
        proof {
            assert(s@.subrange(0, i + 1 as int) =~= s@.subrange(0, i as int).push(s@[i as int]));
        }
        i += 1;
    }
    proof {
        assert(s@.subrange(0, s@.len() as int) =~= s@);
    }
    r
}

/// The human-readable text of a scalar.
pub fn scalar_text_of(s: &Scalar) -> (r: Vec<char>)
    ensures
        r@ == scalar_text(s@),
{
    match s {
        Scalar::Unit => text_of("unit"),
        Scalar::Bool(b) => if *b {
            text_of("true")
        } else {
            text_of("false")
        },
        Scalar::Int(i) => text::int_text(*i),
        Scalar::Text(t) => {
            let c = t.clone();
            proof {
                assert(c@ =~= t@);
            }
            c
        },
    }
}

/// The human-readable text of a value.
pub fn str_of(v: &Value) -> (r: Vec<char>)
    ensures
        r@ == str_spec(v@),
{
    match v {
        Value::Atom(s) => scalar_text_of(s),
        Value::List(_) => text_of("[...]"),
        Value::Iter(_, _) => text_of("<iterator>"),
        Value::Obj(_) => text_of("<object>"),
    }
}

/// A deterministic hash: defined for atoms alone; containers and objects
/// are unhashable.
pub open spec fn hash_spec(v: ValueV) -> Result<int, Error> {
    match v {
        ValueV::Atom(ScalarV::Unit) => Ok(0),
        ValueV::Atom(ScalarV::Bool(b)) => Ok(if b {
            1int
        } else {
            0int
        }),
        ValueV::Atom(ScalarV::Int(i)) => Ok(i),
        ValueV::Atom(ScalarV::Text(t)) => Ok(text::text_hash(t)),
        _ => Err(Error::Unsupported),
    }
}

/// Hash of a value.
pub fn hash_of(v: &Value) -> (r: Result<i64, Error>)
    ensures
        match r {
            Ok(h) => hash_spec(v@) == Ok::<int, Error>(h as int),
            Err(e) => hash_spec(v@) == Err::<int, Error>(e),
        },
{
    match v {
        Value::Atom(Scalar::Unit) => Ok(0),
        Value::Atom(Scalar::Bool(b)) => Ok(if *b {
            1
        } else {
            0
        }),
        Value::Atom(Scalar::Int(i)) => Ok(*i),
        Value::Atom(Scalar::Text(t)) => {
            let h = text::hash_text(t);
            Ok(h as i64)
        },
        _ => Err(Error::Unsupported),
    }
}

/// The six relational comparisons the proxy forwards.
#[derive(Clone, Copy, Debug, PartialEq, Eq, Structural)]
pub enum CmpOp {
    Lt,
    Le,
    Eq,
    Ne,
    Gt,
    Ge,
}

/// Strict order: defined for two integers and for two texts
/// (lexicographically); every other pairing is unordered.
pub open spec fn lt_spec(a: ValueV, b: ValueV) -> Result<bool, Error> {
    match (a, b) {
        (ValueV::Atom(ScalarV::Int(x)), ValueV::Atom(ScalarV::Int(y))) => Ok(x < y),
        (ValueV::Atom(ScalarV::Text(x)), ValueV::Atom(ScalarV::Text(y))) => Ok(
            text::lex_lt(x, y),
        ),
        _ => Err(Error::Unsupported),
    }
}

/// Equality and inequality are defined between atoms; the remaining four
/// comparisons follow `lt_spec`, with `a <= b` meaning `!(b < a)`.
pub open spec fn cmp_spec(op: CmpOp, a: ValueV, b: ValueV) -> Result<bool, Error> {
    match op {
        CmpOp::Eq => if a is Atom && b is Atom {
            Ok(a == b)
        } else {
            Err(Error::Unsupported)
        },
        CmpOp::Ne => if a is Atom && b is Atom {
            Ok(a != b)
        } else {
            Err(Error::Unsupported)
        },
        CmpOp::Lt => lt_spec(a, b),
        CmpOp::Gt => lt_spec(b, a),
        CmpOp::Le => match lt_spec(b, a) {
            Ok(x) => Ok(!x),
            Err(e) => Err(e),
        },
        CmpOp::Ge => match lt_spec(a, b) {
            Ok(x) => Ok(!x),
            Err(e) => Err(e),
        },
    }
}

/// Whether two scalars hold the same content.
pub fn scalar_eq(a: &Scalar, b: &Scalar) -> (r: bool)
    ensures
        r == (a@ == b@),
{
    match (a, b) {
        (Scalar::Unit, Scalar::Unit) => true,
        (Scalar::Bool(x), Scalar::Bool(y)) => *x == *y,
        (Scalar::Int(x), Scalar::Int(y)) => *x == *y,
        (Scalar::Text(x), Scalar::Text(y)) => text::text_eq(x, y),
        _ => false,
    }
}

/// Strict order on two values.
fn lt_of(a: &Value, b: &Value) -> (r: Result<bool, Error>)
    ensures
        r == lt_spec(a@, b@),
{
    match (a, b) {
        (Value::Atom(Scalar::Int(x)), Value::Atom(Scalar::Int(y))) => Ok(*x < *y),
        (Value::Atom(Scalar::Text(x)), Value::Atom(Scalar::Text(y))) => Ok(text::text_lt(x, y)),
        _ => Err(Error::Unsupported),
    }
}

/// One of the six relational comparisons of two values.
pub fn compare(op: CmpOp, a: &Value, b: &Value) -> (r: Result<bool, Error>)
    ensures
        r == cmp_spec(op, a@, b@),
{
    match op {
        CmpOp::Eq => match (a, b) {
            (Value::Atom(x), Value::Atom(y)) => Ok(scalar_eq(x, y)),
            _ => Err(Error::Unsupported),
        },
        CmpOp::Ne => match (a, b) {
            (Value::Atom(x), Value::Atom(y)) => Ok(!scalar_eq(x, y)),
            _ => Err(Error::Unsupported),
        },
        CmpOp::Lt => lt_of(a, b),
        CmpOp::Gt => lt_of(b, a),
        CmpOp::Le => match lt_of(b, a) {
            Ok(x) => Ok(!x),
            Err(e) => Err(e),
        },
        CmpOp::Ge => match lt_of(a, b) {
            Ok(x) => Ok(!x),
            Err(e) => Err(e),
        },
    }
}

} // verus!
