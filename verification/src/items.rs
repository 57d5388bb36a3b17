//! Container access, attribute access, iteration and invocation of the
//! value model, each with an exact spec-level mirror.

use vstd::prelude::*;
use vstd::pervasive::VecAdditionalExecFns;
use core::mem::swap;
use crate::error::Error;
use crate::text;
use crate::value::{
    Attr, AttrV, Scalar, ScalarV, Value, ValueV, res_view, clone_scalars, scalars_view,
    attrs_view,
};

verus! {

/// The effective index of `i` in a container of `n` items: a negative
/// index counts from the end.
pub open spec fn norm_index(i: int, n: int) -> int {
    if i < 0 {
        i + n
    } else {
        i
    }
}

/// Item read: defined for a list and an integer key.
pub open spec fn get_item_spec(v: ValueV, k: ValueV) -> Result<ValueV, Error> {
    match (v, k) {
        (ValueV::List(l), ValueV::Atom(ScalarV::Int(i))) => {
            let j = norm_index(i, l.len() as int);
            if 0 <= j < l.len() {
                Ok(ValueV::Atom(l[j]))
            } else {
                Err(Error::BadIndex)
            }
        },
        _ => Err(Error::Unsupported),
    }
}

/// Reads an item of a container.
pub fn get_item(v: &Value, k: &Value) -> (r: Result<Value, Error>)
    ensures
        res_view(r) == get_item_spec(v@, k@),
{
    match (v, k) {
        (Value::List(l), Value::Atom(Scalar::Int(i))) => {
            let n = l.len();
            if *i >= 0 {
                if (*i as u128) < (n as u128) {
                    Ok(Value::Atom(l[*i as usize].clone()))
                } else {
                    Err(Error::BadIndex)
                }
            } else {
                let j = (*i as i128) + (n as i128);
                if j >= 0 {
                    Ok(Value::Atom(l[j as usize].clone()))
                } else {
                    Err(Error::BadIndex)
                }
            }
        },
        _ => Err(Error::Unsupported),
    }
}

/// Item write: defined for a list, an integer key and an atom; the new
/// container is the old one with that slot replaced.
pub open spec fn set_item_spec(v: ValueV, k: ValueV, x: ValueV) -> Result<ValueV, Error> {
    match (v, k, x) {
        (ValueV::List(l), ValueV::Atom(ScalarV::Int(i)), ValueV::Atom(s)) => {
            let j = norm_index(i, l.len() as int);
            if 0 <= j < l.len() {
                Ok(ValueV::List(l.update(j, s)))
            } else {
                Err(Error::BadIndex)
            }
        },
        _ => Err(Error::Unsupported),
    }
}

/// Writes an item of a container in place. On failure the container is
/// unchanged.
pub fn set_item(v: &mut Value, k: &Value, x: &Value) -> (r: Result<(), Error>)
    ensures
        match r {
            Ok(()) => set_item_spec(old(v)@, k@, x@) == Ok::<ValueV, Error>(final(v)@),
            Err(e) => set_item_spec(old(v)@, k@, x@) == Err::<ValueV, Error>(e) && final(v)@
                == old(v)@,
        },
{
    let mut tmp = Value::Atom(Scalar::Unit);
    swap(v, &mut tmp);
    match (tmp, k, x) {
        (Value::List(mut l), Value::Atom(Scalar::Int(i)), Value::Atom(s)) => {
            let ghost oldl = scalars_view(l@);
            let n = l.len();
            let j: usize;
            if *i >= 0 {
                if (*i as u128) < (n as u128) {
                    j = *i as usize;
                } else {
                    *v = Value::List(l);
                    return Err(Error::BadIndex);
                }
            } else {
                let jj = (*i as i128) + (n as i128);
                if jj >= 0 {
                    j = jj as usize;
                } else {
                    *v = Value::List(l);
                    return Err(Error::BadIndex);
                }
            }
            let sc = s.clone();
            l.set(j, sc);
            proof {
                assert(scalars_view(l@) =~= oldl.update(j as int, s@));
            }
            *v = Value::List(l);
            Ok(())
        },
        (t, _, _) => {
            *v = t;
            Err(Error::Unsupported)
        },
    }
}

/// Item removal: defined for a list and an integer key; the new container
/// is the old one without that slot.
pub open spec fn del_item_spec(v: ValueV, k: ValueV) -> Result<ValueV, Error> {
    match (v, k) {
        (ValueV::List(l), ValueV::Atom(ScalarV::Int(i))) => {
            let j = norm_index(i, l.len() as int);
            if 0 <= j < l.len() {
                Ok(ValueV::List(l.remove(j)))
            } else {
                Err(Error::BadIndex)
            }
        },
        _ => Err(Error::Unsupported),
    }
}

/// Removes an item of a container in place. On failure the container is
/// unchanged.
pub fn del_item(v: &mut Value, k: &Value) -> (r: Result<(), Error>)
    ensures
        match r {
            Ok(()) => del_item_spec(old(v)@, k@) == Ok::<ValueV, Error>(final(v)@),
            Err(e) => del_item_spec(old(v)@, k@) == Err::<ValueV, Error>(e) && final(v)@ == old(
                v,
            )@,
        },
{
    let mut tmp = Value::Atom(Scalar::Unit);
    swap(v, &mut tmp);
    match (tmp, k) {
        (Value::List(mut l), Value::Atom(Scalar::Int(i))) => {
            let ghost oldl = scalars_view(l@);
            let n = l.len();
            let j: usize;
            if *i >= 0 {
                if (*i as u128) < (n as u128) {
                    j = *i as usize;
                } else {
                    *v = Value::List(l);
                    return Err(Error::BadIndex);
                }
            } else {
                let jj = (*i as i128) + (n as i128);
                if jj >= 0 {
                    j = jj as usize;
                } else {
                    *v = Value::List(l);
                    return Err(Error::BadIndex);
                }
            }
            l.remove(j);
            proof {
                assert(scalars_view(l@) =~= oldl.remove(j as int));
            }
            *v = Value::List(l);
            Ok(())
        },
        (t, _) => {
            *v = t;
            Err(Error::Unsupported)
        },
    }
}

/// Membership: defined for a list; an atom is a member when some slot
/// holds the same content, and no other value can be a member.
pub open spec fn contains_spec(v: ValueV, x: ValueV) -> Result<bool, Error> {
    match v {
        ValueV::List(l) => Ok(
            match x {
                ValueV::Atom(s) => l.contains(s),
                _ => false,
            },
        ),
        _ => Err(Error::Unsupported),
    }
}

/// Membership test.
pub fn contains(v: &Value, x: &Value) -> (r: Result<bool, Error>)
    ensures
        r == contains_spec(v@, x@),
{
    match v {
        Value::List(l) => {
            match x {
                Value::Atom(s) => {
                    let mut i: usize = 0;
                    while i < l.len()
                        invariant
                            i <= l.len(),
                            v@ == ValueV::List(scalars_view(l@)),
                            x@ == ValueV::Atom(s@),
                            forall|j: int| 0 <= j < i ==> scalars_view(l@)[j] != s@,
                        decreases l.len() - i,
                    {
                        if crate::value::scalar_eq(&l[i], s) {
                            proof {
                                assert(scalars_view(l@)[i as int] == s@);
                                assert(scalars_view(l@).contains(s@));
                            }
                            return Ok(true);
                        }
                        i += 1;
                    }
                    proof {
                        assert(!scalars_view(l@).contains(s@));
                    }
                    Ok(false)
                },
                _ => Ok(false),
            }
        },
        _ => Err(Error::Unsupported),
    }
}

/// Obtaining an iterator: a list yields an iterator over a snapshot of its
/// items at the start; an iterator yields itself unchanged.
pub open spec fn iter_spec(v: ValueV) -> Result<ValueV, Error> {
    match v {
        ValueV::List(l) => Ok(ValueV::Iter(l, 0)),
        ValueV::Iter(l, p) => Ok(ValueV::Iter(l, p)),
        _ => Err(Error::Unsupported),
    }
}

/// Obtains an iterator from a value.
pub fn iter_of(v: &Value) -> (r: Result<Value, Error>)
    ensures
        res_view(r) == iter_spec(v@),
{
    match v {
        Value::List(l) => Ok(Value::Iter(clone_scalars(l), 0)),
        Value::Iter(l, p) => Ok(Value::Iter(clone_scalars(l), *p)),
        _ => Err(Error::Unsupported),
    }
}

/// Advancing an iterator: the pair of the value afterwards and the
/// produced item, or the exhaustion error once the cursor leaves the
/// items. Only an iterator can be advanced.
pub open spec fn next_spec(v: ValueV) -> (ValueV, Result<ValueV, Error>) {
    match v {
        ValueV::Iter(l, p) => if p < l.len() {
            (ValueV::Iter(l, p + 1), Ok(ValueV::Atom(l[p])))
        } else {
            (v, Err(Error::Exhausted))
        },
        _ => (v, Err(Error::Unsupported)),
    }
}

/// Advances an iterator in place, handing out the next item.
pub fn next_of(v: &mut Value) -> (r: Result<Value, Error>)
    ensures
        final(v)@ == next_spec(old(v)@).0,
        res_view(r) == next_spec(old(v)@).1,
{
    let mut tmp = Value::Atom(Scalar::Unit);
    swap(v, &mut tmp);
    match tmp {
        Value::Iter(l, p) => {
            if p < l.len() {
                let item = l[p].clone();
                *v = Value::Iter(l, p + 1);
                Ok(Value::Atom(item))
            } else {
                *v = Value::Iter(l, p);
                Err(Error::Exhausted)
            }
        },
        t => {
            *v = t;
            Err(Error::Unsupported)
        },
    }
}

/// Invocation: the model has no callable kind of value, so a forwarded
/// call always fails, whatever the arguments.
pub open spec fn call_spec(v: ValueV) -> Result<ValueV, Error> {
    match v {
        _ => Err(Error::Unsupported),
    }
}

/// Calls a value with the given arguments.
pub fn call_of(v: &Value, args: &Vec<Value>) -> (r: Result<Value, Error>)
    ensures
        res_view(r) == call_spec(v@),
{
    match v {
        _ => Err(Error::Unsupported),
    }
}

/// The attribute of the given name, searched front to back.
pub open spec fn attr_lookup(l: Seq<AttrV>, name: Seq<char>) -> Option<ScalarV>
    decreases l.len(),
{
    if l.len() == 0 {
        Option::None
    } else if l[0].name == name {
        Option::Some(l[0].val)
    } else {
        attr_lookup(l.drop_first(), name)
    }
}

/// Attribute read: defined for an object that carries the name.
pub open spec fn get_attr_spec(v: ValueV, name: Seq<char>) -> Result<ValueV, Error> {
    match v {
        ValueV::Obj(a) => match attr_lookup(a, name) {
            Option::Some(s) => Ok(ValueV::Atom(s)),
            Option::None => Err(Error::NoAttribute),
        },
        _ => Err(Error::Unsupported),
    }
}

/// Finds the first attribute of the given name, if any.
fn find_attr(a: &Vec<Attr>, name: &Vec<char>) -> (r: Option<usize>)
    ensures
        match r {
            Option::Some(i) => i < a@.len() && attrs_view(a@)[i as int].name == name@ && forall|
                j: int,
            |
                0 <= j < i ==> attrs_view(a@)[j].name != name@,
            Option::None => forall|j: int| 0 <= j < a@.len() ==> attrs_view(a@)[j].name != name@,
        },
{
    let mut i: usize = 0;
    while i < a.len()
        invariant
            i <= a.len(),
            forall|j: int| 0 <= j < i ==> attrs_view(a@)[j].name != name@,
        decreases a.len() - i,
    {
        if text::text_eq(&a[i].name, name) {
            return Option::Some(i);
        }
        i += 1;
    }
    Option::None
}

/// A missing name makes the lookup fail, wherever it is sought from.
proof fn lemma_lookup_none(l: Seq<AttrV>, name: Seq<char>)
    requires
        forall|j: int| 0 <= j < l.len() ==> l[j].name != name,
    ensures
        attr_lookup(l, name) is None,
    decreases l.len(),
{
    if l.len() > 0 {
        lemma_lookup_none(l.drop_first(), name);
    }
}

/// A first match at `i` is what the lookup returns.
proof fn lemma_lookup_found(l: Seq<AttrV>, name: Seq<char>, i: int)
    requires
        0 <= i < l.len(),
        l[i].name == name,
        forall|j: int| 0 <= j < i ==> l[j].name != name,
    ensures
        attr_lookup(l, name) == Option::Some(l[i].val),
    decreases i,
{
    if i > 0 {
        lemma_lookup_found(l.drop_first(), name, i - 1);
    }
}

/// Reads an attribute of a value.
pub fn get_attr(v: &Value, name: &Vec<char>) -> (r: Result<Value, Error>)
    ensures
        res_view(r) == get_attr_spec(v@, name@),
{
    match v {
        Value::Obj(a) => {
            match find_attr(a, name) {
                Option::Some(i) => {
                    proof {
                        lemma_lookup_found(attrs_view(a@), name@, i as int);
                    }
                    Ok(Value::Atom(a[i].val.clone()))
                },
                Option::None => {
                    proof {
                        lemma_lookup_none(attrs_view(a@), name@);
                    }
                    Err(Error::NoAttribute)
                },
            }
        },
        _ => Err(Error::Unsupported),
    }
}

/// Attribute write: an existing name has its value replaced in place; a
/// new name is appended at the back. Only an object takes attributes, and
/// only an atom can be stored.
pub open spec fn set_attr_spec(v: ValueV, name: Seq<char>, x: ValueV) -> Result<ValueV, Error> {
    match (v, x) {
        (ValueV::Obj(a), ValueV::Atom(s)) => Ok(ValueV::Obj(attr_set(a, name, s))),
        _ => Err(Error::Unsupported),
    }
}

/// The attribute sequence after a write of `val` under `name`.
pub open spec fn attr_set(l: Seq<AttrV>, name: Seq<char>, val: ScalarV) -> Seq<AttrV>
    decreases l.len(),
{
    if l.len() == 0 {
        seq![AttrV { name, val }]
    } else if l[0].name == name {
        seq![AttrV { name, val }] + l.drop_first()
    } else {
        seq![l[0]] + attr_set(l.drop_first(), name, val)
    }
}

/// A first match at `i` makes the write an update of that slot.
proof fn lemma_attr_set_found(l: Seq<AttrV>, name: Seq<char>, val: ScalarV, i: int)
    requires
        0 <= i < l.len(),
        l[i].name == name,
        forall|j: int| 0 <= j < i ==> l[j].name != name,
    ensures
        attr_set(l, name, val) == l.update(i, AttrV { name, val }),
    decreases i,
{
    if i == 0 {
        assert(attr_set(l, name, val) =~= l.update(0, AttrV { name, val }));
    } else {
        lemma_attr_set_found(l.drop_first(), name, val, i - 1);
        assert(attr_set(l, name, val) =~= l.update(i, AttrV { name, val }));
    }
}

/// A missing name makes the write an append at the back.
proof fn lemma_attr_set_missing(l: Seq<AttrV>, name: Seq<char>, val: ScalarV)
    requires
        forall|j: int| 0 <= j < l.len() ==> l[j].name != name,
    ensures
        attr_set(l, name, val) == l.push(AttrV { name, val }),
    decreases l.len(),
{
    if l.len() == 0 {
        assert(attr_set(l, name, val) =~= l.push(AttrV { name, val }));
    } else {
        lemma_attr_set_missing(l.drop_first(), name, val);
        assert(attr_set(l, name, val) =~= l.push(AttrV { name, val }));
    }
}

/// Writes an attribute of a value in place. On failure the value is
/// unchanged.
pub fn set_attr(v: &mut Value, name: &Vec<char>, x: &Value) -> (r: Result<(), Error>)
    ensures
        match r {
            Ok(()) => set_attr_spec(old(v)@, name@, x@) == Ok::<ValueV, Error>(final(v)@),
            Err(e) => set_attr_spec(old(v)@, name@, x@) == Err::<ValueV, Error>(e) && final(v)@
                == old(v)@,
        },
{
    let mut tmp = Value::Atom(Scalar::Unit);
    swap(v, &mut tmp);
    match (tmp, x) {
        (Value::Obj(mut a), Value::Atom(s)) => {
            let ghost olda = attrs_view(a@);
            let nc = name.clone();
            proof {
                assert(nc@ =~= name@);
            }
            match find_attr(&a, name) {
                Option::Some(i) => {
                    proof {
                        lemma_attr_set_found(olda, name@, s@, i as int);
                    }
                    a.set(i, Attr { name: nc, val: s.clone() });
                    proof {
                        assert(attrs_view(a@) =~= olda.update(
                            i as int,
                            AttrV { name: name@, val: s@ },
                        ));
                    }
                    *v = Value::Obj(a);
                    Ok(())
                },
                Option::None => {
                    proof {
                        lemma_attr_set_missing(olda, name@, s@);
                    }
                    a.push(Attr { name: nc, val: s.clone() });
                    proof {
                        assert(attrs_view(a@) =~= olda.push(AttrV { name: name@, val: s@ }));
                    }
                    *v = Value::Obj(a);
                    Ok(())
                },
            }
        },
        (t, _) => {
            *v = t;
            Err(Error::Unsupported)
        },
    }
}

/// Attribute removal: the first attribute of the name leaves; a missing
/// name is an error.
pub open spec fn attr_del(l: Seq<AttrV>, name: Seq<char>) -> Seq<AttrV>
    decreases l.len(),
{
    if l.len() == 0 {
        l
    } else if l[0].name == name {
        l.drop_first()
    } else {
        seq![l[0]] + attr_del(l.drop_first(), name)
    }
}

/// Attribute removal at the value level.
pub open spec fn del_attr_spec(v: ValueV, name: Seq<char>) -> Result<ValueV, Error> {
    match v {
        ValueV::Obj(a) => if attr_lookup(a, name) is Some {
            Ok(ValueV::Obj(attr_del(a, name)))
        } else {
            Err(Error::NoAttribute)
        },
        _ => Err(Error::Unsupported),
    }
}

/// A first match at `i` makes the removal a deletion of that slot.
proof fn lemma_attr_del_found(l: Seq<AttrV>, name: Seq<char>, i: int)
    requires
        0 <= i < l.len(),
        l[i].name == name,
        forall|j: int| 0 <= j < i ==> l[j].name != name,
    ensures
        attr_del(l, name) == l.remove(i),
    decreases i,
{
    if i == 0 {
        assert(attr_del(l, name) =~= l.remove(0));
    } else {
        lemma_attr_del_found(l.drop_first(), name, i - 1);
        assert(attr_del(l, name) =~= l.remove(i));
    }
}

/// Removes an attribute of a value in place. On failure the value is
/// unchanged.
pub fn del_attr(v: &mut Value, name: &Vec<char>) -> (r: Result<(), Error>)
    ensures
        match r {
            Ok(()) => del_attr_spec(old(v)@, name@) == Ok::<ValueV, Error>(final(v)@),
            Err(e) => del_attr_spec(old(v)@, name@) == Err::<ValueV, Error>(e) && final(v)@
                == old(v)@,
        },
{
    let mut tmp = Value::Atom(Scalar::Unit);
    swap(v, &mut tmp);
    match tmp {
        Value::Obj(mut a) => {
            let ghost olda = attrs_view(a@);
            match find_attr(&a, name) {
                Option::Some(i) => {
                    proof {
                        lemma_lookup_found(olda, name@, i as int);
                        lemma_attr_del_found(olda, name@, i as int);
                    }
                    a.remove(i);
                    proof {
                        assert(attrs_view(a@) =~= olda.remove(i as int));
                    }
                    *v = Value::Obj(a);
                    Ok(())
                },
                Option::None => {
                    proof {
                        lemma_lookup_none(olda, name@);
                    }
                    *v = Value::Obj(a);
                    Err(Error::NoAttribute)
                },
            }
        },
        t => {
            *v = t;
            Err(Error::Unsupported)
        },
    }
}

} // verus!
