//! Arithmetic of the value model: addition (which also concatenates text
//! and lists), subtraction, multiplication, true and floor division, and
//! the two bit shifts, each with an exact spec-level mirror.

use vstd::prelude::*;
use vstd::arithmetic::div_mod::{lemma_fundamental_div_mod, lemma_fundamental_div_mod_converse};
use vstd::arithmetic::power2::{pow2, lemma_pow2_unfold, lemma_pow2_pos, lemma_pow2_strictly_increases, lemma2_to64, lemma2_to64_rest};
use crate::error::Error;
use crate::text;
use crate::value::{Scalar, ScalarV, Value, ValueV, in_i64, res_view, clone_scalars, scalars_view};

verus! {

/// Floor division: the greatest integer at or below the exact quotient.
/// Division by a positive integer rounds toward minus infinity already,
/// so a negative divisor is handled by negating both sides.
pub open spec fn floor_div_v(a: int, b: int) -> int
    recommends
        b != 0,
{
    if b > 0 {
        a / b
    } else {
        (-a) / (-b)
    }
}

/// The nonnegative magnitude of a machine integer.
fn magnitude(a: i64) -> (r: u64)
    ensures
        a >= 0 ==> r as int == a as int,
        a < 0 ==> r as int == -(a as int),
{
    if a >= 0 {
        a as u64
    } else {
        (-(a as i128)) as u64
    }
}

/// Floor division of machine integers. The one quotient out of range is
/// that of the smallest integer by minus one.
fn floor_div_exec(a: i64, b: i64) -> (r: Result<i64, Error>)
    requires
        b != 0,
    ensures
        match r {
            Ok(q) => q as int == floor_div_v(a as int, b as int),
            Err(e) => e == Error::Overflow && a == i64::MIN && b == -1 && !in_i64(
                floor_div_v(a as int, b as int),
            ),
        },
{
    let ua = magnitude(a);
    let ub = magnitude(b);
    let q = ua / ub;
    let rr = ua % ub;
    let same = (a >= 0) == (b >= 0);
    proof {
        lemma_fundamental_div_mod(ua as int, ub as int);
    }
    if same {
        if q > i64::MAX as u64 {
            proof {
                let qi = q as int;
                let uai = ua as int;
                let ubi = ub as int;
                assert(qi * ubi <= uai) by (nonlinear_arith)
                    requires
                        uai == ubi * qi + (rr as int),
                        rr as int >= 0,
                        ubi >= 1,
                ;
                assert(uai == 0x8000_0000_0000_0000) by (nonlinear_arith)
                    requires
                        qi * ubi <= uai,
                        qi > 0x7fff_ffff_ffff_ffff,
                        uai <= 0x8000_0000_0000_0000,
                        ubi >= 1,
                ;
                assert(ubi == 1) by (nonlinear_arith)
                    requires
                        qi * ubi <= uai,
                        qi > 0x7fff_ffff_ffff_ffff,
                        uai == 0x8000_0000_0000_0000,
                        ubi >= 1,
                ;
                assert(a == i64::MIN && b == -1);
                lemma_fundamental_div_mod_converse(
                    0x8000_0000_0000_0000,
                    1,
                    0x8000_0000_0000_0000,
                    0,
                );
                assert(floor_div_v(a as int, b as int) == 0x8000_0000_0000_0000);
            }
            Err(Error::Overflow)
        } else {
            proof {
                let ai = a as int;
                let bi = b as int;
                let qi = q as int;
                let ri = rr as int;
                if a >= 0 {
                    assert(qi == ai / bi);
                } else {
                    // both negative: (-a)/(-b) is the magnitude quotient
                    assert(qi == (-ai) / (-bi));
                }
            }
            Ok(q as i64)
        }
    } else {
        proof {
            let ai = a as int;
            let bi = b as int;
            let qi = q as int;
            let ri = rr as int;
            let uai = ua as int;
            let ubi = ub as int;
            assert(qi <= uai) by (nonlinear_arith)
                requires
                    uai == ubi * qi + ri,
                    ri >= 0,
                    ubi >= 1,
                    qi >= 0,
            ;
            if rr == 0 {
                if a < 0 {
                    // a < 0 <= b: a == (-q) * b + 0
                    assert(ai == (-qi) * bi) by (nonlinear_arith)
                        requires
                            ai == -uai,
                            bi == ubi,
                            uai == ubi * qi,
                    ;
                    lemma_fundamental_div_mod_converse(ai, bi, -qi, 0);
                } else {
                    // b < 0 <= a: (-a) == (-q) * (-b) + 0
                    assert(-ai == (-qi) * (-bi)) by (nonlinear_arith)
                        requires
                            ai == uai,
                            bi == -ubi,
                            uai == ubi * qi,
                    ;
                    lemma_fundamental_div_mod_converse(-ai, -bi, -qi, 0);
                }
                assert(floor_div_v(ai, bi) == -qi);
            } else {
                if a < 0 {
                    // a == (-(q+1)) * b + (b - r), with 0 <= b - r < b
                    assert(ai == (-(qi + 1)) * bi + (bi - ri)) by (nonlinear_arith)
                        requires
                            ai == -uai,
                            bi == ubi,
                            uai == ubi * qi + ri,
                    ;
                    lemma_fundamental_div_mod_converse(ai, bi, -(qi + 1), bi - ri);
                } else {
                    // (-a) == (-(q+1)) * (-b) + ((-b) - r)
                    assert(-ai == (-(qi + 1)) * (-bi) + ((-bi) - ri)) by (nonlinear_arith)
                        requires
                            ai == uai,
                            bi == -ubi,
                            uai == ubi * qi + ri,
                    ;
                    lemma_fundamental_div_mod_converse(-ai, -bi, -(qi + 1), (-bi) - ri);
                }
                assert(floor_div_v(ai, bi) == -(qi + 1));
                // q + 1 stays within range: q * ub < ua <= 2^63 and ub >= 1
                assert(qi < uai) by (nonlinear_arith)
                    requires
                        uai == ubi * qi + ri,
                        ri > 0,
                        ubi >= 1,
                        qi >= 0,
                ;
            }
        }
        if rr == 0 {
            Ok((-(q as i128)) as i64)
        } else {
            Ok((-((q + 1) as i128)) as i64)
        }
    }
}

/// True division of machine integers: defined when the quotient is whole.
fn true_div_exec(a: i64, b: i64) -> (r: Result<i64, Error>)
    requires
        b != 0,
    ensures
        match r {
            Ok(q) => q as int == floor_div_v(a as int, b as int) && q as int * (b as int)
                == a as int,
            Err(e) => (e == Error::Overflow && !in_i64(floor_div_v(a as int, b as int))
                && floor_div_v(a as int, b as int) * (b as int) == a as int) || (e
                == Error::Inexact && floor_div_v(a as int, b as int) * (b as int) != a as int),
        },
{
    match floor_div_exec(a, b) {
        Ok(q) => {
            // the quotient is whole exactly when multiplying back restores `a`
            match q.checked_mul(b) {
                Some(p) => if p == a {
                    Ok(q)
                } else {
                    Err(Error::Inexact)
                },
                None => Err(Error::Inexact),
            }
        },
        Err(e) => {
            proof {
                lemma_fundamental_div_mod_converse(
                    0x8000_0000_0000_0000,
                    1,
                    0x8000_0000_0000_0000,
                    0,
                );
                assert(floor_div_v(a as int, b as int) == 0x8000_0000_0000_0000);
            }
            Err(e)
        },
    }
}

/// Computes two to the power `s` for `s` at most 62.
fn pow2_exec(s: u32) -> (r: u64)
    requires
        s <= 62,
    ensures
        r as int == pow2(s as nat),
        1 <= r <= 0x4000_0000_0000_0000,
{
    let mut p: u64 = 1;
    let mut k: u32 = 0;
    proof {
        lemma2_to64();
    }
    while k < s
        invariant
            k <= s,
            s <= 62,
            p as int == pow2(k as nat),
        decreases s - k,
    {
        proof {
            lemma_pow2_unfold((k + 1) as nat);
            if (k as nat) < 62 {
                lemma_pow2_strictly_increases(k as nat, 62);
            }
            lemma2_to64_rest();
        }
        p = p * 2;
        k = k + 1;
    }
    proof {
        lemma_pow2_pos(s as nat);
        if (s as nat) < 62 {
            lemma_pow2_strictly_increases(s as nat, 62);
        }
        lemma2_to64_rest();
    }
    p
}

/// If a doubling leaves the range, every further doubling stays outside it.
proof fn lemma_shift_stays_out(a: int, k: nat, s: nat)
    requires
        a != 0,
        k <= s,
        !in_i64(a * pow2(k)),
    ensures
        !in_i64(a * pow2(s)),
    decreases s - k,
{
    if k < s {
        lemma_pow2_unfold((k + 1) as nat);
        lemma_pow2_pos(k);
        assert(a * pow2((k + 1) as nat) == 2 * (a * pow2(k))) by (nonlinear_arith)
            requires
                pow2((k + 1) as nat) == 2 * pow2(k),
        ;
        assert(!in_i64(a * pow2((k + 1) as nat)));
        lemma_shift_stays_out(a, (k + 1) as nat, s);
    }
}

/// Left shift on machine integers: the value scaled by a power of two,
/// failing on a negative shift amount or when the result leaves the range.
pub open spec fn lshift_v(a: int, s: int) -> Result<int, Error> {
    if s < 0 {
        Err(Error::BadShift)
    } else if in_i64(a * pow2(s as nat)) {
        Ok(a * pow2(s as nat))
    } else {
        Err(Error::Overflow)
    }
}

/// Left shift of machine integers.
fn lshift_exec(a: i64, s: i64) -> (r: Result<i64, Error>)
    ensures
        match r {
            Ok(q) => lshift_v(a as int, s as int) == Ok::<int, Error>(q as int),
            Err(e) => lshift_v(a as int, s as int) == Err::<int, Error>(e),
        },
{
    if s < 0 {
        return Err(Error::BadShift);
    }
    let mut cur = a;
    let mut k: i64 = 0;
    proof {
        lemma2_to64();
        assert(a as int * pow2(0) == a as int) by (nonlinear_arith)
            requires
                pow2(0) == 1,
        ;
    }
    while k < s
        invariant
            0 <= k <= s,
            cur as int == a as int * pow2(k as nat),
        decreases s - k,
    {
        proof {
            lemma_pow2_unfold((k + 1) as nat);
        }
        match cur.checked_mul(2) {
            Some(c2) => {
                proof {
                    assert(a as int * pow2((k + 1) as nat) == (a as int * pow2(k as nat)) * 2)
                        by (nonlinear_arith)
                        requires
                            pow2((k + 1) as nat) == 2 * pow2(k as nat),
                    ;
                }
                cur = c2;
                k = k + 1;
            },
            None => {
                proof {
                    assert(a as int * pow2((k + 1) as nat) == (a as int * pow2(k as nat)) * 2)
                        by (nonlinear_arith)
                        requires
                            pow2((k + 1) as nat) == 2 * pow2(k as nat),
                    ;
                    assert(a != 0);
                    lemma_shift_stays_out(a as int, (k + 1) as nat, s as nat);
                }
                return Err(Error::Overflow);
            },
        }
    }
    Ok(cur)
}

/// Right shift on machine integers: floor division by a power of two,
/// failing only on a negative shift amount.
pub open spec fn rshift_v(a: int, s: int) -> Result<int, Error> {
    if s < 0 {
        Err(Error::BadShift)
    } else {
        Ok(floor_div_v(a, pow2(s as nat) as int))
    }
}

/// Right shift of machine integers.
fn rshift_exec(a: i64, s: i64) -> (r: Result<i64, Error>)
    ensures
        match r {
            Ok(q) => rshift_v(a as int, s as int) == Ok::<int, Error>(q as int),
            Err(e) => rshift_v(a as int, s as int) == Err::<int, Error>(e),
        },
{
    if s < 0 {
        return Err(Error::BadShift);
    }
    if s >= 63 {
        proof {
            lemma2_to64_rest();
            let b = pow2(s as nat) as int;
            if s > 63 {
                lemma_pow2_strictly_increases(63, s as nat);
            }
            assert(b >= 0x8000_0000_0000_0000);
            let ai = a as int;
            if a >= 0 {
                lemma_fundamental_div_mod_converse(ai, b, 0, ai);
            } else {
                lemma_fundamental_div_mod_converse(ai, b, -1, b + ai);
            }
        }
        if a >= 0 {
            Ok(0)
        } else {
            Ok(-1)
        }
    } else {
        let p = pow2_exec(s as u32);
        let b = p as i64;
        match floor_div_exec(a, b) {
            Ok(q) => Ok(q),
            Err(_) => {
                proof {
                    assert(false);
                }
                Err(Error::Internal)
            },
        }
    }
}

/// Addition: integer sum, text concatenation, or list concatenation.
pub open spec fn add_spec(a: ValueV, b: ValueV) -> Result<ValueV, Error> {
    match (a, b) {
        (ValueV::Atom(ScalarV::Int(x)), ValueV::Atom(ScalarV::Int(y))) => if in_i64(x + y) {
            Ok(ValueV::Atom(ScalarV::Int(x + y)))
        } else {
            Err(Error::Overflow)
        },
        (ValueV::Atom(ScalarV::Text(x)), ValueV::Atom(ScalarV::Text(y))) => Ok(
            ValueV::Atom(ScalarV::Text(x + y)),
        ),
        (ValueV::List(x), ValueV::List(y)) => Ok(ValueV::List(x + y)),
        _ => Err(Error::Unsupported),
    }
}

/// Subtraction of two integer atoms.
pub open spec fn sub_spec(a: ValueV, b: ValueV) -> Result<ValueV, Error> {
    match (a, b) {
        (ValueV::Atom(ScalarV::Int(x)), ValueV::Atom(ScalarV::Int(y))) => if in_i64(x - y) {
            Ok(ValueV::Atom(ScalarV::Int(x - y)))
        } else {
            Err(Error::Overflow)
        },
        _ => Err(Error::Unsupported),
    }
}

/// Multiplication of two integer atoms.
pub open spec fn mul_spec(a: ValueV, b: ValueV) -> Result<ValueV, Error> {
    match (a, b) {
        (ValueV::Atom(ScalarV::Int(x)), ValueV::Atom(ScalarV::Int(y))) => if in_i64(x * y) {
            Ok(ValueV::Atom(ScalarV::Int(x * y)))
        } else {
            Err(Error::Overflow)
        },
        _ => Err(Error::Unsupported),
    }
}

/// True division of two integer atoms: the model has no fractional
/// numbers, so the quotient must be whole.
pub open spec fn true_div_spec(a: ValueV, b: ValueV) -> Result<ValueV, Error> {
    match (a, b) {
        (ValueV::Atom(ScalarV::Int(x)), ValueV::Atom(ScalarV::Int(y))) => if y == 0 {
            Err(Error::ZeroDivision)
        } else if floor_div_v(x, y) * y != x {
            Err(Error::Inexact)
        } else if !in_i64(floor_div_v(x, y)) {
            Err(Error::Overflow)
        } else {
            Ok(ValueV::Atom(ScalarV::Int(floor_div_v(x, y))))
        },
        _ => Err(Error::Unsupported),
    }
}

/// Floor division of two integer atoms.
pub open spec fn floor_div_spec(a: ValueV, b: ValueV) -> Result<ValueV, Error> {
    match (a, b) {
        (ValueV::Atom(ScalarV::Int(x)), ValueV::Atom(ScalarV::Int(y))) => if y == 0 {
            Err(Error::ZeroDivision)
        } else if !in_i64(floor_div_v(x, y)) {
            Err(Error::Overflow)
        } else {
            Ok(ValueV::Atom(ScalarV::Int(floor_div_v(x, y))))
        },
        _ => Err(Error::Unsupported),
    }
}

/// Left shift of two integer atoms.
pub open spec fn lshift_spec(a: ValueV, b: ValueV) -> Result<ValueV, Error> {
    match (a, b) {
        (ValueV::Atom(ScalarV::Int(x)), ValueV::Atom(ScalarV::Int(y))) => match lshift_v(x, y) {
            Ok(q) => Ok(ValueV::Atom(ScalarV::Int(q))),
            Err(e) => Err(e),
        },
        _ => Err(Error::Unsupported),
    }
}

/// Right shift of two integer atoms.
pub open spec fn rshift_spec(a: ValueV, b: ValueV) -> Result<ValueV, Error> {
    match (a, b) {
        (ValueV::Atom(ScalarV::Int(x)), ValueV::Atom(ScalarV::Int(y))) => match rshift_v(x, y) {
            Ok(q) => Ok(ValueV::Atom(ScalarV::Int(q))),
            Err(e) => Err(e),
        },
        _ => Err(Error::Unsupported),
    }
}

/// Concatenation of two scalar vectors, by copies.
fn concat_scalars(x: &Vec<Scalar>, y: &Vec<Scalar>) -> (r: Vec<Scalar>)
    ensures
        scalars_view(r@) == scalars_view(x@) + scalars_view(y@),
{
    let mut r = clone_scalars(x);
    let mut i: usize = 0;
    proof {
        assert(scalars_view(r@) =~= scalars_view(x@) + scalars_view(y@.subrange(0, 0)));
    }
    while i < y.len()
        invariant
            i <= y.len(),
            r@.len() == x@.len() + i,
            scalars_view(r@) == scalars_view(x@) + scalars_view(y@.subrange(0, i as int)),
        decreases y.len() - i,
    {
        let c = y[i].clone();
        r.push(c);
        proof {
            let lhs = scalars_view(r@);
            let rhs = scalars_view(x@) + scalars_view(y@.subrange(0, i + 1 as int));
            assert(lhs.len() == rhs.len());
            assert forall|j: int| 0 <= j < lhs.len() implies lhs[j] == rhs[j] by {
                if j + 1 < lhs.len() {
                    let prev = scalars_view(x@) + scalars_view(y@.subrange(0, i as int));
                    assert(lhs[j] == prev[j]);
                } else {
                    assert(r@[j] == c);
                    assert(y@.subrange(0, i + 1 as int)[i as int] == y@[i as int]);
                }
            }
            assert(lhs =~= rhs);
        }
        i += 1;
    }
    proof {
        assert(y@.subrange(0, y@.len() as int) =~= y@);
        assert(scalars_view(r@) =~= scalars_view(x@) + scalars_view(y@));
    }
    r
}

/// Addition of two values.
pub fn add(a: &Value, b: &Value) -> (r: Result<Value, Error>)
    ensures
        res_view(r) == add_spec(a@, b@),
{
    match (a, b) {
        (Value::Atom(Scalar::Int(x)), Value::Atom(Scalar::Int(y))) => match x.checked_add(*y) {
            Some(z) => Ok(Value::Atom(Scalar::Int(z))),
            None => Err(Error::Overflow),
        },
        (Value::Atom(Scalar::Text(x)), Value::Atom(Scalar::Text(y))) => {
            let mut t = x.clone();
            proof {
                assert(t@ =~= x@);
            }
            text::push_all(&mut t, y);
            Ok(Value::Atom(Scalar::Text(t)))
        },
        (Value::List(x), Value::List(y)) => Ok(Value::List(concat_scalars(x, y))),
        _ => Err(Error::Unsupported),
    }
}

/// Subtraction of two values.
pub fn sub(a: &Value, b: &Value) -> (r: Result<Value, Error>)
    ensures
        res_view(r) == sub_spec(a@, b@),
{
    match (a, b) {
        (Value::Atom(Scalar::Int(x)), Value::Atom(Scalar::Int(y))) => match x.checked_sub(*y) {
            Some(z) => Ok(Value::Atom(Scalar::Int(z))),
            None => Err(Error::Overflow),
        },
        _ => Err(Error::Unsupported),
    }
}

/// Multiplication of two values.
pub fn mul(a: &Value, b: &Value) -> (r: Result<Value, Error>)
    ensures
        res_view(r) == mul_spec(a@, b@),
{
    match (a, b) {
        (Value::Atom(Scalar::Int(x)), Value::Atom(Scalar::Int(y))) => match x.checked_mul(*y) {
            Some(z) => Ok(Value::Atom(Scalar::Int(z))),
            None => Err(Error::Overflow),
        },
        _ => Err(Error::Unsupported),
    }
}

/// True division of two values.
pub fn true_div(a: &Value, b: &Value) -> (r: Result<Value, Error>)
    ensures
        res_view(r) == true_div_spec(a@, b@),
{
    match (a, b) {
        (Value::Atom(Scalar::Int(x)), Value::Atom(Scalar::Int(y))) => if *y == 0 {
            Err(Error::ZeroDivision)
        } else {
            match true_div_exec(*x, *y) {
                Ok(q) => Ok(Value::Atom(Scalar::Int(q))),
                Err(e) => Err(e),
            }
        },
        _ => Err(Error::Unsupported),
    }
}

/// Floor division of two values.
pub fn floor_div(a: &Value, b: &Value) -> (r: Result<Value, Error>)
    ensures
        res_view(r) == floor_div_spec(a@, b@),
{
    match (a, b) {
        (Value::Atom(Scalar::Int(x)), Value::Atom(Scalar::Int(y))) => if *y == 0 {
            Err(Error::ZeroDivision)
        } else {
            match floor_div_exec(*x, *y) {
                Ok(q) => Ok(Value::Atom(Scalar::Int(q))),
                Err(e) => Err(e),
            }
        },
        _ => Err(Error::Unsupported),
    }
}

/// Left shift of two values.
pub fn lshift(a: &Value, b: &Value) -> (r: Result<Value, Error>)
    ensures
        res_view(r) == lshift_spec(a@, b@),
{
    match (a, b) {
        (Value::Atom(Scalar::Int(x)), Value::Atom(Scalar::Int(y))) => match lshift_exec(*x, *y) {
            Ok(q) => Ok(Value::Atom(Scalar::Int(q))),
            Err(e) => Err(e),
        },
        _ => Err(Error::Unsupported),
    }
}

/// Right shift of two values.
pub fn rshift(a: &Value, b: &Value) -> (r: Result<Value, Error>)
    ensures
        res_view(r) == rshift_spec(a@, b@),
{
    match (a, b) {
        (Value::Atom(Scalar::Int(x)), Value::Atom(Scalar::Int(y))) => match rshift_exec(*x, *y) {
            Ok(q) => Ok(Value::Atom(Scalar::Int(q))),
            Err(e) => Err(e),
        },
        _ => Err(Error::Unsupported),
    }
}

} // verus!
