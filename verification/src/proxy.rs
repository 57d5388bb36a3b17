//! The proxy: a zero-argument factory and an optional memoized target.
//! Construction of the target is deferred to the first genuine use, then
//! the stored target serves every later operation. A failed construction
//! is not memoized: the next use retries the factory.
//!
//! A factory must not operate on its own proxy while it runs; the proxy
//! holds the factory by value, so the type system already rules that out
//! here.

use vstd::prelude::*;
use vstd::pervasive::unreached;
use core::mem::swap;
use crate::error::Error;
use crate::text;
use crate::value;
use crate::value::{Value, ValueV, CmpOp, res_view};
use crate::arith;
use crate::items;

verus! {

/// A zero-argument factory producing a proxy's target.
///
/// The proxy library leaves the factory to its callers: any type may
/// implement it. `callable` stands for the host-level check that the
/// object handed to the proxy can be invoked at all; `calls` counts the
/// invocations, so that contracts can state how often construction ran;
/// `label` is the factory's fixed description for the proxy's debug form.
pub trait Factory: Sized {
    /// The kind of target the factory constructs.
    type Out;

    /// Whether the factory may be invoked. The default stands for an
    /// implementation outside the verifier's view; the library's own
    /// factories override it.
    open spec fn callable(&self) -> bool {
        true
    }

    /// How many times the factory has been invoked. The default stands
    /// for an implementation outside the verifier's view; the library's
    /// own factories override it.
    open spec fn calls(&self) -> nat {
        0
    }

    /// The fixed text describing the factory. The default stands for an
    /// implementation outside the verifier's view; the library's own
    /// factories override it.
    open spec fn label(&self) -> Seq<char> {
        Seq::empty()
    }

    /// What one invocation does: how the outcome `r` and the factory's
    /// state afterwards relate to its state before. An implementation
    /// overrides this to pin its outcomes down — the library's factories
    /// say exactly which value or error each invocation yields — and the
    /// proxy's contracts carry the relation through to resolution. The
    /// default promises nothing, for implementations outside the
    /// verifier's view.
    open spec fn invoke_rel(pre: Self, post: Self, r: Result<Self::Out, Error>) -> bool {
        true
    }

    /// Reports whether the factory is callable, without invoking it.
    fn is_callable(&self) -> (r: bool)
        ensures
            r == self.callable(),
    ;

    /// Invokes the factory once: constructs a target, or fails with any
    /// error. Either way exactly one invocation is recorded, and the
    /// factory stays callable, so a failed construction can be retried.
    fn invoke(&mut self) -> (r: Result<Self::Out, Error>)
        requires
            old(self).callable(),
        ensures
            final(self).callable(),
            final(self).calls() == old(self).calls() + 1,
            final(self).label() == old(self).label(),
            Self::invoke_rel(*old(self), *final(self), r),
    ;

    /// The factory's description, without invoking it.
    fn describe(&self) -> (r: Vec<char>)
        ensures
            r@ == self.label(),
    ;
}

/// The observable state of a proxy: how often its factory has run, and
/// the memoized target, if any.
pub struct ProxyState<T> {
    /// Factory invocations so far.
    pub calls: nat,
    /// The memoized target.
    pub target: Option<T>,
}

/// What one resolution attempt does to the observable state: nothing at
/// all when a target is already present; otherwise exactly one factory
/// invocation, which either stores the constructed target or leaves the
/// proxy unresolved for a later retry.
pub open spec fn resolve_step<T>(pre: ProxyState<T>, post: ProxyState<T>, ok: bool) -> bool {
    if pre.target is Some {
        post == pre && ok
    } else {
        post.calls == pre.calls + 1 && (if ok {
            post.target is Some
        } else {
            post.target is None
        })
    }
}

/// What any forwarded operation does to the observable state: once a
/// target is present it stays present and the factory never runs again;
/// and an operation on an unresolved proxy attempts the construction,
/// invoking the factory exactly once.
pub open spec fn forwarded_step<T>(pre: ProxyState<T>, post: ProxyState<T>) -> bool {
    &&& pre.target is Some ==> post.target is Some && post.calls == pre.calls
    &&& pre.target is None ==> post.calls == pre.calls + 1
}

/// What resolution inside an operation did, when the proxy was not yet
/// resolved: the factory was invoked once, and by `invoke_rel` either it
/// produced the value that is the target afterwards, or it failed with
/// the very error the operation returns.
pub open spec fn resolved_by_invoke<F: Factory, A>(
    pre: Proxy<F>,
    post: Proxy<F>,
    r: Result<A, Error>,
) -> bool {
    if post.resolved_spec() {
        F::invoke_rel(pre.factory_spec(), post.factory_spec(), Ok(post.target_spec()))
    } else {
        (r matches Err(e) && F::invoke_rel(pre.factory_spec(), post.factory_spec(), Err(e)))
    }
}

/// When an operation had to resolve first: `v` is a value the factory
/// produced, which became the target before the operation itself ran.
pub open spec fn freshly_resolved<F: Factory>(pre: Proxy<F>, post: Proxy<F>, v: F::Out) -> bool {
    F::invoke_rel(pre.factory_spec(), post.factory_spec(), Ok(v))
}

/// A lazy proxy: the factory, and the target once it has been built.
pub struct Proxy<F: Factory> {
    factory: F,
    target: Option<F::Out>,
}

impl<F: Factory> Proxy<F> {
    /// Well-formedness: the factory can be invoked, or invoked again.
    pub closed spec fn wf(&self) -> bool {
        self.factory.callable()
    }

    /// Whether a target is memoized.
    pub closed spec fn resolved_spec(&self) -> bool {
        self.target is Some
    }

    /// The memoized target.
    pub closed spec fn target_spec(&self) -> F::Out
        recommends
            self.resolved_spec(),
    {
        self.target.unwrap()
    }

    /// How often the factory has been invoked.
    pub closed spec fn calls_spec(&self) -> nat {
        self.factory.calls()
    }

    /// The factory's description.
    pub closed spec fn label_spec(&self) -> Seq<char> {
        self.factory.label()
    }

    /// The factory itself, at the spec level.
    pub closed spec fn factory_spec(&self) -> F {
        self.factory
    }

    /// The observable state.
    pub closed spec fn state(&self) -> ProxyState<F::Out> {
        ProxyState { calls: self.factory.calls(), target: self.target }
    }

    /// How the observable state reflects the other spec-level views.
    pub proof fn lemma_state_agrees(&self)
        ensures
            self.state().calls == self.calls_spec(),
            self.state().target is Some <==> self.resolved_spec(),
            self.resolved_spec() ==> self.state().target.unwrap() == self.target_spec(),
    {
    }

    /// The proxy's spec-level views are those of its factory.
    pub proof fn lemma_views_are_factory_views(&self)
        ensures
            self.calls_spec() == self.factory_spec().calls(),
            self.label_spec() == self.factory_spec().label(),
            self.wf() == self.factory_spec().callable(),
    {
    }

    /// Creates a proxy around `factory`, with no target constructed yet
    /// and the factory not yet invoked. A factory that is not callable is
    /// rejected up front, before any resolution could be attempted.
    pub fn new(factory: F) -> (r: Result<Proxy<F>, Error>)
        ensures
            match r {
                Ok(p) => factory.callable() && p.wf() && !p.resolved_spec() && p.factory_spec()
                    == factory,
                Err(e) => e == Error::NotCallable && !factory.callable(),
            },
    {
        if factory.is_callable() {
            Ok(Proxy { factory, target: Option::None })
        } else {
            Err(Error::NotCallable)
        }
    }

    /// Whether the target has been constructed. Never constructs it: the
    /// proxy is only read.
    pub fn resolved(&self) -> (r: bool)
        ensures
            r == self.resolved_spec(),
    {
        self.target.is_some()
    }

    /// The dedicated accessor for the proxy's own factory slot. It stands
    /// apart from the forwarded attribute namespace, so reading it never
    /// touches the target.
    pub fn factory_ref(&self) -> (r: &F)
        ensures
            *r == self.factory_spec(),
    {
        &self.factory
    }

    /// Resolution: on the first use the factory is invoked once and its
    /// value stored; afterwards the stored target is reused and the
    /// factory left alone. A factory failure is passed through unchanged,
    /// nothing is stored, and the next use retries. Success always leaves
    /// a stored target: the internal-consistency failure is provably
    /// unreachable.
    pub fn force(&mut self) -> (r: Result<(), Error>)
        requires
            old(self).wf(),
        ensures
            final(self).wf(),
            final(self).label_spec() == old(self).label_spec(),
            resolve_step(old(self).state(), final(self).state(), r is Ok),
            r is Ok <==> final(self).resolved_spec(),
            old(self).resolved_spec() ==> *final(self) == *old(self),
            !old(self).resolved_spec() ==> resolved_by_invoke(*old(self), *final(self), r),
    {
        if self.target.is_none() {
            match self.factory.invoke() {
                Ok(v) => {
                    self.target = Option::Some(v);
                },
                Err(e) => {
                    return Err(e);
                },
            }
        }
        // resolution reported success: a target must now be stored
        match &self.target {
            Option::Some(_) => Ok(()),
            Option::None => Err(Error::Internal),
        }
    }

    /// The stored target, readable once resolution has succeeded.
    pub fn target_ref(&self) -> (r: &F::Out)
        requires
            self.resolved_spec(),
        ensures
            *r == self.target_spec(),
    {
        match &self.target {
            Option::Some(t) => t,
            Option::None => unreached(),
        }
    }
}

/// Forces resolution and hands out the target.
pub fn extract<F: Factory>(p: &mut Proxy<F>) -> (r: Result<&F::Out, Error>)
    requires
        old(p).wf(),
    ensures
        final(p).wf(),
        final(p).label_spec() == old(p).label_spec(),
        old(p).resolved_spec() ==> *final(p) == *old(p),
        !old(p).resolved_spec() ==> resolved_by_invoke(*old(p), *final(p), r),
        match r {
            Ok(t) => resolve_step(old(p).state(), final(p).state(), true) && *t == final(p).target_spec(),
            Err(e) => resolve_step(old(p).state(), final(p).state(), false) && !final(p).resolved_spec(),
        },
{
    match p.force() {
        Ok(()) => Ok(p.target_ref()),
        Err(e) => Err(e),
    }
}

/// Whether a target is memoized. Never triggers construction: the proxy
/// is only read.
pub fn is_resolved<F: Factory>(p: &Proxy<F>) -> (r: bool)
    ensures
        r == p.resolved_spec(),
{
    p.resolved()
}

/// Forces resolution for its side effect alone, discarding the target.
pub fn resolve<F: Factory>(p: &mut Proxy<F>) -> (r: Result<(), Error>)
    requires
        old(p).wf(),
    ensures
        final(p).wf(),
        final(p).label_spec() == old(p).label_spec(),
        old(p).resolved_spec() ==> *final(p) == *old(p),
        !old(p).resolved_spec() ==> resolved_by_invoke(*old(p), *final(p), r),
        resolve_step(old(p).state(), final(p).state(), r is Ok),
        r is Ok <==> final(p).resolved_spec(),
{
    p.force()
}

/// The two reserved slot names of the proxy's own state.
pub open spec fn is_slot_name(n: Seq<char>) -> bool {
    n == "__factory__"@ || n == "__target__"@
}

/// Whether `name` is one of the proxy's two reserved slot names.
pub fn slot_name(name: &Vec<char>) -> (r: bool)
    ensures
        r == is_slot_name(name@),
{
    let f = value::text_of("__factory__");
    if text::text_eq(name, &f) {
        return true;
    }
    let t = value::text_of("__target__");
    text::text_eq(name, &t)
}

impl<F: Factory<Out = Value>> Proxy<F> {
    /// The debug form: it discloses proxy-ness and shows the factory, and
    /// the target only if already resolved.
    pub open spec fn repr_spec(&self) -> Seq<char> {
        if self.resolved_spec() {
            "<Proxy wrapping "@ + value::str_spec(self.target_spec()@) + " with factory "@
                + self.label_spec() + ">"@
        } else {
            "<Proxy with factory "@ + self.label_spec() + ">"@
        }
    }

    /// The debug representation. It never triggers resolution: the proxy
    /// is only read, and an unresolved proxy stays unresolved.
    pub fn repr_value(&self) -> (r: Vec<char>)
        ensures
            r@ == self.repr_spec(),
    {
        match &self.target {
            Option::Some(t) => {
                let mut out = value::text_of("<Proxy wrapping ");
                let ts = value::str_of(t);
                text::push_all(&mut out, &ts);
                let mid = value::text_of(" with factory ");
                text::push_all(&mut out, &mid);
                let lab = self.factory.describe();
                text::push_all(&mut out, &lab);
                let close = value::text_of(">");
                text::push_all(&mut out, &close);
                out
            },
            Option::None => {
                let mut out = value::text_of("<Proxy with factory ");
                let lab = self.factory.describe();
                text::push_all(&mut out, &lab);
                let close = value::text_of(">");
                text::push_all(&mut out, &close);
                out
            },
        }
    }

    /// Textual conversion, forwarded to the resolved target.
    pub fn str_value(&mut self) -> (r: Result<Vec<char>, Error>)
        requires
            old(self).wf(),
        ensures
            final(self).wf(),
            final(self).label_spec() == old(self).label_spec(),
            forwarded_step(old(self).state(), final(self).state()),
            old(self).resolved_spec() ==> *final(self) == *old(self),
            !old(self).resolved_spec() ==> resolved_by_invoke(*old(self), *final(self), r),
            final(self).resolved_spec() ==> (r matches Ok(t) && t@ == value::str_spec(
                final(self).target_spec()@,
            )),
            !final(self).resolved_spec() ==> r is Err,
    {
        match self.force() {
            Ok(()) => Ok(value::str_of(self.target_ref())),
            Err(e) => Err(e),
        }
    }

    /// Hashing, forwarded to the resolved target.
    pub fn hash_value(&mut self) -> (r: Result<i64, Error>)
        requires
            old(self).wf(),
        ensures
            final(self).wf(),
            final(self).label_spec() == old(self).label_spec(),
            forwarded_step(old(self).state(), final(self).state()),
            old(self).resolved_spec() ==> *final(self) == *old(self),
            !old(self).resolved_spec() ==> resolved_by_invoke(*old(self), *final(self), r),
            final(self).resolved_spec() ==> match r {
                Ok(h) => value::hash_spec(final(self).target_spec()@) == Ok::<int, Error>(h as int),
                Err(e) => value::hash_spec(final(self).target_spec()@) == Err::<int, Error>(e),
            },
            !final(self).resolved_spec() ==> r is Err,
    {
        match self.force() {
            Ok(()) => value::hash_of(self.target_ref()),
            Err(e) => Err(e),
        }
    }

    /// One of the six relational comparisons, forwarded to the resolved
    /// target.
    pub fn richcmp(&mut self, other: &Value, op: CmpOp) -> (r: Result<bool, Error>)
        requires
            old(self).wf(),
        ensures
            final(self).wf(),
            final(self).label_spec() == old(self).label_spec(),
            forwarded_step(old(self).state(), final(self).state()),
            old(self).resolved_spec() ==> *final(self) == *old(self),
            !old(self).resolved_spec() ==> resolved_by_invoke(*old(self), *final(self), r),
            final(self).resolved_spec() ==> r == value::cmp_spec(
                op,
                final(self).target_spec()@,
                other@,
            ),
            !final(self).resolved_spec() ==> r is Err,
    {
        match self.force() {
            Ok(()) => value::compare(op, self.target_ref(), other),
            Err(e) => Err(e),
        }
    }

    /// Boolean coercion, forwarded to the resolved target.
    pub fn truth_value(&mut self) -> (r: Result<bool, Error>)
        requires
            old(self).wf(),
        ensures
            final(self).wf(),
            final(self).label_spec() == old(self).label_spec(),
            forwarded_step(old(self).state(), final(self).state()),
            old(self).resolved_spec() ==> *final(self) == *old(self),
            !old(self).resolved_spec() ==> resolved_by_invoke(*old(self), *final(self), r),
            final(self).resolved_spec() ==> r == Ok::<bool, Error>(
                value::truthy_spec(final(self).target_spec()@),
            ),
            !final(self).resolved_spec() ==> r is Err,
    {
        match self.force() {
            Ok(()) => Ok(value::truthy_of(self.target_ref())),
            Err(e) => Err(e),
        }
    }

    /// Invocation with arguments, forwarded to the resolved target.
    pub fn call_value(&mut self, args: &Vec<Value>) -> (r: Result<Value, Error>)
        requires
            old(self).wf(),
        ensures
            final(self).wf(),
            final(self).label_spec() == old(self).label_spec(),
            forwarded_step(old(self).state(), final(self).state()),
            old(self).resolved_spec() ==> *final(self) == *old(self),
            !old(self).resolved_spec() ==> resolved_by_invoke(*old(self), *final(self), r),
            final(self).resolved_spec() ==> res_view(r) == items::call_spec(
                final(self).target_spec()@,
            ),
            !final(self).resolved_spec() ==> r is Err,
    {
        match self.force() {
            Ok(()) => items::call_of(self.target_ref(), args),
            Err(e) => Err(e),
        }
    }

    /// Length, forwarded to the resolved target.
    pub fn len_value(&mut self) -> (r: Result<usize, Error>)
        requires
            old(self).wf(),
        ensures
            final(self).wf(),
            final(self).label_spec() == old(self).label_spec(),
            forwarded_step(old(self).state(), final(self).state()),
            old(self).resolved_spec() ==> *final(self) == *old(self),
            !old(self).resolved_spec() ==> resolved_by_invoke(*old(self), *final(self), r),
            final(self).resolved_spec() ==> match r {
                Ok(n) => value::len_spec(final(self).target_spec()@) == Ok::<int, Error>(n as int),
                Err(e) => value::len_spec(final(self).target_spec()@) == Err::<int, Error>(e),
            },
            !final(self).resolved_spec() ==> r is Err,
    {
        match self.force() {
            Ok(()) => value::len_of(self.target_ref()),
            Err(e) => Err(e),
        }
    }

    /// Membership test, forwarded to the resolved target.
    pub fn contains_value(&mut self, x: &Value) -> (r: Result<bool, Error>)
        requires
            old(self).wf(),
        ensures
            final(self).wf(),
            final(self).label_spec() == old(self).label_spec(),
            forwarded_step(old(self).state(), final(self).state()),
            old(self).resolved_spec() ==> *final(self) == *old(self),
            !old(self).resolved_spec() ==> resolved_by_invoke(*old(self), *final(self), r),
            final(self).resolved_spec() ==> r == items::contains_spec(
                final(self).target_spec()@,
                x@,
            ),
            !final(self).resolved_spec() ==> r is Err,
    {
        match self.force() {
            Ok(()) => items::contains(self.target_ref(), x),
            Err(e) => Err(e),
        }
    }

    /// Item read, forwarded to the resolved target.
    pub fn get_item(&mut self, k: &Value) -> (r: Result<Value, Error>)
        requires
            old(self).wf(),
        ensures
            final(self).wf(),
            final(self).label_spec() == old(self).label_spec(),
            forwarded_step(old(self).state(), final(self).state()),
            old(self).resolved_spec() ==> *final(self) == *old(self),
            !old(self).resolved_spec() ==> resolved_by_invoke(*old(self), *final(self), r),
            final(self).resolved_spec() ==> res_view(r) == items::get_item_spec(
                final(self).target_spec()@,
                k@,
            ),
            !final(self).resolved_spec() ==> r is Err,
    {
        match self.force() {
            Ok(()) => items::get_item(self.target_ref(), k),
            Err(e) => Err(e),
        }
    }

    /// Obtaining an iterator, forwarded to the resolved target.
    pub fn iter_value(&mut self) -> (r: Result<Value, Error>)
        requires
            old(self).wf(),
        ensures
            final(self).wf(),
            final(self).label_spec() == old(self).label_spec(),
            forwarded_step(old(self).state(), final(self).state()),
            old(self).resolved_spec() ==> *final(self) == *old(self),
            !old(self).resolved_spec() ==> resolved_by_invoke(*old(self), *final(self), r),
            final(self).resolved_spec() ==> res_view(r) == items::iter_spec(
                final(self).target_spec()@,
            ),
            !final(self).resolved_spec() ==> r is Err,
    {
        match self.force() {
            Ok(()) => items::iter_of(self.target_ref()),
            Err(e) => Err(e),
        }
    }

    /// Addition, forwarded to the resolved target.
    pub fn add_value(&mut self, other: &Value) -> (r: Result<Value, Error>)
        requires
            old(self).wf(),
        ensures
            final(self).wf(),
            final(self).label_spec() == old(self).label_spec(),
            forwarded_step(old(self).state(), final(self).state()),
            old(self).resolved_spec() ==> *final(self) == *old(self),
            !old(self).resolved_spec() ==> resolved_by_invoke(*old(self), *final(self), r),
            final(self).resolved_spec() ==> res_view(r) == arith::add_spec(
                final(self).target_spec()@,
                other@,
            ),
            !final(self).resolved_spec() ==> r is Err,
    {
        match self.force() {
            Ok(()) => arith::add(self.target_ref(), other),
            Err(e) => Err(e),
        }
    }

    /// Subtraction, forwarded to the resolved target.
    pub fn sub_value(&mut self, other: &Value) -> (r: Result<Value, Error>)
        requires
            old(self).wf(),
        ensures
            final(self).wf(),
            final(self).label_spec() == old(self).label_spec(),
            forwarded_step(old(self).state(), final(self).state()),
            old(self).resolved_spec() ==> *final(self) == *old(self),
            !old(self).resolved_spec() ==> resolved_by_invoke(*old(self), *final(self), r),
            final(self).resolved_spec() ==> res_view(r) == arith::sub_spec(
                final(self).target_spec()@,
                other@,
            ),
            !final(self).resolved_spec() ==> r is Err,
    {
        match self.force() {
            Ok(()) => arith::sub(self.target_ref(), other),
            Err(e) => Err(e),
        }
    }

    /// Multiplication, forwarded to the resolved target.
    pub fn mul_value(&mut self, other: &Value) -> (r: Result<Value, Error>)
        requires
            old(self).wf(),
        ensures
            final(self).wf(),
            final(self).label_spec() == old(self).label_spec(),
            forwarded_step(old(self).state(), final(self).state()),
            old(self).resolved_spec() ==> *final(self) == *old(self),
            !old(self).resolved_spec() ==> resolved_by_invoke(*old(self), *final(self), r),
            final(self).resolved_spec() ==> res_view(r) == arith::mul_spec(
                final(self).target_spec()@,
                other@,
            ),
            !final(self).resolved_spec() ==> r is Err,
    {
        match self.force() {
            Ok(()) => arith::mul(self.target_ref(), other),
            Err(e) => Err(e),
        }
    }

    /// True division, forwarded to the resolved target.
    pub fn true_div_value(&mut self, other: &Value) -> (r: Result<Value, Error>)
        requires
            old(self).wf(),
        ensures
            final(self).wf(),
            final(self).label_spec() == old(self).label_spec(),
            forwarded_step(old(self).state(), final(self).state()),
            old(self).resolved_spec() ==> *final(self) == *old(self),
            !old(self).resolved_spec() ==> resolved_by_invoke(*old(self), *final(self), r),
            final(self).resolved_spec() ==> res_view(r) == arith::true_div_spec(
                final(self).target_spec()@,
                other@,
            ),
            !final(self).resolved_spec() ==> r is Err,
    {
        match self.force() {
            Ok(()) => arith::true_div(self.target_ref(), other),
            Err(e) => Err(e),
        }
    }

    /// Floor division, forwarded to the resolved target.
    pub fn floor_div_value(&mut self, other: &Value) -> (r: Result<Value, Error>)
        requires
            old(self).wf(),
        ensures
            final(self).wf(),
            final(self).label_spec() == old(self).label_spec(),
            forwarded_step(old(self).state(), final(self).state()),
            old(self).resolved_spec() ==> *final(self) == *old(self),
            !old(self).resolved_spec() ==> resolved_by_invoke(*old(self), *final(self), r),
            final(self).resolved_spec() ==> res_view(r) == arith::floor_div_spec(
                final(self).target_spec()@,
                other@,
            ),
            !final(self).resolved_spec() ==> r is Err,
    {
        match self.force() {
            Ok(()) => arith::floor_div(self.target_ref(), other),
            Err(e) => Err(e),
        }
    }

    /// Left shift, forwarded to the resolved target.
    pub fn lshift_value(&mut self, other: &Value) -> (r: Result<Value, Error>)
        requires
            old(self).wf(),
        ensures
            final(self).wf(),
            final(self).label_spec() == old(self).label_spec(),
            forwarded_step(old(self).state(), final(self).state()),
            old(self).resolved_spec() ==> *final(self) == *old(self),
            !old(self).resolved_spec() ==> resolved_by_invoke(*old(self), *final(self), r),
            final(self).resolved_spec() ==> res_view(r) == arith::lshift_spec(
                final(self).target_spec()@,
                other@,
            ),
            !final(self).resolved_spec() ==> r is Err,
    {
        match self.force() {
            Ok(()) => arith::lshift(self.target_ref(), other),
            Err(e) => Err(e),
        }
    }

    /// Right shift, forwarded to the resolved target.
    pub fn rshift_value(&mut self, other: &Value) -> (r: Result<Value, Error>)
        requires
            old(self).wf(),
        ensures
            final(self).wf(),
            final(self).label_spec() == old(self).label_spec(),
            forwarded_step(old(self).state(), final(self).state()),
            old(self).resolved_spec() ==> *final(self) == *old(self),
            !old(self).resolved_spec() ==> resolved_by_invoke(*old(self), *final(self), r),
            final(self).resolved_spec() ==> res_view(r) == arith::rshift_spec(
                final(self).target_spec()@,
                other@,
            ),
            !final(self).resolved_spec() ==> r is Err,
    {
        match self.force() {
            Ok(()) => arith::rshift(self.target_ref(), other),
            Err(e) => Err(e),
        }
    }

    /// Item write, forwarded to the resolved target: the write lands in
    /// the stored target itself.
    pub fn set_item(&mut self, k: &Value, x: &Value) -> (r: Result<(), Error>)
        requires
            old(self).wf(),
        ensures
            final(self).wf(),
            final(self).label_spec() == old(self).label_spec(),
            forwarded_step(old(self).state(), final(self).state()),
            !old(self).resolved_spec() && !final(self).resolved_spec() ==> resolved_by_invoke(
                *old(self),
                *final(self),
                r,
            ),
            !old(self).resolved_spec() && final(self).resolved_spec() ==> (exists|v: Value|
                #[trigger] freshly_resolved(*old(self), *final(self), v) && (match r {
                    Ok(()) => items::set_item_spec(v@, k@, x@) == Ok::<ValueV, Error>(
                        final(self).target_spec()@,
                    ),
                    Err(e) => items::set_item_spec(v@, k@, x@) == Err::<ValueV, Error>(e)
                        && final(self).target_spec()@ == v@,
                })),
            old(self).resolved_spec() ==> final(self).resolved_spec() && final(self).calls_spec()
                == old(self).calls_spec() && (match r {
                Ok(()) => items::set_item_spec(old(self).target_spec()@, k@, x@) == Ok::<
                    ValueV,
                    Error,
                >(final(self).target_spec()@),
                Err(e) => items::set_item_spec(old(self).target_spec()@, k@, x@) == Err::<
                    ValueV,
                    Error,
                >(e) && final(self).target_spec()@ == old(self).target_spec()@,
            }),
            !final(self).resolved_spec() ==> r is Err,
    {
        match self.force() {
            Ok(()) => {
                let ghost fresh = self.target_spec();
                let mut tgt: Option<Value> = Option::None;
                swap(&mut self.target, &mut tgt);
                match tgt {
                    Option::Some(mut t) => {
                        let r = items::set_item(&mut t, k, x);
                        self.target = Option::Some(t);
                        proof {
                            if !old(self).resolved_spec() {
                                assert(freshly_resolved(*old(self), *self, fresh));
                            }
                        }
                        r
                    },
                    Option::None => unreached(),
                }
            },
            Err(e) => Err(e),
        }
    }

    /// Item removal, forwarded to the resolved target: the removal lands
    /// in the stored target itself.
    pub fn del_item(&mut self, k: &Value) -> (r: Result<(), Error>)
        requires
            old(self).wf(),
        ensures
            final(self).wf(),
            final(self).label_spec() == old(self).label_spec(),
            forwarded_step(old(self).state(), final(self).state()),
            !old(self).resolved_spec() && !final(self).resolved_spec() ==> resolved_by_invoke(
                *old(self),
                *final(self),
                r,
            ),
            !old(self).resolved_spec() && final(self).resolved_spec() ==> (exists|v: Value|
                #[trigger] freshly_resolved(*old(self), *final(self), v) && (match r {
                    Ok(()) => items::del_item_spec(v@, k@) == Ok::<ValueV, Error>(
                        final(self).target_spec()@,
                    ),
                    Err(e) => items::del_item_spec(v@, k@) == Err::<ValueV, Error>(e) && final(self).target_spec()@ == v@,
                })),
            old(self).resolved_spec() ==> final(self).resolved_spec() && final(self).calls_spec()
                == old(self).calls_spec() && (match r {
                Ok(()) => items::del_item_spec(old(self).target_spec()@, k@) == Ok::<
                    ValueV,
                    Error,
                >(final(self).target_spec()@),
                Err(e) => items::del_item_spec(old(self).target_spec()@, k@) == Err::<
                    ValueV,
                    Error,
                >(e) && final(self).target_spec()@ == old(self).target_spec()@,
            }),
            !final(self).resolved_spec() ==> r is Err,
    {
        match self.force() {
            Ok(()) => {
                let ghost fresh = self.target_spec();
                let mut tgt: Option<Value> = Option::None;
                swap(&mut self.target, &mut tgt);
                match tgt {
                    Option::Some(mut t) => {
                        let r = items::del_item(&mut t, k);
                        self.target = Option::Some(t);
                        proof {
                            if !old(self).resolved_spec() {
                                assert(freshly_resolved(*old(self), *self, fresh));
                            }
                        }
                        r
                    },
                    Option::None => unreached(),
                }
            },
            Err(e) => Err(e),
        }
    }

    /// Advancing the target as an iterator: the cursor moves in the
    /// stored target itself, and the produced item comes back.
    pub fn next_value(&mut self) -> (r: Result<Value, Error>)
        requires
            old(self).wf(),
        ensures
            final(self).wf(),
            final(self).label_spec() == old(self).label_spec(),
            forwarded_step(old(self).state(), final(self).state()),
            !old(self).resolved_spec() && !final(self).resolved_spec() ==> resolved_by_invoke(
                *old(self),
                *final(self),
                r,
            ),
            !old(self).resolved_spec() && final(self).resolved_spec() ==> (exists|v: Value|
                #[trigger] freshly_resolved(*old(self), *final(self), v) && final(self).target_spec()@ == items::next_spec(v@).0 && res_view(r) == items::next_spec(
                    v@,
                ).1),
            old(self).resolved_spec() ==> final(self).resolved_spec() && final(self).calls_spec()
                == old(self).calls_spec() && final(self).target_spec()@ == items::next_spec(
                old(self).target_spec()@,
            ).0 && res_view(r) == items::next_spec(old(self).target_spec()@).1,
            !final(self).resolved_spec() ==> r is Err,
    {
        match self.force() {
            Ok(()) => {
                let ghost fresh = self.target_spec();
                let mut tgt: Option<Value> = Option::None;
                swap(&mut self.target, &mut tgt);
                match tgt {
                    Option::Some(mut t) => {
                        let r = items::next_of(&mut t);
                        self.target = Option::Some(t);
                        proof {
                            if !old(self).resolved_spec() {
                                assert(freshly_resolved(*old(self), *self, fresh));
                            }
                        }
                        r
                    },
                    Option::None => unreached(),
                }
            },
            Err(e) => Err(e),
        }
    }

    /// Attribute read, forwarded to the resolved target. The proxy's two
    /// reserved slot names never reach the target: the general attribute
    /// path rejects them without resolving anything.
    pub fn get_attr(&mut self, name: &Vec<char>) -> (r: Result<Value, Error>)
        requires
            old(self).wf(),
        ensures
            final(self).wf(),
            final(self).label_spec() == old(self).label_spec(),
            !is_slot_name(name@) ==> forwarded_step(old(self).state(), final(self).state()),
            is_slot_name(name@) ==> r == Err::<Value, Error>(Error::NoAttribute) && *final(self)
                == *old(self),
            !is_slot_name(name@) && old(self).resolved_spec() ==> *final(self) == *old(self),
            !is_slot_name(name@) && !old(self).resolved_spec() ==> resolved_by_invoke(
                *old(self),
                *final(self),
                r,
            ),
            !is_slot_name(name@) && final(self).resolved_spec() ==> res_view(r)
                == items::get_attr_spec(final(self).target_spec()@, name@),
            !is_slot_name(name@) && !final(self).resolved_spec() ==> r is Err,
    {
        if slot_name(name) {
            return Err(Error::NoAttribute);
        }
        match self.force() {
            Ok(()) => items::get_attr(self.target_ref(), name),
            Err(e) => Err(e),
        }
    }

    /// Attribute write, forwarded to the resolved target; the reserved
    /// slot names are rejected without resolving, so they can never
    /// shadow or corrupt the proxy's own state.
    pub fn set_attr(&mut self, name: &Vec<char>, x: &Value) -> (r: Result<(), Error>)
        requires
            old(self).wf(),
        ensures
            final(self).wf(),
            final(self).label_spec() == old(self).label_spec(),
            !is_slot_name(name@) ==> forwarded_step(old(self).state(), final(self).state()),
            is_slot_name(name@) ==> r == Err::<(), Error>(Error::NoAttribute) && *final(self)
                == *old(self),
            !is_slot_name(name@) && !old(self).resolved_spec() && !final(self).resolved_spec()
                ==> resolved_by_invoke(*old(self), *final(self), r),
            !is_slot_name(name@) && !old(self).resolved_spec() && final(self).resolved_spec()
                ==> (exists|v: Value|
                #[trigger] freshly_resolved(*old(self), *final(self), v) && (match r {
                    Ok(()) => items::set_attr_spec(v@, name@, x@) == Ok::<ValueV, Error>(
                        final(self).target_spec()@,
                    ),
                    Err(e) => items::set_attr_spec(v@, name@, x@) == Err::<ValueV, Error>(e)
                        && final(self).target_spec()@ == v@,
                })),
            !is_slot_name(name@) && old(self).resolved_spec() ==> final(self).resolved_spec()
                && final(self).calls_spec() == old(self).calls_spec() && (match r {
                Ok(()) => items::set_attr_spec(old(self).target_spec()@, name@, x@) == Ok::<
                    ValueV,
                    Error,
                >(final(self).target_spec()@),
                Err(e) => items::set_attr_spec(old(self).target_spec()@, name@, x@) == Err::<
                    ValueV,
                    Error,
                >(e) && final(self).target_spec()@ == old(self).target_spec()@,
            }),
            !is_slot_name(name@) && !final(self).resolved_spec() ==> r is Err,
    {
        if slot_name(name) {
            return Err(Error::NoAttribute);
        }
        match self.force() {
            Ok(()) => {
                let ghost fresh = self.target_spec();
                let mut tgt: Option<Value> = Option::None;
                swap(&mut self.target, &mut tgt);
                match tgt {
                    Option::Some(mut t) => {
                        let r = items::set_attr(&mut t, name, x);
                        self.target = Option::Some(t);
                        proof {
                            if !old(self).resolved_spec() {
                                assert(freshly_resolved(*old(self), *self, fresh));
                            }
                        }
                        r
                    },
                    Option::None => unreached(),
                }
            },
            Err(e) => Err(e),
        }
    }

    /// Attribute removal, forwarded to the resolved target; the reserved
    /// slot names are rejected without resolving.
    pub fn del_attr(&mut self, name: &Vec<char>) -> (r: Result<(), Error>)
        requires
            old(self).wf(),
        ensures
            final(self).wf(),
            final(self).label_spec() == old(self).label_spec(),
            !is_slot_name(name@) ==> forwarded_step(old(self).state(), final(self).state()),
            is_slot_name(name@) ==> r == Err::<(), Error>(Error::NoAttribute) && *final(self)
                == *old(self),
            !is_slot_name(name@) && !old(self).resolved_spec() && !final(self).resolved_spec()
                ==> resolved_by_invoke(*old(self), *final(self), r),
            !is_slot_name(name@) && !old(self).resolved_spec() && final(self).resolved_spec()
                ==> (exists|v: Value|
                #[trigger] freshly_resolved(*old(self), *final(self), v) && (match r {
                    Ok(()) => items::del_attr_spec(v@, name@) == Ok::<ValueV, Error>(
                        final(self).target_spec()@,
                    ),
                    Err(e) => items::del_attr_spec(v@, name@) == Err::<ValueV, Error>(e) && final(self).target_spec()@ == v@,
                })),
            !is_slot_name(name@) && old(self).resolved_spec() ==> final(self).resolved_spec()
                && final(self).calls_spec() == old(self).calls_spec() && (match r {
                Ok(()) => items::del_attr_spec(old(self).target_spec()@, name@) == Ok::<
                    ValueV,
                    Error,
                >(final(self).target_spec()@),
                Err(e) => items::del_attr_spec(old(self).target_spec()@, name@) == Err::<
                    ValueV,
                    Error,
                >(e) && final(self).target_spec()@ == old(self).target_spec()@,
            }),
            !is_slot_name(name@) && !final(self).resolved_spec() ==> r is Err,
    {
        if slot_name(name) {
            return Err(Error::NoAttribute);
        }
        match self.force() {
            Ok(()) => {
                let ghost fresh = self.target_spec();
                let mut tgt: Option<Value> = Option::None;
                swap(&mut self.target, &mut tgt);
                match tgt {
                    Option::Some(mut t) => {
                        let r = items::del_attr(&mut t, name);
                        self.target = Option::Some(t);
                        proof {
                            if !old(self).resolved_spec() {
                                assert(freshly_resolved(*old(self), *self, fresh));
                            }
                        }
                        r
                    },
                    Option::None => unreached(),
                }
            },
            Err(e) => Err(e),
        }
    }
}

} // verus!
