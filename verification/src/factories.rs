//! Ready-made factories for the proxy: one that produces copies of a
//! fixed value, one that fails a chosen number of times before producing,
//! and a stand-in for an object that is not callable at all.

use vstd::prelude::*;
use crate::error::Error;
use crate::proxy::Factory;
use crate::value;
use crate::value::{Value, ValueV};

verus! {

/// A factory producing copies of a fixed value.
pub struct ConstFactory {
    value: Value,
    tag: Vec<char>,
    hits: u64,
    counted: Ghost<nat>,
}

impl ConstFactory {
    /// The view of the value every invocation produces.
    pub closed spec fn produces(&self) -> ValueV {
        self.value@
    }

    /// Creates the factory, not yet invoked, described by `tag`.
    pub fn new(value: Value, tag: Vec<char>) -> (r: ConstFactory)
        ensures
            r.callable(),
            r.calls() == 0,
            r.produces() == value@,
            r.label() == tag@,
    {
        ConstFactory { value, tag, hits: 0, counted: Ghost(0) }
    }

    /// A saturating mirror of the invocation count, there to be observed
    /// by callers; the exact count is the spec-level `calls`.
    pub fn hits(&self) -> u64 {
        self.hits
    }
}

impl Factory for ConstFactory {
    type Out = Value;

    open spec fn callable(&self) -> bool {
        true
    }

    closed spec fn calls(&self) -> nat {
        self.counted@
    }

    closed spec fn label(&self) -> Seq<char> {
        self.tag@
    }

    /// Every invocation succeeds with a copy of the fixed value, and the
    /// factory keeps producing the same value.
    open spec fn invoke_rel(pre: Self, post: Self, r: Result<Value, Error>) -> bool {
        &&& post.produces() == pre.produces()
        &&& (r matches Ok(v) && v@ == pre.produces())
    }

    fn is_callable(&self) -> (r: bool) {
        true
    }

    fn invoke(&mut self) -> (r: Result<Value, Error>) {
        proof {
            self.counted@ = self.counted@ + 1;
        }
        if self.hits < u64::MAX {
            self.hits = self.hits + 1;
        }
        Ok(self.value.clone())
    }

    fn describe(&self) -> (r: Vec<char>) {
        let t = self.tag.clone();
        proof {
            assert(t@ =~= self.tag@);
        }
        t
    }
}

/// A factory that fails its first invocations with a chosen error, then
/// produces copies of a fixed value: a transiently unavailable resource.
pub struct FlakyFactory {
    value: Value,
    err: Error,
    fail_before: u64,
    tag: Vec<char>,
    hits: u64,
    counted: Ghost<nat>,
}

impl FlakyFactory {
    /// The view of the value produced once the failures are spent.
    pub closed spec fn produces(&self) -> ValueV {
        self.value@
    }

    /// How many failing invocations are still ahead.
    pub closed spec fn fails_left(&self) -> nat {
        if self.hits < self.fail_before {
            (self.fail_before - self.hits) as nat
        } else {
            0
        }
    }

    /// The error each failing invocation raises.
    pub closed spec fn raises(&self) -> Error {
        self.err
    }

    /// Creates the factory: the first `fail_before` invocations fail
    /// with `err`, every later one produces a copy of `value`.
    pub fn new(value: Value, err: Error, fail_before: u64, tag: Vec<char>) -> (r: FlakyFactory)
        ensures
            r.callable(),
            r.calls() == 0,
            r.produces() == value@,
            r.fails_left() == fail_before as nat,
            r.raises() == err,
            r.label() == tag@,
    {
        FlakyFactory { value, err, fail_before, tag, hits: 0, counted: Ghost(0) }
    }

    /// A saturating mirror of the invocation count, there to be observed
    /// by callers; the exact count is the spec-level `calls`.
    pub fn hits(&self) -> u64 {
        self.hits
    }
}

impl Factory for FlakyFactory {
    type Out = Value;

    open spec fn callable(&self) -> bool {
        true
    }

    closed spec fn calls(&self) -> nat {
        self.counted@
    }

    closed spec fn label(&self) -> Seq<char> {
        self.tag@
    }

    /// While failures remain, the invocation fails with the chosen error
    /// and one failure is spent; afterwards every invocation succeeds
    /// with a copy of the fixed value. The value and the error are kept.
    open spec fn invoke_rel(pre: Self, post: Self, r: Result<Value, Error>) -> bool {
        &&& post.produces() == pre.produces()
        &&& post.raises() == pre.raises()
        &&& if pre.fails_left() > 0 {
            r == Err::<Value, Error>(pre.raises()) && post.fails_left() == (pre.fails_left()
                - 1) as nat
        } else {
            (r matches Ok(v) && v@ == pre.produces()) && post.fails_left() == 0
        }
    }

    fn is_callable(&self) -> (r: bool) {
        true
    }

    fn invoke(&mut self) -> (r: Result<Value, Error>) {
        proof {
            self.counted@ = self.counted@ + 1;
        }
        let failing = self.hits < self.fail_before;
        if self.hits < u64::MAX {
            self.hits = self.hits + 1;
        }
        if failing {
            Err(self.err)
        } else {
            Ok(self.value.clone())
        }
    }

    fn describe(&self) -> (r: Vec<char>) {
        let t = self.tag.clone();
        proof {
            assert(t@ =~= self.tag@);
        }
        t
    }
}

/// A stand-in for an object that is not callable: handing it to the
/// proxy fails at construction, before any resolution could run.
pub struct NeverCallable;

impl Factory for NeverCallable {
    type Out = Value;

    open spec fn callable(&self) -> bool {
        false
    }

    open spec fn calls(&self) -> nat {
        0
    }

    open spec fn label(&self) -> Seq<char> {
        "<not callable>"@
    }

    fn is_callable(&self) -> (r: bool) {
        false
    }

    fn invoke(&mut self) -> (r: Result<Value, Error>) {
        Err(Error::NotCallable)
    }

    fn describe(&self) -> (r: Vec<char>) {
        value::text_of("<not callable>")
    }
}

} // verus!
