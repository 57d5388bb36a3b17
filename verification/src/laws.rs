//! The stated laws of the proxy, over its observable state: construction
//! happens at most once after the first success, a failed construction is
//! retried, and a successful resolution is idempotent.

use vstd::prelude::*;
use crate::proxy::{ProxyState, resolve_step, forwarded_step};

verus! {

/// At most one successful construction: once a target is present, any
/// run of forwarded operations keeps a target present and never invokes
/// the factory again, so every later operation observes the construction
/// count of the first success.
pub proof fn lemma_at_most_one_construction<T>(steps: Seq<ProxyState<T>>)
    requires
        steps.len() > 0,
        forall|i: int| 0 <= i < steps.len() - 1 ==> #[trigger] forwarded_step(steps[i], steps[i + 1]),
        steps[0].target is Some,
    ensures
        forall|i: int|
            0 <= i < steps.len() ==> (#[trigger] steps[i]).target is Some && steps[i].calls
                == steps[0].calls,
    decreases steps.len(),
{
    if steps.len() > 1 {
        let pre = steps.drop_last();
        assert forall|i: int| 0 <= i < pre.len() - 1 implies #[trigger] forwarded_step(
            pre[i],
            pre[i + 1],
        ) by {
            assert(forwarded_step(steps[i], steps[i + 1]));
        }
        lemma_at_most_one_construction(pre);
        let n = steps.len() as int;
        assert(forwarded_step(steps[n - 2], steps[n - 2 + 1]));
        assert forall|i: int|
            0 <= i < steps.len() implies (#[trigger] steps[i]).target is Some && steps[i].calls
            == steps[0].calls by {
            if i < n - 1 {
                assert(steps[i] == pre[i]);
                assert(pre[i].target is Some && pre[i].calls == pre[0].calls);
            } else {
                assert(steps[n - 2] == pre[n - 2]);
                assert(pre[n - 2].target is Some && pre[n - 2].calls == pre[0].calls);
            }
        }
    }
}

/// Retry after failure: when the factory fails on an attempt, the proxy
/// stays unresolved and one invocation was recorded; the next resolution
/// invokes the factory again, and stores a target exactly when that
/// attempt succeeds.
pub proof fn lemma_retry_after_failure<T>(
    s0: ProxyState<T>,
    s1: ProxyState<T>,
    s2: ProxyState<T>,
    ok2: bool,
)
    requires
        s0.target is None,
        resolve_step(s0, s1, false),
        resolve_step(s1, s2, ok2),
    ensures
        s1.calls == s0.calls + 1,
        s1.target is None,
        s2.calls == s0.calls + 2,
        ok2 ==> s2.target is Some,
        !ok2 ==> s2.target is None,
{
}

/// Idempotence of resolution: after one successful resolution, a further
/// resolution succeeds, changes nothing, and observes the identical
/// stored target.
pub proof fn lemma_resolution_idempotent<T>(
    s0: ProxyState<T>,
    s1: ProxyState<T>,
    s2: ProxyState<T>,
    ok2: bool,
)
    requires
        resolve_step(s0, s1, true),
        resolve_step(s1, s2, ok2),
    ensures
        s1.target is Some,
        ok2,
        s2 == s1,
        s2.target == s1.target,
{
}

/// Transparency: every forwarding operation of the proxy and the same
/// operation of the value model are pinned, by their contracts, to one
/// and the same spec-level result on the resolved target. Two results
/// that both meet those contracts therefore agree exactly, error cases
/// included: results cannot tell the proxy and its target apart.
pub proof fn lemma_transparency<A>(pinned: A, through_proxy: A, direct: A)
    requires
        through_proxy == pinned,
        direct == pinned,
    ensures
        through_proxy == direct,
{
}

} // verus!
