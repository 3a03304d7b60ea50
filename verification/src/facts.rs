//! What holds of every plan of endpoints.

use vstd::prelude::*;
use crate::address::{LocalAddress, Scope};
use crate::connector::{
    connector_for, connector_plan, is_candidate, lemma_plan_empty, lemma_plan_push, ConnectorConfig,
    IpVersionMode,
};

verus! {

/// Whether `config` is the endpoint of an address among `addrs` that is
/// usable and of a version that `mode` keeps.
pub open spec fn planned_from(
    addrs: Seq<LocalAddress>,
    ttl: Option<u32>,
    mode: IpVersionMode,
    config: ConnectorConfig,
) -> bool {
    exists|a: LocalAddress| #[trigger]
        addrs.contains(a) && is_candidate(a) && mode.admits(a) && config == connector_for(a, ttl)
}

/// A plan holds the endpoints of the usable addresses of a kept version, and
/// nothing else: no endpoint stands in it for an address that was filtered
/// out, and none is missing.
pub proof fn lemma_plan_members(addrs: Seq<LocalAddress>, ttl: Option<u32>, mode: IpVersionMode)
    ensures
        forall|config: ConnectorConfig| #[trigger]
            connector_plan(addrs, ttl, mode).contains(config) <==> planned_from(addrs, ttl, mode, config),
    decreases addrs.len(),
{
    let plan = connector_plan(addrs, ttl, mode);
    if addrs.len() == 0 {
        assert(addrs =~= Seq::empty());
        lemma_plan_empty(ttl, mode);
    } else {
        let init = addrs.drop_last();
        let last = addrs.last();
        assert(addrs =~= init.push(last));
        lemma_plan_members(init, ttl, mode);
        lemma_plan_push(init, last, ttl, mode);
        let before = connector_plan(init, ttl, mode);
        let kept = is_candidate(last) && mode.admits(last);
        assert forall|config: ConnectorConfig| #[trigger]
            plan.contains(config) implies planned_from(addrs, ttl, mode, config) by {
            let i = choose|i: int| 0 <= i < plan.len() && plan[i] == config;
            if i < before.len() {
                assert(before[i] == config);
                assert(before.contains(config));
                let a = choose|a: LocalAddress| #[trigger]
                    init.contains(a) && is_candidate(a) && mode.admits(a) && config == connector_for(
                        a,
                        ttl,
                    );
                let j = choose|j: int| 0 <= j < init.len() && init[j] == a;
                assert(addrs[j] == a);
                assert(addrs.contains(a));
            } else {
                assert(kept);
                assert(addrs[addrs.len() - 1] == last);
                assert(addrs.contains(last));
            }
        }
        assert forall|config: ConnectorConfig| planned_from(addrs, ttl, mode, config) implies #[trigger]
            plan.contains(config) by {
            let a = choose|a: LocalAddress| #[trigger]
                addrs.contains(a) && is_candidate(a) && mode.admits(a) && config == connector_for(a, ttl);
            let j = choose|j: int| 0 <= j < addrs.len() && addrs[j] == a;
            if j < init.len() {
                assert(init[j] == a);
                assert(init.contains(a));
                assert(planned_from(init, ttl, mode, config));
                assert(before.contains(config));
                let i = choose|i: int| 0 <= i < before.len() && before[i] == config;
                assert(plan[i] == config);
            } else {
                assert(a == last);
                assert(plan[plan.len() - 1] == config);
            }
        }
    }
}

/// No endpoint is bound to a loopback address: none in a plan has loopback
/// scope, and none has the IP address of a loopback address that was found.
pub proof fn lemma_loopback_never_bound(addrs: Seq<LocalAddress>, ttl: Option<u32>, mode: IpVersionMode)
    ensures
        forall|i: int|
            0 <= i < connector_plan(addrs, ttl, mode).len() ==> (#[trigger] connector_plan(
                addrs,
                ttl,
                mode,
            )[i]).local.scope() != Scope::Loopback,
        forall|i: int, j: int|
            0 <= i < connector_plan(addrs, ttl, mode).len() && 0 <= j < addrs.len() && (
            #[trigger] addrs[j]).scope() == Scope::Loopback ==> (#[trigger] connector_plan(
                addrs,
                ttl,
                mode,
            )[i]).local.ip() != addrs[j].ip(),
{
    let plan = connector_plan(addrs, ttl, mode);
    lemma_plan_members(addrs, ttl, mode);
    assert forall|i: int| 0 <= i < plan.len() implies (#[trigger] plan[i]).local.scope()
        != Scope::Loopback by {
        assert(plan.contains(plan[i]));
        assert(planned_from(addrs, ttl, mode, plan[i]));
    }
}

/// No endpoint is bound to an IPv6 address of global scope, whatever the
/// mode: none in a plan is such an address, and none has the IP address of
/// one that was found.
pub proof fn lemma_global_v6_never_bound(addrs: Seq<LocalAddress>, ttl: Option<u32>, mode: IpVersionMode)
    ensures
        forall|i: int|
            0 <= i < connector_plan(addrs, ttl, mode).len() ==> {
                let local = (#[trigger] connector_plan(addrs, ttl, mode)[i]).local;
                !(local is V6 && local.scope() == Scope::Global)
            },
        forall|i: int, j: int|
            0 <= i < connector_plan(addrs, ttl, mode).len() && 0 <= j < addrs.len() && (
            #[trigger] addrs[j]) is V6 && addrs[j].scope() == Scope::Global ==> (
            #[trigger] connector_plan(addrs, ttl, mode)[i]).local.ip() != addrs[j].ip(),
{
    let plan = connector_plan(addrs, ttl, mode);
    lemma_plan_members(addrs, ttl, mode);
    assert forall|i: int| 0 <= i < plan.len() implies {
        let local = (#[trigger] plan[i]).local;
        !(local is V6 && local.scope() == Scope::Global)
    } by {
        assert(plan.contains(plan[i]));
        assert(planned_from(addrs, ttl, mode, plan[i]));
    }
}

/// With `V4Only` every endpoint is bound to an IPv4 address, with `V6Only`
/// every one to an IPv6 address.
pub proof fn lemma_plan_versions(addrs: Seq<LocalAddress>, ttl: Option<u32>)
    ensures
        forall|i: int|
            0 <= i < connector_plan(addrs, ttl, IpVersionMode::V4Only).len() ==> (
            #[trigger] connector_plan(addrs, ttl, IpVersionMode::V4Only)[i]).local is V4,
        forall|i: int|
            0 <= i < connector_plan(addrs, ttl, IpVersionMode::V6Only).len() ==> (
            #[trigger] connector_plan(addrs, ttl, IpVersionMode::V6Only)[i]).local is V6,
{
    let v4 = connector_plan(addrs, ttl, IpVersionMode::V4Only);
    let v6 = connector_plan(addrs, ttl, IpVersionMode::V6Only);
    lemma_plan_members(addrs, ttl, IpVersionMode::V4Only);
    lemma_plan_members(addrs, ttl, IpVersionMode::V6Only);
    assert forall|i: int| 0 <= i < v4.len() implies (#[trigger] v4[i]).local is V4 by {
        assert(v4.contains(v4[i]));
        assert(planned_from(addrs, ttl, IpVersionMode::V4Only, v4[i]));
    }
    assert forall|i: int| 0 <= i < v6.len() implies (#[trigger] v6[i]).local is V6 by {
        assert(v6.contains(v6[i]));
        assert(planned_from(addrs, ttl, IpVersionMode::V6Only, v6[i]));
    }
}

/// The plan for `Any` is the plans for `V4Only` and `V6Only` taken together:
/// each endpoint occurs in it as often as in those two, so none is missing
/// and none is added.
pub proof fn lemma_any_is_both(addrs: Seq<LocalAddress>, ttl: Option<u32>)
    ensures
        connector_plan(addrs, ttl, IpVersionMode::Any).to_multiset() == connector_plan(
            addrs,
            ttl,
            IpVersionMode::V4Only,
        ).to_multiset().add(connector_plan(addrs, ttl, IpVersionMode::V6Only).to_multiset()),
        connector_plan(addrs, ttl, IpVersionMode::Any).len() == connector_plan(
            addrs,
            ttl,
            IpVersionMode::V4Only,
        ).len() + connector_plan(addrs, ttl, IpVersionMode::V6Only).len(),
        connector_plan(addrs, ttl, IpVersionMode::Any).to_set() == connector_plan(
            addrs,
            ttl,
            IpVersionMode::V4Only,
        ).to_set().union(connector_plan(addrs, ttl, IpVersionMode::V6Only).to_set()),
        connector_plan(addrs, ttl, IpVersionMode::V4Only).to_set().disjoint(
            connector_plan(addrs, ttl, IpVersionMode::V6Only).to_set(),
        ),
    decreases addrs.len(),
{
    broadcast use vstd::seq_lib::group_to_multiset_ensures;

    let any = connector_plan(addrs, ttl, IpVersionMode::Any);
    let v4 = connector_plan(addrs, ttl, IpVersionMode::V4Only);
    let v6 = connector_plan(addrs, ttl, IpVersionMode::V6Only);
    if addrs.len() == 0 {
        assert(addrs =~= Seq::empty());
        lemma_plan_empty(ttl, IpVersionMode::Any);
        lemma_plan_empty(ttl, IpVersionMode::V4Only);
        lemma_plan_empty(ttl, IpVersionMode::V6Only);
        assert(any.to_multiset() =~= v4.to_multiset().add(v6.to_multiset()));
        assert(any.to_set() =~= v4.to_set().union(v6.to_set()));
    } else {
        let init = addrs.drop_last();
        let last = addrs.last();
        assert(addrs =~= init.push(last));
        lemma_any_is_both(init, ttl);
        lemma_plan_push(init, last, ttl, IpVersionMode::Any);
        lemma_plan_push(init, last, ttl, IpVersionMode::V4Only);
        lemma_plan_push(init, last, ttl, IpVersionMode::V6Only);
        assert(any.to_multiset() =~= v4.to_multiset().add(v6.to_multiset()));
        assert forall|config: ConnectorConfig|
            any.contains(config) <==> v4.contains(config) || v6.contains(config) by {
            assert(any.to_multiset().count(config) == v4.to_multiset().count(config)
                + v6.to_multiset().count(config));
        }
        assert(any.to_set() =~= v4.to_set().union(v6.to_set()));
    }
    lemma_plan_versions(addrs, ttl);
    assert forall|config: ConnectorConfig| !(v4.contains(config) && v6.contains(config)) by {
        if v4.contains(config) && v6.contains(config) {
            let i = choose|i: int| 0 <= i < v4.len() && v4[i] == config;
            let j = choose|j: int| 0 <= j < v6.len() && v6[j] == config;
            assert(v4[i].local is V4);
            assert(v6[j].local is V6);
        }
    }
}

/// The endpoints depend on the set of addresses only: two lists that hold
/// the same addresses, in whatever order and however often, give plans that
/// hold the same endpoints. So a second call on an unchanged host binds the
/// addresses that the first one bound.
pub proof fn lemma_same_addresses_same_endpoints(
    first: Seq<LocalAddress>,
    second: Seq<LocalAddress>,
    ttl: Option<u32>,
    mode: IpVersionMode,
)
    requires
        first.to_set() == second.to_set(),
    ensures
        connector_plan(first, ttl, mode).to_set() == connector_plan(second, ttl, mode).to_set(),
{
    lemma_plan_members(first, ttl, mode);
    lemma_plan_members(second, ttl, mode);
    let one = connector_plan(first, ttl, mode);
    let two = connector_plan(second, ttl, mode);
    assert forall|a: LocalAddress| first.contains(a) <==> second.contains(a) by {
        assert(first.to_set().contains(a) <==> first.contains(a));
        assert(second.to_set().contains(a) <==> second.contains(a));
    }
    assert forall|config: ConnectorConfig| one.to_set().contains(config) <==> two.to_set().contains(
        config,
    ) by {
        assert(one.to_set().contains(config) <==> one.contains(config));
        assert(two.to_set().contains(config) <==> two.contains(config));
        if planned_from(first, ttl, mode, config) {
            let a = choose|a: LocalAddress| #[trigger]
                first.contains(a) && is_candidate(a) && mode.admits(a) && config == connector_for(a, ttl);
            assert(second.contains(a));
        }
        if planned_from(second, ttl, mode, config) {
            let a = choose|a: LocalAddress| #[trigger]
                second.contains(a) && is_candidate(a) && mode.admits(a) && config == connector_for(
                    a,
                    ttl,
                );
            assert(first.contains(a));
        }
    }
    assert(one.to_set() =~= two.to_set());
}

} // verus!
