//! The choice of the endpoints to open: one per usable local address.

use vstd::prelude::*;
use crate::address::{LocalAddress, Scope};

verus! {

/// Which IP versions endpoints are opened for.
#[derive(Copy, Clone, Hash, Eq, PartialEq, Debug, Structural)]
pub enum IpVersionMode {
    V4Only,
    V6Only,
    Any,
}

impl IpVersionMode {
    pub open spec fn spec_admits(self, addr: LocalAddress) -> bool {
        match self {
            IpVersionMode::V4Only => addr is V4,
            IpVersionMode::V6Only => addr is V6,
            IpVersionMode::Any => true,
        }
    }

    /// Whether the mode keeps an address of this IP version.
    #[verifier::when_used_as_spec(spec_admits)]
    pub fn admits(self, addr: LocalAddress) -> (kept: bool)
        ensures
            kept == self.spec_admits(addr),
    {
        match (self, addr) {
            (IpVersionMode::V4Only, LocalAddress::V4 { .. }) => true,
            (IpVersionMode::V6Only, LocalAddress::V6 { .. }) => true,
            (IpVersionMode::Any, _) => true,
            _ => false,
        }
    }
}

/// What it takes to open one endpoint: the address to bind and the hop limit
/// of its multicast messages (`None` leaves the system's default).
#[derive(Copy, Clone, Hash, Eq, PartialEq, Debug)]
pub struct ConnectorConfig {
    pub local: LocalAddress,
    pub multicast_ttl: Option<u32>,
}

/// An address that discovery can use: not loopback, and if IPv6 not of
/// global scope.
pub open spec fn spec_is_candidate(addr: LocalAddress) -> bool {
    addr.scope() != Scope::Loopback && !(addr is V6 && addr.scope() == Scope::Global)
}

/// Whether discovery can use the address.
#[verifier::when_used_as_spec(spec_is_candidate)]
pub fn is_candidate(addr: LocalAddress) -> (usable: bool)
    ensures
        usable == spec_is_candidate(addr),
{
    match addr.scope() {
        Scope::Loopback => false,
        Scope::LinkLocal => true,
        Scope::Global => match addr {
            LocalAddress::V4 { .. } => true,
            LocalAddress::V6 { .. } => false,
        },
    }
}

/// The endpoint for a local address: bound to that address on port 0, so that
/// the system assigns a port.
pub open spec fn spec_connector_for(addr: LocalAddress, ttl: Option<u32>) -> ConnectorConfig {
    ConnectorConfig { local: addr.with_port(0), multicast_ttl: ttl }
}

/// The configuration of the endpoint for a local address.
#[verifier::when_used_as_spec(spec_connector_for)]
pub fn connector_for(addr: LocalAddress, ttl: Option<u32>) -> (config: ConnectorConfig)
    ensures
        config == spec_connector_for(addr, ttl),
{
    ConnectorConfig { local: addr.with_port(0), multicast_ttl: ttl }
}

/// The usable addresses among `addrs`, in their order.
pub open spec fn candidates(addrs: Seq<LocalAddress>) -> Seq<LocalAddress> {
    addrs.filter(|a: LocalAddress| is_candidate(a))
}

/// The endpoints for those of the usable addresses `usable` that `mode`
/// keeps, in their order.
pub open spec fn selection(usable: Seq<LocalAddress>, ttl: Option<u32>, mode: IpVersionMode) -> Seq<
    ConnectorConfig,
> {
    usable.filter(|a: LocalAddress| mode.admits(a)).map_values(
        |a: LocalAddress| connector_for(a, ttl),
    )
}

/// The endpoints to open for the local addresses `addrs`: one for each usable
/// address of a version that `mode` keeps, in the order of `addrs`.
pub open spec fn connector_plan(addrs: Seq<LocalAddress>, ttl: Option<u32>, mode: IpVersionMode) -> Seq<
    ConnectorConfig,
> {
    selection(candidates(addrs), ttl, mode)
}

/// No addresses give no usable address and no endpoint.
pub proof fn lemma_plan_empty(ttl: Option<u32>, mode: IpVersionMode)
    ensures
        candidates(Seq::empty()) == Seq::<LocalAddress>::empty(),
        selection(Seq::empty(), ttl, mode) == Seq::<ConnectorConfig>::empty(),
        connector_plan(Seq::empty(), ttl, mode) == Seq::<ConnectorConfig>::empty(),
{
    reveal(Seq::filter);
    assert(selection(Seq::empty(), ttl, mode) =~= Seq::<ConnectorConfig>::empty());
}

/// One more address is kept, at the end, exactly if it is usable.
pub proof fn lemma_candidates_push(addrs: Seq<LocalAddress>, addr: LocalAddress)
    ensures
        candidates(addrs.push(addr)) == if is_candidate(addr) {
            candidates(addrs).push(addr)
        } else {
            candidates(addrs)
        },
{
    reveal(Seq::filter);
    assert(addrs.push(addr).drop_last() =~= addrs);
}

/// One more usable address adds its endpoint, at the end, exactly if the mode
/// keeps it.
pub proof fn lemma_selection_push(
    usable: Seq<LocalAddress>,
    addr: LocalAddress,
    ttl: Option<u32>,
    mode: IpVersionMode,
)
    ensures
        selection(usable.push(addr), ttl, mode) == if mode.admits(addr) {
            selection(usable, ttl, mode).push(connector_for(addr, ttl))
        } else {
            selection(usable, ttl, mode)
        },
{
    reveal(Seq::filter);
    assert(usable.push(addr).drop_last() =~= usable);
    assert(selection(usable.push(addr), ttl, mode) =~= if mode.admits(addr) {
        selection(usable, ttl, mode).push(connector_for(addr, ttl))
    } else {
        selection(usable, ttl, mode)
    });
}

/// One more address adds its endpoint to the plan, at the end, exactly if it
/// is usable and the mode keeps it.
pub proof fn lemma_plan_push(
    addrs: Seq<LocalAddress>,
    addr: LocalAddress,
    ttl: Option<u32>,
    mode: IpVersionMode,
)
    ensures
        connector_plan(addrs.push(addr), ttl, mode) == if is_candidate(addr) && mode.admits(addr) {
            connector_plan(addrs, ttl, mode).push(connector_for(addr, ttl))
        } else {
            connector_plan(addrs, ttl, mode)
        },
{
    lemma_candidates_push(addrs, addr);
    lemma_selection_push(candidates(addrs), addr, ttl, mode);
}

/// A plan has at most one endpoint for each address.
pub proof fn lemma_plan_len(addrs: Seq<LocalAddress>, ttl: Option<u32>, mode: IpVersionMode)
    ensures
        connector_plan(addrs, ttl, mode).len() <= addrs.len(),
    decreases addrs.len(),
{
    if addrs.len() == 0 {
        assert(addrs =~= Seq::empty());
        lemma_plan_empty(ttl, mode);
    } else {
        assert(addrs =~= addrs.drop_last().push(addrs.last()));
        lemma_plan_len(addrs.drop_last(), ttl, mode);
        lemma_plan_push(addrs.drop_last(), addrs.last(), ttl, mode);
    }
}

/// Keeps the addresses that discovery can use: filters out loopback
/// addresses and IPv6 addresses of global scope, and keeps the order.
pub fn map_local(addrs: &Vec<LocalAddress>) -> (usable: Vec<LocalAddress>)
    ensures
        usable@ == candidates(addrs@),
{
    let mut usable: Vec<LocalAddress> = Vec::with_capacity(addrs.len());
    let mut i: usize = 0;
    proof {
        lemma_plan_empty(None, IpVersionMode::Any);
        assert(addrs@.take(0) =~= Seq::empty());
    }
    while i < addrs.len()
        invariant
            i <= addrs.len(),
            usable@ == candidates(addrs@.take(i as int)),
        decreases addrs.len() - i,
    {
        let addr = addrs[i];
        proof {
            lemma_candidates_push(addrs@.take(i as int), addr);
            assert(addrs@.take(i + 1) =~= addrs@.take(i as int).push(addr));
        }
        if is_candidate(addr) {
            usable.push(addr);
        }
        i += 1;
    }
    proof {
        assert(addrs@.take(addrs.len() as int) =~= addrs@);
    }
    usable
}

/// Plans the endpoints for the local addresses `addrs`: one for each address
/// that is usable and of a version that `mode` keeps, bound to it on port 0
/// with the hop limit `multicast_ttl`, in the order of `addrs`.
pub fn plan_connectors(addrs: &Vec<LocalAddress>, multicast_ttl: Option<u32>, mode: IpVersionMode) -> (plan:
    Vec<ConnectorConfig>)
    ensures
        plan@ == connector_plan(addrs@, multicast_ttl, mode),
        plan@.len() <= addrs@.len(),
{
    let usable = map_local(addrs);
    let mut plan: Vec<ConnectorConfig> = Vec::with_capacity(usable.len());
    let mut i: usize = 0;
    proof {
        lemma_plan_empty(multicast_ttl, mode);
        assert(usable@.take(0) =~= Seq::empty());
    }
    while i < usable.len()
        invariant
            i <= usable.len(),
            plan@ == selection(usable@.take(i as int), multicast_ttl, mode),
        decreases usable.len() - i,
    {
        let addr = usable[i];
        proof {
            lemma_selection_push(usable@.take(i as int), addr, multicast_ttl, mode);
            assert(usable@.take(i + 1) =~= usable@.take(i as int).push(addr));
        }
        if mode.admits(addr) {
            plan.push(connector_for(addr, multicast_ttl));
        }
        i += 1;
    }
    proof {
        assert(usable@.take(usable.len() as int) =~= usable@);
        lemma_plan_len(addrs@, multicast_ttl, mode);
    }
    plan
}

/// Opens an endpoint on every usable local address.
///
/// `source` is what the enumeration of the local addresses gave, and `open`
/// opens one endpoint. If the enumeration failed, its error is returned and
/// nothing is opened. Otherwise `open` is called on each entry of the plan
/// for these addresses, in order, and the endpoints are returned in that
/// order; the first failure of `open` ends the call with that error.
pub fn all_local_connectors<T, E, F: Fn(ConnectorConfig) -> Result<T, E>>(
    source: Result<Vec<LocalAddress>, E>,
    multicast_ttl: Option<u32>,
    mode: IpVersionMode,
    open: F,
) -> (connectors: Result<Vec<T>, E>)
    requires
        source matches Ok(addrs) ==> forall|i: int|
            0 <= i < connector_plan(addrs@, multicast_ttl, mode).len() ==> open.requires(
                (#[trigger] connector_plan(addrs@, multicast_ttl, mode)[i],),
            ),
    ensures
        source matches Err(e) ==> connectors == Err::<Vec<T>, E>(e),
        source matches Ok(addrs) ==> (connectors matches Ok(opened) ==> opened@.len() <= addrs@.len()),
        source matches Ok(addrs) ==> opened_all::<T, E, F>(
            connector_plan(addrs@, multicast_ttl, mode),
            open,
            connectors,
        ),
{
    match source {
        Err(e) => Err(e),
        Ok(addrs) => {
            let plan = plan_connectors(&addrs, multicast_ttl, mode);
            open_all(&plan, open)
        },
    }
}

/// Whether `open` can give an endpoint for `config`.
pub open spec fn may_open<T, E, F: Fn(ConnectorConfig) -> Result<T, E>>(open: F, config: ConnectorConfig) -> bool {
    exists|t: T| #[trigger] open.ensures((config,), Ok::<T, E>(t))
}

/// Whether opening the plan in order can end at entry `i` with the error
/// `e`: `open` can give an endpoint for each entry before it, and `e` for it.
pub open spec fn fails_at<T, E, F: Fn(ConnectorConfig) -> Result<T, E>>(
    plan: Seq<ConnectorConfig>,
    open: F,
    e: E,
    i: int,
) -> bool {
    &&& 0 <= i < plan.len()
    &&& open.ensures((plan[i],), Err::<T, E>(e))
    &&& forall|j: int| 0 <= j < i ==> #[trigger] may_open::<T, E, F>(open, plan[j])
}

/// What opening a plan entry by entry gives: either an endpoint that `open`
/// gave for each entry, in the plan's order, or the error that `open` gave
/// for some entry after it had given an endpoint for each entry before.
pub open spec fn opened_all<T, E, F: Fn(ConnectorConfig) -> Result<T, E>>(
    plan: Seq<ConnectorConfig>,
    open: F,
    outcome: Result<Vec<T>, E>,
) -> bool {
    match outcome {
        Ok(connectors) => {
            &&& connectors@.len() == plan.len()
            &&& forall|i: int|
                0 <= i < plan.len() ==> open.ensures((plan[i],), Ok::<T, E>(#[trigger] connectors@[i]))
        },
        Err(e) => exists|i: int| #[trigger] fails_at::<T, E, F>(plan, open, e, i),
    }
}

/// Opens the endpoints of a plan in order, all or nothing: stops at the first
/// entry that `open` fails on, with its error. An empty plan gives an empty
/// list.
pub fn open_all<T, E, F: Fn(ConnectorConfig) -> Result<T, E>>(plan: &Vec<ConnectorConfig>, open: F) -> (outcome:
    Result<Vec<T>, E>)
    requires
        forall|i: int| 0 <= i < plan@.len() ==> open.requires((#[trigger] plan@[i],)),
    ensures
        opened_all::<T, E, F>(plan@, open, outcome),
{
    let mut connectors: Vec<T> = Vec::with_capacity(plan.len());
    let mut i: usize = 0;
    while i < plan.len()
        invariant
            i <= plan.len(),
            connectors@.len() == i,
            forall|j: int| 0 <= j < plan@.len() ==> open.requires((#[trigger] plan@[j],)),
            forall|j: int| 0 <= j < i ==> open.ensures((plan@[j],), Ok::<T, E>(#[trigger] connectors@[j])),
        decreases plan.len() - i,
    {
        match open(plan[i]) {
            Ok(connector) => {
                connectors.push(connector);
            },
            Err(e) => {
                proof {
                    assert forall|j: int| 0 <= j < i implies #[trigger] may_open::<T, E, F>(
                        open,
                        plan@[j],
                    ) by {
                        assert(open.ensures((plan@[j],), Ok::<T, E>(connectors@[j])));
                    }
                    assert(fails_at::<T, E, F>(plan@, open, e, i as int));
                    assert(Err::<Vec<T>, E>(e)->Err_0 == e);
                }
                return Err(e);
            },
        }
        i += 1;
    }
    Ok(connectors)
}

} // verus!
