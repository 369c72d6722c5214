//! The gateway's state and the checks in front of each operation: who may
//! call, register and manage providers, withdraw, and administer; and the
//! admission of a call, which resolves its source, meters it and charges it.
use vstd::prelude::*;
use vstd::string::StringSliceAdditionalSpecFns;
use crate::auth::{Auth, AuthTable};
use crate::cost::{get_request_cost, request_cost};
use crate::error::RpcError;
use crate::ledger::{credited, debited, owed, sat_add, with_owed, withdrawal_outcome};
use crate::registry::{
    lookup, registered, resolution, Provider, ProviderError, ProviderView, RegisterProvider,
    Registry, ResolvedSource, Source, UpdateProvider,
};
use crate::text::str_eq;
use crate::validate::{is_allowed_credential_path, is_allowed_host, ValidationError};

verus! {

/// The replication factor of a standard subnet.
pub const DEFAULT_NODES_IN_SUBNET: u32 = 13;

/// Whether callers without the `Rpc` right may call, at first.
pub const DEFAULT_OPEN_RPC_ACCESS: bool = true;

/// Settings of the whole gateway.
pub struct Metadata {
    pub nodes_in_subnet: u32,
    pub open_rpc_access: bool,
}

/// Calls served to one hostname.
pub struct HostCount {
    pub host: String,
    pub count: u64,
}

/// Counters of what the gateway did; each only ever grows, saturating.
pub struct Metrics {
    pub requests: u64,
    pub request_cycles_charged: u128,
    pub request_cycles_refunded: u128,
    pub request_err_no_permission: u64,
    pub request_err_host_not_allowed: u64,
    pub request_err_http: u64,
    pub host_requests: Vec<HostCount>,
}

/// A call that was admitted: where it goes, what it was charged, and the
/// provider that was credited, if any.
pub struct RequestPlan {
    pub url: String,
    pub cost: u128,
    pub provider_id: Option<u64>,
}

/// The registry, the rights, the settings and the counters.
pub struct Gateway {
    pub registry: Registry,
    pub auth: AuthTable,
    pub metadata: Metadata,
    pub metrics: Metrics,
}

/// The entry's hostname and credential path are allowed.
pub open spec fn endpoint_allowed(args: RegisterProvider) -> bool {
    is_allowed_host(args.hostname@) && is_allowed_credential_path(args.credential_path@)
}

/// Every entry of `defaults` has allowed endpoint data.
pub open spec fn all_endpoints_allowed(defaults: Seq<RegisterProvider>) -> bool {
    forall|i: int| 0 <= i < defaults.len() ==> endpoint_allowed(#[trigger] defaults[i])
}

/// The providers registered from the first `k` entries of `defaults`, by
/// `owner`: one record per entry, in order, with ids from 0.
pub open spec fn installed(defaults: Seq<RegisterProvider>, owner: String, k: nat) -> Seq<Provider> {
    Seq::new(k, |j: int| registered(defaults[j], j as u64, owner))
}

/// Chain id of Ethereum mainnet.
pub const ETH_MAINNET_CHAIN_ID: u64 = 1;

/// Chain id of the Sepolia test network.
pub const ETH_SEPOLIA_CHAIN_ID: u64 = 11155111;

fn default_entry(chain_id: u64, hostname: &str, credential_path: &str) -> (r: RegisterProvider)
    ensures
        r.chain_id == chain_id,
        r.hostname@ == hostname@,
        r.credential_path@ == credential_path@,
        r.cycles_per_call == 0,
        r.cycles_per_message_byte == 0,
{
    RegisterProvider {
        chain_id,
        hostname: String::from_str(hostname),
        credential_path: String::from_str(credential_path),
        cycles_per_call: 0,
        cycles_per_message_byte: 0,
    }
}

/// The providers that a fresh installation registers, free of charge:
/// Cloudflare, Ankr and PublicNode on mainnet, Ankr and PublicNode on Sepolia.
pub fn default_providers() -> (r: Vec<RegisterProvider>)
    ensures
        r@.len() == 5,
        all_endpoints_allowed(r@),
        r@[0].chain_id == ETH_MAINNET_CHAIN_ID && r@[0].hostname@ == "cloudflare-eth.com"@
            && r@[0].credential_path@ == "/v1/mainnet"@,
        r@[1].chain_id == ETH_MAINNET_CHAIN_ID && r@[1].hostname@ == "rpc.ankr.com"@
            && r@[1].credential_path@ == "/eth"@,
        r@[2].chain_id == ETH_MAINNET_CHAIN_ID && r@[2].hostname@ == "ethereum.publicnode.com"@
            && r@[2].credential_path@ == ""@,
        r@[3].chain_id == ETH_SEPOLIA_CHAIN_ID && r@[3].hostname@ == "rpc.ankr.com"@
            && r@[3].credential_path@ == "/eth_sepolia"@,
        r@[4].chain_id == ETH_SEPOLIA_CHAIN_ID && r@[4].hostname@
            == "ethereum-sepolia.publicnode.com"@ && r@[4].credential_path@ == ""@,
        forall|i: int|
            0 <= i < r@.len() ==> (#[trigger] r@[i]).cycles_per_call == 0
                && r@[i].cycles_per_message_byte == 0,
{
    let mut r: Vec<RegisterProvider> = Vec::new();
    r.push(default_entry(ETH_MAINNET_CHAIN_ID, "cloudflare-eth.com", "/v1/mainnet"));
    r.push(default_entry(ETH_MAINNET_CHAIN_ID, "rpc.ankr.com", "/eth"));
    r.push(default_entry(ETH_MAINNET_CHAIN_ID, "ethereum.publicnode.com", ""));
    r.push(default_entry(ETH_SEPOLIA_CHAIN_ID, "rpc.ankr.com", "/eth_sepolia"));
    r.push(default_entry(ETH_SEPOLIA_CHAIN_ID, "ethereum-sepolia.publicnode.com", ""));
    proof {
        reveal_strlit("/v1/mainnet");
        reveal_strlit("/eth");
        reveal_strlit("");
        reveal_strlit("/eth_sepolia");
    }
    assert(forall|i: int| 0 <= i < 5 ==> endpoint_allowed(#[trigger] r@[i]));
    r
}

/// May `caller` register and manage providers: the `RegisterProvider` right,
/// or `Admin`.
pub open spec fn may_register(auth: AuthTable, caller: Seq<char>) -> bool {
    auth.holds(caller, Auth::RegisterProvider) || auth.holds(caller, Auth::Admin)
}

/// May `caller` change the gateway's settings and rights: a controller of the
/// host, or an identity with `Admin`.
pub open spec fn may_administer(auth: AuthTable, caller: Seq<char>, is_controller: bool) -> bool {
    is_controller || auth.holds(caller, Auth::Admin)
}

/// May `caller` make calls: where access is open, or with the `Rpc` right.
pub open spec fn may_call(auth: AuthTable, open_rpc_access: bool, caller: Seq<char>) -> bool {
    open_rpc_access || auth.holds(caller, Auth::Rpc)
}

/// What `caller` is charged for a call to `source`: nothing with `FreeRpc`.
pub open spec fn charge(
    auth: AuthTable,
    caller: Seq<char>,
    source: ResolvedSource,
    payload_len: nat,
    max_response_bytes: u64,
    nodes: u32,
) -> u128 {
    if auth.holds(caller, Auth::FreeRpc) {
        0
    } else {
        request_cost(source, payload_len, max_response_bytes, nodes)
    }
}

/// `x + 1`, or `x` where that would exceed the largest `u64`.
pub open spec fn sat_inc(x: u64) -> u64 {
    if x == u64::MAX {
        x
    } else {
        (x + 1) as u64
    }
}

fn inc(x: u64) -> (r: u64)
    ensures
        r == sat_inc(x),
{
    x.saturating_add(1)
}

impl Metrics {
    pub fn new() -> (r: Metrics)
        ensures
            r.requests == 0,
            r.request_cycles_charged == 0,
            r.request_cycles_refunded == 0,
            r.request_err_no_permission == 0,
            r.request_err_host_not_allowed == 0,
            r.request_err_http == 0,
            r.host_requests@.len() == 0,
    {
        Metrics {
            requests: 0,
            request_cycles_charged: 0,
            request_cycles_refunded: 0,
            request_err_no_permission: 0,
            request_err_host_not_allowed: 0,
            request_err_http: 0,
            host_requests: Vec::new(),
        }
    }

    fn host_position(&self, host: &String) -> (r: Option<usize>)
        ensures
            match r {
                Some(i) => i < self.host_requests@.len() && self.host_requests@[i as int].host@
                    == host@,
                None => forall|j: int|
                    0 <= j < self.host_requests@.len() ==> (
                    #[trigger] self.host_requests@[j]).host@ != host@,
            },
    {
        let mut i: usize = 0;
        while i < self.host_requests.len()
            invariant
                i <= self.host_requests@.len(),
                forall|j: int| 0 <= j < i ==> (#[trigger] self.host_requests@[j]).host@ != host@,
            decreases self.host_requests@.len() - i,
        {
            if str_eq(self.host_requests[i].host.as_str(), host.as_str()) {
                return Some(i);
            }
            i = i + 1;
        }
        None
    }

    /// Counts one more call to `host`.
    pub fn count_host(&mut self, host: &String)
        ensures
            final(self).requests == old(self).requests,
            final(self).request_cycles_charged == old(self).request_cycles_charged,
            final(self).request_cycles_refunded == old(self).request_cycles_refunded,
            final(self).request_err_no_permission == old(self).request_err_no_permission,
            final(self).request_err_host_not_allowed == old(self).request_err_host_not_allowed,
            final(self).request_err_http == old(self).request_err_http,
            exists|i: int|
                0 <= i <= old(self).host_requests@.len() && #[trigger] counted_at(
                    old(self).host_requests@,
                    final(self).host_requests@,
                    host@,
                    i,
                ),
    {
        match self.host_position(host) {
            Some(i) => {
                let count = inc(self.host_requests[i].count);
                let name = self.host_requests[i].host.clone();
                self.host_requests.set(i, HostCount { host: name, count });
                assert(counted_at(old(self).host_requests@, self.host_requests@, host@, i as int));
            },
            None => {
                self.host_requests.push(HostCount { host: host.clone(), count: 1 });
                assert(counted_at(
                    old(self).host_requests@,
                    self.host_requests@,
                    host@,
                    old(self).host_requests@.len() as int,
                ));
            },
        }
    }
}

/// `after` is `before` with one more call to `host` counted at `i`: an
/// existing entry for `host` there, or a new entry at the end.
pub open spec fn counted_at(before: Seq<HostCount>, after: Seq<HostCount>, host: Seq<char>, i: int) -> bool {
    &&& after[i].host@ == host
    &&& forall|j: int| 0 <= j < before.len() && j != i ==> #[trigger] after[j] == before[j]
    &&& if i < before.len() {
        &&& before[i].host@ == host
        &&& after.len() == before.len()
        &&& after[i].count == if before[i].count == u64::MAX {
            before[i].count
        } else {
            (before[i].count + 1) as u64
        }
    } else {
        &&& after.len() == before.len() + 1
        &&& after[i].count == 1
        &&& forall|j: int| 0 <= j < before.len() ==> (#[trigger] before[j]).host@ != host
    }
}

impl Gateway {
    pub open spec fn wf(&self) -> bool {
        self.registry.wf() && self.auth.wf()
    }

    /// An empty gateway with the default settings.
    pub fn new() -> (r: Gateway)
        ensures
            r.wf(),
            r.registry.providers@.len() == 0,
            r.registry.next_provider_id == 0,
            r.metadata.nodes_in_subnet == DEFAULT_NODES_IN_SUBNET,
            r.metadata.open_rpc_access == DEFAULT_OPEN_RPC_ACCESS,
            forall|p: Seq<char>, a: Auth| !r.auth.holds(p, a),
    {
        Gateway {
            registry: Registry::new(),
            auth: AuthTable::new(),
            metadata: Metadata {
                nodes_in_subnet: DEFAULT_NODES_IN_SUBNET,
                open_rpc_access: DEFAULT_OPEN_RPC_ACCESS,
            },
            metrics: Metrics::new(),
        }
    }

    /// A gateway with the default settings whose registry holds the
    /// providers `defaults`, in order, owned by `installer`, with ids from 0;
    /// refused where an entry's hostname or credential path is not allowed.
    pub fn install(installer: &String, defaults: Vec<RegisterProvider>) -> (r: Result<
        Gateway,
        ValidationError,
    >)
        requires
            defaults@.len() < u64::MAX,
        ensures
            r is Ok <==> all_endpoints_allowed(defaults@),
            r matches Ok(g) ==> {
                &&& g.wf()
                &&& g.registry.providers@ == installed(defaults@, *installer, defaults@.len())
                &&& g.registry.next_provider_id == defaults@.len()
                &&& g.metadata.nodes_in_subnet == DEFAULT_NODES_IN_SUBNET
                &&& g.metadata.open_rpc_access == DEFAULT_OPEN_RPC_ACCESS
                &&& forall|p: Seq<char>, a: Auth| !g.auth.holds(p, a)
            },
    {
        let mut g = Gateway::new();
        let ghost all = defaults@;
        let mut rest = defaults;
        let n = rest.len();
        let mut i: usize = 0;
        while i < n
            invariant
                n == all.len(),
                all == defaults@,
                n < u64::MAX,
                i <= n,
                rest@ == all.subrange(i as int, n as int),
                g.wf(),
                g.registry.next_provider_id == i,
                g.registry.providers@ == installed(all, *installer, i as nat),
                forall|j: int| 0 <= j < i ==> endpoint_allowed(#[trigger] all[j]),
                g.metadata.nodes_in_subnet == DEFAULT_NODES_IN_SUBNET,
                g.metadata.open_rpc_access == DEFAULT_OPEN_RPC_ACCESS,
                forall|p: Seq<char>, a: Auth| !g.auth.holds(p, a),
            decreases n - i,
        {
            let args = rest.remove(0);
            assert(args == all[i as int]);
            match g.registry.register(installer.clone(), args) {
                Ok(_) => {},
                Err(e) => {
                    assert(!endpoint_allowed(all[i as int]));
                    return Err(e);
                },
            }
            i = i + 1;
            assert(g.registry.providers@ =~= installed(all, *installer, i as nat));
        }
        Ok(g)
    }

    fn can_register(&self, caller: &String) -> (r: bool)
        requires
            self.wf(),
        ensures
            r == may_register(self.auth, caller@),
    {
        self.auth.is_authorized(caller, Auth::RegisterProvider) || self.auth.is_authorized(
            caller,
            Auth::Admin,
        )
    }

    /// Registers a provider owned by `caller`; refused, with nothing
    /// created, to a caller without the right and on endpoint data that is
    /// not allowed.
    pub fn register_provider(&mut self, caller: &String, args: RegisterProvider) -> (r: Result<
        u64,
        RpcError,
    >)
        requires
            old(self).wf(),
            may_register(old(self).auth, caller@) ==> old(self).registry.next_provider_id
                < u64::MAX,
        ensures
            final(self).wf(),
            final(self).auth == old(self).auth,
            final(self).metrics.request_err_host_not_allowed == if may_register(
                old(self).auth,
                caller@,
            ) && !is_allowed_host(args.hostname@) {
                sat_inc(old(self).metrics.request_err_host_not_allowed)
            } else {
                old(self).metrics.request_err_host_not_allowed
            },
            !may_register(old(self).auth, caller@) ==> r == Err::<u64, RpcError>(
                RpcError::ProviderError(ProviderError::NoPermission),
            ),
            r is Ok <==> may_register(old(self).auth, caller@) && is_allowed_host(args.hostname@)
                && is_allowed_credential_path(args.credential_path@),
            r matches Ok(id) ==> {
                &&& id == old(self).registry.next_provider_id
                &&& final(self).registry.next_provider_id == id + 1
                &&& final(self).registry.providers@ == old(self).registry.providers@.push(
                    registered(args, id, *caller),
                )
            },
            r is Err ==> final(self).registry.providers@ == old(self).registry.providers@
                && final(self).registry.next_provider_id == old(self).registry.next_provider_id,
            may_register(old(self).auth, caller@) && !is_allowed_host(args.hostname@) ==> (r matches Err(
                RpcError::ValidationError(ValidationError::HostNotAllowed(h)),
            ) && h@ == args.hostname@),
            may_register(old(self).auth, caller@) && is_allowed_host(args.hostname@)
                && !is_allowed_credential_path(args.credential_path@) ==> (r matches Err(
                RpcError::ValidationError(ValidationError::CredentialPathNotAllowed(c)),
            ) && c@ == args.credential_path@),
    {
        if !self.can_register(caller) {
            return Err(RpcError::ProviderError(ProviderError::NoPermission));
        }
        match self.registry.register(caller.clone(), args) {
            Ok(id) => Ok(id),
            Err(e) => {
                if let ValidationError::HostNotAllowed(_) = &e {
                    self.metrics.request_err_host_not_allowed = inc(
                        self.metrics.request_err_host_not_allowed,
                    );
                }
                Err(RpcError::ValidationError(e))
            },
        }
    }

    /// Applies a patch to a provider; the caller needs the right to manage
    /// providers, and must own this one or be an administrator.
    pub fn update_provider(&mut self, caller: &String, args: UpdateProvider) -> (r: Result<
        (),
        RpcError,
    >)
        requires
            old(self).wf(),
        ensures
            final(self).wf(),
            final(self).auth == old(self).auth,
            final(self).registry.next_provider_id == old(self).registry.next_provider_id,
            !may_register(old(self).auth, caller@) ==> r == Err::<(), RpcError>(
                RpcError::ProviderError(ProviderError::NoPermission),
            ),
            r is Ok ==> may_register(old(self).auth, caller@) && final(self).registry.providers@
                == old(self).registry.providers@.map_values(
                |q: Provider|
                    if q.provider_id == args.provider_id {
                        crate::registry::patched(q, args)
                    } else {
                        q
                    },
            ),
            r is Err ==> final(self).registry.providers@ == old(self).registry.providers@,
            may_register(old(self).auth, caller@) && lookup(
                old(self).registry.providers@,
                args.provider_id,
            ) is None ==> r == Err::<(), RpcError>(
                RpcError::ProviderError(ProviderError::ProviderNotFound),
            ),
            may_register(old(self).auth, caller@) ==> (r is Ok <==> (lookup(
                old(self).registry.providers@,
                args.provider_id,
            ) matches Some(p) && crate::registry::may_manage(
                p,
                caller@,
                old(self).auth.holds(caller@, Auth::Admin),
            ) && (args.hostname matches Some(h) ==> is_allowed_host(h@)) && (
            args.credential_path matches Some(c) ==> is_allowed_credential_path(c@)))),
    {
        if !self.can_register(caller) {
            return Err(RpcError::ProviderError(ProviderError::NoPermission));
        }
        let admin = self.auth.is_authorized(caller, Auth::Admin);
        self.registry.update(caller, admin, args)
    }

    /// Removes a provider; the caller needs the right to manage providers,
    /// and must own this one or be an administrator. `Ok(false)` where there
    /// is no such provider.
    pub fn unregister_provider(&mut self, caller: &String, provider_id: u64) -> (r: Result<
        bool,
        RpcError,
    >)
        requires
            old(self).wf(),
        ensures
            final(self).wf(),
            final(self).auth == old(self).auth,
            !may_register(old(self).auth, caller@) ==> r == Err::<bool, RpcError>(
                RpcError::ProviderError(ProviderError::NoPermission),
            ),
            may_register(old(self).auth, caller@) ==> match lookup(
                old(self).registry.providers@,
                provider_id,
            ) {
                None => r == Ok::<bool, RpcError>(false),
                Some(p) => if crate::registry::may_manage(
                    p,
                    caller@,
                    old(self).auth.holds(caller@, Auth::Admin),
                ) {
                    r == Ok::<bool, RpcError>(true)
                } else {
                    r == Err::<bool, RpcError>(RpcError::ProviderError(ProviderError::NoPermission))
                },
            },
            r == Ok::<bool, RpcError>(true) ==> exists|i: int|
                0 <= i < old(self).registry.providers@.len()
                    && old(self).registry.providers@[i].provider_id == provider_id
                    && final(self).registry.providers@ == old(self).registry.providers@.remove(i),
            r != Ok::<bool, RpcError>(true) ==> final(self).registry.providers@ == old(self).registry.providers@,
    {
        if !self.can_register(caller) {
            return Err(RpcError::ProviderError(ProviderError::NoPermission));
        }
        let admin = self.auth.is_authorized(caller, Auth::Admin);
        match self.registry.unregister(caller, admin, provider_id) {
            Ok(b) => Ok(b),
            Err(e) => Err(RpcError::ProviderError(e)),
        }
    }

    /// What every caller may see of the providers, in registry order.
    pub fn get_providers(&self) -> (r: Vec<ProviderView>)
        ensures
            r@ == self.registry.providers@.map_values(|p: Provider| p.spec_public_view()),
    {
        self.registry.provider_views()
    }

    /// The balance of a provider, for its owner.
    pub fn get_accumulated_cycle_count(&self, caller: &String, provider_id: u64) -> (r: Result<
        u128,
        ProviderError,
    >)
        requires
            self.wf(),
        ensures
            r == (if !may_register(self.auth, caller@) {
                Err(ProviderError::NoPermission)
            } else {
                match lookup(self.registry.providers@, provider_id) {
                    None => Err(ProviderError::ProviderNotFound),
                    Some(p) => if p.owner@ != caller@ {
                        Err(ProviderError::NoPermission)
                    } else {
                        Ok(p.cycles_owed)
                    },
                }
            }),
    {
        if !self.can_register(caller) {
            return Err(ProviderError::NoPermission);
        }
        match self.registry.index_of(provider_id) {
            None => Err(ProviderError::ProviderNotFound),
            Some(i) => {
                if !str_eq(self.registry.providers[i].owner.as_str(), caller.as_str()) {
                    Err(ProviderError::NoPermission)
                } else {
                    Ok(self.registry.providers[i].cycles_owed)
                }
            },
        }
    }

    /// The first step of a withdrawal: the owner's whole balance is taken,
    /// to be handed to the transfer, where it reaches the minimum.
    pub fn begin_withdrawal(&mut self, caller: &String, provider_id: u64) -> (r: Result<
        u128,
        ProviderError,
    >)
        requires
            old(self).wf(),
        ensures
            final(self).wf(),
            final(self).auth == old(self).auth,
            final(self).registry.next_provider_id == old(self).registry.next_provider_id,
            r == (if !may_register(old(self).auth, caller@) {
                Err(ProviderError::NoPermission)
            } else {
                withdrawal_outcome(old(self).registry.providers@, caller@, provider_id)
            }),
            r is Ok ==> final(self).registry.providers@ == with_owed(
                old(self).registry.providers@,
                provider_id,
                0,
            ),
            r is Err ==> final(self).registry.providers@ == old(self).registry.providers@,
    {
        if !self.can_register(caller) {
            return Err(ProviderError::NoPermission);
        }
        self.registry.begin_withdrawal(caller, provider_id)
    }

    /// The second step of a withdrawal: where the transfer failed, the
    /// amount goes back to the provider as it stands now.
    pub fn settle_withdrawal(&mut self, provider_id: u64, amount: u128, transferred: bool) -> (r:
        bool)
        requires
            old(self).wf(),
        ensures
            final(self).wf(),
            final(self).auth == old(self).auth,
            transferred ==> r && final(self).registry.providers@ == old(self).registry.providers@,
            !transferred ==> r == owed(old(self).registry.providers@, provider_id) is Some
                && final(self).registry.providers@ == credited(
                old(self).registry.providers@,
                provider_id,
                amount,
            ),
    {
        self.registry.settle_withdrawal(provider_id, amount, transferred)
    }

    /// Admits a call from `caller`, who attached `cycles_available`: checks
    /// the caller's access, resolves the source, and charges the cost (none
    /// with `FreeRpc`), which is credited to the provider, if there is one.
    pub fn admit_request(
        &mut self,
        caller: &String,
        source: Source,
        json_rpc_payload: &str,
        max_response_bytes: u64,
        cycles_available: u128,
    ) -> (r: Result<RequestPlan, RpcError>)
        requires
            old(self).wf(),
        ensures
            final(self).wf(),
            final(self).auth == old(self).auth,
            final(self).registry.next_provider_id == old(self).registry.next_provider_id,
            !may_call(old(self).auth, old(self).metadata.open_rpc_access, caller@) ==> r == Err::<
                RequestPlan,
                RpcError,
            >(RpcError::ProviderError(ProviderError::NoPermission)),
            may_call(old(self).auth, old(self).metadata.open_rpc_access, caller@) ==> match resolution(
                old(self).registry.providers@,
                source,
            ) {
                Err(e) => r == Err::<RequestPlan, RpcError>(RpcError::ProviderError(e)),
                Ok(resolved) => {
                    let cost = charge(
                        old(self).auth,
                        caller@,
                        resolved,
                        json_rpc_payload.spec_bytes().len(),
                        max_response_bytes,
                        old(self).metadata.nodes_in_subnet,
                    );
                    if cycles_available < cost {
                        r == Err::<RequestPlan, RpcError>(
                            RpcError::ProviderError(
                                ProviderError::TooFewCycles { expected: cost, received: cycles_available },
                            ),
                        )
                    } else {
                        r matches Ok(plan) && plan.cost == cost && match resolved {
                            ResolvedSource::Url(u) => plan.url@ == u@ && plan.provider_id is None
                                && final(self).registry.providers@ == old(self).registry.providers@
                                && final(self).metrics.host_requests@ == old(self).metrics.host_requests@,
                            ResolvedSource::Provider(p) => plan.url@ == p.spec_service_url()
                                && plan.provider_id == Some(p.provider_id)
                                && final(self).registry.providers@ == credited(
                                old(self).registry.providers@,
                                p.provider_id,
                                cost,
                            ) && exists|i: int|
                                0 <= i <= old(self).metrics.host_requests@.len()
                                    && #[trigger] counted_at(
                                    old(self).metrics.host_requests@,
                                    final(self).metrics.host_requests@,
                                    p.hostname@,
                                    i,
                                ),
                        }
                    }
                },
            },
            r is Err ==> final(self).registry.providers@ == old(self).registry.providers@,
            r matches Ok(plan) ==> final(self).metrics.requests == sat_inc(
                old(self).metrics.requests,
            ) && final(self).metrics.request_cycles_charged == sat_add(
                old(self).metrics.request_cycles_charged,
                plan.cost,
            ),
            r is Err ==> final(self).metrics.requests == old(self).metrics.requests
                && final(self).metrics.request_cycles_charged
                == old(self).metrics.request_cycles_charged
                && final(self).metrics.host_requests@ == old(self).metrics.host_requests@,
            final(self).metrics.request_err_no_permission == if may_call(
                old(self).auth,
                old(self).metadata.open_rpc_access,
                caller@,
            ) {
                old(self).metrics.request_err_no_permission
            } else {
                sat_inc(old(self).metrics.request_err_no_permission)
            },
            final(self).metrics.request_cycles_refunded == old(self).metrics.request_cycles_refunded,
            final(self).metrics.request_err_host_not_allowed
                == old(self).metrics.request_err_host_not_allowed,
            final(self).metrics.request_err_http == old(self).metrics.request_err_http,
    {
        let open = self.metadata.open_rpc_access;
        if !open && !self.auth.is_authorized(caller, Auth::Rpc) {
            self.metrics.request_err_no_permission = inc(self.metrics.request_err_no_permission);
            return Err(RpcError::ProviderError(ProviderError::NoPermission));
        }
        let resolved = match source.resolve(&self.registry) {
            Ok(resolved) => resolved,
            Err(e) => return Err(RpcError::ProviderError(e)),
        };
        let cost = if self.auth.is_authorized(caller, Auth::FreeRpc) {
            0
        } else {
            get_request_cost(
                &resolved,
                json_rpc_payload,
                max_response_bytes,
                self.metadata.nodes_in_subnet,
            )
        };
        if cycles_available < cost {
            return Err(
                RpcError::ProviderError(
                    ProviderError::TooFewCycles { expected: cost, received: cycles_available },
                ),
            );
        }
        self.metrics.requests = inc(self.metrics.requests);
        self.metrics.request_cycles_charged = self.metrics.request_cycles_charged.saturating_add(
            cost,
        );
        match resolved {
            ResolvedSource::Url(url) => Ok(RequestPlan { url, cost, provider_id: None }),
            ResolvedSource::Provider(p) => {
                let url = p.service_url();
                let ghost before = self.metrics.host_requests@;
                self.metrics.count_host(&p.hostname);
                let ghost i = choose|i: int|
                    0 <= i <= before.len() && #[trigger] counted_at(
                        before,
                        self.metrics.host_requests@,
                        p.hostname@,
                        i,
                    );
                let id = p.provider_id;
                self.registry.accrue(id, cost);
                assert(counted_at(before, self.metrics.host_requests@, p.hostname@, i));
                Ok(RequestPlan { url, cost, provider_id: Some(id) })
            },
        }
    }

    /// Undoes the charge of an admitted call whose outcall failed: the
    /// provider, as it stands now, gives back what it was credited, and the
    /// refund is counted.
    pub fn record_outcall_failure(&mut self, plan: &RequestPlan) -> (r: bool)
        requires
            old(self).wf(),
        ensures
            final(self).wf(),
            final(self).auth == old(self).auth,
            match plan.provider_id {
                Some(id) => r == owed(old(self).registry.providers@, id) is Some
                    && final(self).registry.providers@ == debited(
                    old(self).registry.providers@,
                    id,
                    plan.cost,
                ),
                None => r && final(self).registry.providers@ == old(self).registry.providers@,
            },
            final(self).metrics.request_err_http == sat_inc(old(self).metrics.request_err_http),
            final(self).metrics.request_cycles_refunded == sat_add(
                old(self).metrics.request_cycles_refunded,
                plan.cost,
            ),
            final(self).metrics.requests == old(self).metrics.requests,
            final(self).metrics.request_cycles_charged == old(self).metrics.request_cycles_charged,
            final(self).metrics.request_err_no_permission
                == old(self).metrics.request_err_no_permission,
            final(self).metrics.request_err_host_not_allowed
                == old(self).metrics.request_err_host_not_allowed,
    {
        self.metrics.request_err_http = inc(self.metrics.request_err_http);
        self.metrics.request_cycles_refunded = self.metrics.request_cycles_refunded.saturating_add(
            plan.cost,
        );
        match plan.provider_id {
            Some(id) => self.registry.debit(id, plan.cost),
            None => true,
        }
    }

    /// The cost that a call would be charged, without charging it.
    pub fn request_cost(&self, source: Source, json_rpc_payload: &str, max_response_bytes: u64) -> (r:
        Result<u128, RpcError>)
        ensures
            r == match resolution(self.registry.providers@, source) {
                Err(e) => Err(RpcError::ProviderError(e)),
                Ok(resolved) => Ok(
                    request_cost(
                        resolved,
                        json_rpc_payload.spec_bytes().len(),
                        max_response_bytes,
                        self.metadata.nodes_in_subnet,
                    ),
                ),
            },
    {
        match source.resolve(&self.registry) {
            Ok(resolved) => Ok(
                get_request_cost(
                    &resolved,
                    json_rpc_payload,
                    max_response_bytes,
                    self.metadata.nodes_in_subnet,
                ),
            ),
            Err(e) => Err(RpcError::ProviderError(e)),
        }
    }

    /// Whether `caller` may administer the gateway.
    pub fn administers(&self, caller: &String, is_controller: bool) -> (r: bool)
        requires
            self.wf(),
        ensures
            r == may_administer(self.auth, caller@, is_controller),
    {
        is_controller || self.auth.is_authorized(caller, Auth::Admin)
    }

    /// Grants `auth` to `principal`, for an administrator.
    pub fn authorize(&mut self, caller: &String, is_controller: bool, principal: &String, auth: Auth) -> (r:
        Result<(), RpcError>)
        requires
            old(self).wf(),
        ensures
            final(self).wf(),
            final(self).registry == old(self).registry,
            r is Ok <==> may_administer(old(self).auth, caller@, is_controller),
            r is Err ==> r == Err::<(), RpcError>(RpcError::ProviderError(ProviderError::NoPermission))
                && final(self).auth == old(self).auth,
            r is Ok ==> forall|p: Seq<char>, a: Auth|
                #[trigger] final(self).auth.holds(p, a) == (old(self).auth.holds(p, a) || (p
                    == principal@ && a == auth)),
    {
        if !self.administers(caller, is_controller) {
            return Err(RpcError::ProviderError(ProviderError::NoPermission));
        }
        self.auth.authorize(principal, auth);
        Ok(())
    }

    /// Revokes `auth` from `principal`, for an administrator.
    pub fn deauthorize(&mut self, caller: &String, is_controller: bool, principal: &String, auth: Auth) -> (r:
        Result<(), RpcError>)
        requires
            old(self).wf(),
        ensures
            final(self).wf(),
            final(self).registry == old(self).registry,
            r is Ok <==> may_administer(old(self).auth, caller@, is_controller),
            r is Err ==> r == Err::<(), RpcError>(RpcError::ProviderError(ProviderError::NoPermission))
                && final(self).auth == old(self).auth,
            r is Ok ==> forall|p: Seq<char>, a: Auth|
                #[trigger] final(self).auth.holds(p, a) == (old(self).auth.holds(p, a) && !(p
                    == principal@ && a == auth)),
    {
        if !self.administers(caller, is_controller) {
            return Err(RpcError::ProviderError(ProviderError::NoPermission));
        }
        self.auth.deauthorize(principal, auth);
        Ok(())
    }

    /// The identities that hold `auth`, for an administrator.
    pub fn get_authorized(&self, caller: &String, is_controller: bool, auth: Auth) -> (r: Result<
        Vec<String>,
        RpcError,
    >)
        requires
            self.wf(),
        ensures
            r is Ok <==> may_administer(self.auth, caller@, is_controller),
            r is Err ==> r == Err::<Vec<String>, RpcError>(
                RpcError::ProviderError(ProviderError::NoPermission),
            ),
            r matches Ok(v) ==> self.auth.lists_holders(auth, v@),
    {
        if !self.administers(caller, is_controller) {
            return Err(RpcError::ProviderError(ProviderError::NoPermission));
        }
        Ok(self.auth.get_authorized(auth))
    }

    /// Opens or closes calls to callers without the `Rpc` right, for an
    /// administrator.
    pub fn set_open_rpc_access(&mut self, caller: &String, is_controller: bool, open_rpc_access: bool) -> (r:
        Result<(), RpcError>)
        requires
            old(self).wf(),
        ensures
            final(self).wf(),
            final(self).registry == old(self).registry,
            final(self).auth == old(self).auth,
            final(self).metadata.nodes_in_subnet == old(self).metadata.nodes_in_subnet,
            r is Ok <==> may_administer(old(self).auth, caller@, is_controller),
            r is Err ==> r == Err::<(), RpcError>(RpcError::ProviderError(ProviderError::NoPermission))
                && final(self).metadata.open_rpc_access == old(self).metadata.open_rpc_access,
            r is Ok ==> final(self).metadata.open_rpc_access == open_rpc_access,
    {
        if !self.administers(caller, is_controller) {
            return Err(RpcError::ProviderError(ProviderError::NoPermission));
        }
        self.metadata.open_rpc_access = open_rpc_access;
        Ok(())
    }

    /// Whether calls are open to callers without the `Rpc` right, for an
    /// administrator.
    pub fn get_open_rpc_access(&self, caller: &String, is_controller: bool) -> (r: Result<
        bool,
        RpcError,
    >)
        requires
            self.wf(),
        ensures
            r == if may_administer(self.auth, caller@, is_controller) {
                Ok::<bool, RpcError>(self.metadata.open_rpc_access)
            } else {
                Err(RpcError::ProviderError(ProviderError::NoPermission))
            },
    {
        if !self.administers(caller, is_controller) {
            return Err(RpcError::ProviderError(ProviderError::NoPermission));
        }
        Ok(self.metadata.open_rpc_access)
    }

    /// Sets the replication factor that costs are scaled by, for an
    /// administrator.
    pub fn set_nodes_in_subnet(&mut self, caller: &String, is_controller: bool, nodes_in_subnet: u32) -> (r:
        Result<(), RpcError>)
        requires
            old(self).wf(),
        ensures
            final(self).wf(),
            final(self).registry == old(self).registry,
            final(self).auth == old(self).auth,
            final(self).metadata.open_rpc_access == old(self).metadata.open_rpc_access,
            r is Ok <==> may_administer(old(self).auth, caller@, is_controller),
            r is Err ==> r == Err::<(), RpcError>(RpcError::ProviderError(ProviderError::NoPermission))
                && final(self).metadata.nodes_in_subnet == old(self).metadata.nodes_in_subnet,
            r is Ok ==> final(self).metadata.nodes_in_subnet == nodes_in_subnet,
    {
        if !self.administers(caller, is_controller) {
            return Err(RpcError::ProviderError(ProviderError::NoPermission));
        }
        self.metadata.nodes_in_subnet = nodes_in_subnet;
        Ok(())
    }

    /// The replication factor that costs are scaled by, for an
    /// administrator.
    pub fn get_nodes_in_subnet(&self, caller: &String, is_controller: bool) -> (r: Result<
        u32,
        RpcError,
    >)
        requires
            self.wf(),
        ensures
            r == if may_administer(self.auth, caller@, is_controller) {
                Ok::<u32, RpcError>(self.metadata.nodes_in_subnet)
            } else {
                Err(RpcError::ProviderError(ProviderError::NoPermission))
            },
    {
        if !self.administers(caller, is_controller) {
            return Err(RpcError::ProviderError(ProviderError::NoPermission));
        }
        Ok(self.metadata.nodes_in_subnet)
    }
}

} // verus!
