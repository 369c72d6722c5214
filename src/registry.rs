//! The provider registry and the resolution of a call source to a provider.
//!
//! Providers are kept in ascending order of id, which is the order in which
//! they were registered; "the first match" below always means the match with
//! the lowest id.
use vstd::prelude::*;
use crate::error::RpcError;
use crate::text::str_eq;
use crate::validate::{
    is_allowed_credential_path, is_allowed_host, validate_credential_path, validate_hostname,
    ValidationError,
};

verus! {

/// A registered upstream endpoint, with its owner, rates and accrued credit.
pub struct Provider {
    pub provider_id: u64,
    pub owner: String,
    pub chain_id: u64,
    pub hostname: String,
    pub credential_path: String,
    pub cycles_per_call: u64,
    pub cycles_per_message_byte: u64,
    pub cycles_owed: u128,
    pub primary: bool,
}

/// What callers see of a provider: no credential path, no balance.
pub struct ProviderView {
    pub provider_id: u64,
    pub owner: String,
    pub chain_id: u64,
    pub hostname: String,
    pub cycles_per_call: u64,
    pub cycles_per_message_byte: u64,
    pub primary: bool,
}

/// The fields of a new provider.
pub struct RegisterProvider {
    pub chain_id: u64,
    pub hostname: String,
    pub credential_path: String,
    pub cycles_per_call: u64,
    pub cycles_per_message_byte: u64,
}

/// A partial change to a provider: each field that is set replaces the
/// provider's own.
pub struct UpdateProvider {
    pub provider_id: u64,
    pub hostname: Option<String>,
    pub credential_path: Option<String>,
    pub cycles_per_call: Option<u64>,
    pub cycles_per_message_byte: Option<u64>,
    pub primary: Option<bool>,
}

/// Where a caller wants a call to go.
pub enum Source {
    Url(String),
    Provider(u64),
    Chain(u64),
    Service { hostname: String, chain_id: Option<u64> },
}

/// A source after resolution: a literal URL or a snapshot of one provider.
pub enum ResolvedSource {
    Url(String),
    Provider(Provider),
}

/// Why a provider operation failed.
pub enum ProviderError {
    NoPermission,
    TooFewCycles { expected: u128, received: u128 },
    ProviderNotFound,
}

impl Provider {
    pub open spec fn spec_service_url(&self) -> Seq<char> {
        "https://"@ + self.hostname@ + self.credential_path@
    }

    /// The endpoint URL: scheme, hostname and credential path.
    pub fn service_url(&self) -> (r: String)
        ensures
            r@ == self.spec_service_url(),
    {
        let mut url = String::from_str("https://");
        url.append(self.hostname.as_str());
        url.append(self.credential_path.as_str());
        url
    }

    /// A copy of the record.
    pub fn snapshot(&self) -> (r: Provider)
        ensures
            r == *self,
    {
        Provider {
            provider_id: self.provider_id,
            owner: self.owner.clone(),
            chain_id: self.chain_id,
            hostname: self.hostname.clone(),
            credential_path: self.credential_path.clone(),
            cycles_per_call: self.cycles_per_call,
            cycles_per_message_byte: self.cycles_per_message_byte,
            cycles_owed: self.cycles_owed,
            primary: self.primary,
        }
    }

    pub open spec fn spec_public_view(&self) -> ProviderView {
        ProviderView {
            provider_id: self.provider_id,
            owner: self.owner,
            chain_id: self.chain_id,
            hostname: self.hostname,
            cycles_per_call: self.cycles_per_call,
            cycles_per_message_byte: self.cycles_per_message_byte,
            primary: self.primary,
        }
    }

    /// The part of the record that any caller may see.
    pub fn public_view(&self) -> (r: ProviderView)
        ensures
            r == self.spec_public_view(),
    {
        ProviderView {
            provider_id: self.provider_id,
            owner: self.owner.clone(),
            chain_id: self.chain_id,
            hostname: self.hostname.clone(),
            cycles_per_call: self.cycles_per_call,
            cycles_per_message_byte: self.cycles_per_message_byte,
            primary: self.primary,
        }
    }
}

/// `i` is the lowest index in `s` whose provider satisfies `f`.
pub open spec fn is_first(s: Seq<Provider>, f: spec_fn(Provider) -> bool, i: int) -> bool {
    &&& 0 <= i < s.len()
    &&& f(s[i])
    &&& forall|j: int| 0 <= j < i ==> !f(#[trigger] s[j])
}

/// The first provider of `s` that satisfies `f`, if any does.
pub open spec fn first_where(s: Seq<Provider>, f: spec_fn(Provider) -> bool) -> Option<Provider> {
    if exists|i: int| is_first(s, f, i) {
        Some(s[choose|i: int| is_first(s, f, i)])
    } else {
        None
    }
}

/// The first primary provider that satisfies `f`, else the first provider
/// that does.
pub open spec fn preferred(s: Seq<Provider>, f: spec_fn(Provider) -> bool) -> Option<Provider> {
    match first_where(s, |p: Provider| p.primary && f(p)) {
        Some(p) => Some(p),
        None => first_where(s, f),
    }
}

pub open spec fn serves_service(p: Provider, hostname: Seq<char>, chain_id: Option<u64>) -> bool {
    p.hostname@ == hostname && match chain_id {
        Some(id) => p.chain_id == id,
        None => true,
    }
}

pub open spec fn found(p: Option<Provider>) -> Result<ResolvedSource, ProviderError> {
    match p {
        Some(p) => Ok(ResolvedSource::Provider(p)),
        None => Err(ProviderError::ProviderNotFound),
    }
}

/// What a source resolves to against the providers `s`.
pub open spec fn resolution(s: Seq<Provider>, source: Source) -> Result<ResolvedSource, ProviderError> {
    match source {
        Source::Url(url) => Ok(ResolvedSource::Url(url)),
        Source::Provider(id) => found(first_where(s, |p: Provider| p.provider_id == id)),
        Source::Chain(id) => found(preferred(s, |p: Provider| p.chain_id == id)),
        Source::Service { hostname, chain_id } => found(
            preferred(s, |p: Provider| serves_service(p, hostname@, chain_id)),
        ),
    }
}

pub proof fn lemma_first_found(s: Seq<Provider>, f: spec_fn(Provider) -> bool, i: int)
    requires
        is_first(s, f, i),
    ensures
        first_where(s, f) == Some(s[i]),
{
    let k = choose|k: int| is_first(s, f, k);
    if k < i {
        assert(!f(s[k]));
    }
    if i < k {
        assert(!f(s[i]));
    }
}

pub proof fn lemma_none_found(s: Seq<Provider>, f: spec_fn(Provider) -> bool)
    requires
        forall|i: int| 0 <= i < s.len() ==> !f(#[trigger] s[i]),
    ensures
        first_where(s, f) is None,
{
    if exists|i: int| is_first(s, f, i) {
        let k = choose|k: int| is_first(s, f, k);
        assert(f(s[k]));
    }
}

/// The provider that registration with `args` creates.
pub open spec fn registered(args: RegisterProvider, id: u64, owner: String) -> Provider {
    Provider {
        provider_id: id,
        owner: owner,
        chain_id: args.chain_id,
        hostname: args.hostname,
        credential_path: args.credential_path,
        cycles_per_call: args.cycles_per_call,
        cycles_per_message_byte: args.cycles_per_message_byte,
        cycles_owed: 0,
        primary: false,
    }
}

/// `p` with the fields that `u` sets replaced.
pub open spec fn patched(p: Provider, u: UpdateProvider) -> Provider {
    Provider {
        hostname: match u.hostname {
            Some(h) => h,
            None => p.hostname,
        },
        credential_path: match u.credential_path {
            Some(c) => c,
            None => p.credential_path,
        },
        cycles_per_call: match u.cycles_per_call {
            Some(c) => c,
            None => p.cycles_per_call,
        },
        cycles_per_message_byte: match u.cycles_per_message_byte {
            Some(c) => c,
            None => p.cycles_per_message_byte,
        },
        primary: match u.primary {
            Some(b) => b,
            None => p.primary,
        },
        ..p
    }
}

/// The provider with id `id` in `s`, if there is one.
pub open spec fn lookup(s: Seq<Provider>, id: u64) -> Option<Provider> {
    first_where(s, |p: Provider| p.provider_id == id)
}

/// Whether `caller` may change or remove `p`: its owner or an administrator.
pub open spec fn may_manage(p: Provider, caller: Seq<char>, caller_is_admin: bool) -> bool {
    p.owner@ == caller || caller_is_admin
}

/// Where exactly one provider of a chain is primary, the chain resolves to
/// it, wherever it stands in the registry.
pub proof fn lemma_sole_primary_chosen(s: Seq<Provider>, chain_id: u64, i: int)
    requires
        0 <= i < s.len(),
        s[i].chain_id == chain_id,
        s[i].primary,
        forall|j: int|
            0 <= j < s.len() && j != i ==> !((#[trigger] s[j]).primary && s[j].chain_id
                == chain_id),
    ensures
        resolution(s, Source::Chain(chain_id)) == Ok::<ResolvedSource, ProviderError>(
            ResolvedSource::Provider(s[i]),
        ),
{
    let f = |p: Provider| p.chain_id == chain_id;
    let g = |p: Provider| p.primary && f(p);
    assert forall|j: int| 0 <= j < i implies !g(#[trigger] s[j]) by {}
    lemma_first_found(s, g, i);
}

/// Where no provider of a chain is primary, the chain resolves to the first
/// provider that serves it.
pub proof fn lemma_first_of_chain_without_primary(s: Seq<Provider>, chain_id: u64, i: int)
    requires
        0 <= i < s.len(),
        s[i].chain_id == chain_id,
        forall|j: int| 0 <= j < i ==> (#[trigger] s[j]).chain_id != chain_id,
        forall|j: int|
            0 <= j < s.len() ==> !((#[trigger] s[j]).primary && s[j].chain_id == chain_id),
    ensures
        resolution(s, Source::Chain(chain_id)) == Ok::<ResolvedSource, ProviderError>(
            ResolvedSource::Provider(s[i]),
        ),
{
    let f = |p: Provider| p.chain_id == chain_id;
    let g = |p: Provider| p.primary && f(p);
    assert forall|j: int| 0 <= j < s.len() implies !g(#[trigger] s[j]) by {}
    assert forall|j: int| 0 <= j < i implies !f(#[trigger] s[j]) by {}
    lemma_none_found(s, g);
    lemma_first_found(s, f, i);
}

/// A chain that no registered provider serves resolves to no provider.
pub proof fn lemma_unserved_chain_not_found(s: Seq<Provider>, chain_id: u64)
    requires
        forall|i: int| 0 <= i < s.len() ==> (#[trigger] s[i]).chain_id != chain_id,
    ensures
        resolution(s, Source::Chain(chain_id)) == Err::<ResolvedSource, ProviderError>(
            ProviderError::ProviderNotFound,
        ),
{
    let f = |p: Provider| p.chain_id == chain_id;
    let g = |p: Provider| p.primary && f(p);
    assert forall|i: int| 0 <= i < s.len() implies !g(#[trigger] s[i]) by {}
    assert forall|i: int| 0 <= i < s.len() implies !f(#[trigger] s[i]) by {}
    lemma_none_found(s, g);
    lemma_none_found(s, f);
}

/// What a scan of the registry looks for.
enum Selector {
    Id(u64),
    Chain(u64),
    Service(String, Option<u64>),
}

impl Selector {
    spec fn spec_selects(&self, p: Provider) -> bool {
        match self {
            Selector::Id(id) => p.provider_id == *id,
            Selector::Chain(id) => p.chain_id == *id,
            Selector::Service(h, c) => serves_service(p, h@, *c),
        }
    }

    fn selects(&self, p: &Provider) -> (r: bool)
        ensures
            r == self.spec_selects(*p),
    {
        match self {
            Selector::Id(id) => p.provider_id == *id,
            Selector::Chain(id) => p.chain_id == *id,
            Selector::Service(h, c) => str_eq(p.hostname.as_str(), h.as_str()) && match c {
                Some(id) => p.chain_id == *id,
                None => true,
            },
        }
    }
}

/// The providers, in ascending order of id, and the next id to hand out.
pub struct Registry {
    pub providers: Vec<Provider>,
    pub next_provider_id: u64,
}

impl Registry {
    /// Ids ascend strictly and stay below the next id to hand out.
    pub open spec fn wf(&self) -> bool {
        &&& forall|i: int, j: int|
            0 <= i < j < self.providers@.len() ==> (#[trigger] self.providers@[i]).provider_id
                < (#[trigger] self.providers@[j]).provider_id
        &&& forall|i: int|
            0 <= i < self.providers@.len() ==> (#[trigger] self.providers@[i]).provider_id
                < self.next_provider_id
    }

    pub fn new() -> (r: Registry)
        ensures
            r.wf(),
            r.providers@.len() == 0,
            r.next_provider_id == 0,
    {
        Registry { providers: Vec::new(), next_provider_id: 0 }
    }

    /// The index of the first provider that `sel` selects, primary ones only
    /// where `primary_only` is set.
    fn scan(&self, sel: &Selector, primary_only: bool) -> (r: Option<usize>)
        ensures
            match r {
                Some(i) => {
                    &&& i < self.providers@.len()
                    &&& sel.spec_selects(self.providers@[i as int])
                    &&& (primary_only ==> self.providers@[i as int].primary)
                    &&& forall|j: int|
                        0 <= j < i ==> !(sel.spec_selects(#[trigger] self.providers@[j]) && (
                        primary_only ==> self.providers@[j].primary))
                },
                None => forall|j: int|
                    0 <= j < self.providers@.len() ==> !(sel.spec_selects(
                        #[trigger] self.providers@[j],
                    ) && (primary_only ==> self.providers@[j].primary)),
            },
    {
        let mut i: usize = 0;
        while i < self.providers.len()
            invariant
                i <= self.providers@.len(),
                forall|j: int|
                    0 <= j < i ==> !(sel.spec_selects(#[trigger] self.providers@[j]) && (
                    primary_only ==> self.providers@[j].primary)),
            decreases self.providers@.len() - i,
        {
            let p = &self.providers[i];
            if sel.selects(p) && (!primary_only || p.primary) {
                return Some(i);
            }
            i = i + 1;
        }
        None
    }

    /// A snapshot of the provider with id `provider_id`, if it is registered.
    pub fn get(&self, provider_id: u64) -> (r: Option<Provider>)
        ensures
            r == first_where(self.providers@, |p: Provider| p.provider_id == provider_id),
    {
        let ghost f = |p: Provider| p.provider_id == provider_id;
        let sel = Selector::Id(provider_id);
        match self.scan(&sel, false) {
            Some(i) => {
                proof {
                    lemma_first_found(self.providers@, f, i as int);
                }
                Some(self.providers[i].snapshot())
            },
            None => {
                proof {
                    lemma_none_found(self.providers@, f);
                }
                None
            },
        }
    }

    /// The index of the provider with id `provider_id`, if it is registered.
    pub fn index_of(&self, provider_id: u64) -> (r: Option<usize>)
        requires
            self.wf(),
        ensures
            match r {
                Some(i) => {
                    &&& i < self.providers@.len()
                    &&& self.providers@[i as int].provider_id == provider_id
                    &&& lookup(self.providers@, provider_id) == Some(self.providers@[i as int])
                    &&& forall|j: int|
                        0 <= j < self.providers@.len() && j != i ==> (#[trigger] self.providers@[j]).provider_id
                            != provider_id
                },
                None => {
                    &&& lookup(self.providers@, provider_id) is None
                    &&& forall|j: int|
                        0 <= j < self.providers@.len() ==> (#[trigger] self.providers@[j]).provider_id
                            != provider_id
                },
            },
    {
        let ghost f = |p: Provider| p.provider_id == provider_id;
        let r = self.scan(&Selector::Id(provider_id), false);
        proof {
            match r {
                Some(i) => lemma_first_found(self.providers@, f, i as int),
                None => lemma_none_found(self.providers@, f),
            }
        }
        r
    }

    /// Adds a provider owned by `owner`, with the next id, no balance and
    /// not primary; refused where the hostname or the credential path is not
    /// allowed.
    pub fn register(&mut self, owner: String, args: RegisterProvider) -> (r: Result<
        u64,
        ValidationError,
    >)
        requires
            old(self).wf(),
            old(self).next_provider_id < u64::MAX,
        ensures
            final(self).wf(),
            r is Ok <==> is_allowed_host(args.hostname@) && is_allowed_credential_path(
                args.credential_path@,
            ),
            r matches Ok(id) ==> {
                &&& id == old(self).next_provider_id
                &&& final(self).next_provider_id == id + 1
                &&& final(self).providers@ == old(self).providers@.push(registered(args, id, owner))
            },
            r is Err ==> final(self).providers@ == old(self).providers@
                && final(self).next_provider_id == old(self).next_provider_id,
            !is_allowed_host(args.hostname@) ==> (r matches Err(
                ValidationError::HostNotAllowed(h),
            ) && h@ == args.hostname@),
            is_allowed_host(args.hostname@) && !is_allowed_credential_path(args.credential_path@)
                ==> (r matches Err(ValidationError::CredentialPathNotAllowed(c)) && c@
                == args.credential_path@),
    {
        match validate_hostname(args.hostname.as_str()) {
            Ok(()) => {},
            Err(e) => return Err(e),
        }
        match validate_credential_path(args.credential_path.as_str()) {
            Ok(()) => {},
            Err(e) => return Err(e),
        }
        let id = self.next_provider_id;
        let provider = Provider {
            provider_id: id,
            owner,
            chain_id: args.chain_id,
            hostname: args.hostname,
            credential_path: args.credential_path,
            cycles_per_call: args.cycles_per_call,
            cycles_per_message_byte: args.cycles_per_message_byte,
            cycles_owed: 0,
            primary: false,
        };
        self.providers.push(provider);
        self.next_provider_id = id + 1;
        Ok(id)
    }

    /// Applies the patch `args` to its provider, on behalf of `caller`.
    pub fn update(&mut self, caller: &String, caller_is_admin: bool, args: UpdateProvider) -> (r:
        Result<(), RpcError>)
        requires
            old(self).wf(),
        ensures
            final(self).wf(),
            final(self).next_provider_id == old(self).next_provider_id,
            match lookup(old(self).providers@, args.provider_id) {
                None => r == Err::<(), RpcError>(
                    RpcError::ProviderError(ProviderError::ProviderNotFound),
                ),
                Some(p) => if !may_manage(p, caller@, caller_is_admin) {
                    r == Err::<(), RpcError>(RpcError::ProviderError(ProviderError::NoPermission))
                } else if args.hostname matches Some(h) && !is_allowed_host(h@) {
                    r matches Err(RpcError::ValidationError(ValidationError::HostNotAllowed(e)))
                        && e@ == args.hostname.unwrap()@
                } else if args.credential_path matches Some(c) && !is_allowed_credential_path(
                    c@,
                ) {
                    r matches Err(
                        RpcError::ValidationError(ValidationError::CredentialPathNotAllowed(e)),
                    ) && e@ == args.credential_path.unwrap()@
                } else {
                    r is Ok
                },
            },
            r is Ok ==> final(self).providers@ == old(self).providers@.map_values(
                |q: Provider|
                    if q.provider_id == args.provider_id {
                        patched(q, args)
                    } else {
                        q
                    },
            ),
            r is Err ==> final(self).providers@ == old(self).providers@,
    {
        let i = match self.index_of(args.provider_id) {
            Some(i) => i,
            None => return Err(RpcError::ProviderError(ProviderError::ProviderNotFound)),
        };
        if !caller_is_admin && !str_eq(self.providers[i].owner.as_str(), caller.as_str()) {
            return Err(RpcError::ProviderError(ProviderError::NoPermission));
        }
        if let Some(h) = &args.hostname {
            if let Err(e) = validate_hostname(h.as_str()) {
                return Err(RpcError::ValidationError(e));
            }
        }
        if let Some(c) = &args.credential_path {
            if let Err(e) = validate_credential_path(c.as_str()) {
                return Err(RpcError::ValidationError(e));
            }
        }
        let ghost s = self.providers@;
        let old_p = self.providers[i].snapshot();
        let new_p = Provider {
            provider_id: old_p.provider_id,
            owner: old_p.owner,
            chain_id: old_p.chain_id,
            hostname: match args.hostname {
                Some(h) => h,
                None => old_p.hostname,
            },
            credential_path: match args.credential_path {
                Some(c) => c,
                None => old_p.credential_path,
            },
            cycles_per_call: match args.cycles_per_call {
                Some(c) => c,
                None => old_p.cycles_per_call,
            },
            cycles_per_message_byte: match args.cycles_per_message_byte {
                Some(c) => c,
                None => old_p.cycles_per_message_byte,
            },
            cycles_owed: old_p.cycles_owed,
            primary: match args.primary {
                Some(b) => b,
                None => old_p.primary,
            },
        };
        self.providers.set(i, new_p);
        assert(self.providers@ =~= s.map_values(
            |q: Provider|
                if q.provider_id == args.provider_id {
                    patched(q, args)
                } else {
                    q
                },
        ));
        Ok(())
    }

    /// Removes the provider with id `provider_id` on behalf of `caller`;
    /// `Ok(false)` where there is none. Its unwithdrawn balance goes with it.
    pub fn unregister(&mut self, caller: &String, caller_is_admin: bool, provider_id: u64) -> (r:
        Result<bool, ProviderError>)
        requires
            old(self).wf(),
        ensures
            final(self).wf(),
            final(self).next_provider_id == old(self).next_provider_id,
            match lookup(old(self).providers@, provider_id) {
                None => r == Ok::<bool, ProviderError>(false),
                Some(p) => if may_manage(p, caller@, caller_is_admin) {
                    r == Ok::<bool, ProviderError>(true)
                } else {
                    r == Err::<bool, ProviderError>(ProviderError::NoPermission)
                },
            },
            r == Ok::<bool, ProviderError>(true) ==> exists|i: int|
                0 <= i < old(self).providers@.len() && old(self).providers@[i].provider_id
                    == provider_id && final(self).providers@ == old(self).providers@.remove(i),
            r != Ok::<bool, ProviderError>(true) ==> final(self).providers@ == old(self).providers@,
    {
        let i = match self.index_of(provider_id) {
            Some(i) => i,
            None => return Ok(false),
        };
        if !caller_is_admin && !str_eq(self.providers[i].owner.as_str(), caller.as_str()) {
            return Err(ProviderError::NoPermission);
        }
        let ghost s = self.providers@;
        self.providers.remove(i);
        assert(self.providers@ =~= s.remove(i as int));
        assert forall|a: int, b: int|
            0 <= a < b < self.providers@.len() implies (#[trigger] self.providers@[a]).provider_id
            < (#[trigger] self.providers@[b]).provider_id by {
            if a < i {
                if b < i {
                } else {
                    assert(self.providers@[b] == s[b + 1]);
                }
            } else {
                assert(self.providers@[a] == s[a + 1]);
                assert(self.providers@[b] == s[b + 1]);
            }
        }
        assert forall|a: int| 0 <= a < self.providers@.len() implies (
        #[trigger] self.providers@[a]).provider_id < self.next_provider_id by {
            if a >= i {
                assert(self.providers@[a] == s[a + 1]);
            }
        }
        Ok(true)
    }

    /// What every caller may see of the providers, in registry order.
    pub fn provider_views(&self) -> (r: Vec<ProviderView>)
        ensures
            r@ == self.providers@.map_values(|p: Provider| p.spec_public_view()),
    {
        let mut out: Vec<ProviderView> = Vec::new();
        let mut i: usize = 0;
        while i < self.providers.len()
            invariant
                i <= self.providers@.len(),
                out@ == self.providers@.subrange(0, i as int).map_values(
                    |p: Provider| p.spec_public_view(),
                ),
            decreases self.providers@.len() - i,
        {
            out.push(self.providers[i].public_view());
            i = i + 1;
            assert(out@ =~= self.providers@.subrange(0, i as int).map_values(
                |p: Provider| p.spec_public_view(),
            ));
        }
        assert(self.providers@.subrange(0, i as int) =~= self.providers@);
        out
    }

    /// The first primary provider that `sel` selects, else the first that it
    /// selects.
    fn pick(&self, sel: &Selector, Ghost(f): Ghost<spec_fn(Provider) -> bool>) -> (r: Option<
        Provider,
    >)
        requires
            forall|p: Provider| #[trigger] f(p) == sel.spec_selects(p),
        ensures
            r == preferred(self.providers@, f),
    {
        let ghost s = self.providers@;
        let ghost g = |p: Provider| p.primary && f(p);
        match self.scan(sel, true) {
            Some(i) => {
                proof {
                    lemma_first_found(s, g, i as int);
                }
                Some(self.providers[i].snapshot())
            },
            None => {
                proof {
                    lemma_none_found(s, g);
                }
                match self.scan(sel, false) {
                    Some(i) => {
                        proof {
                            lemma_first_found(s, f, i as int);
                        }
                        Some(self.providers[i].snapshot())
                    },
                    None => {
                        proof {
                            lemma_none_found(s, f);
                        }
                        None
                    },
                }
            },
        }
    }
}

impl Source {
    /// Resolves the source against `registry`: a URL stands for itself, an
    /// id names one provider, and a chain or a service picks the first
    /// primary match, else the first match.
    pub fn resolve(self, registry: &Registry) -> (r: Result<ResolvedSource, ProviderError>)
        ensures
            r == resolution(registry.providers@, self),
    {
        match self {
            Source::Url(url) => Ok(ResolvedSource::Url(url)),
            Source::Provider(id) => match registry.get(id) {
                Some(p) => Ok(ResolvedSource::Provider(p)),
                None => Err(ProviderError::ProviderNotFound),
            },
            Source::Chain(id) => {
                let ghost f = |p: Provider| p.chain_id == id;
                match registry.pick(&Selector::Chain(id), Ghost(f)) {
                    Some(p) => Ok(ResolvedSource::Provider(p)),
                    None => Err(ProviderError::ProviderNotFound),
                }
            },
            Source::Service { hostname, chain_id } => {
                let ghost h = hostname@;
                let ghost f = |p: Provider| serves_service(p, h, chain_id);
                match registry.pick(&Selector::Service(hostname, chain_id), Ghost(f)) {
                    Some(p) => Ok(ResolvedSource::Provider(p)),
                    None => Err(ProviderError::ProviderNotFound),
                }
            },
        }
    }
}

} // verus!
