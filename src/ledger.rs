//! The credit that each provider has earned: accrual by metering, and
//! withdrawal as a two-step exchange around the outside transfer, which puts
//! the amount back when the transfer fails.
use vstd::prelude::*;
use crate::registry::{lookup, lemma_first_found, Provider, ProviderError, Registry};
use crate::text::str_eq;

verus! {

/// The smallest balance that may be withdrawn.
pub const MINIMUM_WITHDRAWAL_CYCLES: u128 = 1_000_000_000;

/// `a + b`, or the largest `u128` where the sum exceeds it.
pub open spec fn sat_add(a: u128, b: u128) -> u128 {
    if a + b > u128::MAX {
        u128::MAX
    } else {
        (a + b) as u128
    }
}

/// Distinct providers of `s` have distinct ids.
pub open spec fn ids_unique(s: Seq<Provider>) -> bool {
    forall|i: int, j: int|
        0 <= i < s.len() && 0 <= j < s.len() && i != j ==> (#[trigger] s[i]).provider_id != (
        #[trigger] s[j]).provider_id
}

/// `s` with the balance of the provider with id `id` set to `owed`.
pub open spec fn with_owed(s: Seq<Provider>, id: u64, owed: u128) -> Seq<Provider> {
    s.map_values(
        |p: Provider|
            if p.provider_id == id {
                Provider { cycles_owed: owed, ..p }
            } else {
                p
            },
    )
}

/// The balance of the provider with id `id` in `s`, if there is one.
pub open spec fn owed(s: Seq<Provider>, id: u64) -> Option<u128> {
    match lookup(s, id) {
        Some(p) => Some(p.cycles_owed),
        None => None,
    }
}

/// What `begin_withdrawal` returns on the providers `s`.
pub open spec fn withdrawal_outcome(s: Seq<Provider>, caller: Seq<char>, id: u64) -> Result<
    u128,
    ProviderError,
> {
    match lookup(s, id) {
        None => Err(ProviderError::ProviderNotFound),
        Some(p) => if p.owner@ != caller {
            Err(ProviderError::NoPermission)
        } else if p.cycles_owed < MINIMUM_WITHDRAWAL_CYCLES {
            Err(ProviderError::TooFewCycles { expected: MINIMUM_WITHDRAWAL_CYCLES, received: p.cycles_owed })
        } else {
            Ok(p.cycles_owed)
        },
    }
}

/// The providers after `amount` was credited to the provider with id `id`
/// (none changes where there is no such provider).
pub open spec fn credited(s: Seq<Provider>, id: u64, amount: u128) -> Seq<Provider> {
    match owed(s, id) {
        Some(b) => with_owed(s, id, sat_add(b, amount)),
        None => s,
    }
}

/// The providers after `amount` was taken back from the provider with id
/// `id`, down to an empty balance at most.
pub open spec fn debited(s: Seq<Provider>, id: u64, amount: u128) -> Seq<Provider> {
    match owed(s, id) {
        Some(b) => with_owed(s, id, if b >= amount { (b - amount) as u128 } else { 0 }),
        None => s,
    }
}

/// The providers after a withdrawal attempt by the owner whose transfer
/// failed: the balance was taken, then put back.
pub open spec fn after_failed_withdrawal(s: Seq<Provider>, id: u64) -> Seq<Provider> {
    match lookup(s, id) {
        Some(p) => if p.cycles_owed < MINIMUM_WITHDRAWAL_CYCLES {
            s
        } else {
            credited(with_owed(s, id, 0), id, p.cycles_owed)
        },
        None => s,
    }
}

/// `n` attempts of the owner to withdraw, one after the other, each of whose
/// transfers failed.
pub open spec fn after_failed_withdrawals(s: Seq<Provider>, id: u64, n: nat) -> Seq<Provider>
    decreases n,
{
    if n == 0 {
        s
    } else {
        after_failed_withdrawal(after_failed_withdrawals(s, id, (n - 1) as nat), id)
    }
}

/// In a sequence with unique ids, the provider at `i` is the one found by its id.
pub proof fn lemma_lookup_at(s: Seq<Provider>, i: int)
    requires
        ids_unique(s),
        0 <= i < s.len(),
    ensures
        lookup(s, s[i].provider_id) == Some(s[i]),
{
    let id = s[i].provider_id;
    assert forall|j: int| 0 <= j < i implies !((|p: Provider| p.provider_id == id)(
        #[trigger] s[j],
    )) by {}
    lemma_first_found(s, |p: Provider| p.provider_id == id, i);
}

/// Setting a balance keeps the ids, and `lookup` then finds the new balance.
pub proof fn lemma_with_owed(s: Seq<Provider>, id: u64, v: u128)
    requires
        ids_unique(s),
    ensures
        ids_unique(with_owed(s, id, v)),
        with_owed(s, id, v).len() == s.len(),
        forall|i: int| 0 <= i < s.len() ==> (#[trigger] with_owed(s, id, v)[i]).provider_id == s[i].provider_id,
        match lookup(s, id) {
            Some(p) => lookup(with_owed(s, id, v), id) == Some(Provider { cycles_owed: v, ..p })
                && owed(with_owed(s, id, v), id) == Some(v),
            None => lookup(with_owed(s, id, v), id) is None && with_owed(s, id, v) == s,
        },
{
    let t = with_owed(s, id, v);
    assert forall|i: int, j: int|
        0 <= i < t.len() && 0 <= j < t.len() && i != j implies (#[trigger] t[i]).provider_id != (
        #[trigger] t[j]).provider_id by {
        assert(t[i].provider_id == s[i].provider_id);
        assert(t[j].provider_id == s[j].provider_id);
    }
    if exists|i: int| 0 <= i < s.len() && s[i].provider_id == id {
        let i = choose|i: int| 0 <= i < s.len() && s[i].provider_id == id;
        lemma_lookup_at(s, i);
        lemma_lookup_at(t, i);
    } else {
        assert forall|i: int| 0 <= i < s.len() implies !((|p: Provider| p.provider_id == id)(
            #[trigger] s[i],
        )) by {}
        crate::registry::lemma_none_found(s, |p: Provider| p.provider_id == id);
        assert(t =~= s);
    }
}

/// A withdrawal whose transfer failed leaves every balance as it was
/// before the attempt: no credit lost and none added.
pub proof fn lemma_failed_withdrawal_keeps_balance(s: Seq<Provider>, id: u64)
    requires
        ids_unique(s),
    ensures
        after_failed_withdrawal(s, id) == s,
{
    match lookup(s, id) {
        Some(p) => {
            if p.cycles_owed >= MINIMUM_WITHDRAWAL_CYCLES {
                lemma_with_owed(s, id, 0);
                let t = with_owed(s, id, 0);
                lemma_with_owed(t, id, p.cycles_owed);
                assert(sat_add(0, p.cycles_owed) == p.cycles_owed);
                let u = with_owed(t, id, p.cycles_owed);
                assert forall|j: int| 0 <= j < s.len() implies #[trigger] u[j] == s[j] by {
                    if s[j].provider_id == id {
                        lemma_lookup_at(s, j);
                    }
                }
                assert(u =~= s);
            }
        },
        None => {},
    }
}

/// However many withdrawals in a row fail, every balance stays as it was.
pub proof fn lemma_failed_withdrawals_keep_balance(s: Seq<Provider>, id: u64, n: nat)
    requires
        ids_unique(s),
    ensures
        after_failed_withdrawals(s, id, n) == s,
    decreases n,
{
    if n > 0 {
        lemma_failed_withdrawals_keep_balance(s, id, (n - 1) as nat);
        lemma_failed_withdrawal_keeps_balance(s, id);
    }
}

impl Registry {
    /// The balance of the provider with id `provider_id`, if it is registered.
    pub fn cycles_owed(&self, provider_id: u64) -> (r: Option<u128>)
        requires
            self.wf(),
        ensures
            r == owed(self.providers@, provider_id),
    {
        match self.index_of(provider_id) {
            Some(i) => Some(self.providers[i].cycles_owed),
            None => None,
        }
    }

    /// Sets the balance of the provider at index `i`.
    fn set_owed(&mut self, i: usize, v: u128)
        requires
            old(self).wf(),
            i < old(self).providers@.len(),
            forall|j: int|
                0 <= j < old(self).providers@.len() && j != i ==> (
                #[trigger] old(self).providers@[j]).provider_id != old(self).providers@[i as int].provider_id,
        ensures
            final(self).wf(),
            final(self).next_provider_id == old(self).next_provider_id,
            final(self).providers@ == with_owed(
                old(self).providers@,
                old(self).providers@[i as int].provider_id,
                v,
            ),
    {
        let ghost s = self.providers@;
        let p = self.providers[i].snapshot();
        let id = p.provider_id;
        self.providers.set(i, Provider { cycles_owed: v, ..p });
        assert(self.providers@ =~= with_owed(s, id, v));
    }

    /// Credits `amount` to the provider with id `provider_id`, saturating at
    /// the largest balance; false, and nothing changed, where there is none.
    pub fn accrue(&mut self, provider_id: u64, amount: u128) -> (r: bool)
        requires
            old(self).wf(),
        ensures
            final(self).wf(),
            final(self).next_provider_id == old(self).next_provider_id,
            r == owed(old(self).providers@, provider_id) is Some,
            final(self).providers@ == credited(old(self).providers@, provider_id, amount),
    {
        match self.index_of(provider_id) {
            Some(i) => {
                let b = self.providers[i].cycles_owed;
                self.set_owed(i, b.saturating_add(amount));
                true
            },
            None => false,
        }
    }

    /// Takes `amount` back from the provider with id `provider_id`, down to
    /// an empty balance at most; false, and nothing changed, where there is
    /// none.
    pub fn debit(&mut self, provider_id: u64, amount: u128) -> (r: bool)
        requires
            old(self).wf(),
        ensures
            final(self).wf(),
            final(self).next_provider_id == old(self).next_provider_id,
            r == owed(old(self).providers@, provider_id) is Some,
            final(self).providers@ == debited(old(self).providers@, provider_id, amount),
    {
        match self.index_of(provider_id) {
            Some(i) => {
                let b = self.providers[i].cycles_owed;
                let v = if b >= amount {
                    b - amount
                } else {
                    0
                };
                self.set_owed(i, v);
                true
            },
            None => false,
        }
    }

    /// The first step of a withdrawal by `caller`: where the caller owns the
    /// provider and its balance reaches the minimum, the balance is taken
    /// whole and returned, to be handed to the transfer.
    pub fn begin_withdrawal(&mut self, caller: &String, provider_id: u64) -> (r: Result<
        u128,
        ProviderError,
    >)
        requires
            old(self).wf(),
        ensures
            final(self).wf(),
            final(self).next_provider_id == old(self).next_provider_id,
            r == withdrawal_outcome(old(self).providers@, caller@, provider_id),
            r is Ok ==> final(self).providers@ == with_owed(old(self).providers@, provider_id, 0),
            r is Err ==> final(self).providers@ == old(self).providers@,
    {
        let i = match self.index_of(provider_id) {
            Some(i) => i,
            None => return Err(ProviderError::ProviderNotFound),
        };
        if !str_eq(self.providers[i].owner.as_str(), caller.as_str()) {
            return Err(ProviderError::NoPermission);
        }
        let amount = self.providers[i].cycles_owed;
        if amount < MINIMUM_WITHDRAWAL_CYCLES {
            return Err(ProviderError::TooFewCycles { expected: MINIMUM_WITHDRAWAL_CYCLES, received: amount });
        }
        self.set_owed(i, 0);
        Ok(amount)
    }

    /// The second step of a withdrawal of `amount`: where the transfer
    /// failed, the amount goes back to the provider as it stands now. False
    /// where the refund was owed and the provider is gone.
    pub fn settle_withdrawal(&mut self, provider_id: u64, amount: u128, transferred: bool) -> (r:
        bool)
        requires
            old(self).wf(),
        ensures
            final(self).wf(),
            final(self).next_provider_id == old(self).next_provider_id,
            transferred ==> r && final(self).providers@ == old(self).providers@,
            !transferred ==> r == owed(old(self).providers@, provider_id) is Some
                && final(self).providers@ == credited(old(self).providers@, provider_id, amount),
    {
        if transferred {
            true
        } else {
            self.accrue(provider_id, amount)
        }
    }
}

} // verus!
