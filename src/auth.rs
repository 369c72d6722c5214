//! Access control: each identity holds a set of independent rights, kept as
//! a bitfield, and each privileged operation checks the caller's set first.
use vstd::prelude::*;
use crate::text::str_eq;

verus! {

/// One right that an identity can be granted.
#[derive(PartialEq, Eq, Structural, Clone, Copy, Debug)]
pub enum Auth {
    Admin,
    Rpc,
    RegisterProvider,
    FreeRpc,
}

impl Auth {
    /// The bit that stands for this right in a rights set.
    pub open spec fn spec_bit(self) -> u32 {
        match self {
            Auth::Admin => 1,
            Auth::Rpc => 2,
            Auth::RegisterProvider => 4,
            Auth::FreeRpc => 8,
        }
    }

    pub fn bit(&self) -> (r: u32)
        ensures
            r == self.spec_bit(),
    {
        match self {
            Auth::Admin => 1,
            Auth::Rpc => 2,
            Auth::RegisterProvider => 4,
            Auth::FreeRpc => 8,
        }
    }
}

/// Whether the bitfield `bits` holds the right `a`.
pub open spec fn bits_hold(bits: u32, a: Auth) -> bool {
    bits & a.spec_bit() != 0
}

/// Adding or removing one right's bit leaves every other right as it was.
pub proof fn lemma_bit_update(x: u32, a: Auth, b: Auth)
    ensures
        bits_hold(x | a.spec_bit(), b) == (bits_hold(x, b) || a == b),
        bits_hold(x & !a.spec_bit(), b) == (bits_hold(x, b) && a != b),
        !bits_hold(0, b),
{
    let p = a.spec_bit();
    let q = b.spec_bit();
    assert(((x | p) & q != 0) == ((x & q != 0) || p == q) && ((x & !p) & q != 0) == ((x & q
        != 0) && p != q) && (0u32 & q) == 0) by (bit_vector)
        requires
            p == 1 || p == 2 || p == 4 || p == 8,
            q == 1 || q == 2 || q == 4 || q == 8,
    ;
}

/// The rights held by one identity, named by the textual form of its principal.
pub struct AuthEntry {
    pub principal: String,
    pub bits: u32,
}

/// The rights of every identity that holds any; an identity absent from the
/// table holds none.
pub struct AuthTable {
    pub entries: Vec<AuthEntry>,
}

impl AuthTable {
    /// No identity has two entries.
    pub open spec fn wf(&self) -> bool {
        forall|i: int, j: int|
            0 <= i < j < self.entries@.len() ==> #[trigger] self.entries@[i].principal@
                != #[trigger] self.entries@[j].principal@
    }

    /// Whether identity `p` holds right `a`.
    pub open spec fn holds(&self, p: Seq<char>, a: Auth) -> bool {
        exists|i: int|
            0 <= i < self.entries@.len() && #[trigger] self.entries@[i].principal@ == p
                && bits_hold(self.entries@[i].bits, a)
    }

    pub fn new() -> (r: AuthTable)
        ensures
            r.wf(),
            forall|p: Seq<char>, a: Auth| !r.holds(p, a),
    {
        AuthTable { entries: Vec::new() }
    }

    /// The position of `p`'s entry, if it has one.
    fn position(&self, p: &String) -> (r: Option<usize>)
        ensures
            match r {
                Some(i) => i < self.entries@.len() && self.entries@[i as int].principal@ == p@,
                None => forall|i: int|
                    0 <= i < self.entries@.len() ==> #[trigger] self.entries@[i].principal@
                        != p@,
            },
    {
        let mut i: usize = 0;
        while i < self.entries.len()
            invariant
                i <= self.entries@.len(),
                forall|k: int| 0 <= k < i ==> #[trigger] self.entries@[k].principal@ != p@,
            decreases self.entries@.len() - i,
        {
            if str_eq(self.entries[i].principal.as_str(), p.as_str()) {
                return Some(i);
            }
            i = i + 1;
        }
        None
    }

    pub fn is_authorized(&self, principal: &String, auth: Auth) -> (r: bool)
        requires
            self.wf(),
        ensures
            r == self.holds(principal@, auth),
    {
        match self.position(principal) {
            Some(i) => {
                let r = self.entries[i].bits & auth.bit() != 0;
                assert(r ==> self.holds(principal@, auth));
                r
            },
            None => false,
        }
    }

    /// Grants `auth` to `principal`.
    pub fn authorize(&mut self, principal: &String, auth: Auth)
        requires
            old(self).wf(),
        ensures
            final(self).wf(),
            forall|p: Seq<char>, a: Auth|
                #[trigger] final(self).holds(p, a) == (old(self).holds(p, a) || (p == principal@
                    && a == auth)),
    {
        match self.position(principal) {
            Some(i) => {
                let bits = self.entries[i].bits | auth.bit();
                self.set_bits(i, bits);
                assert forall|p: Seq<char>, a: Auth|
                    #[trigger] self.holds(p, a) == (old(self).holds(p, a) || (p == principal@
                        && a == auth)) by {
                    lemma_bit_update(old(self).entries@[i as int].bits, auth, a);
                    if old(self).holds(p, a) {
                        let k = choose|k: int|
                            0 <= k < old(self).entries@.len()
                                && #[trigger] old(self).entries@[k].principal@ == p
                                && bits_hold(old(self).entries@[k].bits, a);
                        assert(self.entries@[k].principal@ == p);
                    }
                    if p == principal@ && a == auth {
                        assert(self.entries@[i as int].principal@ == p);
                    }
                }
            },
            None => {
                let entry = AuthEntry { principal: principal.clone(), bits: auth.bit() };
                self.entries.push(entry);
                let ghost n: int = self.entries@.len() - 1;
                assert forall|p: Seq<char>, a: Auth|
                    #[trigger] self.holds(p, a) == (old(self).holds(p, a) || (p == principal@
                        && a == auth)) by {
                    lemma_bit_update(0, auth, a);
                    assert(auth.spec_bit() == 0 | auth.spec_bit()) by (bit_vector)
                        requires
                            auth.spec_bit() == auth.spec_bit(),
                    ;
                    if old(self).holds(p, a) {
                        let k = choose|k: int|
                            0 <= k < old(self).entries@.len()
                                && #[trigger] old(self).entries@[k].principal@ == p
                                && bits_hold(old(self).entries@[k].bits, a);
                        assert(self.entries@[k].principal@ == p);
                    }
                    if p == principal@ && a == auth {
                        assert(self.entries@[n].principal@ == p);
                    }
                }
            },
        }
    }

    /// Revokes `auth` from `principal`.
    pub fn deauthorize(&mut self, principal: &String, auth: Auth)
        requires
            old(self).wf(),
        ensures
            final(self).wf(),
            forall|p: Seq<char>, a: Auth|
                #[trigger] final(self).holds(p, a) == (old(self).holds(p, a) && !(p
                    == principal@ && a == auth)),
    {
        match self.position(principal) {
            Some(i) => {
                let bits = self.entries[i].bits & !auth.bit();
                self.set_bits(i, bits);
                assert forall|p: Seq<char>, a: Auth|
                    #[trigger] self.holds(p, a) == (old(self).holds(p, a) && !(p == principal@
                        && a == auth)) by {
                    lemma_bit_update(old(self).entries@[i as int].bits, auth, a);
                    if old(self).holds(p, a) && !(p == principal@ && a == auth) {
                        let k = choose|k: int|
                            0 <= k < old(self).entries@.len()
                                && #[trigger] old(self).entries@[k].principal@ == p
                                && bits_hold(old(self).entries@[k].bits, a);
                        assert(self.entries@[k].principal@ == p);
                    }
                    if self.holds(p, a) {
                        let k = choose|k: int|
                            0 <= k < self.entries@.len()
                                && #[trigger] self.entries@[k].principal@ == p
                                && bits_hold(self.entries@[k].bits, a);
                        assert(old(self).entries@[k].principal@ == p);
                    }
                }
            },
            None => {},
        }
    }

    /// `v` names identities that hold `a`, and each of them.
    pub open spec fn lists_holders(&self, a: Auth, v: Seq<String>) -> bool {
        &&& forall|i: int| 0 <= i < v.len() ==> self.holds(#[trigger] v[i]@, a)
        &&& forall|p: Seq<char>|
            self.holds(p, a) ==> exists|i: int| 0 <= i < v.len() && #[trigger] v[i]@ == p
    }

    /// The identities that hold `auth`, in the order of the table.
    pub fn get_authorized(&self, auth: Auth) -> (r: Vec<String>)
        requires
            self.wf(),
        ensures
            self.lists_holders(auth, r@),
    {
        let mut out: Vec<String> = Vec::new();
        let mut i: usize = 0;
        while i < self.entries.len()
            invariant
                i <= self.entries@.len(),
                forall|k: int| 0 <= k < out@.len() ==> self.holds(#[trigger] out@[k]@, auth),
                forall|j: int|
                    0 <= j < i && bits_hold(self.entries@[j].bits, auth) ==> exists|k: int|
                        0 <= k < out@.len() && #[trigger] out@[k]@
                            == (#[trigger] self.entries@[j]).principal@,
            decreases self.entries@.len() - i,
        {
            let ghost before = out@;
            if self.entries[i].bits & auth.bit() != 0 {
                out.push(self.entries[i].principal.clone());
                assert(out@[out@.len() - 1]@ == self.entries@[i as int].principal@);
            }
            assert forall|j: int|
                0 <= j < i + 1 && bits_hold(self.entries@[j].bits, auth) implies exists|k: int|
                0 <= k < out@.len() && #[trigger] out@[k]@ == (
                #[trigger] self.entries@[j]).principal@ by {
                if j < i {
                    let k = choose|k: int|
                        0 <= k < before.len() && #[trigger] before[k]@
                            == self.entries@[j].principal@;
                    assert(out@[k] == before[k]);
                } else {
                    assert(out@[out@.len() - 1]@ == self.entries@[j].principal@);
                }
            }
            i = i + 1;
        }
        assert forall|p: Seq<char>| self.holds(p, auth) implies exists|k: int|
            0 <= k < out@.len() && #[trigger] out@[k]@ == p by {
            let j = choose|j: int|
                0 <= j < self.entries@.len() && #[trigger] self.entries@[j].principal@ == p
                    && bits_hold(self.entries@[j].bits, auth);
            assert(bits_hold(self.entries@[j].bits, auth));
        }
        out
    }

    /// Replaces the bitfield of the entry at `i`.
    fn set_bits(&mut self, i: usize, bits: u32)
        requires
            old(self).wf(),
            i < old(self).entries@.len(),
        ensures
            final(self).wf(),
            final(self).entries@.len() == old(self).entries@.len(),
            final(self).entries@[i as int].bits == bits,
            forall|k: int|
                0 <= k < old(self).entries@.len() ==> #[trigger] final(self).entries@[k].principal@
                    == old(self).entries@[k].principal@,
            forall|k: int|
                0 <= k < old(self).entries@.len() && k != i ==> #[trigger] final(self).entries@[k].bits
                    == old(self).entries@[k].bits,
    {
        let principal = self.entries[i].principal.clone();
        self.entries.set(i, AuthEntry { principal, bits });
    }
}

} // verus!
