use vstd::prelude::*;
use crate::keys::{AccessRights, Address, Key, URef, READ, WRITE, ADD};
use crate::named_keys::NamedKeys;

verus! {

/// Why a reference may not be used.
#[derive(Copy, Clone, Debug, PartialEq, Eq, Structural)]
pub enum AccessError {
    /// The address is not among those the context holds.
    ForgedReference,
    /// The address is held, but not with the right asked for.
    InvalidAccess,
}

/// Some reference in `s` has address `addr`.
pub open spec fn knows(s: Seq<URef>, addr: Address) -> bool {
    exists|i: int| 0 <= i < s.len() && s[i].addr == addr
}

/// Some reference in `s` has address `addr` and every right of `right`.
pub open spec fn grants(s: Seq<URef>, addr: Address, right: AccessRights) -> bool {
    exists|i: int| 0 <= i < s.len() && s[i].addr == addr && s[i].rights.spec_contains(right)
}

/// The outcome of using `uref` for `right` by a holder of `s`.
pub open spec fn check_result(s: Seq<URef>, uref: URef, right: AccessRights) -> Result<(), AccessError> {
    if !knows(s, uref.addr) {
        Err(AccessError::ForgedReference)
    } else if !grants(s, uref.addr, right) {
        Err(AccessError::InvalidAccess)
    } else {
        Ok(())
    }
}

/// `k` is a key of `nk`.
pub open spec fn named_has(nk: NamedKeys, k: Key) -> bool {
    exists|i: int| 0 <= i < nk.view().len() && nk.view()[i].1 == k
}

/// An address that a context does not hold cannot be used, whatever rights a
/// reference to it claims and whatever right is asked for.
pub proof fn lemma_unknown_is_forged(s: Seq<URef>, uref: URef, right: AccessRights)
    requires
        !knows(s, uref.addr),
    ensures
        check_result(s, uref, right) == Err::<(), AccessError>(AccessError::ForgedReference),
{
}

/// The references an execution context legitimately holds.
pub struct KnownURefs {
    entries: Vec<URef>,
}

impl KnownURefs {
    pub closed spec fn view(&self) -> Seq<URef> {
        self.entries@
    }

    pub fn new() -> (r: KnownURefs)
        ensures
            r.view() == Seq::<URef>::empty(),
    {
        KnownURefs { entries: Vec::new() }
    }

    pub fn insert(&mut self, uref: URef)
        ensures
            final(self).view() == old(self).view().push(uref),
    {
        self.entries.push(uref);
    }

    /// Adds the references among the keys of `nk`.
    pub fn insert_named_keys(&mut self, nk: &NamedKeys)
        ensures
            forall|u: URef| #[trigger] final(self).view().contains(u)
                <==> old(self).view().contains(u) || named_has(*nk, Key::URef(u)),
    {
        let mut i: usize = 0;
        let n = nk.len();
        while i < n
            invariant
                n == nk.view().len(),
                i <= n,
                forall|u: URef| #[trigger] self.view().contains(u)
                    <==> old(self).view().contains(u)
                        || exists|j: int| 0 <= j < i && nk.view()[j].1 == Key::URef(u),
            decreases n - i,
        {
            let ghost prev = self.view();
            match nk.key_at(i) {
                Key::URef(u) => {
                    self.insert(u);
                },
                _ => {},
            }
            proof {
                assert forall|u: URef| #[trigger] self.view().contains(u)
                    <==> old(self).view().contains(u)
                        || exists|j: int| 0 <= j < i + 1 && nk.view()[j].1 == Key::URef(u) by {
                    if self.view().contains(u) && !prev.contains(u) {
                        assert(self.view().last() == u);
                        assert(nk.view()[i as int].1 == Key::URef(u));
                    }
                    if exists|j: int| 0 <= j < i + 1 && nk.view()[j].1 == Key::URef(u) {
                        let j = choose|j: int| 0 <= j < i + 1 && nk.view()[j].1 == Key::URef(u);
                        if j == i {
                            assert(self.view().last() == u);
                        }
                    }
                    if prev.contains(u) {
                        let j = choose|j: int| 0 <= j < prev.len() && prev[j] == u;
                        assert(self.view()[j] == u);
                    }
                }
            }
            i = i + 1;
        }
    }

    /// Whether the context holds a reference to `addr`.
    pub fn knows(&self, addr: Address) -> (r: bool)
        ensures
            r == knows(self.view(), addr),
    {
        let mut i: usize = 0;
        while i < self.entries.len()
            invariant
                i <= self.entries@.len(),
                forall|j: int| 0 <= j < i ==> self.entries@[j].addr != addr,
            decreases self.entries@.len() - i,
        {
            if self.entries[i].addr == addr {
                return true;
            }
            i = i + 1;
        }
        false
    }

    fn grants(&self, addr: Address, right: AccessRights) -> (r: bool)
        ensures
            r == grants(self.view(), addr, right),
    {
        let mut i: usize = 0;
        while i < self.entries.len()
            invariant
                i <= self.entries@.len(),
                forall|j: int| 0 <= j < i ==> !(self.entries@[j].addr == addr && self.entries@[j].rights.spec_contains(right)),
            decreases self.entries@.len() - i,
        {
            if self.entries[i].addr == addr && self.entries[i].rights.contains(right) {
                return true;
            }
            i = i + 1;
        }
        false
    }

    /// Whether `uref` may be used for `right`: its address must be held, and
    /// held with that right. The rights that `uref` itself claims count for nothing.
    pub fn check(&self, uref: URef, right: AccessRights) -> (r: Result<(), AccessError>)
        ensures
            r == check_result(self.view(), uref, right),
    {
        if !self.knows(uref.addr) {
            Err(AccessError::ForgedReference)
        } else if !self.grants(uref.addr, right) {
            Err(AccessError::InvalidAccess)
        } else {
            Ok(())
        }
    }

    /// Brings a reference to the fresh address `addr` into circulation, with
    /// every right, and holds it; `None` when the address is already held.
    pub fn mint(&mut self, addr: Address) -> (r: Option<URef>)
        ensures
            knows(old(self).view(), addr) ==> r is None && final(self).view() == old(self).view(),
            !knows(old(self).view(), addr) ==> r == Some(URef { addr, rights: AccessRights { bits: READ | WRITE | ADD } })
                && final(self).view() == old(self).view().push(r.unwrap()),
    {
        if self.knows(addr) {
            return None;
        }
        let u = URef { addr, rights: AccessRights::read_add_write() };
        self.insert(u);
        Some(u)
    }
}

} // verus!
