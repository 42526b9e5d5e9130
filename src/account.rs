use vstd::prelude::*;
use crate::keys::{PublicKey, URef};
use crate::named_keys::NamedKeys;

verus! {

/// Sum of all weights in `s`.
pub open spec fn total_weight(s: Seq<(PublicKey, u8)>) -> nat
    decreases s.len(),
{
    if s.len() == 0 {
        0
    } else {
        total_weight(s.drop_last()) + s.last().1 as nat
    }
}

/// Sum of the weights in `s` of the keys that occur in `signers`.
pub open spec fn signed_weight(s: Seq<(PublicKey, u8)>, signers: Seq<PublicKey>) -> nat
    decreases s.len(),
{
    if s.len() == 0 {
        0
    } else {
        signed_weight(s.drop_last(), signers) + if signers.contains(s.last().0) {
            s.last().1 as nat
        } else {
            0
        }
    }
}

/// No public key occurs twice.
pub open spec fn keys_unique(s: Seq<(PublicKey, u8)>) -> bool {
    forall|i: int, j: int| 0 <= i < s.len() && 0 <= j < s.len() && i != j ==> s[i].0 != s[j].0
}

/// The weight of `pk` in `s`, if it occurs there.
pub open spec fn weight_of(s: Seq<(PublicKey, u8)>, pk: PublicKey) -> Option<u8>
    decreases s.len(),
{
    if s.len() == 0 {
        None
    } else if s.last().0 == pk {
        Some(s.last().1)
    } else {
        weight_of(s.drop_last(), pk)
    }
}

proof fn lemma_total_bound(s: Seq<(PublicKey, u8)>)
    ensures
        total_weight(s) <= 255 * s.len(),
        signed_weight(s, Seq::empty()) == 0,
    decreases s.len(),
{
    if s.len() > 0 {
        lemma_total_bound(s.drop_last());
    }
}

proof fn lemma_signed_le_total(s: Seq<(PublicKey, u8)>, signers: Seq<PublicKey>)
    ensures
        signed_weight(s, signers) <= total_weight(s),
    decreases s.len(),
{
    if s.len() > 0 {
        lemma_signed_le_total(s.drop_last(), signers);
    }
}

proof fn lemma_weight_found(s: Seq<(PublicKey, u8)>, i: int)
    requires
        keys_unique(s),
        0 <= i < s.len(),
    ensures
        weight_of(s, s[i].0) == Some(s[i].1),
    decreases s.len(),
{
    if i != s.len() - 1 {
        lemma_weight_found(s.drop_last(), i);
    }
}

proof fn lemma_weight_absent(s: Seq<(PublicKey, u8)>, pk: PublicKey)
    requires
        forall|i: int| 0 <= i < s.len() ==> s[i].0 != pk,
    ensures
        weight_of(s, pk) is None,
    decreases s.len(),
{
    if s.len() > 0 {
        lemma_weight_absent(s.drop_last(), pk);
    }
}

/// Removing entry `i` lowers the total by its weight.
proof fn lemma_total_remove(s: Seq<(PublicKey, u8)>, i: int)
    requires
        0 <= i < s.len(),
    ensures
        total_weight(s.remove(i)) + s[i].1 as nat == total_weight(s),
    decreases s.len(),
{
    if i != s.len() - 1 {
        lemma_total_remove(s.drop_last(), i);
        assert(s.remove(i).drop_last() =~= s.drop_last().remove(i));
    } else {
        assert(s.remove(i) =~= s.drop_last());
    }
}

/// The kinds of action whose threshold an account sets.
#[derive(Copy, Clone, Debug, PartialEq, Eq, Structural)]
pub enum ActionType {
    Deployment,
    KeyManagement,
}

/// The least combined weight of signing keys that each kind of action needs.
#[derive(Copy, Clone, Debug, PartialEq, Eq, Structural)]
pub struct ActionThresholds {
    pub deployment: u8,
    pub key_management: u8,
}

/// Why a set of signing keys was not enough.
#[derive(Copy, Clone, Debug, PartialEq, Eq, Structural)]
pub enum AuthorizationError {
    DeploymentAuthorizationFailure,
}

#[derive(Copy, Clone, Debug, PartialEq, Eq, Structural)]
pub enum SetThresholdFailure {
    PermissionDenied,
    InvalidThreshold,
}

#[derive(Copy, Clone, Debug, PartialEq, Eq, Structural)]
pub enum AddKeyFailure {
    PermissionDenied,
    DuplicateKey,
}

#[derive(Copy, Clone, Debug, PartialEq, Eq, Structural)]
pub enum RemoveKeyFailure {
    PermissionDenied,
    MissingKey,
    ThresholdViolation,
}

/// An account: its key, its main purse, its named keys, and the weighted keys
/// that may act for it with the thresholds they must reach.
pub struct Account {
    pub public_key: PublicKey,
    pub main_purse: URef,
    pub named_keys: NamedKeys,
    pub associated_keys: Vec<(PublicKey, u8)>,
    pub action_thresholds: ActionThresholds,
}

impl Account {
    /// The associated keys with their weights.
    pub open spec fn keys(&self) -> Seq<(PublicKey, u8)> {
        self.associated_keys@
    }

    pub open spec fn thresholds(&self) -> ActionThresholds {
        self.action_thresholds
    }

    /// Keys are unique, and each threshold can be met
    /// by the associated keys together.
    pub open spec fn wf(&self) -> bool {
        &&& keys_unique(self.keys())
        &&& self.thresholds().deployment as nat <= total_weight(self.keys())
        &&& self.thresholds().key_management as nat <= total_weight(self.keys())
        &&& self.named_keys.wf()
    }

    /// Every well-formed account's thresholds can be met by its keys together.
    pub proof fn lemma_thresholds_reachable(&self)
        requires
            self.wf(),
        ensures
            self.thresholds().deployment as nat <= total_weight(self.keys()),
            self.thresholds().key_management as nat <= total_weight(self.keys()),
            keys_unique(self.keys()),
            self.named_keys.wf(),
    {
    }

    pub open spec fn threshold_of(&self, action: ActionType) -> u8 {
        match action {
            ActionType::Deployment => self.thresholds().deployment,
            ActionType::KeyManagement => self.thresholds().key_management,
        }
    }

    /// A new account whose own key is its one associated key, with weight 1,
    /// and whose thresholds are both 1.
    pub fn new(public_key: PublicKey, main_purse: URef, named_keys: NamedKeys) -> (r: Account)
        requires
            named_keys.wf(),
        ensures
            r.wf(),
            r.public_key == public_key,
            r.main_purse == main_purse,
            r.named_keys == named_keys,
            r.keys() == seq![(public_key, 1u8)],
            r.thresholds() == (ActionThresholds { deployment: 1, key_management: 1 }),
    {
        let mut associated_keys: Vec<(PublicKey, u8)> = Vec::new();
        associated_keys.push((public_key, 1u8));
        let r = Account {
            public_key,
            main_purse,
            named_keys,
            associated_keys,
            action_thresholds: ActionThresholds { deployment: 1, key_management: 1 },
        };
        proof {
            let s = r.associated_keys@;
            assert(s.drop_last() =~= Seq::<(PublicKey, u8)>::empty());
            assert(total_weight(s.drop_last()) == 0);
            assert(total_weight(s) == 1);
            assert(keys_unique(s));
        }
        r
    }

    pub fn action_thresholds(&self) -> (r: ActionThresholds)
        ensures
            r == self.thresholds(),
    {
        self.action_thresholds
    }

    /// The weight of `pk` among the associated keys.
    pub fn get_associated_key(&self, pk: PublicKey) -> (r: Option<u8>)
        requires
            self.wf(),
        ensures
            r == weight_of(self.keys(), pk),
    {
        match self.position(pk) {
            Some(i) => {
                proof { lemma_weight_found(self.keys(), i as int); }
                Some(self.associated_keys[i].1)
            },
            None => {
                proof { lemma_weight_absent(self.keys(), pk); }
                None
            },
        }
    }

    fn position(&self, pk: PublicKey) -> (r: Option<usize>)
        ensures
            match r {
                Some(i) => i < self.keys().len() && self.keys()[i as int].0 == pk,
                None => forall|i: int| 0 <= i < self.keys().len() ==> self.keys()[i].0 != pk,
            },
    {
        let mut i: usize = 0;
        while i < self.associated_keys.len()
            invariant
                i <= self.keys().len(),
                forall|j: int| 0 <= j < i ==> self.keys()[j].0 != pk,
            decreases self.keys().len() - i,
        {
            if self.associated_keys[i].0 == pk {
                return Some(i);
            }
            i = i + 1;
        }
        None
    }

    /// The sum of all associated weights.
    pub fn total_weight(&self) -> (r: u128)
        requires
            self.wf(),
        ensures
            r == total_weight(self.keys()),
    {
        let mut sum: u128 = 0;
        let mut i: usize = 0;
        while i < self.associated_keys.len()
            invariant
                self.wf(),
                i <= self.keys().len(),
                sum == total_weight(self.keys().subrange(0, i as int)),
            decreases self.keys().len() - i,
        {
            proof {
                let s = self.keys().subrange(0, i as int + 1);
                assert(s.drop_last() =~= self.keys().subrange(0, i as int));
                lemma_total_bound(self.keys().subrange(0, i as int));
            }
            sum = sum + self.associated_keys[i].1 as u128;
            i = i + 1;
        }
        proof { assert(self.keys().subrange(0, i as int) =~= self.keys()); }
        sum
    }

    /// The combined weight of those associated keys that are among `signers`.
    pub fn authorization_weight(&self, signers: &Vec<PublicKey>) -> (r: u128)
        requires
            self.wf(),
        ensures
            r == signed_weight(self.keys(), signers@),
    {
        let mut sum: u128 = 0;
        let mut i: usize = 0;
        while i < self.associated_keys.len()
            invariant
                self.wf(),
                i <= self.keys().len(),
                sum == signed_weight(self.keys().subrange(0, i as int), signers@),
            decreases self.keys().len() - i,
        {
            let (pk, w) = self.associated_keys[i];
            let signed = contains_key(signers, pk);
            proof {
                let s = self.keys().subrange(0, i as int + 1);
                assert(s.drop_last() =~= self.keys().subrange(0, i as int));
                lemma_signed_le_total(self.keys().subrange(0, i as int), signers@);
                lemma_total_bound(self.keys().subrange(0, i as int));
            }
            if signed {
                sum = sum + w as u128;
            }
            i = i + 1;
        }
        proof { assert(self.keys().subrange(0, i as int) =~= self.keys()); }
        sum
    }

    /// Succeeds exactly when the signers' weight reaches the threshold of `action`.
    pub fn authorize(&self, action: ActionType, signers: &Vec<PublicKey>) -> (r: Result<(), AuthorizationError>)
        requires
            self.wf(),
        ensures
            r is Ok <==> signed_weight(self.keys(), signers@) >= self.threshold_of(action) as nat,
    {
        let w = self.authorization_weight(signers);
        let t = match action {
            ActionType::Deployment => self.action_thresholds.deployment,
            ActionType::KeyManagement => self.action_thresholds.key_management,
        };
        if w >= t as u128 {
            Ok(())
        } else {
            Err(AuthorizationError::DeploymentAuthorizationFailure)
        }
    }

    pub fn authorize_deploy(&self, signers: &Vec<PublicKey>) -> (r: Result<(), AuthorizationError>)
        requires
            self.wf(),
        ensures
            r is Ok <==> signed_weight(self.keys(), signers@) >= self.thresholds().deployment as nat,
    {
        self.authorize(ActionType::Deployment, signers)
    }

    pub fn authorize_key_management(&self, signers: &Vec<PublicKey>) -> (r: Result<(), AuthorizationError>)
        requires
            self.wf(),
        ensures
            r is Ok <==> signed_weight(self.keys(), signers@) >= self.thresholds().key_management as nat,
    {
        self.authorize(ActionType::KeyManagement, signers)
    }

    /// Sets the threshold of `action` to `weight`, on key-management authority,
    /// unless the associated keys together could not reach it.
    pub fn set_action_threshold(&mut self, signers: &Vec<PublicKey>, action: ActionType, weight: u8) -> (r: Result<(), SetThresholdFailure>)
        requires
            old(self).wf(),
        ensures
            final(self).wf(),
            final(self).keys() == old(self).keys(),
            final(self).public_key == old(self).public_key,
            final(self).main_purse == old(self).main_purse,
            final(self).named_keys == old(self).named_keys,
            signed_weight(old(self).keys(), signers@) < old(self).thresholds().key_management as nat
                ==> r == Err::<(), SetThresholdFailure>(SetThresholdFailure::PermissionDenied),
            signed_weight(old(self).keys(), signers@) >= old(self).thresholds().key_management as nat
                && weight as nat > total_weight(old(self).keys())
                ==> r == Err::<(), SetThresholdFailure>(SetThresholdFailure::InvalidThreshold),
            r is Ok <==> signed_weight(old(self).keys(), signers@) >= old(self).thresholds().key_management as nat
                && weight as nat <= total_weight(old(self).keys()),
            r is Ok ==> final(self).threshold_of(action) == weight,
            r is Ok && action == ActionType::Deployment
                ==> final(self).thresholds().key_management == old(self).thresholds().key_management,
            r is Ok && action == ActionType::KeyManagement
                ==> final(self).thresholds().deployment == old(self).thresholds().deployment,
            r is Err ==> final(self).thresholds() == old(self).thresholds(),
    {
        if self.authorize_key_management(signers).is_err() {
            return Err(SetThresholdFailure::PermissionDenied);
        }
        if weight as u128 > self.total_weight() {
            return Err(SetThresholdFailure::InvalidThreshold);
        }
        match action {
            ActionType::Deployment => self.action_thresholds.deployment = weight,
            ActionType::KeyManagement => self.action_thresholds.key_management = weight,
        }
        Ok(())
    }

    /// Adds `pk` with `weight` to the associated keys, on key-management authority.
    pub fn add_associated_key(&mut self, signers: &Vec<PublicKey>, pk: PublicKey, weight: u8) -> (r: Result<(), AddKeyFailure>)
        requires
            old(self).wf(),
        ensures
            final(self).wf(),
            final(self).thresholds() == old(self).thresholds(),
            final(self).public_key == old(self).public_key,
            final(self).main_purse == old(self).main_purse,
            final(self).named_keys == old(self).named_keys,
            signed_weight(old(self).keys(), signers@) < old(self).thresholds().key_management as nat
                ==> r == Err::<(), AddKeyFailure>(AddKeyFailure::PermissionDenied),
            signed_weight(old(self).keys(), signers@) >= old(self).thresholds().key_management as nat
                && weight_of(old(self).keys(), pk) is Some
                ==> r == Err::<(), AddKeyFailure>(AddKeyFailure::DuplicateKey),
            r is Ok ==> final(self).keys() == old(self).keys().push((pk, weight)),
            r is Err ==> final(self).keys() == old(self).keys(),
            r is Ok <==> signed_weight(old(self).keys(), signers@) >= old(self).thresholds().key_management as nat
                && weight_of(old(self).keys(), pk) is None,
    {
        if self.authorize_key_management(signers).is_err() {
            return Err(AddKeyFailure::PermissionDenied);
        }
        if self.get_associated_key(pk).is_some() {
            return Err(AddKeyFailure::DuplicateKey);
        }
        proof {
            lemma_weight_absent_all(self.keys(), pk);
        }
        self.associated_keys.push((pk, weight));
        proof {
            assert(self.keys().drop_last() =~= old(self).keys());
        }
        Ok(())
    }

    /// Removes `pk` from the associated keys, on key-management authority,
    /// unless the remaining keys could no longer reach a threshold.
    pub fn remove_associated_key(&mut self, signers: &Vec<PublicKey>, pk: PublicKey) -> (r: Result<(), RemoveKeyFailure>)
        requires
            old(self).wf(),
        ensures
            final(self).wf(),
            final(self).thresholds() == old(self).thresholds(),
            final(self).public_key == old(self).public_key,
            final(self).main_purse == old(self).main_purse,
            final(self).named_keys == old(self).named_keys,
            signed_weight(old(self).keys(), signers@) < old(self).thresholds().key_management as nat
                ==> r == Err::<(), RemoveKeyFailure>(RemoveKeyFailure::PermissionDenied),
            signed_weight(old(self).keys(), signers@) >= old(self).thresholds().key_management as nat
                && weight_of(old(self).keys(), pk) is None
                ==> r == Err::<(), RemoveKeyFailure>(RemoveKeyFailure::MissingKey),
            signed_weight(old(self).keys(), signers@) >= old(self).thresholds().key_management as nat
                && weight_of(old(self).keys(), pk) is Some
                && (total_weight(old(self).keys()) - (weight_of(old(self).keys(), pk).unwrap() as nat)
                    < (old(self).thresholds().deployment as nat)
                    || total_weight(old(self).keys()) - (weight_of(old(self).keys(), pk).unwrap() as nat)
                    < (old(self).thresholds().key_management as nat))
                ==> r == Err::<(), RemoveKeyFailure>(RemoveKeyFailure::ThresholdViolation),
            r is Err ==> final(self).keys() == old(self).keys(),
            r is Ok <==> signed_weight(old(self).keys(), signers@) >= old(self).thresholds().key_management as nat
                && weight_of(old(self).keys(), pk) is Some
                && total_weight(old(self).keys()) - weight_of(old(self).keys(), pk).unwrap() as nat
                    >= old(self).thresholds().deployment as nat
                && total_weight(old(self).keys()) - weight_of(old(self).keys(), pk).unwrap() as nat
                    >= old(self).thresholds().key_management as nat,
            r is Ok ==> weight_of(final(self).keys(), pk) is None,
            r is Ok ==> forall|q: PublicKey| q != pk ==> #[trigger] weight_of(final(self).keys(), q) == weight_of(old(self).keys(), q),
    {
        if self.authorize_key_management(signers).is_err() {
            return Err(RemoveKeyFailure::PermissionDenied);
        }
        let i = match self.position(pk) {
            Some(i) => i,
            None => {
                proof { lemma_weight_absent(self.keys(), pk); }
                return Err(RemoveKeyFailure::MissingKey);
            },
        };
        let ghost s0 = self.keys();
        proof {
            lemma_weight_found(s0, i as int);
            lemma_total_remove(s0, i as int);
        }
        let total = self.total_weight();
        let w = self.associated_keys[i].1;
        let rest = total - w as u128;
        if rest < self.action_thresholds.deployment as u128 || rest < self.action_thresholds.key_management as u128 {
            return Err(RemoveKeyFailure::ThresholdViolation);
        }
        self.associated_keys.remove(i);
        proof {
            let s = self.keys();
            assert(s =~= s0.remove(i as int));
            assert forall|a: int, b: int| 0 <= a < s.len() && 0 <= b < s.len() && a != b implies s[a].0 != s[b].0 by {
                let a0 = if a < i { a } else { a + 1 };
                let b0 = if b < i { b } else { b + 1 };
                assert(s[a] == s0[a0]);
                assert(s[b] == s0[b0]);
            }
            assert forall|j: int| 0 <= j < s.len() implies s[j].0 != pk by {
                let j0 = if j < i { j } else { j + 1 };
                assert(s[j] == s0[j0]);
            }
            lemma_weight_absent(s, pk);
            assert forall|q: PublicKey| q != pk implies #[trigger] weight_of(s, q) == weight_of(s0, q) by {
                if exists|j: int| 0 <= j < s.len() && s[j].0 == q {
                    let j = choose|j: int| 0 <= j < s.len() && s[j].0 == q;
                    let j0 = if j < i { j } else { j + 1 };
                    assert(s[j] == s0[j0]);
                    lemma_weight_found(s, j);
                    lemma_weight_found(s0, j0);
                } else {
                    assert forall|j0: int| 0 <= j0 < s0.len() implies s0[j0].0 != q by {
                        if j0 < i {
                            assert(s[j0] == s0[j0]);
                        } else if j0 > i {
                            assert(s[j0 - 1] == s0[j0]);
                        }
                    }
                    lemma_weight_absent(s, q);
                    lemma_weight_absent(s0, q);
                }
            }
        }
        Ok(())
    }
}

proof fn lemma_weight_absent_all(s: Seq<(PublicKey, u8)>, pk: PublicKey)
    requires
        keys_unique(s),
        weight_of(s, pk) is None,
    ensures
        forall|i: int| 0 <= i < s.len() ==> s[i].0 != pk,
{
    assert forall|i: int| 0 <= i < s.len() implies s[i].0 != pk by {
        if s[i].0 == pk {
            lemma_weight_found(s, i);
        }
    }
}

/// Whether `pk` occurs in `v`.
fn contains_key(v: &Vec<PublicKey>, pk: PublicKey) -> (r: bool)
    ensures
        r == v@.contains(pk),
{
    let mut i: usize = 0;
    while i < v.len()
        invariant
            i <= v@.len(),
            forall|j: int| 0 <= j < i ==> v@[j] != pk,
        decreases v@.len() - i,
    {
        if v[i] == pk {
            return true;
        }
        i = i + 1;
    }
    false
}

} // verus!
