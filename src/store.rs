use vstd::prelude::*;
use crate::account::Account;
use crate::keys::{normalized, Key};
use crate::named_keys::NamedKeys;
use crate::semver::SemVer;

verus! {

/// Typed data held in a storage slot.
pub enum CLValue {
    Unit,
    Int(u64),
    Str(String),
    Key(Key),
    Bytes(Vec<u8>),
}

/// A stored contract: its code and the named keys it was stored with.
pub struct Contract {
    pub bytes: Vec<u8>,
    pub named_keys: NamedKeys,
    pub protocol_version: SemVer,
}

pub enum StoredValue {
    CLValue(CLValue),
    Account(Account),
    Contract(Contract),
}

/// What an effect does to the value under its key.
pub enum Op {
    /// Replaces the value.
    Write(StoredValue),
    /// Adds to an integer value.
    Add(u64),
    /// Removes the value.
    Prune,
}

/// One write of the store: `value` under `key`, on top of the state that
/// root `parent` identifies.
pub struct Node {
    pub parent: usize,
    pub key: Key,
    pub value: Option<StoredValue>,
}

/// Identifies one snapshot of the store. Root 0 is the empty state; root
/// `i + 1` is the state that node `i` leaves.
#[derive(Copy, Clone, Debug, PartialEq, Eq, Structural)]
pub struct RootHash {
    pub index: usize,
}

#[derive(Copy, Clone, Debug, PartialEq, Eq, Structural)]
pub enum CommitError {
    /// The root is not one of this store.
    RootNotFound,
    /// An addition met a missing or non-integer value, or overflowed.
    AddFailed,
}

#[derive(Copy, Clone, Debug, PartialEq, Eq, Structural)]
pub enum QueryError {
    NotFound,
}

/// The value under `k` in the state that root `r` identifies.
pub open spec fn value_at(nodes: Seq<Node>, r: nat, k: Key) -> Option<StoredValue>
    decreases r,
{
    if r == 0 || r > nodes.len() {
        None
    } else {
        let n = nodes[r - 1];
        if n.key == k {
            n.value
        } else if n.parent < r {
            value_at(nodes, n.parent as nat, k)
        } else {
            None
        }
    }
}

/// `b` holds `a` and perhaps more nodes after it.
pub open spec fn extends(a: Seq<Node>, b: Seq<Node>) -> bool {
    a.len() <= b.len() && b.subrange(0, a.len() as int) == a
}

/// The outcome of one operation on the current value; `None` when it cannot apply.
pub open spec fn step(cur: Option<StoredValue>, op: Op) -> Option<Option<StoredValue>> {
    match op {
        Op::Write(v) => Some(Some(v)),
        Op::Prune => Some(None),
        Op::Add(d) => match cur {
            Some(StoredValue::CLValue(CLValue::Int(x))) => if x + d <= u64::MAX {
                Some(Some(StoredValue::CLValue(CLValue::Int((x + d) as u64))))
            } else {
                None
            },
            _ => None,
        },
    }
}

/// The value under `k` after the operations of `ops` on `k`, in order, from
/// `init`; `None` when one of them cannot apply.
pub open spec fn fold(init: Option<StoredValue>, ops: Seq<(Key, Op)>, k: Key) -> Option<Option<StoredValue>>
    decreases ops.len(),
{
    if ops.len() == 0 {
        Some(init)
    } else {
        match fold(init, ops.drop_last(), k) {
            None => None,
            Some(cur) => if normalized(ops.last().0) == k {
                step(cur, ops.last().1)
            } else {
                Some(cur)
            },
        }
    }
}

/// Every operation of `ops` applies on the state of root `r`.
pub open spec fn applies(nodes: Seq<Node>, r: nat, ops: Seq<(Key, Op)>) -> bool {
    forall|k: Key| #[trigger] fold(value_at(nodes, r, k), ops, k) is Some
}

/// Root `n` of `after` is the state of root `r` of `before` with `ops` applied.
pub open spec fn committed(before: Seq<Node>, r: nat, ops: Seq<(Key, Op)>, after: Seq<Node>, n: nat) -> bool {
    &&& n <= after.len()
    &&& forall|k: Key| #[trigger] value_at(after, n, k) == fold(value_at(before, r, k), ops, k).unwrap()
}

/// The named keys of an account or a contract.
pub open spec fn named_keys_of(v: StoredValue) -> Option<NamedKeys> {
    match v {
        StoredValue::Account(a) => Some(a.named_keys),
        StoredValue::Contract(c) => Some(c.named_keys),
        _ => None,
    }
}

/// The value reached from `k` at root `r` by following the names of `path`
/// through named keys.
pub open spec fn resolve(nodes: Seq<Node>, r: nat, k: Key, path: Seq<String>) -> Option<StoredValue>
    decreases path.len(),
{
    match value_at(nodes, r, normalized(k)) {
        None => None,
        Some(v) => if path.len() == 0 {
            Some(v)
        } else {
            match named_keys_of(v) {
                None => None,
                Some(nk) => match nk.get_spec(path[0]@) {
                    None => None,
                    Some(k2) => resolve(nodes, r, k2, path.drop_first()),
                },
            }
        },
    }
}

proof fn lemma_value_at_extends(a: Seq<Node>, b: Seq<Node>, r: nat, k: Key)
    requires
        extends(a, b),
        r <= a.len(),
    ensures
        value_at(a, r, k) == value_at(b, r, k),
    decreases r,
{
    if r > 0 {
        assert(a[r - 1] == b.subrange(0, a.len() as int)[r - 1]);
        let n = a[r - 1];
        if n.key != k && n.parent < r {
            lemma_value_at_extends(a, b, n.parent as nat, k);
        }
    }
}

proof fn lemma_extends_trans(a: Seq<Node>, b: Seq<Node>, c: Seq<Node>)
    requires
        extends(a, b),
        extends(b, c),
    ensures
        extends(a, c),
{
    assert(c.subrange(0, a.len() as int) =~= b.subrange(0, a.len() as int));
}

proof fn lemma_fold_none_prefix(init: Option<StoredValue>, ops: Seq<(Key, Op)>, j: int, k: Key)
    requires
        0 <= j <= ops.len(),
        fold(init, ops.subrange(0, j), k) is None,
    ensures
        fold(init, ops, k) is None,
    decreases ops.len() - j,
{
    if j < ops.len() {
        assert(ops.subrange(0, j + 1).drop_last() =~= ops.subrange(0, j));
        lemma_fold_none_prefix(init, ops, j + 1, k);
    } else {
        assert(ops.subrange(0, j) =~= ops);
    }
}

/// Results at a root stay as they were, whatever is committed after.
pub proof fn lemma_resolve_stable(a: Seq<Node>, b: Seq<Node>, r: nat, k: Key, path: Seq<String>)
    requires
        extends(a, b),
        r <= a.len(),
    ensures
        resolve(a, r, k, path) == resolve(b, r, k, path),
    decreases path.len(),
{
    lemma_value_at_extends(a, b, r, normalized(k));
    match value_at(a, r, normalized(k)) {
        None => {},
        Some(v) => if path.len() > 0 {
            match named_keys_of(v) {
                None => {},
                Some(nk) => match nk.get_spec(path[0]@) {
                    None => {},
                    Some(k2) => lemma_resolve_stable(a, b, r, k2, path.drop_first()),
                },
            }
        },
    }
}

/// After a commit, the new root gives each key its value with the effects
/// applied, and the root committed on gives what it gave before.
pub proof fn lemma_query_after_commit(
    before: Seq<Node>,
    after: Seq<Node>,
    r: nat,
    ops: Seq<(Key, Op)>,
    n: nat,
    k: Key,
    path: Seq<String>,
)
    requires
        extends(before, after),
        r <= before.len(),
        committed(before, r, ops, after, n),
    ensures
        resolve(after, n, k, Seq::empty()) == fold(value_at(before, r, normalized(k)), ops, normalized(k)).unwrap(),
        resolve(after, r, k, path) == resolve(before, r, k, path),
{
    assert(value_at(after, n, normalized(k)) == fold(value_at(before, r, normalized(k)), ops, normalized(k)).unwrap());
    lemma_resolve_stable(before, after, r, k, path);
}

/// A value written by a commit reads back, unchanged, at the root it returns.
pub proof fn lemma_write_read_back(before: Seq<Node>, after: Seq<Node>, r: nat, n: nat, k: Key, v: StoredValue)
    requires
        committed(before, r, seq![(k, Op::Write(v))], after, n),
    ensures
        resolve(after, n, k, Seq::empty()) == Some(v),
{
    let ops = seq![(k, Op::Write(v))];
    let nk = normalized(k);
    assert(ops.drop_last() =~= Seq::<(Key, Op)>::empty());
    assert(normalized(nk) == nk);
    assert(ops.last() == (k, Op::Write(v)));
    assert(fold(value_at(before, r, nk), ops.drop_last(), nk) == Some(value_at(before, r, nk)));
    assert(fold(value_at(before, r, nk), ops, nk) == Some(Some(v)));
    assert(value_at(after, n, nk) == fold(value_at(before, r, nk), ops, nk).unwrap());
}

/// A persistent, versioned key/value store. Each commit adds nodes on top of
/// a root and never changes a node, so every earlier root keeps its state.
pub struct GlobalState {
    nodes: Vec<Node>,
}

impl GlobalState {
    pub closed spec fn nodes(&self) -> Seq<Node> {
        self.nodes@
    }

    /// A store with only the empty state.
    pub fn new() -> (r: GlobalState)
        ensures
            r.nodes().len() == 0,
    {
        GlobalState { nodes: Vec::new() }
    }

    pub fn empty_root() -> (r: RootHash)
        ensures
            r.index == 0,
            forall|nodes: Seq<Node>, k: Key| #[trigger] value_at(nodes, r.index as nat, k) is None,
    {
        RootHash { index: 0 }
    }

    pub fn is_root(&self, root: RootHash) -> (r: bool)
        ensures
            r == (root.index <= self.nodes().len()),
    {
        root.index <= self.nodes.len()
    }

    /// The value under `key` at `root`; a reference is looked up by its address.
    pub fn get(&self, root: RootHash, key: Key) -> (r: Option<&StoredValue>)
        ensures
            match r {
                Some(v) => value_at(self.nodes(), root.index as nat, normalized(key)) == Some(*v),
                None => value_at(self.nodes(), root.index as nat, normalized(key)) is None,
            },
    {
        let k = key.normalize();
        self.lookup(root.index, k)
    }

    /// The value under `k` at `root`, with `k` taken as it is.
    pub fn lookup_normalized(&self, root: RootHash, k: Key) -> (r: Option<&StoredValue>)
        ensures
            match r {
                Some(v) => value_at(self.nodes(), root.index as nat, k) == Some(*v),
                None => value_at(self.nodes(), root.index as nat, k) is None,
            },
    {
        self.lookup(root.index, k)
    }

    fn lookup(&self, root: usize, k: Key) -> (r: Option<&StoredValue>)
        ensures
            match r {
                Some(v) => value_at(self.nodes(), root as nat, k) == Some(*v),
                None => value_at(self.nodes(), root as nat, k) is None,
            },
    {
        if root > self.nodes.len() {
            return None;
        }
        let mut i: usize = root;
        while i > 0
            invariant
                i <= self.nodes@.len(),
                value_at(self.nodes@, i as nat, k) == value_at(self.nodes@, root as nat, k),
            decreases i,
        {
            let n = &self.nodes[i - 1];
            if n.key == k {
                return match &n.value {
                    Some(v) => Some(v),
                    None => None,
                };
            }
            if n.parent >= i {
                return None;
            }
            i = n.parent;
        }
        None
    }

    /// The value reached from `key` at `root` through the names of `path`.
    pub fn query(&self, root: RootHash, key: Key, path: &Vec<String>) -> (r: Result<&StoredValue, QueryError>)
        ensures
            match r {
                Ok(v) => resolve(self.nodes(), root.index as nat, key, path@) == Some(*v),
                Err(_) => resolve(self.nodes(), root.index as nat, key, path@) is None,
            },
    {
        let mut cur = key;
        let mut i: usize = 0;
        proof {
            assert(path@.subrange(0, path@.len() as int) =~= path@);
        }
        while i <= path.len()
            invariant
                i <= path@.len(),
                resolve(self.nodes(), root.index as nat, cur, path@.subrange(i as int, path@.len() as int))
                    == resolve(self.nodes(), root.index as nat, key, path@),
            decreases path@.len() - i,
        {
            let ghost rest = path@.subrange(i as int, path@.len() as int);
            let v = match self.get(root, cur) {
                Some(v) => v,
                None => return Err(QueryError::NotFound),
            };
            if i == path.len() {
                return Ok(v);
            }
            let nk = match v {
                StoredValue::Account(a) => &a.named_keys,
                StoredValue::Contract(c) => &c.named_keys,
                _ => return Err(QueryError::NotFound),
            };
            match nk.get(&path[i]) {
                Some(k2) => {
                    proof {
                        assert(rest.drop_first() =~= path@.subrange(i as int + 1, path@.len() as int));
                    }
                    cur = k2;
                },
                None => return Err(QueryError::NotFound),
            }
            i = i + 1;
        }
        Err(QueryError::NotFound)
    }

    /// The outcome of `op` on the value under `k` at root `cur`.
    fn apply(&self, cur: usize, k: Key, op: Op) -> (r: Option<Option<StoredValue>>)
        ensures
            r == step(value_at(self.nodes(), cur as nat, k), op),
    {
        match op {
            Op::Write(v) => Some(Some(v)),
            Op::Prune => Some(None),
            Op::Add(d) => {
                let found: Option<u64> = match self.lookup(cur, k) {
                    Some(StoredValue::CLValue(CLValue::Int(x))) => Some(*x),
                    _ => None,
                };
                match found {
                    Some(x) => match x.checked_add(d) {
                        Some(y) => Some(Some(StoredValue::CLValue(CLValue::Int(y)))),
                        None => None,
                    },
                    None => None,
                }
            },
        }
    }

    /// Applies `effects` in order on top of `root` and returns the root of the
    /// result. Either all of them apply, or none does and the store is unchanged.
    pub fn commit(&mut self, root: RootHash, effects: Vec<(Key, Op)>) -> (r: Result<RootHash, CommitError>)
        ensures
            extends(old(self).nodes(), final(self).nodes()),
            r == Err::<RootHash, CommitError>(CommitError::RootNotFound)
                <==> root.index > old(self).nodes().len(),
            r is Ok <==> root.index <= old(self).nodes().len()
                && applies(old(self).nodes(), root.index as nat, effects@),
            r is Err ==> final(self).nodes() == old(self).nodes(),
            r matches Ok(n) ==> committed(old(self).nodes(), root.index as nat, effects@, final(self).nodes(), n.index as nat),
    {
        let ghost ops = effects@;
        let ghost s0 = self.nodes@;
        let ghost r0 = root.index as nat;
        proof {
            assert(s0.subrange(0, s0.len() as int) =~= s0);
        }
        if root.index > self.nodes.len() {
            return Err(CommitError::RootNotFound);
        }
        let start = self.nodes.len();
        let mut rest = effects;
        let mut cur: usize = root.index;
        let mut i: usize = 0;
        let n = rest.len();
        proof {
            assert(self.nodes@.subrange(0, s0.len() as int) =~= s0);
            assert forall|k: Key| #[trigger] fold(value_at(s0, r0, k), ops.subrange(0, 0), k)
                == Some(value_at(self.nodes@, cur as nat, k)) by {}
        }
        while i < n
            invariant
                n == ops.len(),
                i <= n,
                s0 == old(self).nodes(),
                r0 == root.index,
                r0 <= s0.len(),
                start == s0.len(),
                rest@ == ops.subrange(i as int, n as int),
                ops == effects@,
                extends(s0, self.nodes@),
                cur <= self.nodes@.len(),
                forall|k: Key| #[trigger] fold(value_at(s0, r0, k), ops.subrange(0, i as int), k)
                    == Some(value_at(self.nodes@, cur as nat, k)),
            decreases n - i,
        {
            let ghost before = self.nodes@;
            proof {
                assert(ops.subrange(0, i as int + 1).drop_last() =~= ops.subrange(0, i as int));
                assert(rest@[0] == ops[i as int]);
            }
            let (key, op) = rest.remove(0);
            let k = key.normalize();
            let value = match self.apply(cur, k, op) {
                Some(v) => v,
                None => {
                    proof {
                        assert(fold(value_at(s0, r0, k), ops.subrange(0, i as int), k)
                            == Some(value_at(self.nodes@, cur as nat, k)));
                        assert(ops.subrange(0, i as int + 1).last() == ops[i as int]);
                        lemma_fold_none_prefix(value_at(s0, r0, k), ops, i as int + 1, k);
                    }
                    self.nodes.truncate(start);
                    proof {
                        assert(self.nodes@ =~= s0);
                        assert(s0.subrange(0, s0.len() as int) =~= s0);
                    }
                    return Err(CommitError::AddFailed);
                },
            };
            self.nodes.push(Node { parent: cur, key: k, value });
            proof {
                let after = self.nodes@;
                assert(after.drop_last() =~= before);
                assert(extends(before, after)) by {
                    assert(after.subrange(0, before.len() as int) =~= before);
                }
                lemma_extends_trans(s0, before, after);
                assert forall|kk: Key| #[trigger] fold(value_at(s0, r0, kk), ops.subrange(0, i as int + 1), kk)
                    == Some(value_at(after, after.len() as nat, kk)) by {
                    lemma_value_at_extends(before, after, cur as nat, kk);
                    assert(fold(value_at(s0, r0, kk), ops.subrange(0, i as int), kk)
                        == Some(value_at(before, cur as nat, kk)));
                }
                assert(rest@ =~= ops.subrange(i as int + 1, n as int));
            }
            cur = self.nodes.len() - 1 + 1;
            i = i + 1;
        }
        proof {
            assert(ops.subrange(0, n as int) =~= ops);
        }
        Ok(RootHash { index: cur })
    }
}

} // verus!
