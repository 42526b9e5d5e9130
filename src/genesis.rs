use vstd::prelude::*;
use crate::account::Account;
use crate::keys::{AccessRights, Address, Key, PublicKey, URef, ADD, READ, WRITE};
use crate::named_keys::NamedKeys;
use crate::store::{applies, committed, fold, value_at, CLValue, GlobalState, Op, RootHash, StoredValue};

verus! {

/// The two effects that open account `a` with main purse `p` holding `b`:
/// the account, with its own key as its one associated key, and the balance.
pub open spec fn opens(e0: (Key, Op), e1: (Key, Op), a: PublicKey, p: Address, b: u64) -> bool {
    let purse = URef { addr: p, rights: AccessRights { bits: READ | WRITE | ADD } };
    &&& e0.0 == Key::Account(a)
    &&& e0.1 matches Op::Write(StoredValue::Account(acc)) && {
        &&& acc.public_key == a
        &&& acc.main_purse == purse
        &&& acc.wf()
        &&& acc.keys() == seq![(a, 1u8)]
        &&& acc.named_keys.view().len() == 0
    }
    &&& e1 == (Key::URef(purse), Op::Write(StoredValue::CLValue(CLValue::Int(b))))
}

/// `ops` opens each account of `accounts` in turn.
pub open spec fn genesis_shape(accounts: Seq<(PublicKey, Address, u64)>, ops: Seq<(Key, Op)>) -> bool {
    &&& ops.len() == 2 * accounts.len()
    &&& forall|i: int| 0 <= i < accounts.len() ==> #[trigger] opens(ops[2 * i], ops[2 * i + 1],
        accounts[i].0, accounts[i].1, accounts[i].2)
}

/// Operations that only write or prune always apply.
proof fn lemma_writes_apply(init: Option<StoredValue>, ops: Seq<(Key, Op)>, k: Key)
    requires
        forall|i: int| 0 <= i < ops.len() ==> !(#[trigger] ops[i].1 is Add),
    ensures
        fold(init, ops, k) is Some,
    decreases ops.len(),
{
    if ops.len() > 0 {
        lemma_writes_apply(init, ops.drop_last(), k);
    }
}

/// The effects that open each account of `accounts`, given as public key,
/// main purse address and initial balance.
pub fn genesis_effects(accounts: &Vec<(PublicKey, Address, u64)>) -> (r: Vec<(Key, Op)>)
    ensures
        genesis_shape(accounts@, r@),
        forall|i: int| 0 <= i < r@.len() ==> !(#[trigger] r@[i].1 is Add),
{
    let mut ops: Vec<(Key, Op)> = Vec::new();
    let mut i: usize = 0;
    while i < accounts.len()
        invariant
            i <= accounts@.len(),
            ops@.len() == 2 * i,
            forall|j: int| 0 <= j < i ==> #[trigger] opens(ops@[2 * j], ops@[2 * j + 1],
                accounts@[j].0, accounts@[j].1, accounts@[j].2),
            forall|j: int| 0 <= j < ops@.len() ==> !(#[trigger] ops@[j].1 is Add),
        decreases accounts@.len() - i,
    {
        let (pk, addr, balance) = accounts[i];
        let purse = URef { addr, rights: AccessRights::read_add_write() };
        let acc = Account::new(pk, purse, NamedKeys::new());
        let ghost prev = ops@;
        ops.push((Key::Account(pk), Op::Write(StoredValue::Account(acc))));
        ops.push((Key::URef(purse), Op::Write(StoredValue::CLValue(CLValue::Int(balance)))));
        proof {
            assert forall|j: int| 0 <= j < i + 1 implies #[trigger] opens(ops@[2 * j], ops@[2 * j + 1],
                accounts@[j].0, accounts@[j].1, accounts@[j].2) by {
                if j < i {
                    assert(ops@[2 * j] == prev[2 * j]);
                    assert(ops@[2 * j + 1] == prev[2 * j + 1]);
                }
            }
        }
        i = i + 1;
    }
    ops
}

/// Commits the opening of each account of `accounts` on the empty state and
/// returns the root of the result.
pub fn run_genesis(store: &mut GlobalState, accounts: &Vec<(PublicKey, Address, u64)>) -> (r: RootHash)
    ensures
        exists|ops: Seq<(Key, Op)>| genesis_shape(accounts@, ops)
            && committed(old(store).nodes(), 0, ops, final(store).nodes(), r.index as nat),
{
    let ops = genesis_effects(accounts);
    let ghost g = ops@;
    let ghost before = store.nodes();
    proof {
        assert forall|k: Key| #[trigger] fold(value_at(before, 0, k), g, k) is Some by {
            lemma_writes_apply(value_at(before, 0, k), g, k);
        }
        assert(applies(before, 0, g));
    }
    match store.commit(GlobalState::empty_root(), ops) {
        Ok(n) => n,
        Err(_) => {
            proof { assert(false); }
            GlobalState::empty_root()
        },
    }
}

} // verus!
