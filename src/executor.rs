use vstd::prelude::*;
use crate::account::{signed_weight, total_weight, Account, ActionType, SetThresholdFailure};
use crate::capability::{check_result, knows, named_has, AccessError, KnownURefs};
use crate::keys::{normalized, AccessRights, Address, Key, PublicKey, URef, ADD, READ, WRITE};
use crate::named_keys::NamedKeys;
use crate::store::{fold, value_at, CLValue, GlobalState, Node, Op, RootHash, StoredValue};

verus! {

/// Why a deploy, or one host call of it, failed.
#[derive(Copy, Clone, Debug, PartialEq, Eq, Structural)]
pub enum ExecError {
    ForgedReference,
    InvalidAccess,
    MissingArgument,
    InvalidArgument,
    DeploymentAuthorizationFailure,
    OutOfGas,
    NotFound,
    InsufficientFunds,
    AddressInUse,
}

/// Where a deploy stands.
#[derive(Copy, Clone, Debug, PartialEq, Eq, Structural)]
pub enum Phase {
    Created,
    Authorized,
    Running,
    Reverted(u32),
    Failed(ExecError),
}

/// How a finished deploy ended.
#[derive(Copy, Clone, Debug, PartialEq, Eq, Structural)]
pub enum Outcome {
    Success,
    Reverted(u32),
    Failure(ExecError),
}

/// What a deploy hands back: its outcome, the effects to commit (none unless
/// it succeeded) and the gas it used.
pub struct ExecutionResult {
    pub outcome: Outcome,
    pub effects: Vec<(Key, Op)>,
    pub gas_used: u64,
}

pub open spec fn access_error(e: AccessError) -> ExecError {
    match e {
        AccessError::ForgedReference => ExecError::ForgedReference,
        AccessError::InvalidAccess => ExecError::InvalidAccess,
    }
}

/// `u` is passed among the arguments `args`.
pub open spec fn arg_has(args: Seq<CLValue>, u: URef) -> bool {
    exists|i: int| 0 <= i < args.len() && args[i] == CLValue::Key(Key::URef(u))
}

/// The weight argument at `index` of `args`.
pub open spec fn arg_weight(args: Seq<CLValue>, index: int) -> Result<u8, ExecError> {
    if index < 0 || index >= args.len() {
        Err(ExecError::MissingArgument)
    } else {
        match args[index] {
            CLValue::Int(x) => if x <= 255 {
                Ok(x as u8)
            } else {
                Err(ExecError::InvalidArgument)
            },
            _ => Err(ExecError::InvalidArgument),
        }
    }
}

/// `key` may be filed under a name by a holder of `known`: a reference must be
/// held with every right it claims.
pub open spec fn key_usable(known: Seq<URef>, key: Key) -> bool {
    match key {
        Key::URef(u) => check_result(known, u, u.rights) is Ok,
        _ => true,
    }
}

/// The integer under a key after pending effects, and whether an operation
/// failed on the way: `None` when one did, `Some(None)` when the value is
/// absent or not an integer.
pub open spec fn int_state(v: Option<Option<StoredValue>>) -> Option<Option<u64>> {
    match v {
        None => None,
        Some(Some(StoredValue::CLValue(CLValue::Int(x)))) => Some(Some(x)),
        Some(_) => Some(None),
    }
}

/// The integer under `k` at root `r` once `effects` apply, if it is one.
pub open spec fn pending_int(nodes: Seq<Node>, r: nat, effects: Seq<(Key, Op)>, k: Key) -> Option<u64> {
    match int_state(fold(value_at(nodes, r, k), effects, k)) {
        Some(Some(x)) => Some(x),
        _ => None,
    }
}

/// The result of moving `amount` from purse `source` to the main purse of
/// account `target` at root `root` after `effects`, and the effects after it.
pub open spec fn transfer_effects(nodes: Seq<Node>, root: nat, effects: Seq<(Key, Op)>, source: URef, target: PublicKey, amount: u64)
    -> (Result<(), ExecError>, Seq<(Key, Op)>)
{
    let balance = pending_int(nodes, root, effects, normalized(Key::URef(source)));
    match value_at(nodes, root, Key::Account(target)) {
        Some(StoredValue::Account(a)) => match balance {
            None => (Err(ExecError::NotFound), effects),
            Some(b) => if b < amount {
                (Err(ExecError::InsufficientFunds), effects)
            } else {
                (Ok(()), effects
                    .push((Key::URef(source), Op::Write(StoredValue::CLValue(CLValue::Int((b - amount) as u64)))))
                    .push((Key::URef(a.main_purse), Op::Add(amount))))
            },
        },
        _ => (Err(ExecError::NotFound), effects),
    }
}

/// `u` is neither held in `known` nor in use at root `root`.
pub open spec fn fresh(nodes: Seq<Node>, root: nat, known: Seq<URef>, u: URef) -> bool {
    !knows(known, u.addr) && value_at(nodes, root, normalized(Key::URef(u))) is None
}

/// The reference with every right at `addr`.
pub open spec fn full_uref(addr: Address) -> URef {
    URef { addr, rights: AccessRights { bits: READ | WRITE | ADD } }
}

/// A host call that names, as a reference, an address that the context does
/// not hold fails with `ForgedReference`, whatever rights the reference claims.
pub proof fn lemma_unknown_address_forged(ctx: ExecutionContext, uref: URef, right: AccessRights)
    requires
        !knows(ctx.known(), uref.addr),
    ensures
        check_result(ctx.known(), uref, right) == Err::<(), AccessError>(AccessError::ForgedReference),
        access_error(AccessError::ForgedReference) == ExecError::ForgedReference,
{
}

/// A reference just minted, with every right, may be filed under a name.
pub proof fn lemma_minted_usable(s: Seq<URef>, u: URef)
    requires
        u.rights.bits == READ | WRITE | ADD,
    ensures
        key_usable(s.push(u), Key::URef(u)),
{
    let t = s.push(u);
    assert(t[s.len() as int] == u);
    assert(u.rights.spec_contains(u.rights)) by {
        assert(u.rights.bits & u.rights.bits == u.rights.bits) by (bit_vector);
    }
}

/// The state of one deploy: whose it is, the root it runs on, the references
/// it holds, its arguments, its pending effects and its gas.
pub struct ExecutionContext {
    account: Account,
    account_changed: bool,
    signers: Vec<PublicKey>,
    root: RootHash,
    known: KnownURefs,
    args: Vec<CLValue>,
    effects: Vec<(Key, Op)>,
    gas_limit: u64,
    gas_used: u64,
    phase: Phase,
}

impl ExecutionContext {
    /// The deploying account, with the changes the deploy made to it.
    pub closed spec fn account_spec(&self) -> Account {
        self.account
    }

    /// Whether the deploy changed its account.
    pub closed spec fn account_changed_spec(&self) -> bool {
        self.account_changed
    }

    /// The keys that signed the deploy.
    pub closed spec fn signers_spec(&self) -> Seq<PublicKey> {
        self.signers@
    }

    pub closed spec fn root_spec(&self) -> RootHash {
        self.root
    }

    pub closed spec fn known(&self) -> Seq<URef> {
        self.known.view()
    }

    pub closed spec fn args_spec(&self) -> Seq<CLValue> {
        self.args@
    }

    pub closed spec fn effects_spec(&self) -> Seq<(Key, Op)> {
        self.effects@
    }

    pub closed spec fn gas_limit_spec(&self) -> u64 {
        self.gas_limit
    }

    pub closed spec fn gas_used_spec(&self) -> u64 {
        self.gas_used
    }

    pub closed spec fn phase_spec(&self) -> Phase {
        self.phase
    }

    /// Gas used stays within the limit, and the account is well formed.
    pub open spec fn wf(&self) -> bool {
        &&& self.gas_used_spec() <= self.gas_limit_spec()
        &&& self.account_spec().wf()
    }

    /// A context for a deploy of `account` on `root`. It holds the account's
    /// main purse and the references among the account's named keys, the
    /// contract's named keys and the arguments.
    pub fn new(account: Account, contract_named_keys: &NamedKeys, args: Vec<CLValue>, root: RootHash, gas_limit: u64) -> (r: ExecutionContext)
        requires
            account.wf(),
        ensures
            r.wf(),
            r.account_spec() == account,
            !r.account_changed_spec(),
            r.signers_spec().len() == 0,
            r.root_spec() == root,
            r.args_spec() == args@,
            r.effects_spec().len() == 0,
            r.gas_limit_spec() == gas_limit,
            r.gas_used_spec() == 0,
            r.phase_spec() == Phase::Created,
            forall|u: URef| #[trigger] r.known().contains(u) <==> u == account.main_purse
                || named_has(account.named_keys, Key::URef(u))
                || named_has(*contract_named_keys, Key::URef(u))
                || arg_has(args@, u),
    {
        let mut known = KnownURefs::new();
        known.insert(account.main_purse);
        proof {
            assert forall|u: URef| #[trigger] known.view().contains(u) <==> u == account.main_purse by {
                if u == account.main_purse {
                    assert(known.view()[0] == u);
                }
            }
        }
        known.insert_named_keys(&account.named_keys);
        known.insert_named_keys(contract_named_keys);
        let ghost k0 = known.view();
        let mut i: usize = 0;
        while i < args.len()
            invariant
                i <= args@.len(),
                forall|u: URef| #[trigger] known.view().contains(u)
                    <==> k0.contains(u) || exists|j: int| 0 <= j < i && args@[j] == CLValue::Key(Key::URef(u)),
            decreases args@.len() - i,
        {
            let ghost prev = known.view();
            match &args[i] {
                CLValue::Key(Key::URef(u)) => known.insert(*u),
                _ => {},
            }
            proof {
                assert forall|u: URef| #[trigger] known.view().contains(u)
                    <==> k0.contains(u) || exists|j: int| 0 <= j < i + 1 && args@[j] == CLValue::Key(Key::URef(u)) by {
                    if known.view().contains(u) && !prev.contains(u) {
                        assert(known.view().last() == u);
                        assert(args@[i as int] == CLValue::Key(Key::URef(u)));
                    }
                    if exists|j: int| 0 <= j < i + 1 && args@[j] == CLValue::Key(Key::URef(u)) {
                        let j = choose|j: int| 0 <= j < i + 1 && args@[j] == CLValue::Key(Key::URef(u));
                        if j == i {
                            assert(known.view().last() == u);
                        }
                    }
                    if prev.contains(u) {
                        let j = choose|j: int| 0 <= j < prev.len() && prev[j] == u;
                        assert(known.view()[j] == u);
                    }
                }
            }
            i = i + 1;
        }
        ExecutionContext {
            account,
            account_changed: false,
            signers: Vec::new(),
            root,
            known,
            args,
            effects: Vec::new(),
            gas_limit,
            gas_used: 0,
            phase: Phase::Created,
        }
    }

    pub fn phase(&self) -> (r: Phase)
        ensures
            r == self.phase_spec(),
    {
        self.phase
    }

    pub fn gas_used(&self) -> (r: u64)
        ensures
            r == self.gas_used_spec(),
    {
        self.gas_used
    }

    /// Checks that `signers` may deploy for the account: the deploy advances
    /// to `Authorized`, or fails with no effects and no gas charged.
    pub fn authorize(&mut self, signers: Vec<PublicKey>) -> (r: Result<(), ExecError>)
        requires
            old(self).phase_spec() == Phase::Created,
            old(self).wf(),
        ensures
            final(self).wf(),
            final(self).signers_spec() == signers@,
            r is Ok <==> signed_weight(old(self).account_spec().keys(), signers@)
                >= old(self).account_spec().thresholds().deployment as nat,
            r is Ok ==> final(self).phase_spec() == Phase::Authorized,
            r is Err ==> r == Err::<(), ExecError>(ExecError::DeploymentAuthorizationFailure)
                && final(self).phase_spec() == Phase::Failed(ExecError::DeploymentAuthorizationFailure),
            final(self).effects_spec() == old(self).effects_spec(),
            final(self).gas_used_spec() == old(self).gas_used_spec(),
            final(self).gas_limit_spec() == old(self).gas_limit_spec(),
            final(self).known() == old(self).known(),
            final(self).root_spec() == old(self).root_spec(),
            final(self).args_spec() == old(self).args_spec(),
            final(self).account_spec() == old(self).account_spec(),
            final(self).account_changed_spec() == old(self).account_changed_spec(),
    {
        let r = match self.account.authorize_deploy(&signers) {
            Ok(()) => {
                self.phase = Phase::Authorized;
                Ok(())
            },
            Err(_) => {
                self.phase = Phase::Failed(ExecError::DeploymentAuthorizationFailure);
                Err(ExecError::DeploymentAuthorizationFailure)
            },
        };
        self.signers = signers;
        r
    }

    /// Hands an authorized deploy to the interpreter.
    pub fn start(&mut self)
        requires
            old(self).phase_spec() == Phase::Authorized,
        ensures
            final(self).phase_spec() == Phase::Running,
            final(self).effects_spec() == old(self).effects_spec(),
            final(self).gas_used_spec() == old(self).gas_used_spec(),
            final(self).gas_limit_spec() == old(self).gas_limit_spec(),
            final(self).known() == old(self).known(),
            final(self).root_spec() == old(self).root_spec(),
            final(self).args_spec() == old(self).args_spec(),
            final(self).account_spec() == old(self).account_spec(),
            final(self).account_changed_spec() == old(self).account_changed_spec(),
            final(self).signers_spec() == old(self).signers_spec(),
    {
        self.phase = Phase::Running;
    }

    /// Charges `cost` units of gas; past the limit, the deploy fails with
    /// `OutOfGas` and the whole limit is used.
    pub fn charge(&mut self, cost: u64) -> (r: Result<(), ExecError>)
        requires
            old(self).wf(),
            old(self).phase_spec() == Phase::Running,
        ensures
            final(self).wf(),
            r is Ok <==> old(self).gas_used_spec() + cost <= old(self).gas_limit_spec(),
            r is Ok ==> final(self).gas_used_spec() == old(self).gas_used_spec() + cost
                && final(self).phase_spec() == Phase::Running,
            r is Err ==> r == Err::<(), ExecError>(ExecError::OutOfGas)
                && final(self).gas_used_spec() == old(self).gas_limit_spec()
                && final(self).phase_spec() == Phase::Failed(ExecError::OutOfGas),
            final(self).effects_spec() == old(self).effects_spec(),
            final(self).gas_limit_spec() == old(self).gas_limit_spec(),
            final(self).known() == old(self).known(),
            final(self).root_spec() == old(self).root_spec(),
            final(self).args_spec() == old(self).args_spec(),
            final(self).account_spec() == old(self).account_spec(),
            final(self).account_changed_spec() == old(self).account_changed_spec(),
            final(self).signers_spec() == old(self).signers_spec(),
    {
        if cost > self.gas_limit - self.gas_used {
            self.gas_used = self.gas_limit;
            self.phase = Phase::Failed(ExecError::OutOfGas);
            Err(ExecError::OutOfGas)
        } else {
            self.gas_used = self.gas_used + cost;
            Ok(())
        }
    }

    /// Ends the deploy with `code`, as the contract asked.
    pub fn revert(&mut self, code: u32)
        requires
            old(self).phase_spec() == Phase::Running,
        ensures
            final(self).phase_spec() == Phase::Reverted(code),
            final(self).effects_spec() == old(self).effects_spec(),
            final(self).gas_used_spec() == old(self).gas_used_spec(),
            final(self).gas_limit_spec() == old(self).gas_limit_spec(),
            final(self).known() == old(self).known(),
            final(self).root_spec() == old(self).root_spec(),
            final(self).args_spec() == old(self).args_spec(),
            final(self).account_spec() == old(self).account_spec(),
            final(self).account_changed_spec() == old(self).account_changed_spec(),
            final(self).signers_spec() == old(self).signers_spec(),
    {
        self.phase = Phase::Reverted(code);
    }

    /// Checks a use of `uref` for `right`; a refused use fails the deploy.
    pub fn check_access(&mut self, uref: URef, right: AccessRights) -> (r: Result<(), ExecError>)
        requires
            old(self).phase_spec() == Phase::Running,
        ensures
            check_result(old(self).known(), uref, right) is Ok ==> r is Ok && final(self).phase_spec() == Phase::Running,
            check_result(old(self).known(), uref, right) matches Err(e) ==> r == Err::<(), ExecError>(access_error(e))
                && final(self).phase_spec() == Phase::Failed(access_error(e)),
            final(self).effects_spec() == old(self).effects_spec(),
            final(self).gas_used_spec() == old(self).gas_used_spec(),
            final(self).gas_limit_spec() == old(self).gas_limit_spec(),
            final(self).known() == old(self).known(),
            final(self).root_spec() == old(self).root_spec(),
            final(self).args_spec() == old(self).args_spec(),
            final(self).account_spec() == old(self).account_spec(),
            final(self).account_changed_spec() == old(self).account_changed_spec(),
            final(self).signers_spec() == old(self).signers_spec(),
    {
        match self.known.check(uref, right) {
            Ok(()) => Ok(()),
            Err(e) => {
                let err = match e {
                    AccessError::ForgedReference => ExecError::ForgedReference,
                    AccessError::InvalidAccess => ExecError::InvalidAccess,
                };
                self.phase = Phase::Failed(err);
                Err(err)
            },
        }
    }

    /// The integer argument at `index`.
    pub fn get_arg_int(&self, index: usize) -> (r: Result<u64, ExecError>)
        ensures
            index >= self.args_spec().len() ==> r == Err::<u64, ExecError>(ExecError::MissingArgument),
            index < self.args_spec().len() ==> match self.args_spec()[index as int] {
                CLValue::Int(x) => r == Ok::<u64, ExecError>(x),
                _ => r == Err::<u64, ExecError>(ExecError::InvalidArgument),
            },
    {
        if index >= self.args.len() {
            return Err(ExecError::MissingArgument);
        }
        match &self.args[index] {
            CLValue::Int(x) => Ok(*x),
            _ => Err(ExecError::InvalidArgument),
        }
    }

    /// The key argument at `index`.
    pub fn get_arg_key(&self, index: usize) -> (r: Result<Key, ExecError>)
        ensures
            index >= self.args_spec().len() ==> r == Err::<Key, ExecError>(ExecError::MissingArgument),
            index < self.args_spec().len() ==> match self.args_spec()[index as int] {
                CLValue::Key(k) => r == Ok::<Key, ExecError>(k),
                _ => r == Err::<Key, ExecError>(ExecError::InvalidArgument),
            },
    {
        if index >= self.args.len() {
            return Err(ExecError::MissingArgument);
        }
        match &self.args[index] {
            CLValue::Key(k) => Ok(*k),
            _ => Err(ExecError::InvalidArgument),
        }
    }

    /// Reads the value under `uref` at the deploy's root, if `uref` may be read.
    pub fn read<'a>(&mut self, store: &'a GlobalState, uref: URef) -> (r: Result<Option<&'a StoredValue>, ExecError>)
        requires
            old(self).phase_spec() == Phase::Running,
        ensures
            r is Ok ==> final(self).phase_spec() == Phase::Running,
            r matches Err(e) ==> final(self).phase_spec() == Phase::Failed(e),
            final(self).gas_used_spec() == old(self).gas_used_spec(),
            final(self).gas_limit_spec() == old(self).gas_limit_spec(),
            final(self).account_spec() == old(self).account_spec(),
            final(self).account_changed_spec() == old(self).account_changed_spec(),
            final(self).signers_spec() == old(self).signers_spec(),
            check_result(old(self).known(), uref, AccessRights { bits: READ }) matches Err(e)
                ==> r == Err::<Option<&StoredValue>, ExecError>(access_error(e)),
            check_result(old(self).known(), uref, AccessRights { bits: READ }) is Ok ==> match r {
                Ok(Some(v)) => value_at(store.nodes(), old(self).root_spec().index as nat, normalized(Key::URef(uref))) == Some(*v),
                Ok(None) => value_at(store.nodes(), old(self).root_spec().index as nat, normalized(Key::URef(uref))) is None,
                Err(_) => false,
            },
            final(self).effects_spec() == old(self).effects_spec(),
            final(self).known() == old(self).known(),
            final(self).root_spec() == old(self).root_spec(),
            final(self).args_spec() == old(self).args_spec(),
            final(self).account_spec() == old(self).account_spec(),
            final(self).account_changed_spec() == old(self).account_changed_spec(),
            final(self).signers_spec() == old(self).signers_spec(),
    {
        self.check_access(uref, AccessRights::read())?;
        Ok(store.get(self.root, Key::URef(uref)))
    }

    /// Buffers a write of `value` under `uref`, if `uref` may be written.
    pub fn write(&mut self, uref: URef, value: StoredValue) -> (r: Result<(), ExecError>)
        requires
            old(self).phase_spec() == Phase::Running,
        ensures
            r is Ok ==> final(self).phase_spec() == Phase::Running,
            r matches Err(e) ==> final(self).phase_spec() == Phase::Failed(e),
            final(self).gas_used_spec() == old(self).gas_used_spec(),
            final(self).gas_limit_spec() == old(self).gas_limit_spec(),
            final(self).account_spec() == old(self).account_spec(),
            final(self).account_changed_spec() == old(self).account_changed_spec(),
            final(self).signers_spec() == old(self).signers_spec(),
            check_result(old(self).known(), uref, AccessRights { bits: WRITE }) matches Err(e)
                ==> r == Err::<(), ExecError>(access_error(e)) && final(self).effects_spec() == old(self).effects_spec(),
            check_result(old(self).known(), uref, AccessRights { bits: WRITE }) is Ok
                ==> r is Ok && final(self).effects_spec() == old(self).effects_spec().push((Key::URef(uref), Op::Write(value))),
            final(self).known() == old(self).known(),
            final(self).root_spec() == old(self).root_spec(),
            final(self).args_spec() == old(self).args_spec(),
            final(self).account_spec() == old(self).account_spec(),
            final(self).account_changed_spec() == old(self).account_changed_spec(),
            final(self).signers_spec() == old(self).signers_spec(),
    {
        self.check_access(uref, AccessRights::write())?;
        self.effects.push((Key::URef(uref), Op::Write(value)));
        Ok(())
    }

    /// Buffers an addition of `delta` to the value under `uref`, if `uref` may be added to.
    pub fn add(&mut self, uref: URef, delta: u64) -> (r: Result<(), ExecError>)
        requires
            old(self).phase_spec() == Phase::Running,
        ensures
            r is Ok ==> final(self).phase_spec() == Phase::Running,
            r matches Err(e) ==> final(self).phase_spec() == Phase::Failed(e),
            final(self).gas_used_spec() == old(self).gas_used_spec(),
            final(self).gas_limit_spec() == old(self).gas_limit_spec(),
            final(self).account_spec() == old(self).account_spec(),
            final(self).account_changed_spec() == old(self).account_changed_spec(),
            final(self).signers_spec() == old(self).signers_spec(),
            check_result(old(self).known(), uref, AccessRights { bits: ADD }) matches Err(e)
                ==> r == Err::<(), ExecError>(access_error(e)) && final(self).effects_spec() == old(self).effects_spec(),
            check_result(old(self).known(), uref, AccessRights { bits: ADD }) is Ok
                ==> r is Ok && final(self).effects_spec() == old(self).effects_spec().push((Key::URef(uref), Op::Add(delta))),
            final(self).known() == old(self).known(),
            final(self).root_spec() == old(self).root_spec(),
            final(self).args_spec() == old(self).args_spec(),
            final(self).account_spec() == old(self).account_spec(),
            final(self).account_changed_spec() == old(self).account_changed_spec(),
            final(self).signers_spec() == old(self).signers_spec(),
    {
        self.check_access(uref, AccessRights::add())?;
        self.effects.push((Key::URef(uref), Op::Add(delta)));
        Ok(())
    }

    /// The integer under `k` at the deploy's root once its pending effects apply.
    fn pending_int(&self, store: &GlobalState, k: Key) -> (r: Option<u64>)
        ensures
            r == pending_int(store.nodes(), self.root_spec().index as nat, self.effects_spec(), k),
    {
        let ghost init = value_at(store.nodes(), self.root.index as nat, k);
        let mut acc: Option<Option<u64>> = match store.lookup_normalized(self.root, k) {
            Some(StoredValue::CLValue(CLValue::Int(x))) => Some(Some(*x)),
            _ => Some(None),
        };
        proof {
            assert(self.effects@.subrange(0, 0) =~= Seq::<(Key, Op)>::empty());
        }
        let mut i: usize = 0;
        while i < self.effects.len()
            invariant
                i <= self.effects@.len(),
                init == value_at(store.nodes(), self.root.index as nat, k),
                acc == int_state(fold(init, self.effects@.subrange(0, i as int), k)),
            decreases self.effects@.len() - i,
        {
            proof {
                assert(self.effects@.subrange(0, i as int + 1).drop_last() =~= self.effects@.subrange(0, i as int));
            }
            let e = &self.effects[i];
            if e.0.normalize() == k {
                acc = match &e.1 {
                    Op::Write(StoredValue::CLValue(CLValue::Int(x))) => if acc.is_some() { Some(Some(*x)) } else { None },
                    Op::Write(_) => if acc.is_some() { Some(None) } else { None },
                    Op::Prune => if acc.is_some() { Some(None) } else { None },
                    Op::Add(d) => match acc {
                        Some(Some(x)) => match x.checked_add(*d) {
                            Some(y) => Some(Some(y)),
                            None => None,
                        },
                        _ => None,
                    },
                };
            }
            i = i + 1;
        }
        proof {
            assert(self.effects@.subrange(0, i as int) =~= self.effects@);
        }
        match acc {
            Some(Some(x)) => Some(x),
            _ => None,
        }
    }

    /// Moves `amount` from the purse `source` to the main purse of the account
    /// `target`, as pending effects. The source must be writable; a balance
    /// short of `amount` leaves the effects as they were.
    pub fn transfer_from_purse_to_account(&mut self, store: &GlobalState, source: URef, target: PublicKey, amount: u64) -> (r: Result<(), ExecError>)
        requires
            old(self).phase_spec() == Phase::Running,
        ensures
            check_result(old(self).known(), source, AccessRights { bits: WRITE }) is Ok ==> final(self).phase_spec() == Phase::Running,
            check_result(old(self).known(), source, AccessRights { bits: WRITE }) matches Err(e)
                ==> final(self).phase_spec() == Phase::Failed(access_error(e)),
            final(self).gas_used_spec() == old(self).gas_used_spec(),
            final(self).gas_limit_spec() == old(self).gas_limit_spec(),
            final(self).account_spec() == old(self).account_spec(),
            final(self).account_changed_spec() == old(self).account_changed_spec(),
            final(self).signers_spec() == old(self).signers_spec(),
            final(self).known() == old(self).known(),
            final(self).root_spec() == old(self).root_spec(),
            check_result(old(self).known(), source, AccessRights { bits: WRITE }) matches Err(e)
                ==> r == Err::<(), ExecError>(access_error(e)),
            r is Err ==> final(self).effects_spec() == old(self).effects_spec(),
            check_result(old(self).known(), source, AccessRights { bits: WRITE }) is Ok
                ==> (r, final(self).effects_spec()) == transfer_effects(store.nodes(), old(self).root_spec().index as nat,
                    old(self).effects_spec(), source, target, amount),
    {
        self.check_access(source, AccessRights::write())?;
        let purse = match store.get(self.root, Key::Account(target)) {
            Some(StoredValue::Account(a)) => a.main_purse,
            _ => return Err(ExecError::NotFound),
        };
        let balance = match self.pending_int(store, Key::URef(source).normalize()) {
            Some(b) => b,
            None => return Err(ExecError::NotFound),
        };
        if balance < amount {
            return Err(ExecError::InsufficientFunds);
        }
        self.effects.push((Key::URef(source), Op::Write(StoredValue::CLValue(CLValue::Int(balance - amount)))));
        self.effects.push((Key::URef(purse), Op::Add(amount)));
        Ok(())
    }

    /// Stores `value` under a new reference to the fresh address `addr` and
    /// holds that reference. An address already held, or already in use at the
    /// deploy's root, is refused.
    pub fn new_uref(&mut self, store: &GlobalState, addr: Address, value: StoredValue) -> (r: Result<URef, ExecError>)
        requires
            old(self).phase_spec() == Phase::Running,
        ensures
            final(self).gas_used_spec() == old(self).gas_used_spec(),
            final(self).gas_limit_spec() == old(self).gas_limit_spec(),
            final(self).account_spec() == old(self).account_spec(),
            final(self).account_changed_spec() == old(self).account_changed_spec(),
            final(self).signers_spec() == old(self).signers_spec(),
            final(self).root_spec() == old(self).root_spec(),
            final(self).phase_spec() == old(self).phase_spec(),
            ({
                let u = URef { addr, rights: AccessRights { bits: READ | WRITE | ADD } };
                let fresh = !knows(old(self).known(), addr)
                    && value_at(store.nodes(), old(self).root_spec().index as nat, normalized(Key::URef(u))) is None;
                &&& fresh ==> r == Ok::<URef, ExecError>(u)
                    && final(self).known() == old(self).known().push(u)
                    && final(self).effects_spec() == old(self).effects_spec().push((Key::URef(u), Op::Write(value)))
                &&& !fresh ==> r == Err::<URef, ExecError>(ExecError::AddressInUse)
                    && final(self).known() == old(self).known()
                    && final(self).effects_spec() == old(self).effects_spec()
            }),
    {
        let u = URef { addr, rights: AccessRights::read_add_write() };
        if store.get(self.root, Key::URef(u)).is_some() {
            return Err(ExecError::AddressInUse);
        }
        match self.known.mint(addr) {
            Some(m) => {
                self.effects.push((Key::URef(m), Op::Write(value)));
                Ok(m)
            },
            None => Err(ExecError::AddressInUse),
        }
    }

    /// Binds `name` to `key` among the account's named keys. A reference must
    /// be held with every right it claims; a refused one fails the deploy.
    pub fn put_key(&mut self, name: String, key: Key) -> (r: Result<(), ExecError>)
        requires
            old(self).phase_spec() == Phase::Running,
            old(self).wf(),
        ensures
            final(self).gas_used_spec() == old(self).gas_used_spec(),
            final(self).gas_limit_spec() == old(self).gas_limit_spec(),
            final(self).wf(),
            final(self).effects_spec() == old(self).effects_spec(),
            final(self).known() == old(self).known(),
            final(self).root_spec() == old(self).root_spec(),
            final(self).signers_spec() == old(self).signers_spec(),
            match key {
                Key::URef(u) => match check_result(old(self).known(), u, u.rights) {
                    Err(e) => r == Err::<(), ExecError>(access_error(e))
                        && final(self).phase_spec() == Phase::Failed(access_error(e))
                        && final(self).account_spec() == old(self).account_spec()
                        && final(self).account_changed_spec() == old(self).account_changed_spec(),
                    Ok(_) => true,
                },
                _ => true,
            },
            key_usable(old(self).known(), key) ==> {
                &&& r is Ok
                &&& final(self).phase_spec() == Phase::Running
                &&& final(self).account_changed_spec()
                &&& final(self).account_spec().named_keys.get_spec(name@) == Some(key)
                &&& forall|n: Seq<char>| n != name@ ==> #[trigger] final(self).account_spec().named_keys.get_spec(n)
                    == old(self).account_spec().named_keys.get_spec(n)
                &&& final(self).account_spec().keys() == old(self).account_spec().keys()
                &&& final(self).account_spec().thresholds() == old(self).account_spec().thresholds()
                &&& final(self).account_spec().public_key == old(self).account_spec().public_key
                &&& final(self).account_spec().main_purse == old(self).account_spec().main_purse
            },
    {
        match key {
            Key::URef(u) => {
                self.check_access(u, u.rights)?;
            },
            _ => {},
        }
        proof {
            old(self).account_spec().lemma_thresholds_reachable();
        }
        self.account.named_keys.insert(name, key);
        self.account_changed = true;
        Ok(())
    }

    /// Sets the account's threshold for `action` on the authority of the
    /// deploy's signers.
    pub fn set_action_threshold(&mut self, action: ActionType, weight: u8) -> (r: Result<(), SetThresholdFailure>)
        requires
            old(self).phase_spec() == Phase::Running,
            old(self).wf(),
        ensures
            final(self).gas_used_spec() == old(self).gas_used_spec(),
            final(self).gas_limit_spec() == old(self).gas_limit_spec(),
            final(self).wf(),
            final(self).effects_spec() == old(self).effects_spec(),
            final(self).known() == old(self).known(),
            final(self).root_spec() == old(self).root_spec(),
            final(self).phase_spec() == old(self).phase_spec(),
            final(self).signers_spec() == old(self).signers_spec(),
            final(self).account_spec().keys() == old(self).account_spec().keys(),
            r is Ok <==> signed_weight(old(self).account_spec().keys(), old(self).signers_spec())
                >= old(self).account_spec().thresholds().key_management as nat
                && weight as nat <= total_weight(old(self).account_spec().keys()),
            signed_weight(old(self).account_spec().keys(), old(self).signers_spec())
                < old(self).account_spec().thresholds().key_management as nat
                ==> r == Err::<(), SetThresholdFailure>(SetThresholdFailure::PermissionDenied),
            signed_weight(old(self).account_spec().keys(), old(self).signers_spec())
                >= old(self).account_spec().thresholds().key_management as nat
                && weight as nat > total_weight(old(self).account_spec().keys())
                ==> r == Err::<(), SetThresholdFailure>(SetThresholdFailure::InvalidThreshold),
            r is Ok ==> final(self).account_spec().threshold_of(action) == weight && final(self).account_changed_spec(),
            r is Ok && action == ActionType::Deployment
                ==> final(self).account_spec().thresholds().key_management == old(self).account_spec().thresholds().key_management,
            r is Ok && action == ActionType::KeyManagement
                ==> final(self).account_spec().thresholds().deployment == old(self).account_spec().thresholds().deployment,
            r is Err ==> final(self).account_spec().thresholds() == old(self).account_spec().thresholds()
                && final(self).account_changed_spec() == old(self).account_changed_spec(),
    {
        let r = self.account.set_action_threshold(&self.signers, action, weight);
        if r.is_ok() {
            self.account_changed = true;
        }
        r
    }

    /// The balance of `purse` once the deploy's pending effects apply, if
    /// `purse` may be read; `None` when it holds no balance.
    pub fn get_balance(&mut self, store: &GlobalState, purse: URef) -> (r: Result<Option<u64>, ExecError>)
        requires
            old(self).phase_spec() == Phase::Running,
        ensures
            r is Ok ==> final(self).phase_spec() == Phase::Running,
            r matches Err(e) ==> final(self).phase_spec() == Phase::Failed(e),
            final(self).gas_used_spec() == old(self).gas_used_spec(),
            final(self).gas_limit_spec() == old(self).gas_limit_spec(),
            final(self).account_spec() == old(self).account_spec(),
            final(self).account_changed_spec() == old(self).account_changed_spec(),
            final(self).signers_spec() == old(self).signers_spec(),
            final(self).effects_spec() == old(self).effects_spec(),
            final(self).known() == old(self).known(),
            final(self).root_spec() == old(self).root_spec(),
            check_result(old(self).known(), purse, AccessRights { bits: READ }) matches Err(e)
                ==> r == Err::<Option<u64>, ExecError>(access_error(e)),
            check_result(old(self).known(), purse, AccessRights { bits: READ }) is Ok
                ==> r == Ok::<Option<u64>, ExecError>(pending_int(store.nodes(), old(self).root_spec().index as nat,
                    old(self).effects_spec(), normalized(Key::URef(purse)))),
    {
        self.check_access(purse, AccessRights::read())?;
        Ok(self.pending_int(store, Key::URef(purse).normalize()))
    }

    /// Ends the deploy. A running deploy succeeds and hands back its effects,
    /// with a write of its account where it changed the account; a reverted or
    /// failed one hands back none. The gas used is charged either way.
    pub fn finish(self) -> (r: ExecutionResult)
        requires
            self.phase_spec() != Phase::Created,
            self.phase_spec() != Phase::Authorized,
        ensures
            r.gas_used == self.gas_used_spec(),
            self.phase_spec() == Phase::Running && !self.account_changed_spec()
                ==> r.outcome == Outcome::Success && r.effects@ == self.effects_spec(),
            self.phase_spec() == Phase::Running && self.account_changed_spec()
                ==> r.outcome == Outcome::Success && r.effects@ == self.effects_spec().push(
                    (Key::Account(self.account_spec().public_key), Op::Write(StoredValue::Account(self.account_spec())))),
            self.phase_spec() matches Phase::Reverted(c) ==> r.outcome == Outcome::Reverted(c) && r.effects@.len() == 0,
            self.phase_spec() matches Phase::Failed(e) ==> r.outcome == Outcome::Failure(e) && r.effects@.len() == 0,
    {
        let outcome = match self.phase {
            Phase::Reverted(c) => Outcome::Reverted(c),
            Phase::Failed(e) => Outcome::Failure(e),
            _ => Outcome::Success,
        };
        let gas_used = self.gas_used;
        let effects = match outcome {
            Outcome::Success => {
                let mut effects = self.effects;
                if self.account_changed {
                    let pk = self.account.public_key;
                    effects.push((Key::Account(pk), Op::Write(StoredValue::Account(self.account))));
                }
                effects
            },
            _ => Vec::new(),
        };
        ExecutionResult { outcome, effects, gas_used }
    }

    /// The weight argument at `index`: an integer of at most 255.
    pub fn get_arg_weight(&self, index: usize) -> (r: Result<u8, ExecError>)
        ensures
            r == arg_weight(self.args_spec(), index as int),
    {
        if index >= self.args.len() {
            return Err(ExecError::MissingArgument);
        }
        match &self.args[index] {
            CLValue::Int(x) => if *x <= 255 {
                Ok(*x as u8)
            } else {
                Err(ExecError::InvalidArgument)
            },
            _ => Err(ExecError::InvalidArgument),
        }
    }

    /// Ends the deploy with `e`, as a host call that cannot go on.
    pub fn fail(&mut self, e: ExecError)
        requires
            old(self).phase_spec() == Phase::Running,
        ensures
            final(self).phase_spec() == Phase::Failed(e),
            final(self).effects_spec() == old(self).effects_spec(),
            final(self).gas_used_spec() == old(self).gas_used_spec(),
            final(self).gas_limit_spec() == old(self).gas_limit_spec(),
            final(self).known() == old(self).known(),
            final(self).root_spec() == old(self).root_spec(),
            final(self).args_spec() == old(self).args_spec(),
            final(self).account_spec() == old(self).account_spec(),
            final(self).account_changed_spec() == old(self).account_changed_spec(),
            final(self).signers_spec() == old(self).signers_spec(),
    {
        self.phase = Phase::Failed(e);
    }

    /// The account's main purse.
    pub fn main_purse(&self) -> (r: URef)
        ensures
            r == self.account_spec().main_purse,
    {
        self.account.main_purse
    }
}

} // verus!
