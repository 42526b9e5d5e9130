use execution_engine::authorized_keys;
use execution_engine::genesis::{genesis_effects, run_genesis};
use execution_engine::transfer_purse_to_account;
use execution_engine::account::{
    Account, ActionType, AddKeyFailure, AuthorizationError, RemoveKeyFailure, SetThresholdFailure,
};
use execution_engine::capability::{AccessError, KnownURefs};
use execution_engine::executor::{ExecError, ExecutionContext, Outcome, Phase};
use execution_engine::keys::{AccessRights, Address, Key, PublicKey, URef};
use execution_engine::named_keys::NamedKeys;
use execution_engine::semver::SemVer;
use execution_engine::store::{CLValue, CommitError, GlobalState, Op, QueryError, RootHash, StoredValue};

fn addr(n: u64) -> Address {
    Address { w0: n, w1: 0, w2: 0, w3: 0 }
}

fn pk(n: u64) -> PublicKey {
    PublicKey { addr: addr(n) }
}

fn uref(n: u64, rights: AccessRights) -> URef {
    URef { addr: addr(n), rights }
}

fn int_of(v: Option<&StoredValue>) -> Option<u64> {
    match v {
        Some(StoredValue::CLValue(CLValue::Int(x))) => Some(*x),
        _ => None,
    }
}

/// An account `owner` with main purse at address `purse`, holding nothing else.
fn account(owner: u64, purse: u64) -> Account {
    Account::new(pk(owner), uref(purse, AccessRights::read_add_write()), NamedKeys::new())
}

#[test]
fn semver_new_keeps_fields() {
    let v = SemVer::new(1, 2, 3);
    assert_eq!(v.major, 1);
    assert_eq!(v.minor, 2);
    assert_eq!(v.patch, 3);
    assert!(SemVer::new(1, 0, 0) < SemVer::new(1, 0, 1));
}

#[test]
fn semver_text() {
    assert_eq!(SemVer::new(1, 2, 3).to_string(), "1.2.3");
    assert_eq!(SemVer::new(10, 0, 4294967295).to_string(), "10.0.4294967295");
    assert_eq!(SemVer::new(0, 0, 0).to_string(), "0.0.0");
    assert_eq!(SemVer::V1_0_0(), SemVer::new(1, 0, 0));
    assert_eq!(SemVer::V1_0_0().to_string(), "1.0.0");
}

#[test]
fn deploy_needs_both_keys_to_reach_threshold() {
    let mut acc = account(1, 100);
    let owner = vec![pk(1)];
    assert_eq!(acc.add_associated_key(&owner, pk(2), 1), Ok(()));
    assert_eq!(acc.set_action_threshold(&owner, ActionType::Deployment, 2), Ok(()));
    // keys {A: 1, B: 1}, deployment threshold 2
    assert_eq!(
        acc.authorize_deploy(&vec![pk(1)]),
        Err(AuthorizationError::DeploymentAuthorizationFailure)
    );
    assert_eq!(acc.authorize_deploy(&vec![pk(1), pk(2)]), Ok(()));
    assert_eq!(acc.authorization_weight(&vec![pk(1), pk(2), pk(9)]), 2);
}

#[test]
fn unreachable_threshold_is_refused() {
    let mut acc = account(1, 100);
    let owner = vec![pk(1)];
    assert_eq!(acc.add_associated_key(&owner, pk(2), 2), Ok(()));
    assert_eq!(acc.total_weight(), 3);
    let before = acc.action_thresholds();
    assert_eq!(
        acc.set_action_threshold(&owner, ActionType::KeyManagement, 5),
        Err(SetThresholdFailure::InvalidThreshold)
    );
    assert_eq!(acc.action_thresholds(), before);
    assert_eq!(acc.set_action_threshold(&owner, ActionType::KeyManagement, 3), Ok(()));
    assert_eq!(acc.action_thresholds().key_management, 3);
    assert_eq!(
        acc.set_action_threshold(&owner, ActionType::Deployment, 1),
        Err(SetThresholdFailure::PermissionDenied)
    );
}

#[test]
fn associated_key_changes() {
    let mut acc = account(1, 100);
    let owner = vec![pk(1)];
    assert_eq!(acc.add_associated_key(&owner, pk(1), 1), Err(AddKeyFailure::DuplicateKey));
    assert_eq!(acc.add_associated_key(&vec![pk(5)], pk(2), 1), Err(AddKeyFailure::PermissionDenied));
    assert_eq!(acc.remove_associated_key(&owner, pk(7)), Err(RemoveKeyFailure::MissingKey));
    assert_eq!(acc.remove_associated_key(&owner, pk(1)), Err(RemoveKeyFailure::ThresholdViolation));
    assert_eq!(acc.add_associated_key(&owner, pk(2), 4), Ok(()));
    assert_eq!(acc.get_associated_key(pk(2)), Some(4));
    assert_eq!(acc.remove_associated_key(&owner, pk(1)), Ok(()));
    assert_eq!(acc.get_associated_key(pk(1)), None);
    assert_eq!(acc.total_weight(), 4);
    for n in 10..40 {
        assert_eq!(acc.add_associated_key(&vec![pk(2)], pk(n), 1), Ok(()));
    }
    assert_eq!(acc.total_weight(), 34);
}

#[test]
fn unknown_address_is_forged() {
    let mut known = KnownURefs::new();
    known.insert(uref(5, AccessRights::read()));
    assert_eq!(known.check(uref(6, AccessRights::read_add_write()), AccessRights::read()), Err(AccessError::ForgedReference));
    assert_eq!(known.check(uref(5, AccessRights::read_add_write()), AccessRights::write()), Err(AccessError::InvalidAccess));
    assert_eq!(known.check(uref(5, AccessRights::none()), AccessRights::read()), Ok(()));
    let minted = known.mint(addr(7)).unwrap();
    assert_eq!(minted.rights, AccessRights::read_add_write());
    assert_eq!(known.check(minted, AccessRights::add()), Ok(()));
    assert_eq!(known.mint(addr(5)), None);
}

#[test]
fn commit_and_query_keep_old_roots() {
    let mut store = GlobalState::new();
    let r0 = GlobalState::empty_root();
    let k = Key::Hash(addr(1));
    let r1 = store.commit(r0, vec![(k, Op::Write(StoredValue::CLValue(CLValue::Int(10))))]).unwrap();
    let r2 = store.commit(r1, vec![(k, Op::Add(5)), (Key::Hash(addr(2)), Op::Write(StoredValue::CLValue(CLValue::Unit)))]).unwrap();
    assert_eq!(int_of(store.get(r1, k)), Some(10));
    assert_eq!(int_of(store.get(r2, k)), Some(15));
    assert!(store.get(r0, k).is_none());
    assert!(store.get(r1, Key::Hash(addr(2))).is_none());
    assert!(store.get(r2, Key::Hash(addr(2))).is_some());
    // the same call twice gives the same answer
    assert_eq!(int_of(store.get(r2, k)), int_of(store.get(r2, k)));
    let r3 = store.commit(r2, vec![(k, Op::Prune)]).unwrap();
    assert!(store.get(r3, k).is_none());
    assert_eq!(int_of(store.get(r2, k)), Some(15));
}

#[test]
fn commit_is_all_or_nothing() {
    let mut store = GlobalState::new();
    let r0 = GlobalState::empty_root();
    let k = Key::Hash(addr(1));
    let r1 = store.commit(r0, vec![(k, Op::Write(StoredValue::CLValue(CLValue::Int(u64::MAX))))]).unwrap();
    let other = Key::Hash(addr(2));
    assert_eq!(
        store.commit(r1, vec![(other, Op::Write(StoredValue::CLValue(CLValue::Int(1)))), (k, Op::Add(1))]),
        Err(CommitError::AddFailed)
    );
    assert_eq!(store.commit(r1, vec![(other, Op::Add(1))]), Err(CommitError::AddFailed));
    assert_eq!(store.commit(RootHash { index: 99 }, vec![]), Err(CommitError::RootNotFound));
    assert!(!store.is_root(RootHash { index: 99 }));
    assert!(store.is_root(RootHash { index: r1.index + 1 }) == false);
}

#[test]
fn write_reads_back_exactly() {
    let mut store = GlobalState::new();
    let k = Key::URef(uref(3, AccessRights::read_add_write()));
    let r = store.commit(GlobalState::empty_root(), vec![(k, Op::Write(StoredValue::CLValue(CLValue::Bytes(vec![1, 2, 3]))))]).unwrap();
    // a reference is looked up by its address, whatever its rights
    match store.get(r, Key::URef(uref(3, AccessRights::read()))) {
        Some(StoredValue::CLValue(CLValue::Bytes(b))) => assert_eq!(b, &vec![1u8, 2, 3]),
        _ => panic!("value not found"),
    }
}

#[test]
fn query_follows_named_keys() {
    let mut store = GlobalState::new();
    let mut nk = NamedKeys::new();
    let target = Key::Hash(addr(9));
    nk.insert("counter".to_string(), target);
    let acc = Account::new(pk(1), uref(100, AccessRights::read_add_write()), nk);
    let r = store.commit(GlobalState::empty_root(), vec![
        (Key::Account(pk(1)), Op::Write(StoredValue::Account(acc))),
        (target, Op::Write(StoredValue::CLValue(CLValue::Int(42)))),
    ]).unwrap();
    let v = store.query(r, Key::Account(pk(1)), &vec!["counter".to_string()]).unwrap();
    assert_eq!(int_of(Some(v)), Some(42));
    assert!(matches!(store.query(r, Key::Account(pk(1)), &vec!["missing".to_string()]), Err(QueryError::NotFound)));
    assert!(matches!(store.query(r, target, &vec!["counter".to_string()]), Err(QueryError::NotFound)));
}

/// A store with accounts 1 and 2, whose main purses at 101 and 102 hold 50 and 0.
fn two_accounts() -> (GlobalState, RootHash) {
    let mut store = GlobalState::new();
    let r = store.commit(GlobalState::empty_root(), vec![
        (Key::Account(pk(1)), Op::Write(StoredValue::Account(account(1, 101)))),
        (Key::Account(pk(2)), Op::Write(StoredValue::Account(account(2, 102)))),
        (Key::URef(uref(101, AccessRights::none())), Op::Write(StoredValue::CLValue(CLValue::Int(50)))),
        (Key::URef(uref(102, AccessRights::none())), Op::Write(StoredValue::CLValue(CLValue::Int(0)))),
    ]).unwrap();
    (store, r)
}

fn running(acc: Account, args: Vec<CLValue>, root: RootHash, gas: u64) -> ExecutionContext {
    let owner = acc.public_key;
    let mut ctx = ExecutionContext::new(acc, &NamedKeys::new(), args, root, gas);
    assert_eq!(ctx.authorize(vec![owner]), Ok(()));
    ctx.start();
    ctx
}

#[test]
fn should_run_ee_572_regression() {
    let (mut store, r) = two_accounts();
    // account 1 creates a reference and files it under one of its named keys
    let mut ctx1 = running(account(1, 101), vec![], r, 100);
    let created = ctx1.new_uref(&store, addr(500), StoredValue::CLValue(CLValue::Int(1))).unwrap();
    let read_only = URef { addr: created.addr, rights: AccessRights::read() };
    assert_eq!(ctx1.put_key("create".to_string(), Key::URef(read_only)), Ok(()));
    let res1 = ctx1.finish();
    assert_eq!(res1.outcome, Outcome::Success);
    let r1 = store.commit(r, res1.effects).unwrap();
    let filed = match store.query(r1, Key::Account(pk(1)), &vec!["create".to_string()]) {
        Ok(_) => match store.get(r1, Key::Account(pk(1))) {
            Some(StoredValue::Account(a)) => a.named_keys.get(&"create".to_string()).unwrap(),
            _ => panic!("Could not find account"),
        },
        Err(_) => panic!("Could not find contract pointer"),
    };
    assert_eq!(filed, Key::URef(read_only));
    // account 2 learns only the bare key and claims every right on it
    let bare = Key::Hash(created.addr);
    let mut ctx2 = running(account(2, 102), vec![CLValue::Key(bare)], r1, 100);
    let forged = URef { addr: created.addr, rights: AccessRights::read_add_write() };
    assert_eq!(ctx2.write(forged, StoredValue::CLValue(CLValue::Int(7))), Err(ExecError::ForgedReference));
    assert_eq!(ctx2.phase(), Phase::Failed(ExecError::ForgedReference));
    let res2 = ctx2.finish();
    assert_eq!(res2.outcome, Outcome::Failure(ExecError::ForgedReference));
    assert!(res2.effects.is_empty());
}

#[test]
fn transfer_beyond_balance_changes_nothing() {
    let (mut store, r) = two_accounts();
    let mut ctx = running(account(1, 101), vec![], r, 100);
    let purse = uref(101, AccessRights::read_add_write());
    assert_eq!(ctx.transfer_from_purse_to_account(&store, purse, pk(2), 51), Err(ExecError::InsufficientFunds));
    let res = ctx.finish();
    assert_eq!(res.outcome, Outcome::Success);
    assert!(res.effects.is_empty());
    let r1 = store.commit(r, res.effects).unwrap();
    assert_eq!(int_of(store.get(r1, Key::URef(purse))), Some(50));
    assert_eq!(int_of(store.get(r1, Key::URef(uref(102, AccessRights::none())))), Some(0));
}

#[test]
fn transfer_moves_balance() {
    let (mut store, r) = two_accounts();
    let mut ctx = running(account(1, 101), vec![], r, 100);
    let purse = uref(101, AccessRights::read_add_write());
    assert_eq!(ctx.transfer_from_purse_to_account(&store, purse, pk(2), 30), Ok(()));
    // the second transfer sees the first one's effect
    assert_eq!(ctx.transfer_from_purse_to_account(&store, purse, pk(2), 30), Err(ExecError::InsufficientFunds));
    assert_eq!(ctx.transfer_from_purse_to_account(&store, purse, pk(3), 1), Err(ExecError::NotFound));
    let other = uref(102, AccessRights::read_add_write());
    assert_eq!(ctx.transfer_from_purse_to_account(&store, other, pk(1), 1), Err(ExecError::ForgedReference));
    let res = ctx.finish();
    assert_eq!(res.outcome, Outcome::Failure(ExecError::ForgedReference));
    assert!(res.effects.is_empty());
    let mut ctx = running(account(1, 101), vec![], r, 100);
    assert_eq!(ctx.transfer_from_purse_to_account(&store, purse, pk(2), 30), Ok(()));
    let res = ctx.finish();
    let r1 = store.commit(r, res.effects).unwrap();
    assert_eq!(int_of(store.get(r1, Key::URef(purse))), Some(20));
    assert_eq!(int_of(store.get(r1, Key::URef(other))), Some(30));
}

#[test]
fn deploy_lifecycle() {
    let (store, r) = two_accounts();
    let mut ctx = ExecutionContext::new(account(1, 101), &NamedKeys::new(), vec![CLValue::Int(4)], r, 10);
    assert_eq!(ctx.authorize(vec![pk(2)]), Err(ExecError::DeploymentAuthorizationFailure));
    let res = ctx.finish();
    assert_eq!(res.outcome, Outcome::Failure(ExecError::DeploymentAuthorizationFailure));
    assert_eq!(res.gas_used, 0);

    let mut ctx = running(account(1, 101), vec![CLValue::Int(4), CLValue::Unit], r, 10);
    assert_eq!(ctx.get_arg_int(0), Ok(4));
    assert_eq!(ctx.get_arg_int(1), Err(ExecError::InvalidArgument));
    assert_eq!(ctx.get_arg_key(2), Err(ExecError::MissingArgument));
    assert_eq!(ctx.charge(6), Ok(()));
    let purse = uref(101, AccessRights::read());
    assert_eq!(int_of(ctx.read(&store, purse).unwrap()), Some(50));
    assert_eq!(ctx.add(uref(101, AccessRights::none()), 1), Ok(()));
    assert_eq!(ctx.charge(5), Err(ExecError::OutOfGas));
    let res = ctx.finish();
    assert_eq!(res.outcome, Outcome::Failure(ExecError::OutOfGas));
    assert_eq!(res.gas_used, 10);
    assert!(res.effects.is_empty());

    let mut ctx = running(account(1, 101), vec![], r, 10);
    assert_eq!(ctx.add(uref(101, AccessRights::none()), 1), Ok(()));
    ctx.revert(7);
    let res = ctx.finish();
    assert_eq!(res.outcome, Outcome::Reverted(7));
    assert!(res.effects.is_empty());
}

#[test]
fn reference_arguments_are_held() {
    let (store, r) = two_accounts();
    let passed = uref(102, AccessRights::add());
    let mut ctx = running(account(1, 101), vec![CLValue::Key(Key::URef(passed))], r, 10);
    assert_eq!(ctx.add(passed, 3), Ok(()));
    assert_eq!(ctx.write(passed, StoredValue::CLValue(CLValue::Unit)), Err(ExecError::InvalidAccess));
    assert!(ctx.new_uref(&store, addr(101), StoredValue::CLValue(CLValue::Unit)).is_err());
}

#[test]
fn put_key_and_thresholds_write_the_account() {
    let (mut store, r) = two_accounts();
    let mut ctx = running(account(1, 101), vec![], r, 100);
    let minted = ctx.new_uref(&store, addr(700), StoredValue::CLValue(CLValue::Int(3))).unwrap();
    assert_eq!(ctx.put_key("mine".to_string(), Key::URef(minted)), Ok(()));
    assert_eq!(
        ctx.put_key("stolen".to_string(), Key::URef(uref(102, AccessRights::read()))),
        Err(ExecError::ForgedReference)
    );
    let mut ctx = running(account(1, 101), vec![], r, 100);
    let minted = ctx.new_uref(&store, addr(700), StoredValue::CLValue(CLValue::Int(3))).unwrap();
    assert_eq!(ctx.put_key("mine".to_string(), Key::URef(minted)), Ok(()));
    assert_eq!(ctx.set_action_threshold(ActionType::KeyManagement, 5), Err(SetThresholdFailure::InvalidThreshold));
    assert_eq!(ctx.set_action_threshold(ActionType::Deployment, 1), Ok(()));
    assert_eq!(ctx.get_balance(&store, uref(101, AccessRights::read())), Ok(Some(50)));
    let res = ctx.finish();
    assert_eq!(res.outcome, Outcome::Success);
    let r1 = store.commit(r, res.effects).unwrap();
    let v = store.query(r1, Key::Account(pk(1)), &vec!["mine".to_string()]).unwrap();
    assert_eq!(int_of(Some(v)), Some(3));
    assert!(store.get(r, Key::URef(minted)).is_none());
}

#[test]
fn authorized_keys_call_sets_both_thresholds() {
    let (_store, r) = two_accounts();
    let mut ctx = running(account(1, 101), vec![CLValue::Int(1), CLValue::Int(1)], r, 10);
    authorized_keys::call(&mut ctx);
    assert_eq!(ctx.phase(), Phase::Running);

    let mut ctx = running(account(1, 101), vec![CLValue::Int(1), CLValue::Int(5)], r, 10);
    authorized_keys::call(&mut ctx);
    assert_eq!(ctx.phase(), Phase::Reverted(100));

    let mut ctx = running(account(1, 101), vec![CLValue::Int(5), CLValue::Int(1)], r, 10);
    authorized_keys::call(&mut ctx);
    assert_eq!(ctx.phase(), Phase::Reverted(200));

    let mut ctx = running(account(1, 101), vec![CLValue::Int(1)], r, 10);
    authorized_keys::call(&mut ctx);
    assert_eq!(ctx.phase(), Phase::Failed(ExecError::MissingArgument));

    let mut ctx = running(account(1, 101), vec![CLValue::Int(1), CLValue::Int(300)], r, 10);
    authorized_keys::call(&mut ctx);
    assert_eq!(ctx.phase(), Phase::Failed(ExecError::InvalidArgument));
}

#[test]
fn transfer_contract_records_result_and_balance() {
    let (mut store, r) = two_accounts();
    let args = vec![CLValue::Key(Key::Account(pk(2))), CLValue::Int(20)];
    let mut ctx = running(account(1, 101), args, r, 10);
    transfer_purse_to_account::transfer(&mut ctx, &store, addr(800), addr(801));
    assert_eq!(ctx.phase(), Phase::Running);
    let res = ctx.finish();
    let r1 = store.commit(r, res.effects).unwrap();
    let balance = store.query(r1, Key::Account(pk(1)), &vec!["final_balance".to_string()]).unwrap();
    assert_eq!(int_of(Some(balance)), Some(30));
    match store.query(r1, Key::Account(pk(1)), &vec!["transfer_result".to_string()]) {
        Ok(StoredValue::CLValue(CLValue::Str(t))) => assert_eq!(t, "Ok"),
        _ => panic!("no transfer result"),
    }
    assert_eq!(int_of(store.get(r1, Key::URef(uref(102, AccessRights::none())))), Some(20));

    let args = vec![CLValue::Key(Key::Account(pk(2))), CLValue::Int(99)];
    let mut ctx = running(account(1, 101), args, r, 10);
    transfer_purse_to_account::transfer(&mut ctx, &store, addr(800), addr(801));
    let res = ctx.finish();
    let r2 = store.commit(r, res.effects).unwrap();
    match store.query(r2, Key::Account(pk(1)), &vec!["transfer_result".to_string()]) {
        Ok(StoredValue::CLValue(CLValue::Str(t))) => assert_eq!(t, "Err(InsufficientFunds)"),
        _ => panic!("no transfer result"),
    }

    let mut ctx = running(account(1, 101), vec![CLValue::Int(3)], r, 10);
    transfer_purse_to_account::transfer(&mut ctx, &store, addr(800), addr(801));
    assert_eq!(ctx.phase(), Phase::Failed(ExecError::InvalidArgument));
}

#[test]
fn transfer_contract_is_stored() {
    let (mut store, r) = two_accounts();
    let mut ctx = running(account(1, 101), vec![], r, 10);
    transfer_purse_to_account::call(&mut ctx, &store, addr(900), vec![0, 97, 115, 109]);
    let res = ctx.finish();
    let r1 = store.commit(r, res.effects).unwrap();
    match store.query(r1, Key::Account(pk(1)), &vec!["transfer_purse_to_account".to_string()]) {
        Ok(StoredValue::Contract(c)) => {
            assert_eq!(c.bytes, vec![0u8, 97, 115, 109]);
            assert_eq!(c.protocol_version, SemVer::new(1, 0, 0));
        },
        _ => panic!("no contract"),
    }
}

#[test]
fn genesis_opens_accounts() {
    let accounts = vec![(pk(1), addr(101), 500u64), (pk(2), addr(102), 7u64)];
    assert_eq!(genesis_effects(&accounts).len(), 4);
    let mut store = GlobalState::new();
    let r = run_genesis(&mut store, &accounts);
    match store.get(r, Key::Account(pk(2))) {
        Some(StoredValue::Account(a)) => {
            assert_eq!(a.main_purse, uref(102, AccessRights::read_add_write()));
            assert_eq!(a.get_associated_key(pk(2)), Some(1));
        },
        _ => panic!("account missing"),
    }
    assert_eq!(int_of(store.get(r, Key::URef(uref(101, AccessRights::none())))), Some(500));
    assert_eq!(int_of(store.get(r, Key::URef(uref(102, AccessRights::none())))), Some(7));
    let mut ctx = ExecutionContext::new(account(2, 102), &NamedKeys::new(), vec![], r, 5);
    assert_eq!(ctx.authorize(vec![pk(2)]), Ok(()));
}

#[test]
fn transfer_contract_edge_cases() {
    let (mut store, r) = two_accounts();
    let dest = || CLValue::Key(Key::Account(pk(2)));

    let mut ctx = running(account(1, 101), vec![dest(), CLValue::Unit], r, 10);
    transfer_purse_to_account::transfer(&mut ctx, &store, addr(800), addr(801));
    assert_eq!(ctx.phase(), Phase::Failed(ExecError::InvalidArgument));

    let mut ctx = running(account(1, 101), vec![dest(), CLValue::Int(5)], r, 10);
    transfer_purse_to_account::transfer(&mut ctx, &store, addr(800), addr(800));
    assert_eq!(ctx.phase(), Phase::Failed(ExecError::AddressInUse));

    // a purse with no balance reverts
    let mut ctx = running(account(1, 555), vec![dest(), CLValue::Int(5)], r, 10);
    transfer_purse_to_account::transfer(&mut ctx, &store, addr(800), addr(801));
    assert_eq!(ctx.phase(), Phase::Reverted(103));

    // short of funds: still running, balance filed unchanged, no purse effect
    let mut ctx = running(account(1, 101), vec![dest(), CLValue::Int(51)], r, 10);
    transfer_purse_to_account::transfer(&mut ctx, &store, addr(800), addr(801));
    assert_eq!(ctx.phase(), Phase::Running);
    let res = ctx.finish();
    assert_eq!(res.effects.len(), 3);
    let r1 = store.commit(r, res.effects).unwrap();
    let balance = store.query(r1, Key::Account(pk(1)), &vec!["final_balance".to_string()]).unwrap();
    assert_eq!(int_of(Some(balance)), Some(50));
    assert_eq!(int_of(store.get(r1, Key::URef(uref(101, AccessRights::none())))), Some(50));
    assert_eq!(int_of(store.get(r1, Key::URef(uref(102, AccessRights::none())))), Some(0));
}

#[test]
fn transfer_contract_store_refuses_used_address() {
    let (store, r) = two_accounts();
    let mut ctx = running(account(1, 101), vec![], r, 10);
    transfer_purse_to_account::call(&mut ctx, &store, addr(102), vec![1]);
    assert_eq!(ctx.phase(), Phase::Failed(ExecError::AddressInUse));
    assert!(ctx.finish().effects.is_empty());
}
