use vstd::prelude::*;
use crate::capability::check_result;
use crate::executor::{access_error, fresh, full_uref, lemma_minted_usable, pending_int, transfer_effects, ExecError, ExecutionContext, Phase};
use crate::keys::{normalized, AccessRights, Address, Key, URef, READ, WRITE};
use crate::store::{CLValue, Contract, GlobalState, Op, StoredValue};
use crate::named_keys::NamedKeys;
use crate::semver::SemVer;

verus! {

/// The text that records how a transfer ended.
pub open spec fn result_text(r: Result<(), ExecError>) -> Seq<char> {
    match r {
        Ok(()) => "Ok"@,
        Err(ExecError::ForgedReference) => "Err(ForgedReference)"@,
        Err(ExecError::InvalidAccess) => "Err(InvalidAccess)"@,
        Err(ExecError::MissingArgument) => "Err(MissingArgument)"@,
        Err(ExecError::InvalidArgument) => "Err(InvalidArgument)"@,
        Err(ExecError::DeploymentAuthorizationFailure) => "Err(DeploymentAuthorizationFailure)"@,
        Err(ExecError::OutOfGas) => "Err(OutOfGas)"@,
        Err(ExecError::NotFound) => "Err(NotFound)"@,
        Err(ExecError::InsufficientFunds) => "Err(InsufficientFunds)"@,
        Err(ExecError::AddressInUse) => "Err(AddressInUse)"@,
    }
}

pub fn transfer_result_text(r: &Result<(), ExecError>) -> (t: String)
    ensures
        t@ == result_text(*r),
{
    match r {
        Ok(()) => "Ok".to_owned(),
        Err(ExecError::ForgedReference) => "Err(ForgedReference)".to_owned(),
        Err(ExecError::InvalidAccess) => "Err(InvalidAccess)".to_owned(),
        Err(ExecError::MissingArgument) => "Err(MissingArgument)".to_owned(),
        Err(ExecError::InvalidArgument) => "Err(InvalidArgument)".to_owned(),
        Err(ExecError::DeploymentAuthorizationFailure) => "Err(DeploymentAuthorizationFailure)".to_owned(),
        Err(ExecError::OutOfGas) => "Err(OutOfGas)".to_owned(),
        Err(ExecError::NotFound) => "Err(NotFound)".to_owned(),
        Err(ExecError::InsufficientFunds) => "Err(InsufficientFunds)".to_owned(),
        Err(ExecError::AddressInUse) => "Err(AddressInUse)".to_owned(),
    }
}

/// `e` writes, under `u`, a string that holds `text`.
pub open spec fn writes_text(e: (Key, Op), u: URef, text: Seq<char>) -> bool {
    e.0 == Key::URef(u) && (e.1 is Write && e.1->Write_0 is CLValue && e.1->Write_0->CLValue_0 is Str
        && e.1->Write_0->CLValue_0->Str_0@ == text)
}

/// `e` writes, under `u`, a contract with code `code`, no named keys and
/// version 1.0.0.
pub open spec fn stores_contract(e: (Key, Op), u: URef, code: Seq<u8>) -> bool {
    e.0 == Key::URef(u) && (e.1 is Write && e.1->Write_0 is Contract && {
        let c = e.1->Write_0->Contract_0;
        &&& c.bytes@ == code
        &&& c.named_keys.view().len() == 0
        &&& c.protocol_version == SemVer { major: 1, minor: 0, patch: 0 }
    })
}

/// The code a deploy reverts with when its purse holds no balance.
pub const NO_BALANCE: u32 = 103;

/// Transfers the second argument's amount from the account's main purse to
/// the account that the first argument names, then files the outcome under
/// `transfer_result` and the purse's balance under `final_balance`, each in a
/// new reference at the fresh addresses given.
pub fn transfer(ctx: &mut ExecutionContext, store: &GlobalState, result_addr: Address, balance_addr: Address)
    requires
        old(ctx).phase_spec() == Phase::Running,
        old(ctx).wf(),
    ensures
        final(ctx).wf(),
        final(ctx).root_spec() == old(ctx).root_spec(),
        final(ctx).phase_spec() != Phase::Created,
        final(ctx).phase_spec() != Phase::Authorized,
        ({
            let args = old(ctx).args_spec();
            let known = old(ctx).known();
            let nodes = store.nodes();
            let root = old(ctx).root_spec().index as nat;
            let src = old(ctx).account_spec().main_purse;
            let e0 = old(ctx).effects_spec();
            if args.len() == 0 {
                final(ctx).phase_spec() == Phase::Failed(ExecError::MissingArgument) && final(ctx).effects_spec() == e0
            } else if !(args[0] is Key && args[0]->Key_0 is Account) {
                final(ctx).phase_spec() == Phase::Failed(ExecError::InvalidArgument) && final(ctx).effects_spec() == e0
            } else if args.len() == 1 {
                final(ctx).phase_spec() == Phase::Failed(ExecError::MissingArgument) && final(ctx).effects_spec() == e0
            } else if !(args[1] is Int) {
                final(ctx).phase_spec() == Phase::Failed(ExecError::InvalidArgument) && final(ctx).effects_spec() == e0
            } else {
                let dest = args[0]->Key_0->Account_0;
                let amount = args[1]->Int_0;
                match check_result(known, src, AccessRights { bits: WRITE }) {
                    Err(e) => final(ctx).phase_spec() == Phase::Failed(access_error(e))
                        && final(ctx).effects_spec() == e0,
                    Ok(_) => {
                        let (t, e1) = transfer_effects(nodes, root, e0, src, dest, amount);
                        match check_result(known, src, AccessRights { bits: READ }) {
                            Err(e) => final(ctx).phase_spec() == Phase::Failed(access_error(e))
                                && final(ctx).effects_spec() == e1,
                            Ok(_) => match pending_int(nodes, root, e1, normalized(Key::URef(src))) {
                                None => final(ctx).phase_spec() == Phase::Reverted(NO_BALANCE)
                                    && final(ctx).effects_spec() == e1,
                                Some(b) => {
                                    let u_r = full_uref(result_addr);
                                    let u_b = full_uref(balance_addr);
                                    if !fresh(nodes, root, known, u_r) {
                                        final(ctx).phase_spec() == Phase::Failed(ExecError::AddressInUse)
                                            && final(ctx).effects_spec() == e1
                                    } else if !fresh(nodes, root, known.push(u_r), u_b) {
                                        final(ctx).phase_spec() == Phase::Failed(ExecError::AddressInUse)
                                            && final(ctx).effects_spec().len() == e1.len() + 1
                                            && final(ctx).effects_spec().subrange(0, e1.len() as int) == e1
                                            && writes_text(final(ctx).effects_spec()[e1.len() as int], u_r, result_text(t))
                                    } else {
                                        &&& final(ctx).phase_spec() == Phase::Running
                                        &&& final(ctx).known() == known.push(u_r).push(u_b)
                                        &&& final(ctx).effects_spec().len() == e1.len() + 2
                                        &&& final(ctx).effects_spec().subrange(0, e1.len() as int) == e1
                                        &&& writes_text(final(ctx).effects_spec()[e1.len() as int], u_r, result_text(t))
                                        &&& final(ctx).effects_spec()[e1.len() as int + 1]
                                            == (Key::URef(u_b), Op::Write(StoredValue::CLValue(CLValue::Int(b))))
                                        &&& final(ctx).account_spec().named_keys.get_spec("transfer_result"@) == Some(Key::URef(u_r))
                                        &&& final(ctx).account_spec().named_keys.get_spec("final_balance"@) == Some(Key::URef(u_b))
                                    }
                                },
                            },
                        }
                    },
                }
            }
        }),
{
    let source = ctx.main_purse();
    let destination = match ctx.get_arg_key(0) {
        Ok(Key::Account(pk)) => pk,
        Ok(_) => {
            ctx.fail(ExecError::InvalidArgument);
            return;
        },
        Err(e) => {
            ctx.fail(e);
            return;
        },
    };
    let amount = match ctx.get_arg_int(1) {
        Ok(a) => a,
        Err(e) => {
            ctx.fail(e);
            return;
        },
    };
    let transfer_result = ctx.transfer_from_purse_to_account(store, source, destination, amount);
    let ghost e1 = ctx.effects_spec();
    if ctx.phase() != Phase::Running {
        return;
    }
    let final_balance = match ctx.get_balance(store, source) {
        Ok(Some(b)) => b,
        Ok(None) => {
            ctx.revert(NO_BALANCE);
            return;
        },
        Err(_) => return,
    };
    let text = transfer_result_text(&transfer_result);
    let ghost held = ctx.known();
    let result_uref = match ctx.new_uref(store, result_addr, StoredValue::CLValue(CLValue::Str(text))) {
        Ok(u) => u,
        Err(e) => {
            ctx.fail(e);
            return;
        },
    };
    let ghost e1w = ctx.effects_spec();
    proof {
        lemma_minted_usable(held, result_uref);
        assert(e1w.subrange(0, e1.len() as int) =~= e1);
    }
    if ctx.put_key("transfer_result".to_owned(), Key::URef(result_uref)).is_err() {
        return;
    }
    let ghost held = ctx.known();
    let balance_uref = match ctx.new_uref(store, balance_addr, StoredValue::CLValue(CLValue::Int(final_balance))) {
        Ok(u) => u,
        Err(e) => {
            ctx.fail(e);
            return;
        },
    };
    proof {
        lemma_minted_usable(held, balance_uref);
    }
    let ghost e2 = ctx.effects_spec();
    if ctx.put_key("final_balance".to_owned(), Key::URef(balance_uref)).is_err() {
        return;
    }
    proof {
        reveal_strlit("transfer_result");
        reveal_strlit("final_balance");
        assert("transfer_result"@.len() != "final_balance"@.len());
        assert(e2.subrange(0, e1.len() as int) =~= e1);
        assert(e2[e1.len() as int] == e1w[e1.len() as int]);
    }
}

/// Stores the transfer function, given as `code`, in a new reference at the
/// fresh address `addr`, and files it under `transfer_purse_to_account`.
pub fn call(ctx: &mut ExecutionContext, store: &GlobalState, addr: Address, code: Vec<u8>)
    requires
        old(ctx).phase_spec() == Phase::Running,
        old(ctx).wf(),
    ensures
        final(ctx).wf(),
        final(ctx).root_spec() == old(ctx).root_spec(),
        final(ctx).phase_spec() != Phase::Created,
        final(ctx).phase_spec() != Phase::Authorized,
        ({
            let u = full_uref(addr);
            let e0 = old(ctx).effects_spec();
            if fresh(store.nodes(), old(ctx).root_spec().index as nat, old(ctx).known(), u) {
                &&& final(ctx).phase_spec() == Phase::Running
                &&& final(ctx).known() == old(ctx).known().push(u)
                &&& final(ctx).effects_spec().len() == e0.len() + 1
                &&& final(ctx).effects_spec().subrange(0, e0.len() as int) == e0
                &&& stores_contract(final(ctx).effects_spec()[e0.len() as int], u, code@)
                &&& final(ctx).account_spec().named_keys.get_spec("transfer_purse_to_account"@) == Some(Key::URef(u))
                &&& forall|n: Seq<char>| n != "transfer_purse_to_account"@
                    ==> #[trigger] final(ctx).account_spec().named_keys.get_spec(n)
                        == old(ctx).account_spec().named_keys.get_spec(n)
            } else {
                &&& final(ctx).phase_spec() == Phase::Failed(ExecError::AddressInUse)
                &&& final(ctx).known() == old(ctx).known()
                &&& final(ctx).effects_spec() == e0
            }
        }),
{
    let contract = Contract { bytes: code, named_keys: NamedKeys::new(), protocol_version: SemVer::V1_0_0() };
    let ghost e0 = ctx.effects_spec();
    let key = match ctx.new_uref(store, addr, StoredValue::Contract(contract)) {
        Ok(u) => u,
        Err(e) => {
            ctx.fail(e);
            return;
        },
    };
    proof {
        lemma_minted_usable(old(ctx).known(), key);
    }
    let ghost e1 = ctx.effects_spec();
    let _ = ctx.put_key("transfer_purse_to_account".to_owned(), Key::URef(key));
    proof {
        assert(e1.subrange(0, e0.len() as int) =~= e0);
    }
}

} // verus!
