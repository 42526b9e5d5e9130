use vstd::prelude::*;
use crate::account::{total_weight, signed_weight, ActionType};
use crate::executor::{arg_weight, ExecutionContext, Phase};

verus! {

/// The code a deploy reverts with when the key-management threshold is refused.
pub const KEY_MANAGEMENT_REFUSED: u32 = 100;
/// The code a deploy reverts with when the deployment threshold is refused.
pub const DEPLOYMENT_REFUSED: u32 = 200;

/// Sets the account's key-management threshold to the second argument and
/// then its deployment threshold to the first, reverting where one is refused.
pub fn call(ctx: &mut ExecutionContext)
    requires
        old(ctx).phase_spec() == Phase::Running,
        old(ctx).wf(),
    ensures
        final(ctx).wf(),
        final(ctx).effects_spec() == old(ctx).effects_spec(),
        final(ctx).known() == old(ctx).known(),
        final(ctx).account_spec().keys() == old(ctx).account_spec().keys(),
        ({
            let args = old(ctx).args_spec();
            let keys = old(ctx).account_spec().keys();
            let signed = signed_weight(keys, old(ctx).signers_spec());
            let total = total_weight(keys);
            match (arg_weight(args, 0), arg_weight(args, 1)) {
                (Err(e), _) => final(ctx).phase_spec() == Phase::Failed(e),
                (Ok(_), Err(e)) => final(ctx).phase_spec() == Phase::Failed(e),
                (Ok(deploy), Ok(key_management)) => if signed < old(ctx).account_spec().thresholds().key_management as nat
                    || key_management as nat > total {
                    final(ctx).phase_spec() == Phase::Reverted(KEY_MANAGEMENT_REFUSED)
                        && final(ctx).account_spec().thresholds() == old(ctx).account_spec().thresholds()
                } else if signed < key_management as nat || deploy as nat > total {
                    final(ctx).phase_spec() == Phase::Reverted(DEPLOYMENT_REFUSED)
                        && final(ctx).account_spec().thresholds().key_management == key_management
                } else {
                    final(ctx).phase_spec() == Phase::Running
                        && final(ctx).account_spec().thresholds().key_management == key_management
                        && final(ctx).account_spec().thresholds().deployment == deploy
                },
            }
        }),
{
    let deploy_threshold = match ctx.get_arg_weight(0) {
        Ok(w) => w,
        Err(e) => {
            ctx.fail(e);
            return;
        },
    };
    let key_management_threshold = match ctx.get_arg_weight(1) {
        Ok(w) => w,
        Err(e) => {
            ctx.fail(e);
            return;
        },
    };
    if ctx.set_action_threshold(ActionType::KeyManagement, key_management_threshold).is_err() {
        ctx.revert(KEY_MANAGEMENT_REFUSED);
        return;
    }
    if ctx.set_action_threshold(ActionType::Deployment, deploy_threshold).is_err() {
        ctx.revert(DEPLOYMENT_REFUSED);
    }
}

} // verus!
