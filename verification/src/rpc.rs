//! The decisions behind the remote-control surface: what each call answers
//! when a capability is missing or an argument does not name an action.
//! Marshalling itself is the transport's business and stays outside.

use vstd::prelude::*;

use crate::power::PowerAction;

verus! {

/// How a power-action request is answered before anything is performed.
#[derive(Debug, Clone, Copy, PartialEq, Eq, Structural)]
pub enum RpcPowerOutcome {
    /// No power manager is available: the call is unimplemented.
    Unimplemented,
    /// The request named no known action: the argument is invalid.
    InvalidArgument,
    /// The action is handed to the power manager.
    Proceed(PowerAction),
}

/// Decides a perform-power-action request: without a power manager it is
/// unimplemented; with one, an unrecognised action code is an invalid
/// argument and a recognised one proceeds.
pub fn plan_power_action_request(manager_present: bool, action: Option<PowerAction>) -> (r:
    RpcPowerOutcome)
    ensures
        !manager_present ==> r == RpcPowerOutcome::Unimplemented,
        manager_present && action is None ==> r == RpcPowerOutcome::InvalidArgument,
        manager_present && action is Some ==> r == RpcPowerOutcome::Proceed(action->0),
{
    if !manager_present {
        return RpcPowerOutcome::Unimplemented;
    }
    match action {
        None => RpcPowerOutcome::InvalidArgument,
        Some(a) => RpcPowerOutcome::Proceed(a),
    }
}

/// Decides a supported-actions query: without a power manager the answer is
/// the empty list; with one, the manager's own list.
pub fn plan_supported_actions_response(manager_present: bool, actions: Vec<PowerAction>) -> (r:
    Vec<PowerAction>)
    ensures
        manager_present ==> r@ == actions@,
        !manager_present ==> r@ == Seq::<PowerAction>::empty(),
{
    if manager_present {
        actions
    } else {
        let empty: Vec<PowerAction> = Vec::new();
        proof {
            assert(empty@ =~= Seq::<PowerAction>::empty());
        }
        empty
    }
}

} // verus!
