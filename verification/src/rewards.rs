//! The rewards-sweep collaborator's message shapes and its one decision:
//! forwarding its accumulated balance back to the hub, for the hub alone.

use vstd::prelude::*;
use crate::types::HubError;

verus! {

/// The queries the rewards sweeper answers.
pub enum QueryMsg {
    Config,
    Admin,
}

/// The sweeper's wiring visible to queries.
#[derive(Clone, PartialEq, Eq, Debug)]
pub struct ConfigResponse {
    pub hub_contract: String,
}

/// A migration carries nothing.
#[derive(Clone, Copy, PartialEq, Eq, Structural, Debug)]
pub struct MigrateMsg {}

/// The forward the sweeper emits: its whole balance, attached to the hub's
/// apply-phase call.
#[derive(Clone, PartialEq, Eq, Debug)]
pub struct RewardsForward {
    pub hub_contract: String,
    pub amount: u128,
}

/// Decide the rewards sweep: only the hub may trigger it, and the whole
/// accumulated balance is forwarded to the hub's apply phase.
pub fn process_rewards(sender: &String, hub_contract: &String, balance: u128) -> (r: Result<
    RewardsForward,
    HubError,
>)
    ensures
        sender@ != hub_contract@ ==> r == Result::<RewardsForward, HubError>::Err(
            HubError::Unauthorized,
        ),
        sender@ == hub_contract@ ==> (r is Ok && r->Ok_0.hub_contract@ == hub_contract@
            && r->Ok_0.amount == balance),
{
    if !(*sender == *hub_contract) {
        return Err(HubError::Unauthorized);
    }
    Ok(RewardsForward { hub_contract: hub_contract.clone(), amount: balance })
}

} // verus!
