//! Linked devices: the other identities the same principal controls.
//!
//! The directory that resolves them is an outside collaborator; the engine
//! takes the resolved set as a plain list. Linked devices are implicit
//! recipients of every event, and an agent's own identity always counts
//! among its principal's agents.

use vstd::prelude::*;

use crate::types::AgentId;

verus! {

/// All agents of the principal that controls the given agent: the resolved
/// linked devices plus the agent itself.
pub fn get_all_agents_for(linked_devices: &Vec<AgentId>, agent: AgentId) -> (r: Vec<AgentId>)
    ensures
        r@ == linked_devices@.push(agent),
{
    let mut r = crate::types::clone_agents(linked_devices);
    r.push(agent);
    r
}

/// All agents of this principal: this agent's resolved linked devices plus
/// this agent itself.
pub fn query_all_my_agents(
    store: &crate::store::EventStore,
    my_linked_devices: &Vec<AgentId>,
) -> (r: Vec<AgentId>)
    ensures
        r@ == my_linked_devices@.push(store.my_pub_key),
{
    get_all_agents_for(my_linked_devices, store.my_pub_key)
}

} // verus!
