//! Node management services of the in-memory node manager (AddNodes, DeleteNodes,
//! AddReferences, DeleteReferences), the view services (Browse, TranslateBrowsePaths)
//! and the type rules they enforce.

pub mod types;
pub mod attributes;
pub mod crud;
pub mod laws;
pub mod references;
pub mod browse;
pub mod history;
pub mod server_values;
pub mod server_status;
pub mod methods;
pub mod audit;
pub mod quick;
pub mod write;
pub mod model_change;

use vstd::prelude::*;
use crate::address_space::{find_node, node_authorized, AddressSpace, SpaceView};
use crate::node_id::{NodeId, NodeIdView};
use crate::permissions::PermissionType;
use crate::rbac::decision::AccessContext;

verus! {

/// What a node-management request brings: the session's access context and whether
/// the server lets clients modify its address space.
#[derive(Debug)]
pub struct NodeManagementContext {
    pub access: AccessContext,
    pub clients_can_modify_address_space: bool,
}

/// Whether the session may apply a change needing `required` to the node `id`: a node
/// the address space does not hold is not judged here.
pub open spec fn may_manage(ctx: NodeManagementContext, s: SpaceView, id: NodeIdView, required: u32) -> bool {
    match find_node(s, id) {
        Some(n) => node_authorized(ctx.access, n, required),
        None => true,
    }
}

/// Whether the session may apply a change needing `required` to `node_id` (see
/// [`may_manage`]).
pub fn authorize_node_management_permission(
    ctx: &NodeManagementContext,
    address_space: &AddressSpace,
    node_id: &NodeId,
    required: PermissionType,
) -> (r: bool)
    ensures
        r == may_manage(*ctx, address_space@, node_id@, required.bits),
{
    match address_space.find(node_id) {
        Some(i) => address_space.node_at(i).authorize(&ctx.access, required),
        None => true,
    }
}

} // verus!
