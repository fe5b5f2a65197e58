//! Role-based access control: well-known roles, permission decisions, namespace
//! defaults, permission presets, identity mapping rules, role resolution and the
//! RoleSet management methods.

pub mod decision;
pub mod defaults;
pub mod preset;
pub mod rules;
pub mod resolver;
pub mod role_management;
pub mod role_methods;

use vstd::prelude::*;
use crate::node_id::{NodeId, NodeIdView, numeric_view};

verus! {

/// Numeric ids (namespace 0) of the well-known role objects.
pub const WELL_KNOWN_ROLE_ANONYMOUS_ID: u32 = 15644;
pub const WELL_KNOWN_ROLE_AUTHENTICATED_USER_ID: u32 = 15656;
pub const WELL_KNOWN_ROLE_OBSERVER_ID: u32 = 15668;
pub const WELL_KNOWN_ROLE_OPERATOR_ID: u32 = 15680;
pub const WELL_KNOWN_ROLE_ENGINEER_ID: u32 = 16036;
pub const WELL_KNOWN_ROLE_SUPERVISOR_ID: u32 = 15692;
pub const WELL_KNOWN_ROLE_CONFIGURE_ADMIN_ID: u32 = 15716;
pub const WELL_KNOWN_ROLE_SECURITY_ADMIN_ID: u32 = 15704;

/// Standard OPC UA well-known roles used by RoleSet.
#[derive(Debug, Clone, Copy, PartialEq, Eq, Structural)]
pub enum WellKnownRole {
    Anonymous,
    AuthenticatedUser,
    Observer,
    Operator,
    Engineer,
    Supervisor,
    ConfigureAdmin,
    SecurityAdmin,
}

/// The numeric id (namespace 0) of a well-known role.
pub open spec fn role_numeric_id(role: WellKnownRole) -> u32 {
    match role {
        WellKnownRole::Anonymous => WELL_KNOWN_ROLE_ANONYMOUS_ID,
        WellKnownRole::AuthenticatedUser => WELL_KNOWN_ROLE_AUTHENTICATED_USER_ID,
        WellKnownRole::Observer => WELL_KNOWN_ROLE_OBSERVER_ID,
        WellKnownRole::Operator => WELL_KNOWN_ROLE_OPERATOR_ID,
        WellKnownRole::Engineer => WELL_KNOWN_ROLE_ENGINEER_ID,
        WellKnownRole::Supervisor => WELL_KNOWN_ROLE_SUPERVISOR_ID,
        WellKnownRole::ConfigureAdmin => WELL_KNOWN_ROLE_CONFIGURE_ADMIN_ID,
        WellKnownRole::SecurityAdmin => WELL_KNOWN_ROLE_SECURITY_ADMIN_ID,
    }
}

/// The node id of a well-known role.
pub open spec fn role_id_view(role: WellKnownRole) -> NodeIdView {
    numeric_view(0, role_numeric_id(role))
}

/// All well-known roles, in RoleSet order.
pub open spec fn all_roles() -> Seq<WellKnownRole> {
    seq![
        WellKnownRole::Anonymous,
        WellKnownRole::AuthenticatedUser,
        WellKnownRole::Observer,
        WellKnownRole::Operator,
        WellKnownRole::Engineer,
        WellKnownRole::Supervisor,
        WellKnownRole::ConfigureAdmin,
        WellKnownRole::SecurityAdmin,
    ]
}

impl WellKnownRole {
    /// All well-known roles, in RoleSet order.
    pub fn all() -> (r: Vec<WellKnownRole>)
        ensures
            r@ == all_roles(),
    {
        let r = vec![
            WellKnownRole::Anonymous,
            WellKnownRole::AuthenticatedUser,
            WellKnownRole::Observer,
            WellKnownRole::Operator,
            WellKnownRole::Engineer,
            WellKnownRole::Supervisor,
            WellKnownRole::ConfigureAdmin,
            WellKnownRole::SecurityAdmin,
        ];
        assert(r@ =~= all_roles());
        r
    }

    /// The standard namespace 0 node id of this well-known role.
    pub fn node_id(self) -> (r: NodeId)
        ensures
            r@ == role_id_view(self),
    {
        let n: u32 = match self {
            WellKnownRole::Anonymous => WELL_KNOWN_ROLE_ANONYMOUS_ID,
            WellKnownRole::AuthenticatedUser => WELL_KNOWN_ROLE_AUTHENTICATED_USER_ID,
            WellKnownRole::Observer => WELL_KNOWN_ROLE_OBSERVER_ID,
            WellKnownRole::Operator => WELL_KNOWN_ROLE_OPERATOR_ID,
            WellKnownRole::Engineer => WELL_KNOWN_ROLE_ENGINEER_ID,
            WellKnownRole::Supervisor => WELL_KNOWN_ROLE_SUPERVISOR_ID,
            WellKnownRole::ConfigureAdmin => WELL_KNOWN_ROLE_CONFIGURE_ADMIN_ID,
            WellKnownRole::SecurityAdmin => WELL_KNOWN_ROLE_SECURITY_ADMIN_ID,
        };
        NodeId::numeric(0, n)
    }
}

/// Distinct well-known roles have distinct node ids.
pub proof fn lemma_role_ids_distinct(a: WellKnownRole, b: WellKnownRole)
    requires
        a != b,
    ensures
        role_id_view(a) != role_id_view(b),
{
}

} // verus!
