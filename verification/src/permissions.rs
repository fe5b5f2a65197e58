//! Permission bits, access restrictions, security modes and attribute ids.

use vstd::prelude::*;
use crate::node_id::{NodeId, NodeIdView};

verus! {

/// Bits of the `PermissionType` option set (OPC UA Part 3, 8.55).
pub const PERMISSION_BROWSE: u32 = 1;
pub const PERMISSION_READ_ROLE_PERMISSIONS: u32 = 2;
pub const PERMISSION_WRITE_ATTRIBUTE: u32 = 4;
pub const PERMISSION_WRITE_ROLE_PERMISSIONS: u32 = 8;
pub const PERMISSION_WRITE_HISTORIZING: u32 = 16;
pub const PERMISSION_READ: u32 = 32;
pub const PERMISSION_WRITE: u32 = 64;
pub const PERMISSION_READ_HISTORY: u32 = 128;
pub const PERMISSION_INSERT_HISTORY: u32 = 256;
pub const PERMISSION_MODIFY_HISTORY: u32 = 512;
pub const PERMISSION_DELETE_HISTORY: u32 = 1024;
pub const PERMISSION_RECEIVE_EVENTS: u32 = 2048;
pub const PERMISSION_CALL: u32 = 4096;
pub const PERMISSION_ADD_REFERENCE: u32 = 8192;
pub const PERMISSION_REMOVE_REFERENCE: u32 = 16384;
pub const PERMISSION_DELETE_NODE: u32 = 32768;
pub const PERMISSION_ADD_NODE: u32 = 65536;

/// A set of permissions, held as the bits of the `PermissionType` option set.
#[derive(Debug, Clone, Copy, PartialEq, Eq, Structural)]
pub struct PermissionType {
    pub bits: u32,
}

/// Whether the permission bits `granted` include every bit of `required`.
pub open spec fn bits_contain(granted: u32, required: u32) -> bool {
    granted & required == required
}

impl PermissionType {
    /// The empty permission set.
    pub fn empty() -> (r: PermissionType)
        ensures
            r.bits == 0,
    {
        PermissionType { bits: 0 }
    }

    /// The permission set with exactly the given bits.
    pub fn from_bits(bits: u32) -> (r: PermissionType)
        ensures
            r.bits == bits,
    {
        PermissionType { bits }
    }

    /// The union of two permission sets.
    pub fn union(self, other: PermissionType) -> (r: PermissionType)
        ensures
            r.bits == self.bits | other.bits,
    {
        PermissionType { bits: self.bits | other.bits }
    }

    /// Whether every permission of `required` is in this set.
    pub fn contains(self, required: PermissionType) -> (r: bool)
        ensures
            r == bits_contain(self.bits, required.bits),
    {
        self.bits & required.bits == required.bits
    }
}

/// Bits of the `AccessRestrictionType` option set (OPC UA Part 3, 8.56).
pub const RESTRICTION_SIGNING_REQUIRED: u16 = 1;
pub const RESTRICTION_ENCRYPTION_REQUIRED: u16 = 2;
pub const RESTRICTION_SESSION_REQUIRED: u16 = 4;
pub const RESTRICTION_APPLY_TO_BROWSE: u16 = 8;

/// A set of access restrictions, held as the bits of the `AccessRestrictionType` option set.
#[derive(Debug, Clone, Copy, PartialEq, Eq, Structural)]
pub struct AccessRestrictionType {
    pub bits: u16,
}

impl AccessRestrictionType {
    /// The restriction set with exactly the given bits.
    pub fn from_bits(bits: u16) -> (r: AccessRestrictionType)
        ensures
            r.bits == bits,
    {
        AccessRestrictionType { bits }
    }

    /// Whether every bit of `flag` is set.
    pub fn contains(self, flag: u16) -> (r: bool)
        ensures
            r == (self.bits & flag == flag),
    {
        self.bits & flag == flag
    }
}

/// The security mode of a secure channel.
#[derive(Debug, Clone, Copy, PartialEq, Eq, Structural)]
pub enum MessageSecurityMode {
    Invalid,
    NoSecurity,
    Sign,
    SignAndEncrypt,
}

/// The attributes of a node (OPC UA Part 6, A.1).
#[derive(Debug, Clone, Copy, PartialEq, Eq, Structural)]
pub enum AttributeId {
    NodeId,
    NodeClass,
    BrowseName,
    DisplayName,
    Description,
    WriteMask,
    UserWriteMask,
    IsAbstract,
    Symmetric,
    InverseName,
    ContainsNoLoops,
    EventNotifier,
    Value,
    DataType,
    ValueRank,
    ArrayDimensions,
    AccessLevel,
    UserAccessLevel,
    MinimumSamplingInterval,
    Historizing,
    Executable,
    UserExecutable,
    DataTypeDefinition,
    RolePermissions,
    UserRolePermissions,
    AccessRestrictions,
    AccessLevelEx,
}

/// The permissions a role holds on a node.
#[derive(Debug)]
pub struct RolePermission {
    pub role_id: NodeId,
    pub permissions: PermissionType,
}

/// Mathematical view of a [`RolePermission`].
pub struct RolePermissionView {
    pub role_id: NodeIdView,
    pub bits: u32,
}

impl View for RolePermission {
    type V = RolePermissionView;

    open spec fn view(&self) -> RolePermissionView {
        RolePermissionView { role_id: self.role_id@, bits: self.permissions.bits }
    }
}

/// The views of a sequence of role permissions.
pub open spec fn grant_views(grants: Seq<RolePermission>) -> Seq<RolePermissionView> {
    grants.map_values(|g: RolePermission| g@)
}

impl RolePermission {
    /// A role permission entry.
    pub fn new(role_id: NodeId, permissions: PermissionType) -> (r: RolePermission)
        ensures
            r@ == (RolePermissionView { role_id: role_id@, bits: permissions.bits }),
    {
        RolePermission { role_id, permissions }
    }

    /// A copy of the entry.
    pub fn duplicate(&self) -> (r: RolePermission)
        ensures
            r@ == self@,
    {
        RolePermission { role_id: self.role_id.duplicate(), permissions: self.permissions }
    }
}

/// A copy of a list of role permissions.
pub fn duplicate_grants(grants: &[RolePermission]) -> (r: Vec<RolePermission>)
    ensures
        grant_views(r@) == grant_views(grants@),
{
    let mut r: Vec<RolePermission> = Vec::new();
    let mut i: usize = 0;
    while i < grants.len()
        invariant
            i <= grants.len(),
            r.len() == i,
            forall|j: int| 0 <= j < i ==> r@[j]@ == grants@[j]@,
        decreases grants.len() - i,
    {
        r.push(grants[i].duplicate());
        i = i + 1;
    }
    assert(grant_views(r@) =~= grant_views(grants@));
    r
}

} // verus!
