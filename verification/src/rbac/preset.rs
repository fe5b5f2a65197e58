//! Opt-in role permission presets.
//!
//! The secure preset maps the well-known role suggestions of OPC UA Part 3, 4.9.2,
//! Table 2, to the concrete PermissionType bits of Part 3, 8.55, Table 38.

use vstd::prelude::*;
use crate::permissions::{
    PermissionType, RolePermission, RolePermissionView, grant_views, PERMISSION_ADD_NODE,
    PERMISSION_ADD_REFERENCE, PERMISSION_BROWSE, PERMISSION_CALL, PERMISSION_DELETE_HISTORY,
    PERMISSION_DELETE_NODE, PERMISSION_INSERT_HISTORY, PERMISSION_MODIFY_HISTORY, PERMISSION_READ,
    PERMISSION_READ_HISTORY, PERMISSION_READ_ROLE_PERMISSIONS, PERMISSION_RECEIVE_EVENTS,
    PERMISSION_REMOVE_REFERENCE, PERMISSION_WRITE, PERMISSION_WRITE_ATTRIBUTE,
    PERMISSION_WRITE_HISTORIZING, PERMISSION_WRITE_ROLE_PERMISSIONS,
};
use crate::rbac::{WellKnownRole, role_id_view};

verus! {

/// Anonymous: browse and read, including the RolePermissions attribute.
pub open spec fn anonymous_bits() -> u32 {
    PERMISSION_BROWSE | PERMISSION_READ | PERMISSION_READ_ROLE_PERMISSIONS
}

/// Observer: browse, read current values and history, receive events.
pub open spec fn observer_bits() -> u32 {
    PERMISSION_BROWSE | PERMISSION_READ | PERMISSION_READ_HISTORY | PERMISSION_RECEIVE_EVENTS
}

/// Operator: Observer plus live value writes and method calls.
pub open spec fn operator_bits() -> u32 {
    observer_bits() | PERMISSION_WRITE | PERMISSION_CALL
}

/// Engineer: Operator plus configuration and history-write permissions.
pub open spec fn engineer_bits() -> u32 {
    operator_bits() | PERMISSION_WRITE_ATTRIBUTE | PERMISSION_WRITE_HISTORIZING
        | PERMISSION_INSERT_HISTORY | PERMISSION_MODIFY_HISTORY | PERMISSION_DELETE_HISTORY
}

/// ConfigureAdmin: non-security configuration changes.
pub open spec fn configure_admin_bits() -> u32 {
    PERMISSION_BROWSE | PERMISSION_READ | PERMISSION_WRITE | PERMISSION_WRITE_ATTRIBUTE
        | PERMISSION_ADD_NODE | PERMISSION_DELETE_NODE | PERMISSION_ADD_REFERENCE
        | PERMISSION_REMOVE_REFERENCE
}

/// SecurityAdmin: read and write the security-related role permissions.
pub open spec fn security_admin_bits() -> u32 {
    PERMISSION_BROWSE | PERMISSION_READ | PERMISSION_READ_ROLE_PERMISSIONS
        | PERMISSION_WRITE_ROLE_PERMISSIONS
}

/// The preset permission bits of each well-known role.
pub open spec fn preset_bits(role: WellKnownRole) -> u32 {
    match role {
        WellKnownRole::Anonymous => anonymous_bits(),
        WellKnownRole::AuthenticatedUser => anonymous_bits(),
        WellKnownRole::Observer => observer_bits(),
        WellKnownRole::Operator => operator_bits(),
        WellKnownRole::Engineer => engineer_bits(),
        WellKnownRole::Supervisor => operator_bits(),
        WellKnownRole::ConfigureAdmin => configure_admin_bits(),
        WellKnownRole::SecurityAdmin => security_admin_bits(),
    }
}

/// The entry of the secure preset for `role`.
pub open spec fn preset_entry(role: WellKnownRole) -> RolePermissionView {
    RolePermissionView { role_id: role_id_view(role), bits: preset_bits(role) }
}

/// Anonymous can browse and read only, including the RolePermissions attribute.
pub fn anonymous_permissions() -> (r: PermissionType)
    ensures
        r.bits == anonymous_bits(),
{
    PermissionType::from_bits(PERMISSION_BROWSE | PERMISSION_READ | PERMISSION_READ_ROLE_PERMISSIONS)
}

/// Authenticated users can browse and read non-security-related nodes.
pub fn authenticated_user_permissions() -> (r: PermissionType)
    ensures
        r.bits == anonymous_bits(),
{
    anonymous_permissions()
}

/// Observer can browse, read current values, read history, and receive events.
pub fn observer_permissions() -> (r: PermissionType)
    ensures
        r.bits == observer_bits(),
{
    PermissionType::from_bits(
        PERMISSION_BROWSE | PERMISSION_READ | PERMISSION_READ_HISTORY | PERMISSION_RECEIVE_EVENTS,
    )
}

/// Operator adds live value writes and method calls to Observer permissions.
pub fn operator_permissions() -> (r: PermissionType)
    ensures
        r.bits == operator_bits(),
{
    observer_permissions().union(PermissionType::from_bits(PERMISSION_WRITE)).union(
        PermissionType::from_bits(PERMISSION_CALL),
    )
}

/// Engineer adds configuration and history-write permissions to Operator.
pub fn engineer_permissions() -> (r: PermissionType)
    ensures
        r.bits == engineer_bits(),
{
    operator_permissions().union(PermissionType::from_bits(PERMISSION_WRITE_ATTRIBUTE)).union(
        PermissionType::from_bits(PERMISSION_WRITE_HISTORIZING),
    ).union(PermissionType::from_bits(PERMISSION_INSERT_HISTORY)).union(
        PermissionType::from_bits(PERMISSION_MODIFY_HISTORY),
    ).union(PermissionType::from_bits(PERMISSION_DELETE_HISTORY))
}

/// Supervisor has the broad operational read/write/call/event baseline.
pub fn supervisor_permissions() -> (r: PermissionType)
    ensures
        r.bits == operator_bits(),
{
    operator_permissions()
}

/// ConfigureAdmin can change non-security-related configuration.
pub fn configure_admin_permissions() -> (r: PermissionType)
    ensures
        r.bits == configure_admin_bits(),
{
    PermissionType::from_bits(
        PERMISSION_BROWSE | PERMISSION_READ | PERMISSION_WRITE | PERMISSION_WRITE_ATTRIBUTE
            | PERMISSION_ADD_NODE | PERMISSION_DELETE_NODE | PERMISSION_ADD_REFERENCE
            | PERMISSION_REMOVE_REFERENCE,
    )
}

/// SecurityAdmin can read and write security-related role permissions.
pub fn security_admin_permissions() -> (r: PermissionType)
    ensures
        r.bits == security_admin_bits(),
{
    PermissionType::from_bits(
        PERMISSION_BROWSE | PERMISSION_READ | PERMISSION_READ_ROLE_PERMISSIONS
            | PERMISSION_WRITE_ROLE_PERMISSIONS,
    )
}

fn role_permission(role: WellKnownRole, permissions: PermissionType) -> (r: RolePermission)
    ensures
        r@ == (RolePermissionView { role_id: role_id_view(role), bits: permissions.bits }),
{
    RolePermission::new(role.node_id(), permissions)
}

/// Suggested namespace default permissions for the standard well-known roles, one entry
/// per role in RoleSet order.
pub fn secure_well_known_permissions() -> (r: Vec<RolePermission>)
    ensures
        grant_views(r@) == seq![
            preset_entry(WellKnownRole::Anonymous),
            preset_entry(WellKnownRole::AuthenticatedUser),
            preset_entry(WellKnownRole::Observer),
            preset_entry(WellKnownRole::Operator),
            preset_entry(WellKnownRole::Engineer),
            preset_entry(WellKnownRole::Supervisor),
            preset_entry(WellKnownRole::ConfigureAdmin),
            preset_entry(WellKnownRole::SecurityAdmin),
        ],
{
    let mut r: Vec<RolePermission> = Vec::new();
    r.push(role_permission(WellKnownRole::Anonymous, anonymous_permissions()));
    r.push(role_permission(WellKnownRole::AuthenticatedUser, authenticated_user_permissions()));
    r.push(role_permission(WellKnownRole::Observer, observer_permissions()));
    r.push(role_permission(WellKnownRole::Operator, operator_permissions()));
    r.push(role_permission(WellKnownRole::Engineer, engineer_permissions()));
    r.push(role_permission(WellKnownRole::Supervisor, supervisor_permissions()));
    r.push(role_permission(WellKnownRole::ConfigureAdmin, configure_admin_permissions()));
    r.push(role_permission(WellKnownRole::SecurityAdmin, security_admin_permissions()));
    assert(grant_views(r@) =~= seq![
        preset_entry(WellKnownRole::Anonymous),
        preset_entry(WellKnownRole::AuthenticatedUser),
        preset_entry(WellKnownRole::Observer),
        preset_entry(WellKnownRole::Operator),
        preset_entry(WellKnownRole::Engineer),
        preset_entry(WellKnownRole::Supervisor),
        preset_entry(WellKnownRole::ConfigureAdmin),
        preset_entry(WellKnownRole::SecurityAdmin),
    ]);
    r
}

/// The role hierarchy of the preset: Operator holds every Observer permission and Engineer
/// every Operator permission; Supervisor equals Operator.
pub proof fn law_preset_role_hierarchy()
    ensures
        operator_bits() & observer_bits() == observer_bits(),
        engineer_bits() & operator_bits() == operator_bits(),
        preset_bits(WellKnownRole::Supervisor) == preset_bits(WellKnownRole::Operator),
        preset_bits(WellKnownRole::AuthenticatedUser) == preset_bits(WellKnownRole::Anonymous),
{
    assert(operator_bits() & observer_bits() == observer_bits() && engineer_bits() & operator_bits()
        == operator_bits()) by (bit_vector);
}

/// Only SecurityAdmin may write role permissions in the preset.
pub proof fn law_preset_only_security_admin_writes_role_permissions(role: WellKnownRole)
    ensures
        (preset_bits(role) & PERMISSION_WRITE_ROLE_PERMISSIONS == PERMISSION_WRITE_ROLE_PERMISSIONS)
            <==> role == WellKnownRole::SecurityAdmin,
{
    assert(anonymous_bits() & PERMISSION_WRITE_ROLE_PERMISSIONS == 0 && observer_bits()
        & PERMISSION_WRITE_ROLE_PERMISSIONS == 0 && operator_bits() & PERMISSION_WRITE_ROLE_PERMISSIONS
        == 0 && engineer_bits() & PERMISSION_WRITE_ROLE_PERMISSIONS == 0 && configure_admin_bits()
        & PERMISSION_WRITE_ROLE_PERMISSIONS == 0 && security_admin_bits()
        & PERMISSION_WRITE_ROLE_PERMISSIONS == PERMISSION_WRITE_ROLE_PERMISSIONS) by (bit_vector);
}

} // verus!
