//! Central RolePermissions authorization decisions.
//!
//! Node-level enforcement is opt-in (`enforce_role_based_access`, default off). When off the
//! server is fully permissive and these checks never deny; when on, configured nodes are
//! enforced and unconfigured nodes fail closed.

use vstd::prelude::*;
use crate::node_id::{NodeId, NodeIdView, contains_id, id_views, ids_contain};
use crate::permissions::{
    AccessRestrictionType, AttributeId, MessageSecurityMode, PermissionType, RolePermission,
    RolePermissionView, bits_contain, grant_views, PERMISSION_BROWSE, PERMISSION_CALL, PERMISSION_READ,
    PERMISSION_READ_ROLE_PERMISSIONS, PERMISSION_RECEIVE_EVENTS, PERMISSION_WRITE,
    PERMISSION_WRITE_ATTRIBUTE, PERMISSION_WRITE_HISTORIZING, PERMISSION_WRITE_ROLE_PERMISSIONS,
    RESTRICTION_ENCRYPTION_REQUIRED, RESTRICTION_SIGNING_REQUIRED,
};
use crate::rbac::defaults::{
    NamespaceDefaults, NamespaceDefaultView, default_access_restrictions_of,
    default_role_permissions_of, opt_grant_views, opt_restriction_bits,
};
use crate::status::StatusCode;

verus! {

/// The RBAC attributes of a node that the decisions read.
#[derive(Debug)]
pub struct NodeRbacAttributes {
    /// The node's id; its namespace selects the namespace defaults.
    pub node_id: NodeId,
    /// The node's own RolePermissions attribute, if set.
    pub role_permissions: Option<Vec<RolePermission>>,
    /// The node's own AccessRestrictions attribute, if set.
    pub access_restrictions: Option<AccessRestrictionType>,
}

/// What a request contributes to the decisions: the session's roles, the global
/// enforcement switch, the channel's security mode and the namespace defaults.
#[derive(Debug)]
pub struct AccessContext {
    pub user_roles: Vec<NodeId>,
    pub enforce_role_based_access: bool,
    pub security_mode: MessageSecurityMode,
    pub namespace_defaults: NamespaceDefaults,
}

/// The union of the permission bits that `grants` give to any of `user_roles`.
pub open spec fn granted_bits(user_roles: Seq<NodeIdView>, grants: Seq<RolePermissionView>) -> u32
    decreases grants.len(),
{
    if grants.len() == 0 {
        0
    } else {
        let rest = granted_bits(user_roles, grants.drop_last());
        if ids_contain(user_roles, grants.last().role_id) {
            rest | grants.last().bits
        } else {
            rest
        }
    }
}

/// Whether `user_roles` are granted `required` under the given posture.
pub open spec fn authorized(
    user_roles: Seq<NodeIdView>,
    effective: Option<Seq<RolePermissionView>>,
    required: u32,
    enforce: bool,
) -> bool {
    !enforce || match effective {
        Some(grants) => bits_contain(granted_bits(user_roles, grants), required),
        None => false,
    }
}

/// The RolePermissions in force for a node: its own, else its namespace's default.
pub open spec fn effective_role_permissions_of(
    defaults: Map<u16, NamespaceDefaultView>,
    node: NodeRbacAttributes,
) -> Option<Seq<RolePermissionView>> {
    match node.role_permissions {
        Some(v) => Some(grant_views(v@)),
        None => default_role_permissions_of(defaults, node.node_id.namespace),
    }
}

/// The AccessRestrictions in force for a node: its own, else its namespace's default.
pub open spec fn effective_access_restrictions_of(
    defaults: Map<u16, NamespaceDefaultView>,
    node: NodeRbacAttributes,
) -> Option<u16> {
    match node.access_restrictions {
        Some(r) => Some(r.bits),
        None => default_access_restrictions_of(defaults, node.node_id.namespace),
    }
}

/// Whether a channel in `mode` satisfies the restriction bits `restrictions`.
pub open spec fn restrictions_satisfied(restrictions: Option<u16>, mode: MessageSecurityMode) -> bool {
    match restrictions {
        None => true,
        Some(bits) => {
            &&& (bits & RESTRICTION_ENCRYPTION_REQUIRED == RESTRICTION_ENCRYPTION_REQUIRED
                ==> mode == MessageSecurityMode::SignAndEncrypt)
            &&& (bits & RESTRICTION_SIGNING_REQUIRED == RESTRICTION_SIGNING_REQUIRED ==> (mode
                == MessageSecurityMode::Sign || mode == MessageSecurityMode::SignAndEncrypt))
        },
    }
}

/// Returns the RolePermissions list currently effective for `node`.
pub fn effective_role_permissions<'a>(
    namespace_defaults: &'a NamespaceDefaults,
    node: &'a NodeRbacAttributes,
) -> (r: Option<&'a [RolePermission]>)
    ensures
        match r {
            Some(s) => effective_role_permissions_of(namespace_defaults@, *node) == Some(
                grant_views(s@),
            ),
            None => effective_role_permissions_of(namespace_defaults@, *node) is None,
        },
{
    if let Some(role_permissions) = &node.role_permissions {
        return Some(role_permissions.as_slice());
    }
    namespace_defaults.role_permissions(node.node_id.namespace)
}

/// The permissive posture: always grants.
///
/// Use [`authorize_with_enforcement`] for the opt-in enforced posture.
pub fn authorize(
    user_roles: &[NodeId],
    effective: Option<&[RolePermission]>,
    required: PermissionType,
) -> (r: bool)
    ensures
        r == authorized(
            id_views(user_roles@),
            match effective {
                Some(s) => Some(grant_views(s@)),
                None => None,
            },
            required.bits,
            false,
        ),
        r,
{
    authorize_with_enforcement(user_roles, effective, required, false)
}

/// The union of the permissions that `grants` give to any of `user_roles`.
pub fn granted_permissions(user_roles: &[NodeId], grants: &[RolePermission]) -> (r: PermissionType)
    ensures
        r.bits == granted_bits(id_views(user_roles@), grant_views(grants@)),
{
    let ghost roles = id_views(user_roles@);
    let ghost views = grant_views(grants@);
    let mut granted = PermissionType::empty();
    let mut i: usize = 0;
    assert(views.take(0) =~= Seq::<RolePermissionView>::empty());
    while i < grants.len()
        invariant
            i <= grants.len(),
            roles == id_views(user_roles@),
            views == grant_views(grants@),
            granted.bits == granted_bits(roles, views.take(i as int)),
        decreases grants.len() - i,
    {
        assert(views.take(i + 1).drop_last() =~= views.take(i as int));
        assert(views.take(i + 1).last() == grants@[i as int]@);
        if contains_id(user_roles, &grants[i].role_id) {
            granted = granted.union(grants[i].permissions);
        }
        i = i + 1;
    }
    assert(views.take(grants.len() as int) =~= views);
    granted
}

/// Whether `user_roles` are granted `required`, applying the configured posture.
pub fn authorize_with_enforcement(
    user_roles: &[NodeId],
    effective: Option<&[RolePermission]>,
    required: PermissionType,
    enforce_role_based_access: bool,
) -> (r: bool)
    ensures
        r == authorized(
            id_views(user_roles@),
            match effective {
                Some(s) => Some(grant_views(s@)),
                None => None,
            },
            required.bits,
            enforce_role_based_access,
        ),
{
    if !enforce_role_based_access {
        return true;
    }
    let role_permissions = match effective {
        Some(p) => p,
        None => {
            return false;
        },
    };
    let granted = granted_permissions(user_roles, role_permissions);
    granted.contains(required)
}

/// Node authorization decision for a request.
pub fn authorize_ctx(context: &AccessContext, node: &NodeRbacAttributes, required: PermissionType) -> (r: bool)
    ensures
        r == authorized(
            id_views(context.user_roles@),
            effective_role_permissions_of(context.namespace_defaults@, *node),
            required.bits,
            context.enforce_role_based_access,
        ),
{
    let effective = effective_role_permissions(&context.namespace_defaults, node);
    authorize_with_enforcement(
        context.user_roles.as_slice(),
        effective,
        required,
        context.enforce_role_based_access,
    )
}

/// Returns the AccessRestrictions currently effective for `node`.
pub fn effective_access_restrictions(namespace_defaults: &NamespaceDefaults, node: &NodeRbacAttributes) -> (r:
    Option<AccessRestrictionType>)
    ensures
        opt_restriction_bits(r) == effective_access_restrictions_of(namespace_defaults@, *node),
{
    match node.access_restrictions {
        Some(r) => Some(r),
        None => namespace_defaults.access_restrictions(node.node_id.namespace),
    }
}

/// Whether the session roles may receive events from an event source, permissive posture.
pub fn event_receive_allowed(user_roles: &[NodeId], source_role_permissions: Option<&[RolePermission]>) -> (r:
    bool)
    ensures
        r,
{
    event_receive_allowed_with_enforcement(user_roles, source_role_permissions, false)
}

/// Whether the session roles may receive events from an event source, applying the posture.
pub fn event_receive_allowed_with_enforcement(
    user_roles: &[NodeId],
    source_role_permissions: Option<&[RolePermission]>,
    enforce_role_based_access: bool,
) -> (r: bool)
    ensures
        r == authorized(
            id_views(user_roles@),
            match source_role_permissions {
                Some(s) => Some(grant_views(s@)),
                None => None,
            },
            PERMISSION_RECEIVE_EVENTS,
            enforce_role_based_access,
        ),
{
    authorize_with_enforcement(
        user_roles,
        source_role_permissions,
        PermissionType::from_bits(PERMISSION_RECEIVE_EVENTS),
        enforce_role_based_access,
    )
}

/// Validates a node's AccessRestrictions against the channel's message security mode.
///
/// `SessionRequired` is met on every session-based service path, so it never denies here.
pub fn access_restrictions_ok(restrictions: Option<AccessRestrictionType>, security_mode: MessageSecurityMode) -> (r:
    Result<(), StatusCode>)
    ensures
        r is Ok <==> restrictions_satisfied(opt_restriction_bits(restrictions), security_mode),
        r is Err ==> r == Err::<(), StatusCode>(StatusCode::BadSecurityModeInsufficient),
{
    let restrictions = match restrictions {
        Some(r) => r,
        None => {
            return Ok(());
        },
    };
    if restrictions.contains(RESTRICTION_ENCRYPTION_REQUIRED) && security_mode
        != MessageSecurityMode::SignAndEncrypt {
        return Err(StatusCode::BadSecurityModeInsufficient);
    }
    if restrictions.contains(RESTRICTION_SIGNING_REQUIRED) && !(security_mode
        == MessageSecurityMode::Sign || security_mode == MessageSecurityMode::SignAndEncrypt) {
        return Err(StatusCode::BadSecurityModeInsufficient);
    }
    Ok(())
}

/// AccessRestrictions decision for a request; restrictions apply only when enforcement is on.
pub fn access_restrictions_ok_ctx(context: &AccessContext, node: &NodeRbacAttributes) -> (r: Result<
    (),
    StatusCode,
>)
    ensures
        r is Ok <==> (!context.enforce_role_based_access || restrictions_satisfied(
            effective_access_restrictions_of(context.namespace_defaults@, *node),
            context.security_mode,
        )),
        r is Err ==> r == Err::<(), StatusCode>(StatusCode::BadSecurityModeInsufficient),
{
    if !context.enforce_role_based_access {
        return Ok(());
    }
    access_restrictions_ok(
        effective_access_restrictions(&context.namespace_defaults, node),
        context.security_mode,
    )
}

/// The permission bit required to read an attribute with the Read service.
pub open spec fn read_permission_bits(attribute_id: AttributeId) -> u32 {
    match attribute_id {
        AttributeId::Value => PERMISSION_READ,
        AttributeId::RolePermissions | AttributeId::UserRolePermissions => PERMISSION_READ_ROLE_PERMISSIONS,
        _ => PERMISSION_BROWSE,
    }
}

/// The permission bit required to write an attribute with the Write service.
pub open spec fn write_permission_bits(attribute_id: AttributeId) -> u32 {
    match attribute_id {
        AttributeId::Value => PERMISSION_WRITE,
        AttributeId::RolePermissions => PERMISSION_WRITE_ROLE_PERMISSIONS,
        AttributeId::Historizing => PERMISSION_WRITE_HISTORIZING,
        _ => PERMISSION_WRITE_ATTRIBUTE,
    }
}

/// Permission required to read an attribute.
pub fn permission_for_attribute(attribute_id: AttributeId) -> (r: PermissionType)
    ensures
        r.bits == read_permission_bits(attribute_id),
{
    permission_for_read_attribute(attribute_id)
}

/// Permission required to read an attribute with the Read service.
pub fn permission_for_read_attribute(attribute_id: AttributeId) -> (r: PermissionType)
    ensures
        r.bits == read_permission_bits(attribute_id),
{
    match attribute_id {
        AttributeId::Value => PermissionType::from_bits(PERMISSION_READ),
        AttributeId::RolePermissions | AttributeId::UserRolePermissions => PermissionType::from_bits(
            PERMISSION_READ_ROLE_PERMISSIONS,
        ),
        _ => PermissionType::from_bits(PERMISSION_BROWSE),
    }
}

/// Permission required to write an attribute with the Write service.
pub fn permission_for_write_attribute(attribute_id: AttributeId) -> (r: PermissionType)
    ensures
        r.bits == write_permission_bits(attribute_id),
{
    match attribute_id {
        AttributeId::Value => PermissionType::from_bits(PERMISSION_WRITE),
        AttributeId::RolePermissions => PermissionType::from_bits(PERMISSION_WRITE_ROLE_PERMISSIONS),
        AttributeId::Historizing => PermissionType::from_bits(PERMISSION_WRITE_HISTORIZING),
        _ => PermissionType::from_bits(PERMISSION_WRITE_ATTRIBUTE),
    }
}

/// Permission required to browse nodes and references.
pub fn permission_for_browse() -> (r: PermissionType)
    ensures
        r.bits == PERMISSION_BROWSE,
{
    PermissionType::from_bits(PERMISSION_BROWSE)
}

/// Permission required to call a Method node.
pub fn permission_for_call() -> (r: PermissionType)
    ensures
        r.bits == PERMISSION_CALL,
{
    PermissionType::from_bits(PERMISSION_CALL)
}

proof fn lemma_bits_subset_union(a: u32, b: u32, x: u32)
    requires
        a & b == a,
    ensures
        (a | x) & (b | x) == a | x,
        a & (b | x) == a,
{
    assert((a | x) & (b | x) == a | x) by (bit_vector)
        requires
            a & b == a,
    ;
    assert(a & (b | x) == a) by (bit_vector)
        requires
            a & b == a,
    ;
}

proof fn lemma_granted_monotone(r1: Seq<NodeIdView>, r2: Seq<NodeIdView>, grants: Seq<RolePermissionView>)
    requires
        forall|id: NodeIdView| ids_contain(r1, id) ==> ids_contain(r2, id),
    ensures
        granted_bits(r1, grants) & granted_bits(r2, grants) == granted_bits(r1, grants),
    decreases grants.len(),
{
    if grants.len() > 0 {
        lemma_granted_monotone(r1, r2, grants.drop_last());
        let a = granted_bits(r1, grants.drop_last());
        let b = granted_bits(r2, grants.drop_last());
        let x = grants.last().bits;
        lemma_bits_subset_union(a, b, x);
        if ids_contain(r1, grants.last().role_id) {
        } else if ids_contain(r2, grants.last().role_id) {
        } else {
        }
    } else {
        assert(0u32 & 0u32 == 0u32) by (bit_vector);
    }
}

/// Holding more roles never loses a permission: if `r1` is authorized for `required` and every
/// role of `r1` is also in `r2`, then `r2` is authorized for `required` too.
pub proof fn law_authorization_monotone_in_roles(
    r1: Seq<NodeIdView>,
    r2: Seq<NodeIdView>,
    effective: Option<Seq<RolePermissionView>>,
    required: u32,
    enforce: bool,
)
    requires
        forall|id: NodeIdView| ids_contain(r1, id) ==> ids_contain(r2, id),
        authorized(r1, effective, required, enforce),
    ensures
        authorized(r2, effective, required, enforce),
{
    if enforce {
        let grants = effective->0;
        lemma_granted_monotone(r1, r2, grants);
        let a = granted_bits(r1, grants);
        let b = granted_bits(r2, grants);
        assert(b & required == required) by (bit_vector)
            requires
                a & b == a,
                a & required == required,
        ;
    }
}

/// Authorization for a set of permissions implies authorization for every subset of it.
pub proof fn law_authorization_monotone_in_required(
    roles: Seq<NodeIdView>,
    effective: Option<Seq<RolePermissionView>>,
    required: u32,
    subset: u32,
    enforce: bool,
)
    requires
        required & subset == subset,
        authorized(roles, effective, required, enforce),
    ensures
        authorized(roles, effective, subset, enforce),
{
    if enforce {
        let g = granted_bits(roles, effective->0);
        assert(g & subset == subset) by (bit_vector)
            requires
                g & required == required,
                required & subset == subset,
        ;
    }
}

/// A signed and encrypted channel satisfies every set of access restrictions.
pub proof fn law_sign_and_encrypt_satisfies_all_restrictions(restrictions: Option<u16>)
    ensures
        restrictions_satisfied(restrictions, MessageSecurityMode::SignAndEncrypt),
{
}

/// With enforcement off, every request is authorized, configured or not.
pub proof fn law_permissive_posture(
    roles: Seq<NodeIdView>,
    effective: Option<Seq<RolePermissionView>>,
    required: u32,
)
    ensures
        authorized(roles, effective, required, false),
{
}

/// With enforcement on, a node without effective RolePermissions is denied (fail closed).
pub proof fn law_unconfigured_fails_closed(roles: Seq<NodeIdView>, required: u32)
    ensures
        !authorized(roles, None, required, true),
{
}


/// Each attribute a client writes is guarded by exactly one permission bit: the Value by
/// Write (64), RolePermissions by WriteRolePermissions (8), Historizing by
/// WriteHistorizing (16), and every other attribute by WriteAttribute (4).
pub proof fn law_write_permission_of_attribute(a: AttributeId)
    ensures
        (write_permission_bits(a) == 64) <==> (a is Value),
        (write_permission_bits(a) == 8) <==> (a is RolePermissions),
        (write_permission_bits(a) == 16) <==> (a is Historizing),
        (write_permission_bits(a) == 4) <==> !(a is Value || a is RolePermissions || a is Historizing),
{
}

} // verus!
