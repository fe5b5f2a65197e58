use std::collections::BTreeMap;

use opcua_server::node_id::NodeId;
use opcua_server::permissions::{
    AccessRestrictionType, MessageSecurityMode, PermissionType, RolePermission, PERMISSION_BROWSE,
    PERMISSION_READ, PERMISSION_RECEIVE_EVENTS, PERMISSION_WRITE, RESTRICTION_ENCRYPTION_REQUIRED,
    RESTRICTION_SESSION_REQUIRED, RESTRICTION_SIGNING_REQUIRED,
};
use opcua_server::rbac::decision::{
    access_restrictions_ok, access_restrictions_ok_ctx, authorize, authorize_ctx,
    authorize_with_enforcement, effective_access_restrictions, effective_role_permissions,
    event_receive_allowed, event_receive_allowed_with_enforcement, AccessContext, NodeRbacAttributes,
};
use opcua_server::rbac::defaults::{NamespaceDefaultConfig, NamespaceDefaults};
use opcua_server::rbac::resolver::{ResolvedIdentity, RoleResolver, UserTokenRoles};
use opcua_server::rbac::rules::{IdentityCriteriaType, IdentityMappingRule, IdentityMappingRuleType};
use opcua_server::rbac::WellKnownRole;
use opcua_server::status::StatusCode;

fn role(id: &str) -> NodeId {
    NodeId::string(0, id)
}

fn grant(role_id: &NodeId, bits: u32) -> RolePermission {
    RolePermission::new(role_id.duplicate(), PermissionType::from_bits(bits))
}

fn object_node(namespace: u16, name: &str) -> NodeRbacAttributes {
    NodeRbacAttributes {
        node_id: NodeId::string(namespace, name),
        role_permissions: None,
        access_restrictions: None,
    }
}

fn context(user_roles: Vec<NodeId>, enforce: bool) -> AccessContext {
    AccessContext {
        user_roles,
        enforce_role_based_access: enforce,
        security_mode: MessageSecurityMode::NoSecurity,
        namespace_defaults: NamespaceDefaults::new(),
    }
}

fn same_grants(a: &[RolePermission], b: &[RolePermission]) -> bool {
    a.len() == b.len()
        && a.iter().zip(b.iter()).all(|(x, y)| x.role_id.equals(&y.role_id) && x.permissions == y.permissions)
}

#[test]
fn authorize_permits_unconfigured_permissions() {
    let user_roles = [role("Operator")];
    let allowed = authorize(&user_roles, None, PermissionType::from_bits(PERMISSION_READ));
    assert!(allowed);
}

#[test]
fn authorize_permits_configured_permissions_when_enforcement_disabled() {
    let user_roles = [role("Observer")];
    let operator = role("Operator");
    let permissions = [grant(&operator, PERMISSION_READ)];
    let allowed = authorize(&user_roles, Some(&permissions), PermissionType::from_bits(PERMISSION_READ));
    assert!(allowed);
}

#[test]
fn authorize_ctx_permits_unconfigured_permissions_when_enforcement_disabled() {
    let ctx = context(vec![role("Operator")], false);
    let node = object_node(3, "Open");
    assert!(authorize_ctx(&ctx, &node, PermissionType::from_bits(PERMISSION_READ)));
}

#[test]
fn authorize_ctx_denies_unconfigured_permissions_when_enforcement_enabled() {
    let ctx = context(vec![role("Operator")], true);
    let node = object_node(3, "Unconfigured");
    assert!(!authorize_ctx(&ctx, &node, PermissionType::from_bits(PERMISSION_READ)));
}

#[test]
fn authorize_ctx_evaluates_configured_permissions_when_enforcement_enabled() {
    let operator = role("Operator");
    let ctx = context(vec![operator.duplicate()], true);
    let mut node = object_node(3, "Configured");
    node.role_permissions = Some(vec![grant(&operator, PERMISSION_BROWSE)]);
    assert!(authorize_ctx(&ctx, &node, PermissionType::from_bits(PERMISSION_BROWSE)));
    assert!(!authorize_ctx(&ctx, &node, PermissionType::from_bits(PERMISSION_READ)));
}

#[test]
fn effective_role_permissions_falls_back_to_namespace_default() {
    let mut defaults = NamespaceDefaults::new();
    let operator = role("Operator");
    defaults.set_role_permissions(2, vec![grant(&operator, PERMISSION_READ)]);
    let node = object_node(2, "Unconfigured");
    let effective = effective_role_permissions(&defaults, &node);
    assert!(same_grants(effective.unwrap(), &[grant(&operator, PERMISSION_READ)]));
}

#[test]
fn effective_role_permissions_prefers_node_value_over_namespace_default() {
    let mut defaults = NamespaceDefaults::new();
    let operator = role("Operator");
    let observer = role("Observer");
    defaults.set_role_permissions(2, vec![grant(&operator, PERMISSION_READ)]);
    let mut node = object_node(2, "Configured");
    node.role_permissions = Some(vec![grant(&observer, PERMISSION_BROWSE)]);
    let effective = effective_role_permissions(&defaults, &node);
    assert!(same_grants(effective.unwrap(), &[grant(&observer, PERMISSION_BROWSE)]));
}

#[test]
fn effective_role_permissions_is_none_without_node_or_namespace_value() {
    let defaults = NamespaceDefaults::new();
    let node = object_node(3, "Open");
    assert!(effective_role_permissions(&defaults, &node).is_none());
}

#[test]
fn authorize_denies_when_permissions_exclude_user_roles() {
    let user_roles = [role("Observer")];
    let operator = role("Operator");
    let permissions = [grant(&operator, PERMISSION_READ)];
    let allowed = authorize_with_enforcement(&user_roles, Some(&permissions), PermissionType::from_bits(PERMISSION_READ), true);
    assert!(!allowed);
}

#[test]
fn authorize_permits_when_required_bit_is_granted() {
    let observer = role("Observer");
    let user_roles = [observer.duplicate()];
    let permissions = [grant(&observer, PERMISSION_READ | PERMISSION_BROWSE)];
    let allowed = authorize_with_enforcement(&user_roles, Some(&permissions), PermissionType::from_bits(PERMISSION_READ), true);
    assert!(allowed);
}

#[test]
fn authorize_denies_when_required_bit_is_absent() {
    let observer = role("Observer");
    let user_roles = [observer.duplicate()];
    let permissions = [grant(&observer, PERMISSION_BROWSE)];
    let allowed = authorize_with_enforcement(&user_roles, Some(&permissions), PermissionType::from_bits(PERMISSION_READ), true);
    assert!(!allowed);
}

#[test]
fn authorize_permits_union_across_two_roles() {
    let observer = role("Observer");
    let operator = role("Operator");
    let user_roles = [observer.duplicate(), operator.duplicate()];
    let permissions = [grant(&observer, PERMISSION_BROWSE), grant(&operator, PERMISSION_WRITE)];
    let allowed = authorize_with_enforcement(&user_roles, Some(&permissions), PermissionType::from_bits(PERMISSION_WRITE), true);
    assert!(allowed);
}

#[test]
fn event_receive_allowed_permits_unconfigured_source_permissions() {
    let user_roles = [role("Observer")];
    assert!(event_receive_allowed(&user_roles, None));
}

#[test]
fn event_receive_allowed_denies_unconfigured_source_when_enforcement_enabled() {
    let user_roles = [role("Observer")];
    assert!(!event_receive_allowed_with_enforcement(&user_roles, None, true));
}

#[test]
fn event_receive_allowed_denies_when_receive_events_is_not_granted() {
    let observer = role("Observer");
    let permissions = [grant(&observer, PERMISSION_READ)];
    let user_roles = [observer];
    assert!(!event_receive_allowed_with_enforcement(&user_roles, Some(&permissions), true));
}

#[test]
fn event_receive_allowed_permits_when_receive_events_is_granted() {
    let observer = role("Observer");
    let permissions = [grant(&observer, PERMISSION_RECEIVE_EVENTS)];
    let user_roles = [observer];
    assert!(event_receive_allowed_with_enforcement(&user_roles, Some(&permissions), true));
}

#[test]
fn access_restrictions_permit_unconfigured_node_for_all_security_modes() {
    for mode in [MessageSecurityMode::NoSecurity, MessageSecurityMode::Sign, MessageSecurityMode::SignAndEncrypt] {
        assert_eq!(access_restrictions_ok(None, mode), Ok(()));
    }
}

#[test]
fn access_restrictions_require_encryption_when_requested() {
    let restrictions = Some(AccessRestrictionType::from_bits(RESTRICTION_ENCRYPTION_REQUIRED));
    assert_eq!(access_restrictions_ok(restrictions, MessageSecurityMode::NoSecurity), Err(StatusCode::BadSecurityModeInsufficient));
    assert_eq!(access_restrictions_ok(restrictions, MessageSecurityMode::Sign), Err(StatusCode::BadSecurityModeInsufficient));
    assert_eq!(access_restrictions_ok(restrictions, MessageSecurityMode::SignAndEncrypt), Ok(()));
}

#[test]
fn access_restrictions_require_signing_when_requested() {
    let restrictions = Some(AccessRestrictionType::from_bits(RESTRICTION_SIGNING_REQUIRED));
    assert_eq!(access_restrictions_ok(restrictions, MessageSecurityMode::NoSecurity), Err(StatusCode::BadSecurityModeInsufficient));
    assert_eq!(access_restrictions_ok(restrictions, MessageSecurityMode::Sign), Ok(()));
    assert_eq!(access_restrictions_ok(restrictions, MessageSecurityMode::SignAndEncrypt), Ok(()));
}

#[test]
fn access_restrictions_session_required_is_permitted_on_session_path() {
    let restrictions = Some(AccessRestrictionType::from_bits(RESTRICTION_SESSION_REQUIRED));
    for mode in [MessageSecurityMode::NoSecurity, MessageSecurityMode::Sign, MessageSecurityMode::SignAndEncrypt] {
        assert_eq!(access_restrictions_ok(restrictions, mode), Ok(()));
    }
}

#[test]
fn access_restrictions_ctx_ignores_restrictions_when_enforcement_disabled() {
    let ctx = context(Vec::new(), false);
    let mut node = object_node(3, "EncryptedWhenEnforced");
    node.access_restrictions = Some(AccessRestrictionType::from_bits(RESTRICTION_ENCRYPTION_REQUIRED));
    assert_eq!(access_restrictions_ok_ctx(&ctx, &node), Ok(()));
}

#[test]
fn access_restrictions_ctx_applies_restrictions_when_enforcement_enabled() {
    let ctx = context(Vec::new(), true);
    let mut node = object_node(3, "EncryptedWhenEnforced");
    node.access_restrictions = Some(AccessRestrictionType::from_bits(RESTRICTION_ENCRYPTION_REQUIRED));
    assert_eq!(access_restrictions_ok_ctx(&ctx, &node), Err(StatusCode::BadSecurityModeInsufficient));
}

#[test]
fn effective_access_restrictions_falls_back_to_namespace_default() {
    let mut defaults = NamespaceDefaults::new();
    defaults.set_access_restrictions(2, AccessRestrictionType::from_bits(RESTRICTION_ENCRYPTION_REQUIRED));
    let node = object_node(2, "EncryptedByDefault");
    assert_eq!(effective_access_restrictions(&defaults, &node), Some(AccessRestrictionType::from_bits(RESTRICTION_ENCRYPTION_REQUIRED)));
}

#[test]
fn effective_access_restrictions_prefers_node_value_over_namespace_default() {
    let mut defaults = NamespaceDefaults::new();
    defaults.set_access_restrictions(2, AccessRestrictionType::from_bits(RESTRICTION_ENCRYPTION_REQUIRED));
    let mut node = object_node(2, "SignedOnly");
    node.access_restrictions = Some(AccessRestrictionType::from_bits(RESTRICTION_SIGNING_REQUIRED));
    assert_eq!(effective_access_restrictions(&defaults, &node), Some(AccessRestrictionType::from_bits(RESTRICTION_SIGNING_REQUIRED)));
}

#[test]
fn namespace_defaults_are_empty_by_default() {
    let defaults = NamespaceDefaults::new();
    assert!(defaults.role_permissions(2).is_none());
    assert!(defaults.access_restrictions(2).is_none());
}

#[test]
fn namespace_defaults_store_role_permissions_by_namespace() {
    let mut defaults = NamespaceDefaults::new();
    let operator = NodeId::string(0, "Operator");
    defaults.set_role_permissions(2, vec![grant(&operator, PERMISSION_READ)]);
    assert!(same_grants(defaults.role_permissions(2).unwrap(), &[grant(&operator, PERMISSION_READ)]));
    assert!(defaults.role_permissions(3).is_none());
}

#[test]
fn namespace_defaults_store_access_restrictions_by_namespace() {
    let mut defaults = NamespaceDefaults::new();
    defaults.set_access_restrictions(2, AccessRestrictionType::from_bits(RESTRICTION_SIGNING_REQUIRED));
    assert_eq!(defaults.access_restrictions(2), Some(AccessRestrictionType::from_bits(RESTRICTION_SIGNING_REQUIRED)));
    assert!(defaults.access_restrictions(3).is_none());
}

#[test]
fn namespace_defaults_are_built_from_config() {
    let operator = NodeId::string(0, "Operator");
    let mut config_defaults = BTreeMap::new();
    config_defaults.insert(
        2u16,
        NamespaceDefaultConfig {
            default_role_permissions: Some(vec![grant(&operator, PERMISSION_READ)]),
            default_access_restrictions: Some(AccessRestrictionType::from_bits(RESTRICTION_ENCRYPTION_REQUIRED)),
        },
    );
    let defaults = NamespaceDefaults::from_config(&config_defaults);
    assert!(same_grants(defaults.role_permissions(2).unwrap(), &[grant(&operator, PERMISSION_READ)]));
    assert_eq!(defaults.access_restrictions(2), Some(AccessRestrictionType::from_bits(RESTRICTION_ENCRYPTION_REQUIRED)));
}

#[test]
fn well_known_roles_use_standard_node_ids() {
    let roles = [
        (WellKnownRole::Anonymous, 15644u32),
        (WellKnownRole::AuthenticatedUser, 15656),
        (WellKnownRole::Observer, 15668),
        (WellKnownRole::Operator, 15680),
        (WellKnownRole::Engineer, 16036),
        (WellKnownRole::Supervisor, 15692),
        (WellKnownRole::ConfigureAdmin, 15716),
        (WellKnownRole::SecurityAdmin, 15704),
    ];
    for (role, object_id) in roles {
        assert!(role.node_id().equals(&NodeId::numeric(0, object_id)));
    }
}

fn same_ids(a: &[NodeId], b: &[NodeId]) -> bool {
    a.len() == b.len() && a.iter().zip(b.iter()).all(|(x, y)| x.equals(y))
}

#[test]
fn anonymous_resolves_to_anonymous_only() {
    let resolver = RoleResolver::new();
    let identity = ResolvedIdentity::anonymous(None, Some("opc.tcp://localhost:4840"));
    let roles = resolver.resolve(&identity);
    assert!(same_ids(&roles, &[WellKnownRole::Anonymous.node_id()]));
}

#[test]
fn username_rule_grants_role_and_authenticated_user() {
    let operator = WellKnownRole::Operator.node_id();
    let mut resolver = RoleResolver::new();
    resolver.add_mapping(operator.duplicate(), IdentityMappingRule::UserName("alice".into()));
    let identity = ResolvedIdentity::username("alice", Some("urn:client"), Some("opc.tcp://localhost:4840"));
    let roles = resolver.resolve(&identity);
    assert!(same_ids(&roles, &[operator, WellKnownRole::AuthenticatedUser.node_id()]));
}

#[test]
fn thumbprint_rule_grants_role_and_authenticated_user() {
    let security_admin = WellKnownRole::SecurityAdmin.node_id();
    let mut resolver = RoleResolver::new();
    resolver.add_mapping(security_admin.duplicate(), IdentityMappingRule::Thumbprint("AB12CD".into()));
    let identity = ResolvedIdentity::x509_thumbprint("AB12CD", Some("urn:client"), Some("opc.tcp://localhost:4840"));
    let roles = resolver.resolve(&identity);
    assert!(same_ids(&roles, &[security_admin, WellKnownRole::AuthenticatedUser.node_id()]));
}

#[test]
fn non_matching_authenticated_identity_gets_authenticated_user() {
    let mut resolver = RoleResolver::new();
    resolver.add_mapping(WellKnownRole::Engineer.node_id(), IdentityMappingRule::UserName("engineer".into()));
    let identity = ResolvedIdentity::username("operator", Some("urn:client"), Some("opc.tcp://localhost:4840"));
    let roles = resolver.resolve(&identity);
    assert!(same_ids(&roles, &[WellKnownRole::AuthenticatedUser.node_id()]));
}

#[test]
fn issued_token_group_rule_grants_role() {
    let observer = WellKnownRole::Observer.node_id();
    let mut resolver = RoleResolver::new();
    resolver.add_mapping(observer.duplicate(), IdentityMappingRule::GroupId("ops".into()));
    let identity = ResolvedIdentity::issued_token(vec!["ops".to_string()], Vec::new(), Some("urn:client"), Some("opc.tcp://localhost:4840"));
    let roles = resolver.resolve(&identity);
    assert!(same_ids(&roles, &[observer, WellKnownRole::AuthenticatedUser.node_id()]));
}

#[test]
fn configured_username_token_roles_build_resolver_mapping() {
    let operator = WellKnownRole::Operator.node_id();
    let token = UserTokenRoles {
        user: "alice".to_string(),
        is_user_pass: true,
        is_x509: false,
        thumbprint: None,
        roles: vec![operator.duplicate()],
    };
    let resolver = RoleResolver::from_user_tokens(&[token]);
    let identity = ResolvedIdentity::username("alice", Some("urn:client"), Some("opc.tcp://localhost:4840"));
    let roles = resolver.resolve(&identity);
    assert!(same_ids(&roles, &[operator, WellKnownRole::AuthenticatedUser.node_id()]));
}

#[test]
fn configured_x509_token_roles_build_resolver_mapping() {
    let security_admin = WellKnownRole::SecurityAdmin.node_id();
    let thumbprint_hex = "01".repeat(20);
    let token = UserTokenRoles {
        user: "security-admin".to_string(),
        is_user_pass: false,
        is_x509: true,
        thumbprint: Some(thumbprint_hex.clone()),
        roles: vec![security_admin.duplicate()],
    };
    let resolver = RoleResolver::from_user_tokens(&[token]);
    let identity = ResolvedIdentity::x509_thumbprint(&thumbprint_hex, Some("urn:client"), Some("opc.tcp://localhost:4840"));
    let roles = resolver.resolve(&identity);
    assert!(same_ids(&roles, &[security_admin, WellKnownRole::AuthenticatedUser.node_id()]));
}

#[test]
fn excluded_application_loses_role() {
    let operator = WellKnownRole::Operator.node_id();
    let mut resolver = RoleResolver::new();
    resolver.add_mapping(operator.duplicate(), IdentityMappingRule::UserName("alice".into()));
    assert!(resolver.add_application(&operator, "urn:client".to_string()));
    assert!(!resolver.add_application(&operator, "urn:client".to_string()));
    let identity = ResolvedIdentity::username("alice", Some("urn:client"), None);
    assert!(same_ids(&resolver.resolve(&identity), &[WellKnownRole::AuthenticatedUser.node_id()]));
    assert!(resolver.remove_application(&operator, "urn:client"));
    assert!(same_ids(&resolver.resolve(&identity), &[operator, WellKnownRole::AuthenticatedUser.node_id()]));
}

#[test]
fn generated_rule_converts_to_runtime_rule() {
    let generated = IdentityMappingRuleType { criteria_type: IdentityCriteriaType::UserName, criteria: Some("operator".to_string()) };
    let rule = IdentityMappingRule::try_from_wire(&generated).unwrap();
    assert!(rule.equals(&IdentityMappingRule::UserName("operator".into())));
}

#[test]
fn runtime_role_rule_converts_to_generated_node_id_string() {
    let generated = IdentityMappingRule::Role(NodeId::numeric(0, 15680)).to_wire();
    assert_eq!(generated.criteria_type, IdentityCriteriaType::Role);
    assert_eq!(generated.criteria, Some("i=15680".to_string()));
}

#[test]
fn role_rule_round_trips_through_the_wire_form() {
    let rule = IdentityMappingRule::Role(NodeId::numeric(2, 77));
    let back = IdentityMappingRule::try_from_wire(&rule.to_wire()).unwrap();
    assert!(back.equals(&rule));
}

#[test]
fn unsupported_criteria_type_is_refused() {
    let generated = IdentityMappingRuleType { criteria_type: IdentityCriteriaType::X509Subject, criteria: Some("CN=x".to_string()) };
    assert!(IdentityMappingRule::try_from_wire(&generated).is_err());
}

#[test]
fn string_role_rules_round_trip_unless_their_text_cannot() {
    let rule = IdentityMappingRule::Role(NodeId::string(3, "Role:urn:x:Operators"));
    assert_eq!(rule.to_wire().criteria, Some("ns=3;s=Role:urn:x:Operators".to_string()));
    let back = IdentityMappingRule::try_from_wire(&rule.to_wire()).unwrap();
    assert!(back.equals(&rule));
    // A line feed in a string id does not read back.
    let broken = IdentityMappingRule::Role(NodeId::string(1, "a\nb"));
    assert!(IdentityMappingRule::try_from_wire(&broken.to_wire()).is_err());
    let trusted = IdentityMappingRuleType { criteria_type: IdentityCriteriaType::TrustedApplication, criteria: None };
    assert!(IdentityMappingRule::try_from_wire(&trusted).is_err());
}
