use opcua_server::rbac::role_methods::{role_method_for, RoleMethod};
use opcua_types::MethodId;
use opcua_server::address_space::NodeValue;
use opcua_server::address_space::{AddressSpace, Node, NodeClass, QualifiedName};
use opcua_server::node_id::NodeId;
use opcua_server::rbac::resolver::{ResolvedIdentity, RoleResolver};
use opcua_server::rbac::role_management::{
    add_application, add_endpoint, add_identity, add_role, decimal_string, decode_string_argument,
    ensure_role_set_object, is_security_admin, namespace_index_for_role, remove_application, remove_endpoint,
    remove_identity, remove_role, unique_role_node_id, MethodArgument,
};
use opcua_server::rbac::rules::{IdentityCriteriaType, IdentityMappingRuleType};
use opcua_server::rbac::WellKnownRole;
use opcua_server::status::StatusCode;

fn role_set() -> NodeId {
    NodeId::numeric(0, 15606)
}

fn core_space() -> AddressSpace {
    let mut s = AddressSpace::new();
    s.add_namespace("http://opcfoundation.org/UA/", 0);
    s.insert_node(
        Node {
            node_id: role_set(),
            node_class: NodeClass::Object,
            browse_name: QualifiedName { namespace_index: 0, name: "RoleSet".to_string() },
            is_abstract: false,
            data_type: NodeId::null(),
            value_rank: -1,
            role_permissions: None,
            access_restrictions: None,
            value: NodeValue::Empty,
            writable: false,
        },
        &[],
    );
    s
}

fn text(s: &str) -> MethodArgument {
    MethodArgument::Text(Some(s.to_string()))
}

fn user_name_rule(name: &str) -> MethodArgument {
    MethodArgument::Rule(IdentityMappingRuleType { criteria_type: IdentityCriteriaType::UserName, criteria: Some(name.to_string()) })
}

fn admin() -> Vec<NodeId> {
    vec![WellKnownRole::SecurityAdmin.node_id()]
}

fn contains(ids: &[NodeId], id: &NodeId) -> bool {
    ids.iter().any(|x| x.equals(id))
}

#[test]
fn add_role_requires_security_admin_role() {
    let mut space = core_space();
    let mut resolver = RoleResolver::new();
    let result = add_role(&[], &mut space, &mut resolver, &role_set(), &[text("RuntimeRole"), text("urn:runtime")]);
    assert_eq!(result.err(), Some(StatusCode::BadUserAccessDenied));
}

#[test]
fn security_admin_can_add_and_remove_runtime_role() {
    let mut space = core_space();
    let mut resolver = RoleResolver::new();
    let role_node_id = add_role(&admin(), &mut space, &mut resolver, &role_set(), &[text("RuntimeRole"), text("urn:runtime")])
        .expect("SecurityAdmin should be allowed to add roles");
    assert!(space.node_exists(&role_node_id));
    let runtime_namespace = space.namespace_index("urn:runtime").expect("runtime namespace should be registered");
    assert!(space.has_child_named(
        &role_set(),
        &NodeId::numeric(0, 47),
        &QualifiedName { namespace_index: runtime_namespace, name: "RuntimeRole".to_string() },
    ));
    assert!(resolver.is_runtime_role(&role_node_id));
    remove_role(&admin(), &mut space, &mut resolver, &role_set(), &[MethodArgument::Node(role_node_id.duplicate())])
        .expect("SecurityAdmin should be allowed to remove runtime roles");
    assert!(!space.node_exists(&role_node_id));
    assert!(!resolver.is_runtime_role(&role_node_id));
}

#[test]
fn security_admin_can_add_and_remove_role_identity_mapping() {
    let mut resolver = RoleResolver::new();
    let role_node_id = WellKnownRole::Operator.node_id();
    let identity = ResolvedIdentity::username("operator", Some("urn:client"), Some("opc.tcp://localhost:4840"));
    add_identity(&admin(), &mut resolver, &role_node_id, &[user_name_rule("operator")])
        .expect("SecurityAdmin should be allowed to add role identity mappings");
    assert!(contains(&resolver.resolve(&identity), &role_node_id));
    remove_identity(&admin(), &mut resolver, &role_node_id, &[user_name_rule("operator")])
        .expect("SecurityAdmin should be allowed to remove role identity mappings");
    assert!(!contains(&resolver.resolve(&identity), &role_node_id));
}

#[test]
fn add_identity_requires_security_admin_role() {
    let mut resolver = RoleResolver::new();
    let result = add_identity(&[], &mut resolver, &WellKnownRole::Operator.node_id(), &[user_name_rule("operator")]);
    assert_eq!(result, Err(StatusCode::BadUserAccessDenied));
}

#[test]
fn security_admin_can_add_and_remove_role_application_filter() {
    let mut resolver = RoleResolver::new();
    let role_node_id = WellKnownRole::Operator.node_id();
    let blocked = ResolvedIdentity::username("operator", Some("urn:blocked-client"), Some("opc.tcp://localhost:4840"));
    let other = ResolvedIdentity::username("operator", Some("urn:other-client"), Some("opc.tcp://localhost:4840"));
    add_identity(&admin(), &mut resolver, &role_node_id, &[user_name_rule("operator")]).unwrap();
    add_application(&admin(), &mut resolver, &role_node_id, &[text("urn:blocked-client")]).unwrap();
    assert!(!contains(&resolver.resolve(&blocked), &role_node_id));
    assert!(contains(&resolver.resolve(&other), &role_node_id));
    assert_eq!(
        add_application(&admin(), &mut resolver, &role_node_id, &[text("urn:blocked-client")]),
        Err(StatusCode::BadAlreadyExists)
    );
    remove_application(&admin(), &mut resolver, &role_node_id, &[text("urn:blocked-client")]).unwrap();
    assert!(contains(&resolver.resolve(&blocked), &role_node_id));
    assert_eq!(
        remove_application(&admin(), &mut resolver, &role_node_id, &[text("urn:blocked-client")]),
        Err(StatusCode::BadNotFound)
    );
}

#[test]
fn add_application_requires_security_admin_role() {
    let mut resolver = RoleResolver::new();
    let result = add_application(&[], &mut resolver, &WellKnownRole::Operator.node_id(), &[text("urn:client")]);
    assert_eq!(result, Err(StatusCode::BadUserAccessDenied));
}

#[test]
fn security_admin_can_add_and_remove_role_endpoint_filter() {
    let mut resolver = RoleResolver::new();
    let role_node_id = WellKnownRole::Operator.node_id();
    let blocked = ResolvedIdentity::username("operator", Some("urn:client"), Some("opc.tcp://blocked:4840"));
    let other = ResolvedIdentity::username("operator", Some("urn:client"), Some("opc.tcp://other:4840"));
    add_identity(&admin(), &mut resolver, &role_node_id, &[user_name_rule("operator")]).unwrap();
    add_endpoint(&admin(), &mut resolver, &role_node_id, &[MethodArgument::Endpoint(Some("opc.tcp://blocked:4840".to_string()))]).unwrap();
    assert!(!contains(&resolver.resolve(&blocked), &role_node_id));
    assert!(contains(&resolver.resolve(&other), &role_node_id));
    remove_endpoint(&admin(), &mut resolver, &role_node_id, &[MethodArgument::Endpoint(Some("opc.tcp://blocked:4840".to_string()))]).unwrap();
    assert!(contains(&resolver.resolve(&blocked), &role_node_id));
}

#[test]
fn add_endpoint_requires_security_admin_role() {
    let mut resolver = RoleResolver::new();
    let result = add_endpoint(
        &[],
        &mut resolver,
        &WellKnownRole::Operator.node_id(),
        &[MethodArgument::Endpoint(Some("opc.tcp://blocked:4840".to_string()))],
    );
    assert_eq!(result, Err(StatusCode::BadUserAccessDenied));
}

#[test]
fn role_methods_refuse_bad_arguments() {
    let mut resolver = RoleResolver::new();
    let operator = WellKnownRole::Operator.node_id();
    assert_eq!(add_application(&admin(), &mut resolver, &operator, &[]), Err(StatusCode::BadArgumentsMissing));
    assert_eq!(add_application(&admin(), &mut resolver, &operator, &[text("")]), Err(StatusCode::BadInvalidArgument));
    assert_eq!(add_application(&admin(), &mut resolver, &operator, &[MethodArgument::Other]), Err(StatusCode::BadInvalidArgument));
    assert_eq!(add_endpoint(&admin(), &mut resolver, &operator, &[MethodArgument::Endpoint(None)]), Err(StatusCode::BadInvalidArgument));
    assert_eq!(
        add_application(&admin(), &mut resolver, &NodeId::string(1, "no-such-role"), &[text("urn:x")]),
        Err(StatusCode::BadNodeIdUnknown)
    );
}

#[test]
fn remove_role_refuses_configured_and_unknown_roles() {
    let mut space = core_space();
    let mut resolver = RoleResolver::new();
    let operator = WellKnownRole::Operator.node_id();
    assert_eq!(
        remove_role(&admin(), &mut space, &mut resolver, &role_set(), &[MethodArgument::Node(operator)]),
        Err(StatusCode::BadRequestNotAllowed)
    );
    assert_eq!(
        remove_role(&admin(), &mut space, &mut resolver, &role_set(), &[MethodArgument::Node(NodeId::string(1, "nope"))]),
        Err(StatusCode::BadNodeIdUnknown)
    );
    assert_eq!(
        remove_role(&admin(), &mut space, &mut resolver, &NodeId::numeric(0, 1), &[MethodArgument::Node(NodeId::string(1, "nope"))]),
        Err(StatusCode::BadNodeIdInvalid)
    );
}

#[test]
fn add_role_refuses_empty_and_duplicate_names() {
    let mut space = core_space();
    let mut resolver = RoleResolver::new();
    assert_eq!(
        add_role(&admin(), &mut space, &mut resolver, &role_set(), &[text(""), text("urn:runtime")]).err(),
        Some(StatusCode::BadBrowseNameInvalid)
    );
    add_role(&admin(), &mut space, &mut resolver, &role_set(), &[text("Dup"), text("urn:runtime")]).unwrap();
    assert_eq!(
        add_role(&admin(), &mut space, &mut resolver, &role_set(), &[text("Dup"), text("urn:runtime")]).err(),
        Some(StatusCode::BadBrowseNameDuplicated)
    );
    assert_eq!(
        add_role(&admin(), &mut space, &mut resolver, &role_set(), &[text("Only")]).err(),
        Some(StatusCode::BadArgumentsMissing)
    );
}

#[test]
fn role_ids_and_namespaces() {
    let mut space = core_space();
    assert_eq!(namespace_index_for_role(&mut space, ""), 0);
    assert_eq!(namespace_index_for_role(&mut space, "http://opcfoundation.org/UA/"), 0);
    assert_eq!(namespace_index_for_role(&mut space, "urn:a"), 1);
    assert_eq!(namespace_index_for_role(&mut space, "urn:b"), 2);
    assert_eq!(namespace_index_for_role(&mut space, "urn:a"), 1);
    let first = unique_role_node_id(&space, "urn:a", "R").unwrap();
    assert!(first.equals(&NodeId::string(0, "Role:urn:a:R")));
    space.insert_node(
        Node {
            node_id: first,
            node_class: NodeClass::Object,
            browse_name: QualifiedName { namespace_index: 1, name: "R".to_string() },
            is_abstract: false,
            data_type: NodeId::null(),
            value_rank: -1,
            role_permissions: None,
            access_restrictions: None,
            value: NodeValue::Empty,
            writable: false,
        },
        &[],
    );
    let second = unique_role_node_id(&space, "urn:a", "R").unwrap();
    assert!(second.equals(&NodeId::string(0, "Role:urn:a:R:1")));
}

#[test]
fn role_method_helpers() {
    assert!(is_security_admin(&admin()));
    assert!(!is_security_admin(&[WellKnownRole::Operator.node_id()]));
    assert_eq!(ensure_role_set_object(&role_set()), Ok(()));
    assert_eq!(ensure_role_set_object(&NodeId::numeric(0, 1)), Err(StatusCode::BadNodeIdInvalid));
    assert_eq!(decode_string_argument(&[text("a"), MethodArgument::Text(None)], 1), Err(StatusCode::BadInvalidArgument));
    assert_eq!(decode_string_argument(&[text("a")], 0), Ok("a".to_string()));
    assert_eq!(decimal_string(0), "0");
    assert_eq!(decimal_string(4840), "4840");
}

#[test]
fn role_method_ids_name_their_handlers() {
    let table = [
        (MethodId::RoleType_AddIdentity, RoleMethod::AddIdentity),
        (MethodId::RoleType_RemoveIdentity, RoleMethod::RemoveIdentity),
        (MethodId::RoleType_AddApplication, RoleMethod::AddApplication),
        (MethodId::RoleType_RemoveApplication, RoleMethod::RemoveApplication),
        (MethodId::RoleType_AddEndpoint, RoleMethod::AddEndpoint),
        (MethodId::RoleType_RemoveEndpoint, RoleMethod::RemoveEndpoint),
        (MethodId::RoleSetType_AddRole, RoleMethod::AddRole),
        (MethodId::RoleSetType_RemoveRole, RoleMethod::RemoveRole),
        (MethodId::Server_ServerCapabilities_RoleSet_AddRole, RoleMethod::AddRole),
        (MethodId::Server_ServerCapabilities_RoleSet_RemoveRole, RoleMethod::RemoveRole),
        (MethodId::WellKnownRole_Anonymous_AddIdentity, RoleMethod::AddIdentity),
        (MethodId::WellKnownRole_Anonymous_RemoveIdentity, RoleMethod::RemoveIdentity),
        (MethodId::WellKnownRole_Anonymous_AddApplication, RoleMethod::AddApplication),
        (MethodId::WellKnownRole_Anonymous_RemoveApplication, RoleMethod::RemoveApplication),
        (MethodId::WellKnownRole_Anonymous_AddEndpoint, RoleMethod::AddEndpoint),
        (MethodId::WellKnownRole_Anonymous_RemoveEndpoint, RoleMethod::RemoveEndpoint),
        (MethodId::WellKnownRole_AuthenticatedUser_AddIdentity, RoleMethod::AddIdentity),
        (MethodId::WellKnownRole_AuthenticatedUser_RemoveIdentity, RoleMethod::RemoveIdentity),
        (MethodId::WellKnownRole_AuthenticatedUser_AddApplication, RoleMethod::AddApplication),
        (MethodId::WellKnownRole_AuthenticatedUser_RemoveApplication, RoleMethod::RemoveApplication),
        (MethodId::WellKnownRole_AuthenticatedUser_AddEndpoint, RoleMethod::AddEndpoint),
        (MethodId::WellKnownRole_AuthenticatedUser_RemoveEndpoint, RoleMethod::RemoveEndpoint),
        (MethodId::WellKnownRole_Observer_AddIdentity, RoleMethod::AddIdentity),
        (MethodId::WellKnownRole_Observer_RemoveIdentity, RoleMethod::RemoveIdentity),
        (MethodId::WellKnownRole_Observer_AddApplication, RoleMethod::AddApplication),
        (MethodId::WellKnownRole_Observer_RemoveApplication, RoleMethod::RemoveApplication),
        (MethodId::WellKnownRole_Observer_AddEndpoint, RoleMethod::AddEndpoint),
        (MethodId::WellKnownRole_Observer_RemoveEndpoint, RoleMethod::RemoveEndpoint),
        (MethodId::WellKnownRole_Operator_AddIdentity, RoleMethod::AddIdentity),
        (MethodId::WellKnownRole_Operator_RemoveIdentity, RoleMethod::RemoveIdentity),
        (MethodId::WellKnownRole_Operator_AddApplication, RoleMethod::AddApplication),
        (MethodId::WellKnownRole_Operator_RemoveApplication, RoleMethod::RemoveApplication),
        (MethodId::WellKnownRole_Operator_AddEndpoint, RoleMethod::AddEndpoint),
        (MethodId::WellKnownRole_Operator_RemoveEndpoint, RoleMethod::RemoveEndpoint),
        (MethodId::WellKnownRole_Engineer_AddIdentity, RoleMethod::AddIdentity),
        (MethodId::WellKnownRole_Engineer_RemoveIdentity, RoleMethod::RemoveIdentity),
        (MethodId::WellKnownRole_Engineer_AddApplication, RoleMethod::AddApplication),
        (MethodId::WellKnownRole_Engineer_RemoveApplication, RoleMethod::RemoveApplication),
        (MethodId::WellKnownRole_Engineer_AddEndpoint, RoleMethod::AddEndpoint),
        (MethodId::WellKnownRole_Engineer_RemoveEndpoint, RoleMethod::RemoveEndpoint),
        (MethodId::WellKnownRole_Supervisor_AddIdentity, RoleMethod::AddIdentity),
        (MethodId::WellKnownRole_Supervisor_RemoveIdentity, RoleMethod::RemoveIdentity),
        (MethodId::WellKnownRole_Supervisor_AddApplication, RoleMethod::AddApplication),
        (MethodId::WellKnownRole_Supervisor_RemoveApplication, RoleMethod::RemoveApplication),
        (MethodId::WellKnownRole_Supervisor_AddEndpoint, RoleMethod::AddEndpoint),
        (MethodId::WellKnownRole_Supervisor_RemoveEndpoint, RoleMethod::RemoveEndpoint),
        (MethodId::WellKnownRole_ConfigureAdmin_AddIdentity, RoleMethod::AddIdentity),
        (MethodId::WellKnownRole_ConfigureAdmin_RemoveIdentity, RoleMethod::RemoveIdentity),
        (MethodId::WellKnownRole_ConfigureAdmin_AddApplication, RoleMethod::AddApplication),
        (MethodId::WellKnownRole_ConfigureAdmin_RemoveApplication, RoleMethod::RemoveApplication),
        (MethodId::WellKnownRole_ConfigureAdmin_AddEndpoint, RoleMethod::AddEndpoint),
        (MethodId::WellKnownRole_ConfigureAdmin_RemoveEndpoint, RoleMethod::RemoveEndpoint),
        (MethodId::WellKnownRole_SecurityAdmin_AddIdentity, RoleMethod::AddIdentity),
        (MethodId::WellKnownRole_SecurityAdmin_RemoveIdentity, RoleMethod::RemoveIdentity),
        (MethodId::WellKnownRole_SecurityAdmin_AddApplication, RoleMethod::AddApplication),
        (MethodId::WellKnownRole_SecurityAdmin_RemoveApplication, RoleMethod::RemoveApplication),
        (MethodId::WellKnownRole_SecurityAdmin_AddEndpoint, RoleMethod::AddEndpoint),
        (MethodId::WellKnownRole_SecurityAdmin_RemoveEndpoint, RoleMethod::RemoveEndpoint),
    ];
    for (id, method) in table {
        assert_eq!(role_method_for(&NodeId::numeric(0, id as u32)), Some(method));
    }
    assert_eq!(role_method_for(&NodeId::numeric(0, 2253)), None);
    assert_eq!(role_method_for(&NodeId::numeric(1, MethodId::RoleType_AddIdentity as u32)), None);
    assert_eq!(role_method_for(&NodeId::string(0, "AddIdentity")), None);
}
