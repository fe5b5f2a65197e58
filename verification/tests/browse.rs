use opcua_server::address_space::NodeValue;
use opcua_server::address_space::references::BrowseDirection;
use opcua_server::address_space::type_tree::TypeTree;
use opcua_server::address_space::{AddressSpace, Node, NodeClass, QualifiedName};
use opcua_server::node_id::NodeId;
use opcua_server::node_management::browse::{browse_node, translate_browse_paths, RelativePathElement};
use opcua_server::permissions::{
    AccessRestrictionType, MessageSecurityMode, PermissionType, RolePermission, PERMISSION_BROWSE,
};
use opcua_server::rbac::decision::AccessContext;
use opcua_server::rbac::defaults::NamespaceDefaults;

const REFERENCES: u32 = 31;
const HIERARCHICAL_REFERENCES: u32 = 33;
const HAS_TYPE_DEFINITION: u32 = 40;
const ORGANIZES: u32 = 35;
const HAS_COMPONENT: u32 = 47;

fn sid(ns: u16, s: &str) -> NodeId {
    NodeId::string(ns, s)
}

fn std_id(n: u32) -> NodeId {
    NodeId::numeric(0, n)
}

fn qn(ns: u16, name: &str) -> QualifiedName {
    QualifiedName { namespace_index: ns, name: name.to_string() }
}

fn node(id: &NodeId, class: NodeClass, name: &str) -> Node {
    Node {
        node_id: id.duplicate(),
        node_class: class,
        browse_name: qn(1, name),
        is_abstract: false,
        data_type: NodeId::null(),
        value_rank: -1,
        role_permissions: None,
        access_restrictions: None,
        value: NodeValue::Empty,
        writable: false,
    }
}

fn types() -> TypeTree {
    let mut t = TypeTree::new();
    t.add_type_node(std_id(REFERENCES), None, NodeClass::ReferenceType, true);
    t.add_type_node(std_id(HIERARCHICAL_REFERENCES), Some(std_id(REFERENCES)), NodeClass::ReferenceType, true);
    t.add_type_node(std_id(ORGANIZES), Some(std_id(HIERARCHICAL_REFERENCES)), NodeClass::ReferenceType, false);
    t.add_type_node(std_id(HAS_COMPONENT), Some(std_id(HIERARCHICAL_REFERENCES)), NodeClass::ReferenceType, false);
    t.add_type_node(std_id(HAS_TYPE_DEFINITION), Some(std_id(REFERENCES)), NodeClass::ReferenceType, false);
    t
}

/// root --Organizes--> folder --HasComponent--> a, b; folder --HasComponent--> ns=5 external;
/// a --HasTypeDefinition--> type.
fn tree_space() -> AddressSpace {
    let mut s = AddressSpace::new();
    s.add_namespace("urn:test", 1);
    for (id, class, name) in [
        ("root", NodeClass::Object, "Root"),
        ("folder", NodeClass::Object, "Folder"),
        ("a", NodeClass::Variable, "A"),
        ("b", NodeClass::Object, "B"),
        ("type", NodeClass::VariableType, "AType"),
    ] {
        assert!(s.insert_node(node(&sid(1, id), class, name), &[]));
    }
    s.insert_reference(&sid(1, "root"), &sid(1, "folder"), &std_id(ORGANIZES));
    s.insert_reference(&sid(1, "folder"), &sid(1, "a"), &std_id(HAS_COMPONENT));
    s.insert_reference(&sid(1, "folder"), &sid(1, "b"), &std_id(HAS_COMPONENT));
    s.insert_reference(&sid(1, "folder"), &sid(5, "far"), &std_id(HAS_COMPONENT));
    s.insert_reference(&sid(1, "a"), &sid(1, "type"), &std_id(HAS_TYPE_DEFINITION));
    s
}

fn open_context() -> AccessContext {
    AccessContext {
        user_roles: vec![],
        enforce_role_based_access: false,
        security_mode: MessageSecurityMode::NoSecurity,
        namespace_defaults: NamespaceDefaults::new(),
    }
}

fn element(reference_type: NodeId, is_inverse: bool, name: QualifiedName) -> RelativePathElement {
    RelativePathElement { reference_type_id: reference_type, is_inverse, include_subtypes: true, target_name: name }
}

#[test]
fn browse_forward_reports_targets_and_externals() {
    let s = tree_space();
    let t = types();
    let r = browse_node(&s, &t, &open_context(), &[1], &sid(1, "folder"), &NodeId::null(), true, BrowseDirection::Forward, true);
    let names: Vec<String> = r.references.iter().map(|x| x.browse_name.name.clone()).collect();
    assert_eq!(names, vec!["A".to_string(), "B".to_string()]);
    assert!(r.references.iter().all(|x| x.is_forward));
    // Variables report their type definition; the object b has none.
    assert!(r.references[0].type_definition.equals(&sid(1, "type")));
    assert!(r.references[1].type_definition.is_null());
    // The target in a namespace no node manager serves here is external.
    assert_eq!(r.external.len(), 1);
    assert!(r.external[0].other.equals(&sid(5, "far")));

    // When that namespace is served here, the missing target is dropped.
    let r = browse_node(&s, &t, &open_context(), &[1, 5], &sid(1, "folder"), &NodeId::null(), true, BrowseDirection::Forward, false);
    assert!(r.external.is_empty());
    assert!(r.references[0].type_definition.is_null());
}

#[test]
fn browse_filters_by_type_and_direction() {
    let s = tree_space();
    let t = types();
    let inverse = browse_node(&s, &t, &open_context(), &[1], &sid(1, "folder"), &NodeId::null(), true, BrowseDirection::Inverse, false);
    assert_eq!(inverse.references.len(), 1);
    assert!(!inverse.references[0].is_forward);
    assert!(inverse.references[0].target.equals(&sid(1, "root")));

    let both = browse_node(&s, &t, &open_context(), &[1], &sid(1, "folder"), &NodeId::null(), true, BrowseDirection::Both, false);
    assert_eq!(both.references.len(), 3);
    assert!(both.references[2].target.equals(&sid(1, "root")));

    let organizes = browse_node(&s, &t, &open_context(), &[1], &sid(1, "folder"), &std_id(ORGANIZES), false, BrowseDirection::Both, false);
    assert_eq!(organizes.references.len(), 1);
    // Subtypes of HierarchicalReferences pass when asked for.
    let hier = browse_node(&s, &t, &open_context(), &[1], &sid(1, "folder"), &std_id(HIERARCHICAL_REFERENCES), true, BrowseDirection::Both, false);
    assert_eq!(hier.references.len(), 3);
    let exact = browse_node(&s, &t, &open_context(), &[1], &sid(1, "folder"), &std_id(HIERARCHICAL_REFERENCES), false, BrowseDirection::Both, false);
    assert_eq!(exact.references.len(), 0);
}

#[test]
fn browse_hides_targets_without_browse_permission() {
    let mut s = tree_space();
    let role = NodeId::numeric(0, 15656);
    let grant = |r: &NodeId| Some(vec![RolePermission { role_id: r.duplicate(), permissions: PermissionType::from_bits(PERMISSION_BROWSE) }]);
    let mut secret = node(&sid(1, "secret"), NodeClass::Object, "Secret");
    secret.role_permissions = grant(&NodeId::numeric(0, 15704));
    let mut visible = node(&sid(1, "visible"), NodeClass::Object, "Visible");
    visible.role_permissions = grant(&role);
    let mut restricted = node(&sid(1, "restricted"), NodeClass::Object, "Restricted");
    restricted.role_permissions = grant(&role);
    restricted.access_restrictions = Some(AccessRestrictionType::from_bits(8 | 2));
    let mut encrypted_read = node(&sid(1, "encrypted_read"), NodeClass::Object, "EncryptedRead");
    encrypted_read.role_permissions = grant(&role);
    encrypted_read.access_restrictions = Some(AccessRestrictionType::from_bits(2));
    for n in [secret, visible, restricted, encrypted_read] {
        let id = n.node_id.duplicate();
        assert!(s.insert_node(n, &[]));
        s.insert_reference(&sid(1, "root"), &id, &std_id(ORGANIZES));
    }
    let ctx = AccessContext {
        user_roles: vec![role],
        enforce_role_based_access: true,
        security_mode: MessageSecurityMode::Sign,
        namespace_defaults: NamespaceDefaults::new(),
    };
    let t = types();
    let r = browse_node(&s, &t, &ctx, &[1], &sid(1, "root"), &NodeId::null(), true, BrowseDirection::Forward, false);
    // folder has no permissions while enforcement is on; secret grants another role;
    // restricted needs encryption for Browse too; encrypted_read only for other services.
    let names: Vec<String> = r.references.iter().map(|x| x.browse_name.name.clone()).collect();
    assert_eq!(names, vec!["Visible".to_string(), "EncryptedRead".to_string()]);
    let open = browse_node(&s, &t, &open_context(), &[1], &sid(1, "root"), &NodeId::null(), true, BrowseDirection::Forward, false);
    assert_eq!(open.references.len(), 5);
}

#[test]
fn translate_browse_path_follows_named_steps() {
    let s = tree_space();
    let t = types();
    let path = vec![
        element(std_id(HIERARCHICAL_REFERENCES), false, qn(1, "Folder")),
        element(NodeId::null(), false, qn(1, "A")),
    ];
    let targets = translate_browse_paths(&s, &t, &[1], &sid(1, "root"), None, &path).unwrap();
    assert_eq!(targets.len(), 2);
    assert!(targets[0].node_id.equals(&sid(1, "folder")));
    assert_eq!(targets[0].depth, 1);
    assert!(targets[1].node_id.equals(&sid(1, "a")));
    assert_eq!(targets[1].depth, 2);
    assert!(targets[1].remaining_name.is_none());
}

#[test]
fn translate_browse_path_reports_external_targets_and_wildcards() {
    let s = tree_space();
    let t = types();
    // A step with a reference type that reaches a node of another server's namespace.
    let path = vec![
        element(std_id(ORGANIZES), false, qn(1, "Folder")),
        element(std_id(HAS_COMPONENT), false, qn(5, "Far")),
    ];
    let targets = translate_browse_paths(&s, &t, &[1], &sid(1, "root"), None, &path).unwrap();
    let last = targets.last().unwrap();
    assert!(last.node_id.equals(&sid(5, "far")));
    assert_eq!(last.depth, 2);
    assert_eq!(last.remaining_name.as_ref().unwrap().name, "Far");

    // The null name accepts every target; the index step ignores missing nodes.
    let wildcard = vec![element(std_id(HAS_COMPONENT), false, QualifiedName { namespace_index: 0, name: String::new() })];
    let all = translate_browse_paths(&s, &t, &[1], &sid(1, "folder"), None, &wildcard).unwrap();
    assert_eq!(all.len(), 3);
    let indexed = vec![element(NodeId::null(), false, qn(5, "Far"))];
    assert!(translate_browse_paths(&s, &t, &[1], &sid(1, "folder"), None, &indexed).unwrap().is_empty());

    // Inverse steps walk back up.
    let up = vec![element(std_id(HAS_COMPONENT), true, qn(1, "Folder"))];
    let parents = translate_browse_paths(&s, &t, &[1], &sid(1, "b"), None, &up).unwrap();
    assert_eq!(parents.len(), 1);
    assert!(parents[0].node_id.equals(&sid(1, "folder")));
}

#[test]
fn translate_browse_path_checks_the_unmatched_start_name() {
    let s = tree_space();
    let t = types();
    let path = vec![element(NodeId::null(), false, qn(1, "A"))];
    assert!(translate_browse_paths(&s, &t, &[1], &sid(1, "folder"), Some(&qn(1, "Other")), &path).is_none());
    assert!(translate_browse_paths(&s, &t, &[1], &sid(1, "missing"), Some(&qn(1, "Folder")), &path).is_none());
    let found = translate_browse_paths(&s, &t, &[1], &sid(1, "folder"), Some(&qn(1, "Folder")), &path).unwrap();
    assert_eq!(found.len(), 1);
    // No path: nothing found.
    assert!(translate_browse_paths(&s, &t, &[1], &sid(1, "folder"), None, &[]).unwrap().is_empty());
}
