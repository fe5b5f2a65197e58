use opcua_server::address_space::NodeValue;
use opcua_server::node_management::model_change::{model_change_field, ModelChangeField};
use opcua_server::node_management::methods::{check_arg_count, typed_arguments};
use opcua_server::rbac::role_management::MethodArgument;
use opcua_server::node_management::audit::{client_user_id, SessionIdentity};
use opcua_server::address_space::type_tree::TypeTree;
use opcua_server::address_space::{AddressSpace, Node, NodeClass, QualifiedName};
use opcua_server::node_id::NodeId;
use opcua_server::node_management::attributes::{
    attributes_mask, build_node, validate_array_dimensions, AddNodeAttributes, MASK_DATA_TYPE, MASK_VALUE,
    MASK_VALUE_RANK,
};
use opcua_server::node_management::crud::{
    add_nodes_impl, delete_nodes_impl, next_unused_node_id, AddNodeItem, DeleteNodeItem,
};
use opcua_server::node_management::references::{
    add_references_impl, delete_references_impl, AddReferenceItem, DeleteReferenceItem,
};
use opcua_server::node_management::types::{
    reference_type_is_abstract, standard_reference_type_is_abstract, validate_type_definition,
    value_rank_is_restriction_of,
};
use opcua_server::node_management::NodeManagementContext;
use opcua_server::permissions::{MessageSecurityMode, PermissionType, RolePermission, PERMISSION_BROWSE};
use opcua_server::rbac::decision::AccessContext;
use opcua_server::rbac::defaults::NamespaceDefaults;
use opcua_server::status::StatusCode;

const REFERENCES: u32 = 31;
const HAS_TYPE_DEFINITION: u32 = 40;
const HAS_SUBTYPE: u32 = 45;
const HAS_PROPERTY: u32 = 46;
const HAS_COMPONENT: u32 = 47;
const BASE_OBJECT_TYPE: u32 = 58;
const BASE_DATA_TYPE: u32 = 24;
const INT32: u32 = 6;
const STRING: u32 = 12;

fn sid(ns: u16, s: &str) -> NodeId {
    NodeId::string(ns, s)
}

fn std_id(n: u32) -> NodeId {
    NodeId::numeric(0, n)
}

fn object_node(id: &NodeId, name: &str) -> Node {
    Node {
        node_id: id.duplicate(),
        node_class: NodeClass::Object,
        browse_name: QualifiedName { namespace_index: 0, name: name.to_string() },
        is_abstract: false,
        data_type: NodeId::null(),
        value_rank: -1,
        role_permissions: None,
        access_restrictions: None,
        value: NodeValue::Empty,
        writable: false,
    }
}

fn type_node(id: &NodeId, class: NodeClass, name: &str, is_abstract: bool) -> Node {
    Node { node_class: class, is_abstract, ..object_node(id, name) }
}

fn variable_type_node(id: &NodeId, name: &str, data_type: NodeId, value_rank: i32) -> Node {
    Node { node_class: NodeClass::VariableType, data_type, value_rank, ..object_node(id, name) }
}

fn space() -> AddressSpace {
    let mut s = AddressSpace::new();
    s.add_namespace("http://opcfoundation.org/UA/", 0);
    s.add_namespace("urn:test", 1);
    s
}

fn standard_types() -> TypeTree {
    let mut t = TypeTree::new();
    t.add_type_node(std_id(REFERENCES), None, NodeClass::ReferenceType, true);
    for n in [HAS_TYPE_DEFINITION, HAS_SUBTYPE, HAS_PROPERTY, HAS_COMPONENT] {
        t.add_type_node(std_id(n), Some(std_id(REFERENCES)), NodeClass::ReferenceType, false);
    }
    t.add_type_node(std_id(BASE_OBJECT_TYPE), None, NodeClass::ObjectType, false);
    t.add_type_node(std_id(BASE_DATA_TYPE), None, NodeClass::DataType, true);
    t
}

fn context(can_modify: bool) -> NodeManagementContext {
    NodeManagementContext {
        access: AccessContext {
            user_roles: Vec::new(),
            enforce_role_based_access: false,
            security_mode: MessageSecurityMode::NoSecurity,
            namespace_defaults: NamespaceDefaults::new(),
        },
        clients_can_modify_address_space: can_modify,
    }
}

fn add_ref_item(source: &NodeId, target: &NodeId, reference_type: &NodeId, target_class: NodeClass) -> AddReferenceItem {
    AddReferenceItem {
        source_node_id: source.duplicate(),
        target_node_id: target.duplicate(),
        reference_type_id: reference_type.duplicate(),
        is_forward: true,
        target_node_class: target_class,
        source_status: StatusCode::BadNotSupported,
        target_status: StatusCode::BadNotSupported,
    }
}

fn add_object_item(parent: &NodeId, new_id: &NodeId, name: &str, type_definition: NodeId, specified: u32) -> AddNodeItem {
    AddNodeItem {
        parent_node_id: parent.duplicate(),
        reference_type_id: std_id(HAS_COMPONENT),
        requested_new_node_id: new_id.duplicate(),
        browse_name: QualifiedName { namespace_index: 1, name: name.to_string() },
        node_class: NodeClass::Object,
        node_attributes: AddNodeAttributes::Object { specified },
        type_definition_id: type_definition,
        status: StatusCode::BadNotSupported,
        added_node_id: NodeId::null(),
    }
}

fn add_variable_type_item(parent: &NodeId, new_id: &NodeId, name: &str, data_type: NodeId, value_rank: i32) -> AddNodeItem {
    AddNodeItem {
        parent_node_id: parent.duplicate(),
        reference_type_id: std_id(HAS_SUBTYPE),
        requested_new_node_id: new_id.duplicate(),
        browse_name: QualifiedName { namespace_index: 1, name: name.to_string() },
        node_class: NodeClass::VariableType,
        node_attributes: AddNodeAttributes::VariableType {
            specified: MASK_DATA_TYPE | MASK_VALUE_RANK,
            data_type,
            value_rank,
            array_dimensions: None,
            is_abstract: false,
        },
        type_definition_id: NodeId::null(),
        status: StatusCode::BadNotSupported,
        added_node_id: NodeId::null(),
    }
}

#[test]
fn references_abstract_reference_type_returns_operation_level_bad_reference_type_id_invalid() {
    let source = sid(1, "source");
    let target = sid(1, "target");
    let abstract_type = std_id(REFERENCES);
    let mut s = space();
    s.insert_node(object_node(&source, "source"), &[]);
    s.insert_node(object_node(&target, "target"), &[]);
    s.insert_node(type_node(&abstract_type, NodeClass::ReferenceType, "References", true), &[]);
    assert!(reference_type_is_abstract(&s, &abstract_type));
    let tree = standard_types();
    let mut items = vec![add_ref_item(&source, &target, &abstract_type, NodeClass::Object)];
    add_references_impl(&mut s, &tree, &context(true), &mut items);
    assert_eq!(items[0].source_status, StatusCode::BadReferenceTypeIdInvalid);
    assert_eq!(items[0].target_status, StatusCode::BadReferenceTypeIdInvalid);
    assert!(!s.has_reference(&source, &target, &abstract_type));
}

#[test]
fn references_standard_abstract_reference_type_returns_operation_level_bad_reference_type_id_invalid() {
    let source = sid(1, "source");
    let target = sid(1, "target");
    let abstract_type = std_id(REFERENCES);
    let mut s = AddressSpace::new();
    s.add_namespace("urn:test", 1);
    s.insert_node(object_node(&source, "source"), &[]);
    s.insert_node(object_node(&target, "target"), &[]);
    assert!(standard_reference_type_is_abstract(&abstract_type));
    let tree = standard_types();
    let mut items = vec![add_ref_item(&source, &target, &abstract_type, NodeClass::Object)];
    add_references_impl(&mut s, &tree, &context(true), &mut items);
    assert_eq!(items[0].source_status, StatusCode::BadReferenceTypeIdInvalid);
    assert_eq!(items[0].target_status, StatusCode::BadReferenceTypeIdInvalid);
    assert!(!s.has_reference(&source, &target, &abstract_type));
}

#[test]
fn references_add_references_target_node_class_mismatch_is_bad_node_class_invalid() {
    let source = sid(1, "source");
    let target = sid(1, "target");
    let has_component = std_id(HAS_COMPONENT);
    let build = || {
        let mut s = space();
        s.insert_node(type_node(&has_component, NodeClass::ReferenceType, "HasComponent", false), &[]);
        s.insert_node(object_node(&source, "source"), &[]);
        s.insert_node(object_node(&target, "target"), &[]);
        s
    };
    let tree = standard_types();
    let mut s = build();
    let mut items = vec![add_ref_item(&source, &target, &has_component, NodeClass::Variable)];
    add_references_impl(&mut s, &tree, &context(true), &mut items);
    assert_eq!(items[0].source_status, StatusCode::BadNodeClassInvalid);
    assert!(!s.has_reference(&source, &target, &has_component));
    let mut s = build();
    let mut items = vec![add_ref_item(&source, &target, &has_component, NodeClass::Unspecified)];
    add_references_impl(&mut s, &tree, &context(true), &mut items);
    assert_eq!(items[0].source_status, StatusCode::Good);
    let mut s = build();
    let mut items = vec![add_ref_item(&source, &target, &has_component, NodeClass::Object)];
    add_references_impl(&mut s, &tree, &context(true), &mut items);
    assert_eq!(items[0].source_status, StatusCode::Good);
    assert!(s.has_reference(&source, &target, &has_component));
}

#[test]
fn references_add_references_has_subtype_between_mismatched_classes_is_rejected() {
    let src_type = sid(1, "src-object-type");
    let var_type = sid(1, "a-variable-type");
    let obj_type_2 = sid(1, "another-object-type");
    let has_subtype = std_id(HAS_SUBTYPE);
    let build = || {
        let mut s = space();
        s.insert_node(type_node(&has_subtype, NodeClass::ReferenceType, "HasSubtype", false), &[]);
        s.insert_node(type_node(&src_type, NodeClass::ObjectType, "SrcType", false), &[]);
        s.insert_node(type_node(&obj_type_2, NodeClass::ObjectType, "ObjType2", false), &[]);
        s.insert_node(variable_type_node(&var_type, "VarType", std_id(BASE_DATA_TYPE), -1), &[]);
        s
    };
    let tree = standard_types();
    let mut s = build();
    let mut items = vec![add_ref_item(&src_type, &var_type, &has_subtype, NodeClass::Unspecified)];
    add_references_impl(&mut s, &tree, &context(true), &mut items);
    assert_eq!(items[0].source_status, StatusCode::BadReferenceNotAllowed);
    let mut s = build();
    let mut items = vec![add_ref_item(&src_type, &obj_type_2, &has_subtype, NodeClass::Unspecified)];
    add_references_impl(&mut s, &tree, &context(true), &mut items);
    assert_eq!(items[0].source_status, StatusCode::Good);
}

#[test]
fn references_add_references_second_has_type_definition_is_rejected() {
    let source = sid(1, "instance");
    let type_a = sid(1, "type-a");
    let type_b = sid(1, "type-b");
    let has_type_def = std_id(HAS_TYPE_DEFINITION);
    let build = |with_existing: bool| {
        let mut s = space();
        s.insert_node(type_node(&has_type_def, NodeClass::ReferenceType, "HasTypeDefinition", false), &[]);
        s.insert_node(object_node(&source, "instance"), &[]);
        s.insert_node(object_node(&type_a, "type-a"), &[]);
        s.insert_node(object_node(&type_b, "type-b"), &[]);
        if with_existing {
            s.insert_reference(&source, &type_a, &has_type_def);
        }
        s
    };
    let tree = standard_types();
    let mut s = build(true);
    let mut items = vec![add_ref_item(&source, &type_b, &has_type_def, NodeClass::Unspecified)];
    add_references_impl(&mut s, &tree, &context(true), &mut items);
    assert_eq!(items[0].source_status, StatusCode::BadReferenceNotAllowed);
    assert!(!s.has_reference(&source, &type_b, &has_type_def));
    let mut s = build(false);
    let mut items = vec![add_ref_item(&source, &type_a, &has_type_def, NodeClass::Unspecified)];
    add_references_impl(&mut s, &tree, &context(true), &mut items);
    assert_eq!(items[0].source_status, StatusCode::Good);
    assert!(s.has_reference(&source, &type_a, &has_type_def));
}

#[test]
fn references_duplicate_reference_returns_operation_level_bad_duplicate_reference_not_allowed() {
    let source = sid(1, "source");
    let target = sid(1, "target");
    let has_component = std_id(HAS_COMPONENT);
    let mut s = space();
    s.insert_node(type_node(&has_component, NodeClass::ReferenceType, "HasComponent", false), &[]);
    s.insert_node(object_node(&source, "source"), &[]);
    s.insert_node(object_node(&target, "target"), &[(source.duplicate(), has_component.duplicate(), false)]);
    assert!(s.has_reference(&source, &target, &has_component));
    let tree = standard_types();
    let mut items = vec![add_ref_item(&source, &target, &has_component, NodeClass::Object)];
    add_references_impl(&mut s, &tree, &context(true), &mut items);
    assert_eq!(items[0].source_status, StatusCode::BadDuplicateReferenceNotAllowed);
    assert_eq!(items[0].target_status, StatusCode::BadDuplicateReferenceNotAllowed);
    assert!(s.has_reference(&source, &target, &has_component));
}

#[test]
fn references_structural_reference_returns_operation_level_bad_reference_not_allowed() {
    let source = sid(1, "source");
    let target = sid(1, "object-target");
    let has_property = std_id(HAS_PROPERTY);
    let mut s = space();
    s.insert_node(type_node(&has_property, NodeClass::ReferenceType, "HasProperty", false), &[]);
    s.insert_node(object_node(&source, "source"), &[]);
    s.insert_node(object_node(&target, "object-target"), &[]);
    let tree = standard_types();
    let mut items = vec![add_ref_item(&source, &target, &has_property, NodeClass::Object)];
    add_references_impl(&mut s, &tree, &context(true), &mut items);
    assert_eq!(items[0].source_status, StatusCode::BadReferenceNotAllowed);
    assert_eq!(items[0].target_status, StatusCode::BadReferenceNotAllowed);
    assert!(!s.has_reference(&source, &target, &has_property));
}

#[test]
fn add_references_self_reference_is_refused() {
    let node = sid(1, "node");
    let has_component = std_id(HAS_COMPONENT);
    let mut s = space();
    s.insert_node(object_node(&node, "node"), &[]);
    let tree = standard_types();
    let mut items = vec![add_ref_item(&node, &node, &has_component, NodeClass::Unspecified)];
    add_references_impl(&mut s, &tree, &context(true), &mut items);
    assert_eq!(items[0].source_status, StatusCode::BadInvalidSelfReference);
    assert!(!s.has_reference(&node, &node, &has_component));
}

#[test]
fn add_references_unknown_source_and_gate_closed() {
    let source = sid(1, "missing");
    let target = sid(1, "target");
    let has_component = std_id(HAS_COMPONENT);
    let mut s = space();
    s.insert_node(object_node(&target, "target"), &[]);
    let tree = standard_types();
    let mut items = vec![add_ref_item(&source, &target, &has_component, NodeClass::Unspecified)];
    add_references_impl(&mut s, &tree, &context(false), &mut items);
    assert_eq!(items[0].source_status, StatusCode::BadSourceNodeIdInvalid);
    assert_eq!(items[0].target_status, StatusCode::BadServiceUnsupported);
    let other = sid(1, "other");
    s.insert_node(object_node(&other, "other"), &[]);
    let mut items = vec![add_ref_item(&other, &target, &has_component, NodeClass::Unspecified)];
    add_references_impl(&mut s, &tree, &context(false), &mut items);
    assert_eq!(items[0].source_status, StatusCode::BadServiceUnsupported);
    assert!(!s.has_reference(&other, &target, &has_component));
}

#[test]
fn add_references_denied_without_add_reference_permission() {
    let source = sid(1, "source");
    let target = sid(1, "target");
    let has_component = std_id(HAS_COMPONENT);
    let mut s = space();
    let mut guarded = object_node(&source, "source");
    guarded.role_permissions = Some(vec![RolePermission::new(sid(0, "Operator"), PermissionType::from_bits(PERMISSION_BROWSE))]);
    s.insert_node(guarded, &[]);
    s.insert_node(object_node(&target, "target"), &[]);
    let tree = standard_types();
    let mut ctx = context(true);
    ctx.access.enforce_role_based_access = true;
    ctx.access.user_roles = vec![sid(0, "Operator")];
    let mut items = vec![add_ref_item(&source, &target, &has_component, NodeClass::Unspecified)];
    add_references_impl(&mut s, &tree, &ctx, &mut items);
    assert_eq!(items[0].source_status, StatusCode::BadUserAccessDenied);
    assert_eq!(items[0].target_status, StatusCode::BadUserAccessDenied);
}

#[test]
fn delete_references_removes_both_directions() {
    let a = sid(1, "a");
    let b = sid(1, "b");
    let has_component = std_id(HAS_COMPONENT);
    let mut s = space();
    s.insert_node(object_node(&a, "a"), &[]);
    s.insert_node(object_node(&b, "b"), &[]);
    s.insert_reference(&a, &b, &has_component);
    s.insert_reference(&b, &a, &has_component);
    let tree = standard_types();
    let mut items = vec![DeleteReferenceItem {
        source_node_id: a.duplicate(),
        target_node_id: b.duplicate(),
        reference_type_id: has_component.duplicate(),
        is_forward: true,
        delete_bidirectional: true,
        source_status: StatusCode::BadNotSupported,
        target_status: StatusCode::BadNotSupported,
    }];
    delete_references_impl(&mut s, &tree, &context(true), &mut items);
    assert_eq!(items[0].source_status, StatusCode::Good);
    assert_eq!(items[0].target_status, StatusCode::Good);
    assert!(!s.has_reference(&a, &b, &has_component));
    assert!(!s.has_reference(&b, &a, &has_component));
}

#[test]
fn delete_references_with_unknown_type_is_refused() {
    let a = sid(1, "a");
    let b = sid(1, "b");
    let unknown = sid(1, "not-a-reference-type");
    let mut s = space();
    s.insert_node(object_node(&a, "a"), &[]);
    s.insert_node(object_node(&b, "b"), &[]);
    let tree = standard_types();
    let mut items = vec![DeleteReferenceItem {
        source_node_id: a.duplicate(),
        target_node_id: b.duplicate(),
        reference_type_id: unknown,
        is_forward: true,
        delete_bidirectional: false,
        source_status: StatusCode::BadNotSupported,
        target_status: StatusCode::BadNotSupported,
    }];
    delete_references_impl(&mut s, &tree, &context(true), &mut items);
    assert_eq!(items[0].source_status, StatusCode::BadReferenceTypeIdInvalid);
    assert_eq!(items[0].target_status, StatusCode::BadReferenceTypeIdInvalid);
}

#[test]
fn crud_duplicate_browse_name_returns_operation_level_bad_browse_name_duplicated() {
    let parent = sid(1, "parent");
    let existing_child = sid(1, "existing-child");
    let duplicate_child = sid(1, "duplicate-child");
    let mut s = AddressSpace::new();
    s.add_namespace("urn:test", 1);
    s.insert_node(object_node(&parent, "parent"), &[]);
    let mut child = object_node(&existing_child, "x");
    child.browse_name = QualifiedName { namespace_index: 1, name: "DuplicateName".to_string() };
    s.insert_node(child, &[(parent.duplicate(), std_id(HAS_COMPONENT), false)]);
    let tree = standard_types();
    let mut items = vec![add_object_item(&parent, &duplicate_child, "DuplicateName", std_id(BASE_OBJECT_TYPE), 0)];
    add_nodes_impl(&mut s, &tree, &context(true), &mut items);
    assert_eq!(items[0].status, StatusCode::BadBrowseNameDuplicated);
    assert!(items[0].added_node_id.is_null());
    assert!(!s.node_exists(&duplicate_child));
}

#[test]
fn crud_invalid_type_definition_returns_operation_level_bad_type_definition_invalid() {
    let parent = sid(1, "parent");
    let new_node = sid(1, "child-with-invalid-type");
    let mut s = AddressSpace::new();
    s.add_namespace("urn:test", 1);
    s.insert_node(object_node(&parent, "parent"), &[]);
    let tree = standard_types();
    let mut items = vec![add_object_item(&parent, &new_node, "ChildWithInvalidType", sid(2, "missing-object-type"), 0)];
    add_nodes_impl(&mut s, &tree, &context(true), &mut items);
    assert_eq!(items[0].status, StatusCode::BadTypeDefinitionInvalid);
    assert!(items[0].added_node_id.is_null());
    assert!(!s.node_exists(&new_node));
}

#[test]
fn crud_node_attributes_invalid_returns_operation_level_bad_node_attributes_invalid() {
    let parent = sid(1, "parent");
    let new_node = sid(1, "object-with-variable-value-attribute");
    let mut s = space();
    s.insert_node(type_node(&std_id(BASE_OBJECT_TYPE), NodeClass::ObjectType, "BaseObjectType", false), &[]);
    s.insert_node(object_node(&parent, "parent"), &[]);
    let tree = standard_types();
    let mut items = vec![add_object_item(&parent, &new_node, "ObjectWithVariableValueAttribute", std_id(BASE_OBJECT_TYPE), MASK_VALUE)];
    add_nodes_impl(&mut s, &tree, &context(true), &mut items);
    assert_eq!(items[0].status, StatusCode::BadNodeAttributesInvalid);
    assert!(items[0].added_node_id.is_null());
    assert!(!s.node_exists(&new_node));
}

#[test]
fn crud_add_nodes_abstract_type_definition_in_metadata_is_rejected() {
    let parent = sid(1, "parent");
    let abstract_type = sid(2, "abstract-object-type");
    let concrete_type = sid(2, "concrete-object-type");
    let mut tree = standard_types();
    tree.add_type_node(abstract_type.duplicate(), Some(std_id(BASE_OBJECT_TYPE)), NodeClass::ObjectType, true);
    tree.add_type_node(concrete_type.duplicate(), Some(std_id(BASE_OBJECT_TYPE)), NodeClass::ObjectType, false);
    let build = || {
        let mut s = space();
        s.insert_node(object_node(&parent, "parent"), &[]);
        s
    };
    let mut s = build();
    let child_abstract = sid(1, "child-abstract");
    let mut items = vec![add_object_item(&parent, &child_abstract, "ChildAbstract", abstract_type.duplicate(), 0)];
    add_nodes_impl(&mut s, &tree, &context(true), &mut items);
    assert_eq!(items[0].status, StatusCode::BadTypeDefinitionInvalid);
    assert!(!s.node_exists(&child_abstract));
    let mut s = build();
    let child_concrete = sid(1, "child-concrete");
    let mut items = vec![add_object_item(&parent, &child_concrete, "ChildConcrete", concrete_type.duplicate(), 0)];
    add_nodes_impl(&mut s, &tree, &context(true), &mut items);
    assert_ne!(items[0].status, StatusCode::BadTypeDefinitionInvalid);
    assert_eq!(items[0].status, StatusCode::Good);
    assert!(items[0].added_node_id.equals(&child_concrete));
    assert!(s.has_reference(&parent, &child_concrete, &std_id(HAS_COMPONENT)));
    assert!(s.has_reference(&child_concrete, &concrete_type, &std_id(HAS_TYPE_DEFINITION)));
}

#[test]
fn crud_add_nodes_variable_type_subtype_refinement_is_enforced() {
    let super_type = sid(1, "super-var-type");
    let int32 = std_id(INT32);
    let string_dt = std_id(STRING);
    let mut tree = standard_types();
    tree.add_type_node(int32.duplicate(), Some(std_id(BASE_DATA_TYPE)), NodeClass::DataType, false);
    tree.add_type_node(string_dt.duplicate(), Some(std_id(BASE_DATA_TYPE)), NodeClass::DataType, false);
    let build = || {
        let mut s = space();
        s.insert_node(variable_type_node(&super_type, "SuperVarType", int32.duplicate(), -1), &[]);
        s
    };
    let mut s = build();
    let mut items = vec![add_variable_type_item(&super_type, &sid(1, "bad-dt"), "BadDt", string_dt.duplicate(), -1)];
    add_nodes_impl(&mut s, &tree, &context(true), &mut items);
    assert_eq!(items[0].status, StatusCode::BadNodeAttributesInvalid);
    let mut s = build();
    let mut items = vec![add_variable_type_item(&super_type, &sid(1, "bad-vr"), "BadVr", int32.duplicate(), 1)];
    add_nodes_impl(&mut s, &tree, &context(true), &mut items);
    assert_eq!(items[0].status, StatusCode::BadNodeAttributesInvalid);
    let mut s = build();
    let mut items = vec![add_variable_type_item(&super_type, &sid(1, "good"), "Good", int32.duplicate(), -1)];
    add_nodes_impl(&mut s, &tree, &context(true), &mut items);
    assert_ne!(items[0].status, StatusCode::BadNodeAttributesInvalid);
    assert_eq!(items[0].status, StatusCode::Good);
}

#[test]
fn add_nodes_without_requested_id_gets_a_fresh_numeric_id() {
    let parent = sid(1, "parent");
    let mut s = space();
    s.insert_node(object_node(&parent, "parent"), &[]);
    let tree = standard_types();
    let mut items = vec![add_object_item(&parent, &NodeId::null(), "Auto", std_id(BASE_OBJECT_TYPE), 0)];
    add_nodes_impl(&mut s, &tree, &context(true), &mut items);
    assert_eq!(items[0].status, StatusCode::Good);
    assert_eq!(items[0].added_node_id.namespace, 1);
    assert!(s.node_exists(&items[0].added_node_id));
}

#[test]
fn add_nodes_parent_added_earlier_in_the_batch() {
    let parent = sid(1, "parent");
    let child = sid(1, "child");
    let grandchild = sid(1, "grandchild");
    let mut s = space();
    s.insert_node(object_node(&parent, "parent"), &[]);
    let tree = standard_types();
    let mut items = vec![
        add_object_item(&parent, &child, "Child", std_id(BASE_OBJECT_TYPE), 0),
        add_object_item(&child, &grandchild, "Grandchild", std_id(BASE_OBJECT_TYPE), 0),
    ];
    add_nodes_impl(&mut s, &tree, &context(true), &mut items);
    assert_eq!(items[0].status, StatusCode::Good);
    assert_eq!(items[1].status, StatusCode::Good);
    assert!(s.node_exists(&grandchild));
}

#[test]
fn add_nodes_refused_when_clients_may_not_modify() {
    let parent = sid(1, "parent");
    let child = sid(1, "child");
    let mut s = space();
    s.insert_node(object_node(&parent, "parent"), &[]);
    let tree = standard_types();
    let mut items = vec![
        add_object_item(&parent, &child, "Child", std_id(BASE_OBJECT_TYPE), 0),
        add_object_item(&sid(1, "nowhere"), &sid(1, "orphan"), "Orphan", std_id(BASE_OBJECT_TYPE), 0),
    ];
    add_nodes_impl(&mut s, &tree, &context(false), &mut items);
    assert_eq!(items[0].status, StatusCode::BadServiceUnsupported);
    assert_eq!(items[1].status, StatusCode::BadParentNodeIdInvalid);
    assert!(!s.node_exists(&child));
}

#[test]
fn add_nodes_in_unknown_namespace_is_rejected() {
    let parent = sid(1, "parent");
    let mut s = space();
    s.insert_node(object_node(&parent, "parent"), &[]);
    let tree = standard_types();
    let mut items = vec![add_object_item(&parent, &sid(7, "elsewhere"), "Elsewhere", std_id(BASE_OBJECT_TYPE), 0)];
    add_nodes_impl(&mut s, &tree, &context(true), &mut items);
    assert_eq!(items[0].status, StatusCode::BadNodeIdRejected);
}

#[test]
fn delete_nodes_deletes_existing_and_reports_unknown() {
    let a = sid(1, "a");
    let b = sid(1, "b");
    let has_component = std_id(HAS_COMPONENT);
    let mut s = space();
    s.insert_node(object_node(&a, "a"), &[]);
    s.insert_node(object_node(&b, "b"), &[(a.duplicate(), has_component.duplicate(), false)]);
    let mut items = vec![
        DeleteNodeItem { node_id: b.duplicate(), delete_target_references: true, status: StatusCode::BadNodeIdUnknown },
        DeleteNodeItem { node_id: sid(1, "ghost"), delete_target_references: false, status: StatusCode::BadNodeIdUnknown },
    ];
    delete_nodes_impl(&mut s, &context(true), &mut items);
    assert_eq!(items[0].status, StatusCode::Good);
    assert_eq!(items[1].status, StatusCode::BadNodeIdUnknown);
    assert!(!s.node_exists(&b));
    assert!(!s.has_reference(&a, &b, &has_component));
    assert!(s.node_exists(&a));
}

#[test]
fn delete_nodes_refused_when_clients_may_not_modify() {
    let a = sid(1, "a");
    let mut s = space();
    s.insert_node(object_node(&a, "a"), &[]);
    let mut items = vec![DeleteNodeItem { node_id: a.duplicate(), delete_target_references: false, status: StatusCode::BadNodeIdUnknown }];
    delete_nodes_impl(&mut s, &context(false), &mut items);
    assert_eq!(items[0].status, StatusCode::BadServiceUnsupported);
    assert!(s.node_exists(&a));
}

#[test]
fn value_rank_restrictions() {
    assert!(value_rank_is_restriction_of(-2, 5));
    assert!(value_rank_is_restriction_of(-3, -1));
    assert!(value_rank_is_restriction_of(-3, 1));
    assert!(!value_rank_is_restriction_of(-3, 2));
    assert!(value_rank_is_restriction_of(0, 3));
    assert!(!value_rank_is_restriction_of(0, -1));
    assert!(!value_rank_is_restriction_of(-1, 1));
    assert!(value_rank_is_restriction_of(2, 2));
    assert!(!value_rank_is_restriction_of(2, 3));
}

#[test]
fn array_dimensions_must_agree_with_fixed_rank() {
    assert_eq!(validate_array_dimensions(2, &[3, 4]), Ok(()));
    assert_eq!(validate_array_dimensions(2, &[3]), Err(StatusCode::BadNodeAttributesInvalid));
    assert_eq!(validate_array_dimensions(-1, &[3]), Ok(()));
}

#[test]
fn attributes_mask_rejects_unknown_and_disallowed_bits() {
    assert_eq!(attributes_mask(MASK_VALUE, MASK_VALUE | MASK_DATA_TYPE), Ok(MASK_VALUE));
    assert_eq!(attributes_mask(MASK_VALUE, MASK_DATA_TYPE), Err(StatusCode::BadNodeAttributesInvalid));
    assert_eq!(attributes_mask(1 << 13, u32::MAX), Err(StatusCode::BadNodeAttributesInvalid));
}

#[test]
fn build_node_checks_class_and_symmetric_inverse_name() {
    let id = sid(1, "rt");
    let name = QualifiedName { namespace_index: 1, name: "Rt".to_string() };
    let bad = AddNodeAttributes::ReferenceType { specified: (1 << 15) | 1024, is_abstract: false, symmetric: true, inverse_name: "Back".to_string() };
    assert_eq!(build_node(NodeClass::ReferenceType, &bad, &name, &id).err(), Some(StatusCode::BadNodeAttributesInvalid));
    let good = AddNodeAttributes::ReferenceType { specified: 1 << 15, is_abstract: false, symmetric: true, inverse_name: String::new() };
    assert!(build_node(NodeClass::ReferenceType, &good, &name, &id).is_ok());
    assert_eq!(build_node(NodeClass::Unspecified, &good, &name, &id).err(), Some(StatusCode::BadNodeClassInvalid));
    assert_eq!(build_node(NodeClass::Object, &good, &name, &id).err(), Some(StatusCode::BadNodeAttributesInvalid));
}

#[test]
fn type_definition_of_variable_must_be_variable_type() {
    let mut s = space();
    let object_type = sid(1, "ot");
    s.insert_node(type_node(&object_type, NodeClass::ObjectType, "OT", false), &[]);
    let tree = standard_types();
    assert_eq!(validate_type_definition(&s, &tree, NodeClass::Object, &object_type), Ok(()));
    assert_eq!(validate_type_definition(&s, &tree, NodeClass::Variable, &object_type), Err(StatusCode::BadTypeDefinitionInvalid));
    assert_eq!(validate_type_definition(&s, &tree, NodeClass::Method, &object_type), Ok(()));
}

#[test]
fn next_unused_node_id_is_fresh_and_in_namespace() {
    let s = space();
    let id = next_unused_node_id(&s, 1).unwrap();
    assert_eq!(id.namespace, 1);
    assert!(!s.node_exists(&id));
}

#[test]
fn subtype_walk_follows_supertypes() {
    let tree = standard_types();
    assert!(tree.is_subtype_of(&std_id(HAS_COMPONENT), &std_id(REFERENCES)));
    assert!(!tree.is_subtype_of(&std_id(REFERENCES), &std_id(HAS_COMPONENT)));
    assert!(tree.is_subtype_of(&std_id(HAS_SUBTYPE), &std_id(HAS_SUBTYPE)));
}

#[test]
fn typed_method_arity_is_checked() {
    assert_eq!(check_arg_count(&[], 0), Ok(()));
    assert_eq!(check_arg_count(&[MethodArgument::Other], 2), Err(StatusCode::BadArgumentsMissing));
    assert_eq!(
        check_arg_count(&[MethodArgument::Other, MethodArgument::Other, MethodArgument::Other], 2),
        Err(StatusCode::BadTooManyArguments)
    );
    assert_eq!(check_arg_count(&[MethodArgument::Other, MethodArgument::Other], 2), Ok(()));
}

#[test]
fn audit_client_user_id_follows_identity() {
    assert_eq!(client_user_id(&SessionIdentity::Anonymous, Some("x")), "ANONYMOUS");
    assert_eq!(client_user_id(&SessionIdentity::UserName("alice".to_string()), None), "alice");
    assert_eq!(client_user_id(&SessionIdentity::X509, Some("t")), "x509");
    assert_eq!(client_user_id(&SessionIdentity::IssuedToken, Some("jwt-user")), "jwt-user");
    assert_eq!(client_user_id(&SessionIdentity::IssuedToken, None), "issued-token");
    assert_eq!(client_user_id(&SessionIdentity::Unknown, Some("u")), "u");
    assert_eq!(client_user_id(&SessionIdentity::Unknown, None), "");
}

#[test]
fn model_change_event_fields_are_selected_by_name() {
    let path = |name: &str, ns: u16| vec![QualifiedName { namespace_index: ns, name: name.to_string() }];
    assert_eq!(model_change_field(true, &path("EventId", 0)), Some(ModelChangeField::EventId));
    assert_eq!(model_change_field(true, &path("Changes", 3)), Some(ModelChangeField::Changes));
    assert_eq!(model_change_field(true, &path("Severity", 0)), Some(ModelChangeField::Severity));
    assert_eq!(model_change_field(false, &path("EventId", 0)), None);
    assert_eq!(model_change_field(true, &path("Unknown", 0)), None);
    assert_eq!(model_change_field(true, &[]), None);
    let two = vec![
        QualifiedName { namespace_index: 0, name: "EventId".to_string() },
        QualifiedName { namespace_index: 0, name: "Time".to_string() },
    ];
    assert_eq!(model_change_field(true, &two), None);
}

#[test]
fn too_few_arguments_is_bad_arguments_missing() {
    // A handler of two arguments.
    assert_eq!(check_arg_count(&[MethodArgument::Other], 2), Err(StatusCode::BadArgumentsMissing));
    assert_eq!(check_arg_count(&[], 2), Err(StatusCode::BadArgumentsMissing));
}

#[test]
fn too_many_arguments_is_bad_too_many_arguments() {
    // A handler of one argument.
    assert_eq!(
        check_arg_count(&[MethodArgument::Other, MethodArgument::Other], 1),
        Err(StatusCode::BadTooManyArguments)
    );
}

#[test]
fn typed_arguments_report_decoding_failures_as_the_call_status() {
    assert_eq!(typed_arguments::<i32>(2, vec![Ok(1), Ok(2)]), Ok(vec![1, 2]));
    assert_eq!(typed_arguments::<i32>(0, vec![]), Ok(vec![]));
    assert_eq!(typed_arguments::<i32>(3, vec![Ok(1), Ok(2)]), Err(StatusCode::BadArgumentsMissing));
    assert_eq!(typed_arguments::<i32>(1, vec![Ok(1), Ok(2)]), Err(StatusCode::BadTooManyArguments));
    assert_eq!(
        typed_arguments::<i32>(2, vec![Ok(1), Err(StatusCode::BadTypeDefinitionInvalid)]),
        Err(StatusCode::BadInvalidArgument)
    );
}
