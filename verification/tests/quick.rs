use opcua_server::address_space::references::BrowseDirection;
use opcua_server::address_space::type_tree::TypeTree;
use opcua_server::address_space::{AddressSpace, NodeClass, NodeValue};
use opcua_server::node_id::NodeId;
use opcua_server::node_management::quick::{populate_quick_nodes, QuickObject, QuickVariable, BASE_OBJECT_TYPE};

const UINT32: u32 = 7;
const INT64: u32 = 8;
const ORGANIZES: u32 = 35;
const HAS_COMPONENT: u32 = 47;

fn var(name: &str, data_type: u32, has_callbacks: bool) -> QuickVariable {
    QuickVariable {
        name: name.to_string(),
        data_type: NodeId::numeric(0, data_type),
        initial_value: NodeValue::UInt32(42),
        writable: false,
        has_callbacks,
    }
}

fn class_of(space: &AddressSpace, id: &NodeId) -> Option<NodeClass> {
    space.find(id).map(|i| space.node_at(i).node_class)
}

#[test]
fn single_variable_created() {
    let mut space = AddressSpace::new();
    let callbacks = populate_quick_nodes(&mut space, 2, &[var("Counter", UINT32, false)], &[]);
    assert!(callbacks.is_empty());
    assert!(matches!(class_of(&space, &NodeId::string(2, "Counter")), Some(NodeClass::Variable)));
    let node = space.node_at(space.find(&NodeId::string(2, "Counter")).unwrap());
    assert!(node.data_type.equals(&NodeId::numeric(0, UINT32)));
    // Organized by the Objects folder.
    let tree = TypeTree::new();
    let parents = space.find_references(&tree, &NodeId::string(2, "Counter"), &Some((NodeId::numeric(0, ORGANIZES), false)), BrowseDirection::Inverse);
    assert_eq!(parents.len(), 1);
    assert!(parents[0].other.equals(&NodeId::numeric(0, 85)));
}

#[test]
fn multiple_variables() {
    let mut space = AddressSpace::new();
    let vars = vec![var("Var1", 5, false), var("Var2", 5, true), var("Var3", 5, false)];
    let callbacks = populate_quick_nodes(&mut space, 3, &vars, &[]);
    for name in ["Var1", "Var2", "Var3"] {
        assert!(space.node_exists(&NodeId::string(3, name)), "{name} should exist");
    }
    assert_eq!(callbacks.len(), 1);
    assert!(callbacks[0].equals(&NodeId::string(3, "Var2")));
}

#[test]
fn object_with_children() {
    let mut space = AddressSpace::new();
    let objects = vec![QuickObject {
        name: "Folder".to_string(),
        type_definition: NodeId::numeric(0, BASE_OBJECT_TYPE),
        children: vec![var("ChildVar", INT64, true)],
    }];
    let callbacks = populate_quick_nodes(&mut space, 4, &[], &objects);
    assert!(matches!(class_of(&space, &NodeId::string(4, "Folder")), Some(NodeClass::Object)));
    assert!(matches!(class_of(&space, &NodeId::string(4, "Folder.ChildVar")), Some(NodeClass::Variable)));
    assert_eq!(callbacks.len(), 1);
    assert!(callbacks[0].equals(&NodeId::string(4, "Folder.ChildVar")));
    let tree = TypeTree::new();
    let children = space.find_references(&tree, &NodeId::string(4, "Folder"), &Some((NodeId::numeric(0, HAS_COMPONENT), false)), BrowseDirection::Forward);
    assert_eq!(children.len(), 1);
    assert!(children[0].other.equals(&NodeId::string(4, "Folder.ChildVar")));
}

#[test]
fn children_of_different_objects_do_not_collide() {
    let mut space = AddressSpace::new();
    let objects = vec![
        QuickObject { name: "A".to_string(), type_definition: NodeId::numeric(0, BASE_OBJECT_TYPE), children: vec![var("X", 1, false)] },
        QuickObject { name: "B".to_string(), type_definition: NodeId::numeric(0, BASE_OBJECT_TYPE), children: vec![var("X", 1, false)] },
    ];
    populate_quick_nodes(&mut space, 2, &[var("A", 1, false)], &objects);
    // The variable A took the id first: the object A is not created, its child is.
    assert!(matches!(class_of(&space, &NodeId::string(2, "A")), Some(NodeClass::Variable)));
    assert!(space.node_exists(&NodeId::string(2, "A.X")));
    assert!(space.node_exists(&NodeId::string(2, "B.X")));
    assert_eq!(space.node_count(), 4);
}

#[test]
fn writable_variable() {
    let mut space = AddressSpace::new();
    let target = QuickVariable {
        name: "WriteTarget".to_string(),
        data_type: NodeId::numeric(0, 6),
        initial_value: NodeValue::Int32(0),
        writable: true,
        has_callbacks: false,
    };
    populate_quick_nodes(&mut space, 2, &[target, var("ReadOnly", UINT32, false)], &[]);
    let node = space.node_at(space.find(&NodeId::string(2, "WriteTarget")).expect("variable should exist in address space"));
    assert!(matches!(node.node_class, NodeClass::Variable));
    assert!(node.writable, "access level should include CurrentWrite");
    assert!(matches!(node.value, NodeValue::Int32(0)));
    let read_only = space.node_at(space.find(&NodeId::string(2, "ReadOnly")).unwrap());
    assert!(!read_only.writable);
    assert!(matches!(read_only.value, NodeValue::UInt32(42)));
}
