//! The nodes of a Program (OPC UA Part 10): the Program object, its state, permission
//! and progress variables, and its control methods, each a component of the Program.

use vstd::prelude::*;
use crate::address_space::{NodeValue, NodeValueView};
use vstd::string::StringExecFns;
use crate::address_space::{
    insert_if_absent, insert_node_spec, lemma_node_index, node_exists, node_index, ref_entry_views, AddressSpace, Node, NodeClass, NodeView, QualifiedName,
    QualifiedNameView, SpaceView,
};
use crate::node_id::{numeric_view, string_view, NodeId, NodeIdView};
use crate::node_management::types::{HAS_COMPONENT, HAS_TYPE_DEFINITION};

verus! {

/// The namespace the nodes of Programs are created in.
pub const PROGRAM_NAMESPACE: u16 = 2;
/// The number of component nodes of a Program.
pub const PROGRAM_PARTS: usize = 12;
/// `Boolean`.
pub const DATA_TYPE_BOOLEAN: u32 = 1;
/// `Int32`.
pub const DATA_TYPE_INT32: u32 = 6;
/// `String`.
pub const DATA_TYPE_STRING: u32 = 12;

/// The name of the Program `name` of `device`: `Program_<device>_<name>`.
pub open spec fn program_base(device: Seq<char>, name: Seq<char>) -> Seq<char> {
    "Program_"@ + device + "_"@ + name
}

/// The id of a node of the Program named `base`: the Program itself for an empty
/// suffix, else its component `<base>_<suffix>`.
pub open spec fn program_node_id(base: Seq<char>, suffix: Seq<char>) -> NodeIdView {
    if suffix.len() == 0 {
        string_view(PROGRAM_NAMESPACE, base)
    } else {
        string_view(PROGRAM_NAMESPACE, base + "_"@ + suffix)
    }
}

/// The `i`-th component of a Program: its name, class and (for variables) data type.
/// The variables come first: CurrentState, LastTransition, Haltable, Suspendable,
/// Resumable, Resetable, Progress; then the methods Start, Suspend, Resume, Halt, Reset.
pub open spec fn program_part(i: int) -> (Seq<char>, NodeClass, u32) {
    if i == 0 {
        ("CurrentState"@, NodeClass::Variable, DATA_TYPE_STRING)
    } else if i == 1 {
        ("LastTransition"@, NodeClass::Variable, DATA_TYPE_STRING)
    } else if i == 2 {
        ("Haltable"@, NodeClass::Variable, DATA_TYPE_BOOLEAN)
    } else if i == 3 {
        ("Suspendable"@, NodeClass::Variable, DATA_TYPE_BOOLEAN)
    } else if i == 4 {
        ("Resumable"@, NodeClass::Variable, DATA_TYPE_BOOLEAN)
    } else if i == 5 {
        ("Resetable"@, NodeClass::Variable, DATA_TYPE_BOOLEAN)
    } else if i == 6 {
        ("Progress"@, NodeClass::Variable, DATA_TYPE_INT32)
    } else if i == 7 {
        ("Start"@, NodeClass::Method, 0)
    } else if i == 8 {
        ("Suspend"@, NodeClass::Method, 0)
    } else if i == 9 {
        ("Resume"@, NodeClass::Method, 0)
    } else if i == 10 {
        ("Halt"@, NodeClass::Method, 0)
    } else {
        ("Reset"@, NodeClass::Method, 0)
    }
}

/// `ProgramStateMachineType`, the type definition of a Program object.
pub const PROGRAM_STATE_MACHINE_TYPE: u32 = 2393;

/// The initial value of the `i`-th component: a Program starts Halted, with no last
/// transition, only Reset allowed, and no progress; methods have no value.
pub open spec fn program_part_value(i: int) -> NodeValueView {
    if i == 0 {
        NodeValueView::Text("Halted"@)
    } else if i == 1 {
        NodeValueView::Text(Seq::empty())
    } else if 2 <= i <= 4 {
        NodeValueView::Boolean(false)
    } else if i == 5 {
        NodeValueView::Boolean(true)
    } else if i == 6 {
        NodeValueView::Int32(0)
    } else {
        NodeValueView::Empty
    }
}

/// The references of the Program object: of type ProgramStateMachineType.
pub open spec fn program_object_entries() -> Seq<(NodeIdView, NodeIdView, bool)> {
    seq![(numeric_view(0, PROGRAM_STATE_MACHINE_TYPE), numeric_view(0, HAS_TYPE_DEFINITION), true)]
}

/// The Program object, named by its base name.
pub open spec fn program_object(base: Seq<char>) -> NodeView {
    NodeView {
        id: program_node_id(base, Seq::empty()),
        node_class: NodeClass::Object,
        browse_name: QualifiedNameView { namespace_index: 0, name: base },
        is_abstract: false,
        data_type: numeric_view(0, 0),
        value_rank: -1i32,
        role_permissions: None,
        access_restrictions: None,
        value: NodeValueView::Empty,
        writable: false,
    }
}

/// The node of the `i`-th component: browse name its name, a scalar of its data type
/// when a variable.
pub open spec fn program_part_node(base: Seq<char>, i: int) -> NodeView {
    let (suffix, class, data_type) = program_part(i);
    NodeView {
        id: program_node_id(base, suffix),
        node_class: class,
        browse_name: QualifiedNameView { namespace_index: 0, name: suffix },
        is_abstract: false,
        data_type: numeric_view(0, data_type),
        value_rank: -1i32,
        role_permissions: None,
        access_restrictions: None,
        value: program_part_value(i),
        writable: false,
    }
}

/// The address space after inserting the Program object (with its type definition) and
/// its first `k` components, each a HasComponent target of the Program.
pub open spec fn program_inserted(s: SpaceView, base: Seq<char>, k: nat) -> SpaceView
    decreases k,
{
    if k == 0 {
        insert_if_absent(s, program_object(base), program_object_entries())
    } else {
        insert_if_absent(
            program_inserted(s, base, (k - 1) as nat),
            program_part_node(base, k - 1),
            seq![(program_node_id(base, Seq::empty()), numeric_view(0, HAS_COMPONENT), false)],
        )
    }
}

fn part_value(i: usize) -> (r: NodeValue)
    requires
        i < PROGRAM_PARTS,
    ensures
        r@ == program_part_value(i as int),
{
    if i == 0 {
        NodeValue::Text("Halted".to_owned())
    } else if i == 1 {
        let t = String::new();
        assert(t@ =~= Seq::<char>::empty());
        NodeValue::Text(t)
    } else if i <= 4 {
        NodeValue::Boolean(false)
    } else if i == 5 {
        NodeValue::Boolean(true)
    } else if i == 6 {
        NodeValue::Int32(0)
    } else {
        NodeValue::Empty
    }
}

fn part(i: usize) -> (r: (&'static str, NodeClass, u32))
    requires
        i < PROGRAM_PARTS,
    ensures
        (r.0@, r.1, r.2) == program_part(i as int),
{
    if i == 0 {
        ("CurrentState", NodeClass::Variable, DATA_TYPE_STRING)
    } else if i == 1 {
        ("LastTransition", NodeClass::Variable, DATA_TYPE_STRING)
    } else if i == 2 {
        ("Haltable", NodeClass::Variable, DATA_TYPE_BOOLEAN)
    } else if i == 3 {
        ("Suspendable", NodeClass::Variable, DATA_TYPE_BOOLEAN)
    } else if i == 4 {
        ("Resumable", NodeClass::Variable, DATA_TYPE_BOOLEAN)
    } else if i == 5 {
        ("Resetable", NodeClass::Variable, DATA_TYPE_BOOLEAN)
    } else if i == 6 {
        ("Progress", NodeClass::Variable, DATA_TYPE_INT32)
    } else if i == 7 {
        ("Start", NodeClass::Method, 0)
    } else if i == 8 {
        ("Suspend", NodeClass::Method, 0)
    } else if i == 9 {
        ("Resume", NodeClass::Method, 0)
    } else if i == 10 {
        ("Halt", NodeClass::Method, 0)
    } else {
        ("Reset", NodeClass::Method, 0)
    }
}

/// The id of the component `suffix` of the Program named `base`.
pub fn program_component_id(base: &str, suffix: &str) -> (r: NodeId)
    requires
        suffix@.len() > 0,
    ensures
        r@ == program_node_id(base@, suffix@),
{
    let mut text = base.to_owned();
    text.append("_");
    text.append(suffix);
    NodeId::from_string(PROGRAM_NAMESPACE, text)
}

/// The base name `Program_<device>_<name>` of a Program.
pub fn program_base_name(device: &str, name: &str) -> (r: String)
    ensures
        r@ == program_base(device@, name@),
{
    let mut text = "Program_".to_owned();
    text.append(device);
    text.append("_");
    text.append(name);
    text
}

/// Creates the nodes of the Program `name` of `device` (see [`program_inserted`]) and
/// returns the Program's id. A node whose id is already taken is left as it is.
pub fn register_program_nodes(address_space: &mut AddressSpace, device: &str, name: &str) -> (r: NodeId)
    requires
        old(address_space).wf(),
    ensures
        final(address_space).wf(),
        r@ == program_node_id(program_base(device@, name@), Seq::empty()),
        final(address_space)@ == program_inserted(old(address_space)@, program_base(device@, name@), PROGRAM_PARTS as nat),
{
    let base = program_base_name(device, name);
    let parent = NodeId::from_string(PROGRAM_NAMESPACE, base.clone());
    let ghost b = base@;
    let object = Node {
        node_id: parent.duplicate(),
        node_class: NodeClass::Object,
        browse_name: QualifiedName { namespace_index: 0, name: base.clone() },
        is_abstract: false,
        data_type: NodeId::null(),
        value_rank: -1i32,
        role_permissions: None,
        access_restrictions: None,
        value: NodeValue::Empty,
        writable: false,
    };
    assert(object@ == program_object(b));
    let mut object_entries: Vec<(NodeId, NodeId, bool)> = Vec::new();
    object_entries.push((NodeId::numeric(0, PROGRAM_STATE_MACHINE_TYPE), NodeId::numeric(0, HAS_TYPE_DEFINITION), true));
    assert(ref_entry_views(object_entries@) =~= program_object_entries());
    let _ = address_space.insert_node(object, object_entries.as_slice());
    let mut i: usize = 0;
    while i < PROGRAM_PARTS
        invariant
            i <= PROGRAM_PARTS,
            b == base@,
            parent@ == program_node_id(b, Seq::empty()),
            address_space.wf(),
            address_space@ == program_inserted(old(address_space)@, b, i as nat),
        decreases PROGRAM_PARTS - i,
    {
        let (suffix, class, data_type) = part(i);
        proof {
            reveal_strlit("CurrentState");
            reveal_strlit("LastTransition");
            reveal_strlit("Haltable");
            reveal_strlit("Suspendable");
            reveal_strlit("Resumable");
            reveal_strlit("Resetable");
            reveal_strlit("Progress");
            reveal_strlit("Start");
            reveal_strlit("Suspend");
            reveal_strlit("Resume");
            reveal_strlit("Halt");
            reveal_strlit("Reset");
        }
        let id = program_component_id(base.as_str(), suffix);
        let node = Node {
            node_id: id,
            node_class: class,
            browse_name: QualifiedName { namespace_index: 0, name: suffix.to_owned() },
            is_abstract: false,
            data_type: NodeId::numeric(0, data_type),
            value_rank: -1i32,
            role_permissions: None,
            access_restrictions: None,
            value: part_value(i),
            writable: false,
        };
        assert(node@ == program_part_node(b, i as int));
        let mut entries: Vec<(NodeId, NodeId, bool)> = Vec::new();
        entries.push((parent.duplicate(), NodeId::numeric(0, HAS_COMPONENT), false));
        let ghost ev = ref_entry_views(entries@);
        assert(ev =~= seq![(program_node_id(b, Seq::empty()), numeric_view(0, HAS_COMPONENT), false)]);
        let _ = address_space.insert_node(node, entries.as_slice());
        i = i + 1;
    }
    parent
}

proof fn lemma_insert_keeps_and_adds(s: SpaceView, n: NodeView, e: Seq<(NodeIdView, NodeIdView, bool)>, id: NodeIdView)
    ensures
        node_exists(s, id) ==> node_exists(insert_if_absent(s, n, e), id),
        node_exists(insert_if_absent(s, n, e), n.id),
{
    if !node_exists(s, n.id) {
        let s2 = insert_node_spec(s, n, e);
        assert(s2.nodes.drop_last() =~= s.nodes);
        assert(node_index(s.nodes, n.id) is None);
        if node_exists(s, id) {
            lemma_node_index(s.nodes, id);
            assert(node_index(s2.nodes, id) == node_index(s.nodes, id));
        }
    }
}

proof fn lemma_program_nodes_exist(s: SpaceView, base: Seq<char>, k: nat, id: NodeIdView)
    requires
        k <= PROGRAM_PARTS,
    ensures
        node_exists(s, id) ==> node_exists(program_inserted(s, base, k), id),
        node_exists(program_inserted(s, base, k), program_object(base).id),
        forall|j: int| 0 <= j < k ==> node_exists(program_inserted(s, base, k), #[trigger] program_part_node(base, j).id),
    decreases k,
{
    let entries = seq![(program_node_id(base, Seq::empty()), numeric_view(0, HAS_COMPONENT), false)];
    if k == 0 {
        lemma_insert_keeps_and_adds(s, program_object(base), program_object_entries(), id);
    } else {
        lemma_program_nodes_exist(s, base, (k - 1) as nat, id);
        let before = program_inserted(s, base, (k - 1) as nat);
        let n = program_part_node(base, k - 1);
        lemma_insert_keeps_and_adds(before, n, entries, id);
        lemma_insert_keeps_and_adds(before, n, entries, program_object(base).id);
        assert forall|j: int| 0 <= j < k implies node_exists(program_inserted(s, base, k), #[trigger] program_part_node(base, j).id) by {
            lemma_insert_keeps_and_adds(before, n, entries, program_part_node(base, j).id);
        }
    }
}

/// After a Program is registered, the Program object and each of its components exist
/// (created then, or already there), and whatever existed before still exists.
pub proof fn law_program_nodes_exist(s: SpaceView, device: Seq<char>, name: Seq<char>, id: NodeIdView)
    ensures
        ({
            let after = program_inserted(s, program_base(device, name), PROGRAM_PARTS as nat);
            &&& node_exists(s, id) ==> node_exists(after, id)
            &&& node_exists(after, program_node_id(program_base(device, name), Seq::empty()))
            &&& forall|j: int|
                0 <= j < PROGRAM_PARTS ==> node_exists(after, #[trigger] program_part_node(program_base(device, name), j).id)
        }),
{
    lemma_program_nodes_exist(s, program_base(device, name), PROGRAM_PARTS as nat, id);
}

proof fn lemma_reinsert_is_identity(s: SpaceView, base: Seq<char>, k: nat)
    requires
        k <= PROGRAM_PARTS,
        node_exists(s, program_object(base).id),
        forall|j: int| 0 <= j < PROGRAM_PARTS ==> node_exists(s, #[trigger] program_part_node(base, j).id),
    ensures
        program_inserted(s, base, k) == s,
    decreases k,
{
    if k > 0 {
        lemma_reinsert_is_identity(s, base, (k - 1) as nat);
        assert(node_exists(s, program_part_node(base, k - 1).id));
    }
}

/// Registering the same Program a second time changes nothing.
pub proof fn law_register_program_idempotent(s: SpaceView, device: Seq<char>, name: Seq<char>)
    ensures
        ({
            let base = program_base(device, name);
            let once = program_inserted(s, base, PROGRAM_PARTS as nat);
            program_inserted(once, base, PROGRAM_PARTS as nat) == once
        }),
{
    let base = program_base(device, name);
    let once = program_inserted(s, base, PROGRAM_PARTS as nat);
    law_program_nodes_exist(s, device, name, program_object(base).id);
    lemma_reinsert_is_identity(once, base, PROGRAM_PARTS as nat);
}

} // verus!
