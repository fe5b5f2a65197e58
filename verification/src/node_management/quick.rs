//! The address space of a quick node manager: top-level variables organized by the
//! Objects folder, and objects organized by it with their variables as components.

use vstd::prelude::*;
use crate::address_space::{NodeValue, NodeValueView};
use vstd::string::StringExecFns;
use crate::address_space::{
    insert_if_absent, ref_entry_views, AddressSpace, Node, NodeClass, NodeView, QualifiedName, QualifiedNameView,
    SpaceView,
};
use crate::node_id::{id_views, is_null_view, numeric_view, string_view, NodeId, NodeIdView};
use crate::node_management::types::{HAS_COMPONENT, HAS_TYPE_DEFINITION};

verus! {

/// The Objects folder.
pub const OBJECTS_FOLDER: u32 = 85;
/// `Organizes`.
pub const ORGANIZES: u32 = 35;
/// `BaseDataVariableType`.
pub const BASE_DATA_VARIABLE_TYPE: u32 = 63;
/// `BaseObjectType`, the default type definition of a quick object.
pub const BASE_OBJECT_TYPE: u32 = 58;

/// A variable to create: its name (browse name and id text), its data type (the one
/// given, else the type of its initial value), its initial value, whether clients may
/// write it, and whether it has read or write callbacks.
#[derive(Debug)]
pub struct QuickVariable {
    pub name: String,
    pub data_type: NodeId,
    pub initial_value: NodeValue,
    pub writable: bool,
    pub has_callbacks: bool,
}

/// Mathematical view of a [`QuickVariable`].
pub struct QuickVariableView {
    pub name: Seq<char>,
    pub data_type: NodeIdView,
    pub initial_value: NodeValueView,
    pub writable: bool,
    pub has_callbacks: bool,
}

impl View for QuickVariable {
    type V = QuickVariableView;

    open spec fn view(&self) -> QuickVariableView {
        QuickVariableView {
            name: self.name@,
            data_type: self.data_type@,
            initial_value: self.initial_value@,
            writable: self.writable,
            has_callbacks: self.has_callbacks,
        }
    }
}

/// An object to create, with its type definition and child variables.
#[derive(Debug)]
pub struct QuickObject {
    pub name: String,
    pub type_definition: NodeId,
    pub children: Vec<QuickVariable>,
}

/// Mathematical view of a [`QuickObject`].
pub struct QuickObjectView {
    pub name: Seq<char>,
    pub type_definition: NodeIdView,
    pub children: Seq<QuickVariableView>,
}

impl View for QuickObject {
    type V = QuickObjectView;

    open spec fn view(&self) -> QuickObjectView {
        QuickObjectView {
            name: self.name@,
            type_definition: self.type_definition@,
            children: self.children@.map_values(|v: QuickVariable| v@),
        }
    }
}

/// The views of a list of variables.
pub open spec fn variable_views(v: Seq<QuickVariable>) -> Seq<QuickVariableView> {
    v.map_values(|x: QuickVariable| x@)
}

/// The views of a list of objects.
pub open spec fn object_views(v: Seq<QuickObject>) -> Seq<QuickObjectView> {
    v.map_values(|x: QuickObject| x@)
}

/// Whether every variable has a data type (a variable without one cannot be created).
pub open spec fn data_types_given(v: Seq<QuickVariableView>) -> bool {
    forall|i: int| 0 <= i < v.len() ==> !is_null_view(#[trigger] v[i].data_type)
}

/// The node of a variable with id `id`: a scalar of its data type holding its initial
/// value, writable as asked, browse name its name.
pub open spec fn quick_variable_node(id: NodeIdView, v: QuickVariableView) -> NodeView {
    NodeView {
        id,
        node_class: NodeClass::Variable,
        browse_name: QualifiedNameView { namespace_index: 0, name: v.name },
        is_abstract: false,
        data_type: v.data_type,
        value_rank: -1i32,
        role_permissions: None,
        access_restrictions: None,
        value: v.initial_value,
        writable: v.writable,
    }
}

/// The references of a variable: of type BaseDataVariableType, and organized by its
/// parent (or a component of it).
pub open spec fn quick_variable_entries(parent: NodeIdView, as_component: bool) -> Seq<(NodeIdView, NodeIdView, bool)> {
    seq![
        (numeric_view(0, BASE_DATA_VARIABLE_TYPE), numeric_view(0, HAS_TYPE_DEFINITION), true),
        (parent, numeric_view(0, if as_component { HAS_COMPONENT } else { ORGANIZES }), false),
    ]
}

/// The node of an object, in namespace `ns` and named by its name.
pub open spec fn quick_object_node(ns: u16, o: QuickObjectView) -> NodeView {
    NodeView {
        id: string_view(ns, o.name),
        node_class: NodeClass::Object,
        browse_name: QualifiedNameView { namespace_index: 0, name: o.name },
        is_abstract: false,
        data_type: numeric_view(0, 0),
        value_rank: -1i32,
        role_permissions: None,
        access_restrictions: None,
        value: NodeValueView::Empty,
        writable: false,
    }
}

/// The references of an object: organized by the Objects folder, of its type definition.
pub open spec fn quick_object_entries(o: QuickObjectView) -> Seq<(NodeIdView, NodeIdView, bool)> {
    seq![
        (numeric_view(0, OBJECTS_FOLDER), numeric_view(0, ORGANIZES), false),
        (o.type_definition, numeric_view(0, HAS_TYPE_DEFINITION), true),
    ]
}

/// The id of a child variable: `<object>.<child>` in namespace `ns`, so two objects may
/// have children of the same name.
pub open spec fn quick_child_id(ns: u16, object_name: Seq<char>, child_name: Seq<char>) -> NodeIdView {
    string_view(ns, object_name + seq!['.'] + child_name)
}

/// The address space after creating the first `k` top-level variables.
pub open spec fn after_variables(s: SpaceView, ns: u16, vars: Seq<QuickVariableView>, k: nat) -> SpaceView
    decreases k,
{
    if k == 0 {
        s
    } else {
        let v = vars[k - 1];
        insert_if_absent(
            after_variables(s, ns, vars, (k - 1) as nat),
            quick_variable_node(string_view(ns, v.name), v),
            quick_variable_entries(numeric_view(0, OBJECTS_FOLDER), false),
        )
    }
}

/// The address space after creating the object `o` and its first `m` children.
pub open spec fn after_children(s: SpaceView, ns: u16, o: QuickObjectView, m: nat) -> SpaceView
    decreases m,
{
    if m == 0 {
        insert_if_absent(s, quick_object_node(ns, o), quick_object_entries(o))
    } else {
        let c = o.children[m - 1];
        insert_if_absent(
            after_children(s, ns, o, (m - 1) as nat),
            quick_variable_node(quick_child_id(ns, o.name, c.name), c),
            quick_variable_entries(string_view(ns, o.name), true),
        )
    }
}

/// The address space after creating the first `k` objects with their children.
pub open spec fn after_objects(s: SpaceView, ns: u16, objs: Seq<QuickObjectView>, k: nat) -> SpaceView
    decreases k,
{
    if k == 0 {
        s
    } else {
        let o = objs[k - 1];
        after_children(after_objects(s, ns, objs, (k - 1) as nat), ns, o, o.children.len())
    }
}

/// The ids of the first `k` variables that have callbacks, in order.
pub open spec fn callback_ids(ids: spec_fn(QuickVariableView) -> NodeIdView, vars: Seq<QuickVariableView>, k: nat) -> Seq<NodeIdView>
    decreases k,
{
    if k == 0 {
        Seq::empty()
    } else {
        let p = callback_ids(ids, vars, (k - 1) as nat);
        if vars[k - 1].has_callbacks {
            p.push(ids(vars[k - 1]))
        } else {
            p
        }
    }
}

/// The ids of the children with callbacks of the first `k` objects, in order.
pub open spec fn object_callback_ids(ns: u16, objs: Seq<QuickObjectView>, k: nat) -> Seq<NodeIdView>
    decreases k,
{
    if k == 0 {
        Seq::empty()
    } else {
        let o = objs[k - 1];
        object_callback_ids(ns, objs, (k - 1) as nat) + callback_ids(
            |c: QuickVariableView| quick_child_id(ns, o.name, c.name),
            o.children,
            o.children.len(),
        )
    }
}

fn variable_node(id: NodeId, v: &QuickVariable) -> (r: Node)
    ensures
        r@ == quick_variable_node(id@, v@),
{
    Node {
        node_id: id,
        node_class: NodeClass::Variable,
        browse_name: QualifiedName { namespace_index: 0, name: v.name.clone() },
        is_abstract: false,
        data_type: v.data_type.duplicate(),
        value_rank: -1i32,
        role_permissions: None,
        access_restrictions: None,
        value: v.initial_value.duplicate(),
        writable: v.writable,
    }
}

fn variable_entries(parent: &NodeId, as_component: bool) -> (r: Vec<(NodeId, NodeId, bool)>)
    ensures
        ref_entry_views(r@) == quick_variable_entries(parent@, as_component),
{
    let mut r: Vec<(NodeId, NodeId, bool)> = Vec::new();
    r.push((NodeId::numeric(0, BASE_DATA_VARIABLE_TYPE), NodeId::numeric(0, HAS_TYPE_DEFINITION), true));
    let reference_type = if as_component {
        HAS_COMPONENT
    } else {
        ORGANIZES
    };
    r.push((parent.duplicate(), NodeId::numeric(0, reference_type), false));
    assert(ref_entry_views(r@) =~= quick_variable_entries(parent@, as_component));
    r
}

fn child_id(ns: u16, object_name: &str, child_name: &str) -> (r: NodeId)
    ensures
        r@ == quick_child_id(ns, object_name@, child_name@),
{
    let mut text = object_name.to_owned();
    proof {
        reveal_strlit(".");
    }
    text.append(".");
    assert("."@ =~= seq!['.']);
    text.append(child_name);
    assert(text@ =~= object_name@ + seq!['.'] + child_name@);
    NodeId::from_string(ns, text)
}

/// Creates the nodes of a quick node manager in namespace `ns`: each top-level variable
/// organized by the Objects folder, then each object (organized by the Objects folder)
/// followed by its child variables as components. Returns the ids of the variables with
/// callbacks, top-level ones first. A node whose id is taken is not created again.
pub fn populate_quick_nodes(
    address_space: &mut AddressSpace,
    ns: u16,
    variables: &[QuickVariable],
    objects: &[QuickObject],
) -> (r: Vec<NodeId>)
    requires
        old(address_space).wf(),
        data_types_given(variable_views(variables@)),
        forall|i: int| 0 <= i < objects@.len() ==> data_types_given(#[trigger] objects@[i]@.children),
    ensures
        final(address_space).wf(),
        final(address_space)@ == after_objects(
            after_variables(old(address_space)@, ns, variable_views(variables@), variables@.len()),
            ns,
            object_views(objects@),
            objects@.len(),
        ),
        id_views(r@) == callback_ids(|v: QuickVariableView| string_view(ns, v.name), variable_views(variables@), variables@.len())
            + object_callback_ids(ns, object_views(objects@), objects@.len()),
{
    let ghost vv = variable_views(variables@);
    let ghost ov = object_views(objects@);
    let ghost s0 = address_space@;
    let ghost top = |v: QuickVariableView| string_view(ns, v.name);
    let folder = NodeId::numeric(0, OBJECTS_FOLDER);
    let mut callbacks: Vec<NodeId> = Vec::new();
    let mut i: usize = 0;
    while i < variables.len()
        invariant
            i <= variables.len(),
            vv == variable_views(variables@),
            top == (|v: QuickVariableView| string_view(ns, v.name)),
            folder@ == numeric_view(0, OBJECTS_FOLDER),
            address_space.wf(),
            address_space@ == after_variables(s0, ns, vv, i as nat),
            id_views(callbacks@) == callback_ids(top, vv, i as nat),
        decreases variables.len() - i,
    {
        let v = &variables[i];
        assert(vv[i as int] == v@);
        let id = NodeId::from_string(ns, v.name.clone());
        let node = variable_node(id.duplicate(), v);
        let entries = variable_entries(&folder, false);
        let _ = address_space.insert_node(node, entries.as_slice());
        if v.has_callbacks {
            let ghost before = id_views(callbacks@);
            callbacks.push(id);
            assert(id_views(callbacks@) =~= before.push(top(vv[i as int])));
        }
        i = i + 1;
    }
    let ghost s1 = address_space@;
    let ghost cb1 = id_views(callbacks@);
    assert(id_views(callbacks@) =~= cb1 + object_callback_ids(ns, ov, 0));
    let mut k: usize = 0;
    while k < objects.len()
        invariant
            k <= objects.len(),
            ov == object_views(objects@),
            forall|j: int| 0 <= j < objects@.len() ==> data_types_given(#[trigger] objects@[j]@.children),
            address_space.wf(),
            address_space@ == after_objects(s1, ns, ov, k as nat),
            id_views(callbacks@) == cb1 + object_callback_ids(ns, ov, k as nat),
        decreases objects.len() - k,
    {
        let o = &objects[k];
        assert(ov[k as int] == o@);
        let ghost ok = o@;
        let object_id = NodeId::from_string(ns, o.name.clone());
        let object = Node {
            node_id: object_id.duplicate(),
            node_class: NodeClass::Object,
            browse_name: QualifiedName { namespace_index: 0, name: o.name.clone() },
            is_abstract: false,
            data_type: NodeId::null(),
            value_rank: -1i32,
            role_permissions: None,
            access_restrictions: None,
            value: NodeValue::Empty,
            writable: false,
        };
        assert(object@ == quick_object_node(ns, ok));
        let mut entries: Vec<(NodeId, NodeId, bool)> = Vec::new();
        entries.push((NodeId::numeric(0, OBJECTS_FOLDER), NodeId::numeric(0, ORGANIZES), false));
        entries.push((o.type_definition.duplicate(), NodeId::numeric(0, HAS_TYPE_DEFINITION), true));
        assert(ref_entry_views(entries@) =~= quick_object_entries(ok));
        let ghost sk = address_space@;
        let _ = address_space.insert_node(object, entries.as_slice());
        let ghost child_ids = |c: QuickVariableView| quick_child_id(ns, ok.name, c.name);
        let ghost cbk = id_views(callbacks@);
        let mut m: usize = 0;
        while m < o.children.len()
            invariant
                m <= o.children.len(),
                ok == o@,
                child_ids == (|c: QuickVariableView| quick_child_id(ns, ok.name, c.name)),
                object_id@ == string_view(ns, ok.name),
                data_types_given(ok.children),
                address_space.wf(),
                address_space@ == after_children(sk, ns, ok, m as nat),
                id_views(callbacks@) == cbk + callback_ids(child_ids, ok.children, m as nat),
            decreases o.children.len() - m,
        {
            let c = &o.children[m];
            assert(ok.children[m as int] == c@);
            let id = child_id(ns, o.name.as_str(), c.name.as_str());
            let node = variable_node(id.duplicate(), c);
            let entries = variable_entries(&object_id, true);
            let _ = address_space.insert_node(node, entries.as_slice());
            if c.has_callbacks {
                let ghost before = id_views(callbacks@);
                callbacks.push(id);
                assert(id_views(callbacks@) =~= before.push(child_ids(ok.children[m as int])));
                assert(cbk + callback_ids(child_ids, ok.children, (m + 1) as nat) =~= (cbk + callback_ids(
                    child_ids,
                    ok.children,
                    m as nat,
                )).push(child_ids(ok.children[m as int])));
            }
            m = m + 1;
        }
        assert(cb1 + object_callback_ids(ns, ov, (k + 1) as nat) =~= cb1 + object_callback_ids(ns, ov, k as nat)
            + callback_ids(child_ids, ok.children, ok.children.len()));
        k = k + 1;
    }
    callbacks
}

} // verus!
