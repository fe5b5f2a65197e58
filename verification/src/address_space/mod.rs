//! The in-memory address space as the node-management rules see it: the namespaces it
//! owns, its nodes with the attributes the rules read, and its references.

pub mod type_tree;
pub mod references;

use vstd::prelude::*;
use crate::node_id::{NodeId, NodeIdView};
use crate::permissions::{grant_views, AccessRestrictionType, RolePermission, RolePermissionView};
use crate::rbac::decision::{authorize_ctx, authorized, AccessContext, NodeRbacAttributes};
use crate::rbac::defaults::default_role_permissions_of;
use crate::node_id::id_views;
use crate::permissions::{duplicate_grants, PermissionType};

verus! {

/// The class of a node (OPC UA Part 3, NodeClass).
#[derive(Debug, Clone, Copy, PartialEq, Eq, Structural)]
pub enum NodeClass {
    Unspecified,
    Object,
    Variable,
    Method,
    ObjectType,
    VariableType,
    ReferenceType,
    DataType,
    View,
}

/// Whether a node class is one of the four type classes.
pub open spec fn is_type_class(class: NodeClass) -> bool {
    class == NodeClass::ObjectType || class == NodeClass::VariableType || class
        == NodeClass::ReferenceType || class == NodeClass::DataType
}

/// A name qualified by a namespace index.
#[derive(Debug)]
pub struct QualifiedName {
    pub namespace_index: u16,
    pub name: String,
}

/// Mathematical view of a [`QualifiedName`].
pub struct QualifiedNameView {
    pub namespace_index: u16,
    pub name: Seq<char>,
}

impl View for QualifiedName {
    type V = QualifiedNameView;

    open spec fn view(&self) -> QualifiedNameView {
        QualifiedNameView { namespace_index: self.namespace_index, name: self.name@ }
    }
}

impl QualifiedName {
    /// Whether two qualified names are equal.
    pub fn equals(&self, other: &QualifiedName) -> (r: bool)
        ensures
            r == (self@ == other@),
    {
        self.namespace_index == other.namespace_index && self.name == other.name
    }

    /// A copy of the name.
    pub fn duplicate(&self) -> (r: QualifiedName)
        ensures
            r@ == self@,
    {
        QualifiedName { namespace_index: self.namespace_index, name: self.name.clone() }
    }
}

/// The Value attribute of a Variable, as far as the library writes it: empty, or a
/// Boolean, Int32, UInt32, Int64 or String scalar.
#[derive(Debug)]
pub enum NodeValue {
    Empty,
    Boolean(bool),
    Int32(i32),
    UInt32(u32),
    Int64(i64),
    Text(String),
}

/// Mathematical view of a [`NodeValue`].
pub enum NodeValueView {
    Empty,
    Boolean(bool),
    Int32(i32),
    UInt32(u32),
    Int64(i64),
    Text(Seq<char>),
}

impl View for NodeValue {
    type V = NodeValueView;

    open spec fn view(&self) -> NodeValueView {
        match self {
            NodeValue::Empty => NodeValueView::Empty,
            NodeValue::Boolean(b) => NodeValueView::Boolean(*b),
            NodeValue::Int32(n) => NodeValueView::Int32(*n),
            NodeValue::UInt32(n) => NodeValueView::UInt32(*n),
            NodeValue::Int64(n) => NodeValueView::Int64(*n),
            NodeValue::Text(t) => NodeValueView::Text(t@),
        }
    }
}

impl NodeValue {
    /// A copy of the value.
    pub fn duplicate(&self) -> (r: NodeValue)
        ensures
            r@ == self@,
    {
        match self {
            NodeValue::Empty => NodeValue::Empty,
            NodeValue::Boolean(b) => NodeValue::Boolean(*b),
            NodeValue::Int32(n) => NodeValue::Int32(*n),
            NodeValue::UInt32(n) => NodeValue::UInt32(*n),
            NodeValue::Int64(n) => NodeValue::Int64(*n),
            NodeValue::Text(t) => NodeValue::Text(t.clone()),
        }
    }
}

/// A node with the attributes that the node-management rules read.
#[derive(Debug)]
pub struct Node {
    pub node_id: NodeId,
    pub node_class: NodeClass,
    pub browse_name: QualifiedName,
    /// IsAbstract of a type node (false for instances).
    pub is_abstract: bool,
    /// DataType of a Variable or VariableType.
    pub data_type: NodeId,
    /// ValueRank of a Variable or VariableType.
    pub value_rank: i32,
    pub role_permissions: Option<Vec<RolePermission>>,
    pub access_restrictions: Option<AccessRestrictionType>,
    /// Value of a Variable (empty for other nodes unless set).
    pub value: NodeValue,
    /// Whether clients may write the Value (its access level has CurrentWrite).
    pub writable: bool,
}

/// Mathematical view of a [`Node`].
pub struct NodeView {
    pub id: NodeIdView,
    pub node_class: NodeClass,
    pub browse_name: QualifiedNameView,
    pub is_abstract: bool,
    pub data_type: NodeIdView,
    pub value_rank: i32,
    pub role_permissions: Option<Seq<RolePermissionView>>,
    pub access_restrictions: Option<u16>,
    pub value: NodeValueView,
    pub writable: bool,
}

impl View for Node {
    type V = NodeView;

    open spec fn view(&self) -> NodeView {
        NodeView {
            id: self.node_id@,
            node_class: self.node_class,
            browse_name: self.browse_name@,
            is_abstract: self.is_abstract,
            data_type: self.data_type@,
            value_rank: self.value_rank,
            role_permissions: match self.role_permissions {
                Some(v) => Some(grant_views(v@)),
                None => None,
            },
            access_restrictions: match self.access_restrictions {
                Some(r) => Some(r.bits),
                None => None,
            },
            value: self.value@,
            writable: self.writable,
        }
    }
}

/// Whether the session in `ctx` holds `required` on the node `n`.
pub open spec fn node_authorized(ctx: AccessContext, n: NodeView, required: u32) -> bool {
    authorized(
        id_views(ctx.user_roles@),
        match n.role_permissions {
            Some(v) => Some(v),
            None => default_role_permissions_of(ctx.namespace_defaults@, n.id.namespace),
        },
        required,
        ctx.enforce_role_based_access,
    )
}

impl Node {
    /// Whether the session in `ctx` holds `required` on this node.
    pub fn authorize(&self, ctx: &AccessContext, required: PermissionType) -> (r: bool)
        ensures
            r == node_authorized(*ctx, self@, required.bits),
    {
        let attributes = NodeRbacAttributes {
            node_id: self.node_id.duplicate(),
            role_permissions: match &self.role_permissions {
                Some(v) => Some(duplicate_grants(v.as_slice())),
                None => None,
            },
            access_restrictions: self.access_restrictions,
        };
        authorize_ctx(ctx, &attributes, required)
    }
}

/// A reference from `source` to `target` of type `reference_type`.
#[derive(Debug)]
pub struct Reference {
    pub source: NodeId,
    pub target: NodeId,
    pub reference_type: NodeId,
}

/// Mathematical view of a [`Reference`].
pub struct ReferenceView {
    pub source: NodeIdView,
    pub target: NodeIdView,
    pub reference_type: NodeIdView,
}

impl View for Reference {
    type V = ReferenceView;

    open spec fn view(&self) -> ReferenceView {
        ReferenceView {
            source: self.source@,
            target: self.target@,
            reference_type: self.reference_type@,
        }
    }
}

impl Reference {
    /// A copy of the reference.
    pub fn duplicate(&self) -> (r: Reference)
        ensures
            r@ == self@,
    {
        Reference {
            source: self.source.duplicate(),
            target: self.target.duplicate(),
            reference_type: self.reference_type.duplicate(),
        }
    }
}

/// Mathematical view of an [`AddressSpace`].
pub struct SpaceView {
    /// Namespace index and URI of each owned namespace.
    pub namespaces: Seq<(u16, Seq<char>)>,
    pub nodes: Seq<NodeView>,
    pub references: Seq<ReferenceView>,
}

/// The index of the first node of `nodes` with id `id`, if any.
pub open spec fn node_index(nodes: Seq<NodeView>, id: NodeIdView) -> Option<int>
    decreases nodes.len(),
{
    if nodes.len() == 0 {
        None
    } else {
        match node_index(nodes.drop_last(), id) {
            Some(i) => Some(i),
            None => if nodes.last().id == id {
                Some(nodes.len() - 1)
            } else {
                None
            },
        }
    }
}

/// The node of `s` with id `id`, if any.
pub open spec fn find_node(s: SpaceView, id: NodeIdView) -> Option<NodeView> {
    match node_index(s.nodes, id) {
        Some(i) => Some(s.nodes[i]),
        None => None,
    }
}

/// Whether `s` holds a node with id `id`.
pub open spec fn node_exists(s: SpaceView, id: NodeIdView) -> bool {
    find_node(s, id) is Some
}

/// Whether `s` owns the namespace `ns`.
pub open spec fn owns_namespace(s: SpaceView, ns: u16) -> bool {
    exists|i: int| 0 <= i < s.namespaces.len() && (#[trigger] s.namespaces[i]).0 == ns
}

/// The position of the namespace with index `ns`, if any (the first).
pub open spec fn namespace_position(v: Seq<(u16, Seq<char>)>, ns: u16) -> Option<int>
    decreases v.len(),
{
    if v.len() == 0 {
        None
    } else {
        match namespace_position(v.drop_last(), ns) {
            Some(i) => Some(i),
            None => if v.last().0 == ns {
                Some(v.len() - 1)
            } else {
                None
            },
        }
    }
}

/// The index of the first namespace with URI `uri`, if any.
pub open spec fn namespace_index_of(v: Seq<(u16, Seq<char>)>, uri: Seq<char>) -> Option<u16>
    decreases v.len(),
{
    if v.len() == 0 {
        None
    } else {
        match namespace_index_of(v.drop_last(), uri) {
            Some(i) => Some(i),
            None => if v.last().1 == uri {
                Some(v.last().0)
            } else {
                None
            },
        }
    }
}

/// The largest namespace index, 0 when there is none.
pub open spec fn max_namespace_index(v: Seq<(u16, Seq<char>)>) -> u16
    decreases v.len(),
{
    if v.len() == 0 {
        0
    } else {
        let m = max_namespace_index(v.drop_last());
        if v.last().0 > m {
            v.last().0
        } else {
            m
        }
    }
}

/// The namespaces after registering `uri` under `index`: it replaces the URI of that
/// index, or is added.
pub open spec fn with_namespace(v: Seq<(u16, Seq<char>)>, uri: Seq<char>, index: u16) -> Seq<(u16, Seq<char>)> {
    match namespace_position(v, index) {
        Some(p) => v.update(p, (index, uri)),
        None => v.push((index, uri)),
    }
}

proof fn lemma_namespace_first(v: Seq<(u16, Seq<char>)>, ns: u16, i: int)
    requires
        0 <= i < v.len(),
        v[i].0 == ns,
        forall|j: int| 0 <= j < i ==> v[j].0 != ns,
    ensures
        namespace_position(v, ns) == Some(i),
    decreases v.len(),
{
    if i < v.len() - 1 {
        lemma_namespace_first(v.drop_last(), ns, i);
    } else {
        lemma_namespace_position(v.drop_last(), ns);
    }
}

proof fn lemma_namespace_index_prefix(v: Seq<(u16, Seq<char>)>, uri: Seq<char>, k: int)
    requires
        0 <= k <= v.len(),
        namespace_index_of(v.take(k), uri) is Some,
    ensures
        namespace_index_of(v, uri) == namespace_index_of(v.take(k), uri),
    decreases v.len() - k,
{
    if k < v.len() {
        assert(v.take(k + 1).drop_last() =~= v.take(k));
        lemma_namespace_index_prefix(v, uri, k + 1);
    } else {
        assert(v.take(k) =~= v);
    }
}

proof fn lemma_namespace_position(v: Seq<(u16, Seq<char>)>, ns: u16)
    ensures
        match namespace_position(v, ns) {
            Some(i) => 0 <= i < v.len() && v[i].0 == ns,
            None => forall|j: int| 0 <= j < v.len() ==> v[j].0 != ns,
        },
    decreases v.len(),
{
    if v.len() > 0 {
        lemma_namespace_position(v.drop_last(), ns);
        assert forall|j: int| 0 <= j < v.len() - 1 implies v[j] == v.drop_last()[j] by {}
    }
}

/// Whether `s` holds the reference `source --reference_type--> target`.
pub open spec fn has_reference(
    s: SpaceView,
    source: NodeIdView,
    target: NodeIdView,
    reference_type: NodeIdView,
) -> bool {
    exists|i: int|
        0 <= i < s.references.len() && #[trigger] s.references[i] == (ReferenceView {
            source,
            target,
            reference_type,
        })
}

/// Whether `s` holds a forward reference of exactly `reference_type` out of `source`.
pub open spec fn has_reference_from(s: SpaceView, source: NodeIdView, reference_type: NodeIdView) -> bool {
    exists|i: int|
        0 <= i < s.references.len() && (#[trigger] s.references[i]).source == source
            && s.references[i].reference_type == reference_type
}

/// `refs` without the references matching `pred`.
pub open spec fn refs_without(refs: Seq<ReferenceView>, pred: spec_fn(ReferenceView) -> bool) -> Seq<
    ReferenceView,
>
    decreases refs.len(),
{
    if refs.len() == 0 {
        refs
    } else {
        let rest = refs_without(refs.drop_last(), pred);
        if pred(refs.last()) {
            rest
        } else {
            rest.push(refs.last())
        }
    }
}

/// The references of `s` after deleting `source --reference_type--> target`.
pub open spec fn delete_reference_spec(
    s: SpaceView,
    source: NodeIdView,
    target: NodeIdView,
    reference_type: NodeIdView,
) -> SpaceView {
    SpaceView {
        references: refs_without(
            s.references,
            |r: ReferenceView|
                r == (ReferenceView { source, target, reference_type }),
        ),
        ..s
    }
}

/// The address space after deleting the node `id`: the node goes, with the references
/// out of it and, when `delete_target_references`, the references into it.
pub open spec fn delete_node_spec(s: SpaceView, id: NodeIdView, delete_target_references: bool) -> SpaceView {
    match node_index(s.nodes, id) {
        None => s,
        Some(i) => SpaceView {
            namespaces: s.namespaces,
            nodes: s.nodes.remove(i),
            references: refs_without(
                s.references,
                |r: ReferenceView| r.source == id || (delete_target_references && r.target == id),
            ),
        },
    }
}

/// The address space after writing `value` into the Value of the Variable `id`;
/// unchanged when there is no such node or it is not a Variable.
pub open spec fn set_value_spec(s: SpaceView, id: NodeIdView, value: NodeValueView) -> SpaceView {
    match node_index(s.nodes, id) {
        Some(i) => if s.nodes[i].node_class is Variable {
            SpaceView { nodes: s.nodes.update(i, NodeView { value: value, ..s.nodes[i] }), ..s }
        } else {
            s
        },
        None => s,
    }
}

/// The nodes of `s` have distinct ids.
pub open spec fn ids_distinct(nodes: Seq<NodeView>) -> bool {
    forall|i: int, j: int|
        0 <= i < nodes.len() && 0 <= j < nodes.len() && i != j ==> #[trigger] nodes[i].id
            != #[trigger] nodes[j].id
}

/// More distinct ids than there are nodes cannot all be in use.
pub proof fn lemma_distinct_ids_not_all_used(s: SpaceView, ids: Seq<NodeIdView>)
    requires
        ids.no_duplicates(),
        ids.len() > s.nodes.len(),
    ensures
        exists|i: int| 0 <= i < ids.len() && !node_exists(s, #[trigger] ids[i]),
{
    if forall|i: int| 0 <= i < ids.len() ==> node_exists(s, #[trigger] ids[i]) {
        let node_ids = s.nodes.map_values(|n: NodeView| n.id);
        ids.unique_seq_to_set();
        node_ids.lemma_cardinality_of_set();
        assert forall|x: NodeIdView| ids.to_set().contains(x) implies node_ids.to_set().contains(x) by {
            assert(ids.contains(x));
            let i = choose|i: int| 0 <= i < ids.len() && ids[i] == x;
            assert(node_exists(s, ids[i]));
            lemma_node_index(s.nodes, x);
            let k = node_index(s.nodes, x).unwrap();
            assert(node_ids[k] == x);
            assert(node_ids.contains(x));
        }
        vstd::seq_lib::seq_to_set_is_finite(node_ids);
        vstd::set_lib::lemma_len_subset(ids.to_set(), node_ids.to_set());
        assert(false);
    }
}

/// `node_index` finds the first node with the id, and none when no node has it.
pub proof fn lemma_node_index(nodes: Seq<NodeView>, id: NodeIdView)
    ensures
        match node_index(nodes, id) {
            Some(i) => 0 <= i < nodes.len() && nodes[i].id == id && forall|j: int|
                0 <= j < i ==> nodes[j].id != id,
            None => forall|j: int| 0 <= j < nodes.len() ==> nodes[j].id != id,
        },
    decreases nodes.len(),
{
    if nodes.len() > 0 {
        lemma_node_index(nodes.drop_last(), id);
        assert forall|j: int| 0 <= j < nodes.len() - 1 implies nodes[j] == nodes.drop_last()[j] by {}
    }
}

/// The address space: owned namespaces, nodes with distinct ids, and references.
pub struct AddressSpace {
    namespaces: Vec<(u16, String)>,
    nodes: Vec<Node>,
    references: Vec<Reference>,
}

impl View for AddressSpace {
    type V = SpaceView;

    closed spec fn view(&self) -> SpaceView {
        SpaceView {
            namespaces: self.namespaces@.map_values(|e: (u16, String)| (e.0, e.1@)),
            nodes: self.nodes@.map_values(|n: Node| n@),
            references: self.references@.map_values(|r: Reference| r@),
        }
    }
}

impl AddressSpace {
    /// Node ids are distinct.
    pub open spec fn wf(&self) -> bool {
        ids_distinct(self@.nodes)
    }

    /// An empty address space.
    pub fn new() -> (r: AddressSpace)
        ensures
            r.wf(),
            r@.namespaces.len() == 0,
            r@.nodes.len() == 0,
            r@.references.len() == 0,
    {
        let r = AddressSpace { namespaces: Vec::new(), nodes: Vec::new(), references: Vec::new() };
        assert(r@.nodes =~= Seq::<NodeView>::empty());
        assert(r@.references =~= Seq::<ReferenceView>::empty());
        r
    }

    /// Registers the namespace `uri` under `index` (see [`with_namespace`]).
    pub fn add_namespace(&mut self, uri: &str, index: u16)
        requires
            old(self).wf(),
        ensures
            final(self).wf(),
            final(self)@ == (SpaceView { namespaces: with_namespace(old(self)@.namespaces, uri@, index), ..old(self)@ }),
    {
        let ghost v = self@.namespaces;
        let ghost s0 = self@;
        proof {
            lemma_namespace_position(v, index);
        }
        let mut i: usize = 0;
        while i < self.namespaces.len()
            invariant
                i <= self.namespaces.len(),
                self@ == s0,
                s0.nodes == old(self)@.nodes,
                s0.references == old(self)@.references,
                ids_distinct(s0.nodes),
                v == old(self)@.namespaces,
                v == self@.namespaces,
                v.len() == self.namespaces.len(),
                forall|j: int| 0 <= j < i ==> v[j].0 != index,
                match namespace_position(v, index) {
                    Some(p) => 0 <= p < v.len() && v[p].0 == index,
                    None => forall|j: int| 0 <= j < v.len() ==> v[j].0 != index,
                },
            decreases self.namespaces.len() - i,
        {
            assert(v[i as int].0 == self.namespaces@[i as int].0);
            if self.namespaces[i].0 == index {
                proof {
                    lemma_namespace_first(v, index, i as int);
                }
                self.namespaces.set(i, (index, uri.to_owned()));
                assert(self@.namespaces =~= v.update(i as int, (index, uri@)));
                assert(self@.nodes == s0.nodes);
                return;
            }
            i = i + 1;
        }
        self.namespaces.push((index, uri.to_owned()));
        assert(self@.namespaces =~= v.push((index, uri@)));
    }

    /// Whether the namespace `ns` is owned.
    pub fn owns_namespace(&self, ns: u16) -> (r: bool)
        ensures
            r == owns_namespace(self@, ns),
    {
        let mut i: usize = 0;
        while i < self.namespaces.len()
            invariant
                i <= self.namespaces.len(),
                forall|j: int| 0 <= j < i ==> self@.namespaces[j].0 != ns,
            decreases self.namespaces.len() - i,
        {
            assert(self@.namespaces[i as int].0 == self.namespaces@[i as int].0);
            if self.namespaces[i].0 == ns {
                return true;
            }
            i = i + 1;
        }
        false
    }

    /// The index of the first namespace with URI `uri`, if any.
    pub fn namespace_index(&self, uri: &str) -> (r: Option<u16>)
        ensures
            r == namespace_index_of(self@.namespaces, uri@),
    {
        let ghost v = self@.namespaces;
        let owned = uri.to_owned();
        let mut i: usize = 0;
        assert(v.take(0) =~= Seq::<(u16, Seq<char>)>::empty());
        while i < self.namespaces.len()
            invariant
                i <= self.namespaces.len(),
                v == self@.namespaces,
                v.len() == self.namespaces.len(),
                owned@ == uri@,
                namespace_index_of(v.take(i as int), uri@) is None,
            decreases self.namespaces.len() - i,
        {
            assert(v.take(i + 1).drop_last() =~= v.take(i as int));
            assert(v.take(i + 1).last() == v[i as int]);
            assert(v[i as int] == (self.namespaces@[i as int].0, self.namespaces@[i as int].1@));
            if self.namespaces[i].1 == owned {
                proof {
                    lemma_namespace_index_prefix(v, uri@, i as int + 1);
                }
                return Some(self.namespaces[i].0);
            }
            i = i + 1;
        }
        assert(v.take(v.len() as int) =~= v);
        None
    }

    /// The largest namespace index, 0 when there is none.
    pub fn max_namespace_index(&self) -> (r: u16)
        ensures
            r == max_namespace_index(self@.namespaces),
    {
        let ghost v = self@.namespaces;
        let mut m: u16 = 0;
        let mut i: usize = 0;
        assert(v.take(0) =~= Seq::<(u16, Seq<char>)>::empty());
        while i < self.namespaces.len()
            invariant
                i <= self.namespaces.len(),
                v == self@.namespaces,
                v.len() == self.namespaces.len(),
                m == max_namespace_index(v.take(i as int)),
            decreases self.namespaces.len() - i,
        {
            assert(v.take(i + 1).drop_last() =~= v.take(i as int));
            assert(v.take(i + 1).last() == v[i as int]);
            assert(v[i as int].0 == self.namespaces@[i as int].0);
            if self.namespaces[i].0 > m {
                m = self.namespaces[i].0;
            }
            i = i + 1;
        }
        assert(v.take(v.len() as int) =~= v);
        m
    }

    /// The position of the node `id`, if present.
    pub fn find(&self, id: &NodeId) -> (r: Option<usize>)
        ensures
            match r {
                Some(i) => node_index(self@.nodes, id@) == Some(i as int) && i < self@.nodes.len()
                    && self@.nodes[i as int].id == id@ && find_node(self@, id@) == Some(self@.nodes[i as int]),
                None => node_index(self@.nodes, id@) is None && find_node(self@, id@) is None,
            },
    {
        let ghost v = self@.nodes;
        proof {
            lemma_node_index(v, id@);
        }
        let mut i: usize = 0;
        while i < self.nodes.len()
            invariant
                i <= self.nodes.len(),
                v == self@.nodes,
                v.len() == self.nodes.len(),
                forall|j: int| 0 <= j < i ==> v[j].id != id@,
                match node_index(v, id@) {
                    Some(k) => 0 <= k < v.len() && v[k].id == id@ && forall|j: int|
                        0 <= j < k ==> v[j].id != id@,
                    None => forall|j: int| 0 <= j < v.len() ==> v[j].id != id@,
                },
            decreases self.nodes.len() - i,
        {
            assert(v[i as int] == self.nodes@[i as int]@);
            if self.nodes[i].node_id.equals(id) {
                return Some(i);
            }
            i = i + 1;
        }
        None
    }

    /// The number of nodes.
    pub fn node_count(&self) -> (n: usize)
        ensures
            n == self@.nodes.len(),
    {
        self.nodes.len()
    }

    /// The node at position `i`.
    pub fn node_at(&self, i: usize) -> (r: &Node)
        requires
            i < self@.nodes.len(),
        ensures
            r@ == self@.nodes[i as int],
    {
        &self.nodes[i]
    }

    /// Whether a node with id `id` exists.
    pub fn node_exists(&self, id: &NodeId) -> (r: bool)
        ensures
            r == node_exists(self@, id@),
    {
        self.find(id).is_some()
    }

    /// Whether the reference `source --reference_type--> target` exists.
    pub fn has_reference(&self, source: &NodeId, target: &NodeId, reference_type: &NodeId) -> (r: bool)
        ensures
            r == has_reference(self@, source@, target@, reference_type@),
    {
        let ghost wanted = ReferenceView { source: source@, target: target@, reference_type: reference_type@ };
        let mut i: usize = 0;
        while i < self.references.len()
            invariant
                i <= self.references.len(),
                wanted == (ReferenceView { source: source@, target: target@, reference_type: reference_type@ }),
                forall|j: int| 0 <= j < i ==> #[trigger] self@.references[j] != wanted,
            decreases self.references.len() - i,
        {
            let r = &self.references[i];
            assert(self@.references[i as int] == r@);
            if r.source.equals(source) && r.target.equals(target) && r.reference_type.equals(reference_type) {
                return true;
            }
            i = i + 1;
        }
        false
    }

    /// Whether a forward reference of exactly `reference_type` leaves `source`.
    pub fn has_reference_from(&self, source: &NodeId, reference_type: &NodeId) -> (r: bool)
        ensures
            r == has_reference_from(self@, source@, reference_type@),
    {
        let mut i: usize = 0;
        while i < self.references.len()
            invariant
                i <= self.references.len(),
                forall|j: int|
                    0 <= j < i ==> !((#[trigger] self@.references[j]).source == source@
                        && self@.references[j].reference_type == reference_type@),
            decreases self.references.len() - i,
        {
            let r = &self.references[i];
            assert(self@.references[i as int] == r@);
            if r.source.equals(source) && r.reference_type.equals(reference_type) {
                return true;
            }
            i = i + 1;
        }
        false
    }

    /// Whether a node with browse name `name` is the target of a forward reference of
    /// exactly `reference_type` out of `parent`.
    pub fn has_child_named(&self, parent: &NodeId, reference_type: &NodeId, name: &QualifiedName) -> (r: bool)
        ensures
            r == has_child_named(self@, parent@, reference_type@, name@),
    {
        let mut i: usize = 0;
        while i < self.references.len()
            invariant
                i <= self.references.len(),
                forall|j: int|
                    0 <= j < i ==> !child_named_at(self@, j, parent@, reference_type@, name@),
            decreases self.references.len() - i,
        {
            let r = &self.references[i];
            assert(self@.references[i as int] == r@);
            if r.source.equals(parent) && r.reference_type.equals(reference_type) {
                if let Some(k) = self.find(&r.target) {
                    proof {
                        lemma_node_index(self@.nodes, r@.target);
                    }
                    assert(self@.nodes[k as int] == self.nodes@[k as int]@);
                    if self.nodes[k].browse_name.equals(name) {
                        assert(child_named_at(self@, i as int, parent@, reference_type@, name@));
                        return true;
                    }
                }
            }
            i = i + 1;
        }
        false
    }

    /// Adds the reference `source --reference_type--> target`.
    pub fn insert_reference(&mut self, source: &NodeId, target: &NodeId, reference_type: &NodeId)
        ensures
            final(self)@ == (SpaceView {
                references: old(self)@.references.push(
                    ReferenceView { source: source@, target: target@, reference_type: reference_type@ },
                ),
                ..old(self)@
            }),
    {
        let r = Reference {
            source: source.duplicate(),
            target: target.duplicate(),
            reference_type: reference_type.duplicate(),
        };
        self.references.push(r);
        assert(self@.references =~= old(self)@.references.push(
            ReferenceView { source: source@, target: target@, reference_type: reference_type@ },
        ));
    }

    /// Removes every reference `source --reference_type--> target`.
    pub fn delete_reference(&mut self, source: &NodeId, target: &NodeId, reference_type: &NodeId)
        ensures
            final(self)@ == delete_reference_spec(old(self)@, source@, target@, reference_type@),
    {
        let ghost pred = |r: ReferenceView|
            r == (ReferenceView { source: source@, target: target@, reference_type: reference_type@ });
        let ghost old_refs = self@.references;
        let mut kept: Vec<Reference> = Vec::new();
        let mut i: usize = 0;
        while i < self.references.len()
            invariant
                i <= self.references.len(),
                old_refs == self@.references,
                old_refs.len() == self.references.len(),
                kept@.map_values(|r: Reference| r@) == refs_without(old_refs.take(i as int), pred),
                pred == (|r: ReferenceView|
                    r == (ReferenceView { source: source@, target: target@, reference_type: reference_type@ })),
            decreases self.references.len() - i,
        {
            let r = &self.references[i];
            assert(old_refs.take(i + 1).drop_last() =~= old_refs.take(i as int));
            assert(old_refs.take(i + 1).last() == r@);
            if !(r.source.equals(source) && r.target.equals(target) && r.reference_type.equals(reference_type)) {
                let ghost before = kept@.map_values(|r: Reference| r@);
                kept.push(r.duplicate());
                assert(kept@.map_values(|r: Reference| r@) =~= before.push(r@));
            }
            i = i + 1;
        }
        assert(old_refs.take(old_refs.len() as int) =~= old_refs);
        self.references = kept;
    }

    /// Inserts `node` with the given references unless its id is taken: each entry
    /// `(other, reference_type, forward)` adds `node -> other` when `forward`, else
    /// `other -> node`.
    pub fn insert_node(&mut self, node: Node, references: &[(NodeId, NodeId, bool)]) -> (inserted: bool)
        requires
            old(self).wf(),
        ensures
            final(self).wf(),
            inserted == !node_exists(old(self)@, node@.id),
            inserted ==> final(self)@ == insert_node_spec(old(self)@, node@, ref_entry_views(references@)),
            !inserted ==> final(self)@ == old(self)@,
            final(self)@ == insert_if_absent(old(self)@, node@, ref_entry_views(references@)),
    {
        if self.node_exists(&node.node_id) {
            return false;
        }
        proof {
            lemma_node_index(self@.nodes, node@.id);
        }
        let ghost nv = node@;
        let ghost s0 = self@;
        let id = node.node_id.duplicate();
        self.nodes.push(node);
        assert(self@.nodes =~= s0.nodes.push(nv));
        let ghost entries = ref_entry_views(references@);
        let mut i: usize = 0;
        while i < references.len()
            invariant
                i <= references.len(),
                id@ == nv.id,
                entries == ref_entry_views(references@),
                self@ == (SpaceView {
                    nodes: s0.nodes.push(nv),
                    references: s0.references + new_references(nv.id, entries.take(i as int)),
                    ..s0
                }),
                ids_distinct(s0.nodes.push(nv)),
            decreases references.len() - i,
        {
            let (other, reference_type, forward) = &references[i];
            assert(entries.take(i + 1).drop_last() =~= entries.take(i as int));
            assert(entries[i as int] == (other@, reference_type@, *forward));
            if *forward {
                self.insert_reference(&id, other, reference_type);
            } else {
                self.insert_reference(other, &id, reference_type);
            }
            assert(self@.references =~= s0.references + new_references(nv.id, entries.take(i + 1)));
            i = i + 1;
        }
        assert(entries.take(references.len() as int) =~= entries);
        true
    }

    /// Writes `value` into the Value of the Variable `id` (see [`set_value_spec`]);
    /// false when there is no such Variable.
    pub fn set_variable_value(&mut self, id: &NodeId, value: NodeValue) -> (updated: bool)
        requires
            old(self).wf(),
        ensures
            final(self).wf(),
            updated == (find_node(old(self)@, id@) matches Some(n) && n.node_class is Variable),
            final(self)@ == set_value_spec(old(self)@, id@, value@),
    {
        let found = self.find(id);
        let i = match found {
            None => {
                return false;
            },
            Some(i) => i,
        };
        if !matches!(self.nodes[i].node_class, NodeClass::Variable) {
            return false;
        }
        let ghost s0 = self@;
        let mut node = self.nodes.remove(i);
        node.value = value;
        self.nodes.insert(i, node);
        assert(self@.nodes =~= s0.nodes.update(i as int, NodeView { value: value@, ..s0.nodes[i as int] }));
        assert forall|a: int, b: int|
            0 <= a < self@.nodes.len() && 0 <= b < self@.nodes.len() && a != b implies #[trigger] self@.nodes[a].id
            != #[trigger] self@.nodes[b].id by {
            assert(self@.nodes[a].id == s0.nodes[a].id);
            assert(self@.nodes[b].id == s0.nodes[b].id);
        }
        true
    }

    /// Deletes the node `id` (see [`delete_node_spec`]); false when there is none.
    pub fn delete(&mut self, id: &NodeId, delete_target_references: bool) -> (deleted: bool)
        requires
            old(self).wf(),
        ensures
            final(self).wf(),
            deleted == node_exists(old(self)@, id@),
            final(self)@ == delete_node_spec(old(self)@, id@, delete_target_references),
    {
        let found = self.find(id);
        let i = match found {
            None => {
                return false;
            },
            Some(i) => i,
        };
        proof {
            lemma_node_index(self@.nodes, id@);
        }
        let ghost s0 = self@;
        let ghost pred = |r: ReferenceView| r.source == id@ || (delete_target_references && r.target == id@);
        self.nodes.remove(i);
        assert(self@.nodes =~= s0.nodes.remove(i as int));
        let mut kept: Vec<Reference> = Vec::new();
        let mut k: usize = 0;
        while k < self.references.len()
            invariant
                k <= self.references.len(),
                s0.references == self@.references,
                s0.references.len() == self.references.len(),
                self@.nodes == s0.nodes.remove(i as int),
                self@.namespaces == s0.namespaces,
                kept@.map_values(|r: Reference| r@) == refs_without(s0.references.take(k as int), pred),
                pred == (|r: ReferenceView| r.source == id@ || (delete_target_references && r.target == id@)),
            decreases self.references.len() - k,
        {
            let r = &self.references[k];
            assert(s0.references.take(k + 1).drop_last() =~= s0.references.take(k as int));
            assert(s0.references.take(k + 1).last() == r@);
            let matches = r.source.equals(id) || (delete_target_references && r.target.equals(id));
            if !matches {
                let ghost before = kept@.map_values(|r: Reference| r@);
                kept.push(r.duplicate());
                assert(kept@.map_values(|r: Reference| r@) =~= before.push(r@));
            }
            k = k + 1;
        }
        assert(s0.references.take(s0.references.len() as int) =~= s0.references);
        self.references = kept;
        assert forall|a: int, b: int|
            0 <= a < self@.nodes.len() && 0 <= b < self@.nodes.len() && a != b implies #[trigger] self@.nodes[a].id
            != #[trigger] self@.nodes[b].id by {
            let a2 = if a < i { a } else { a + 1 };
            let b2 = if b < i { b } else { b + 1 };
            assert(self@.nodes[a] == s0.nodes[a2]);
            assert(self@.nodes[b] == s0.nodes[b2]);
        }
        true
    }
}

/// Whether the reference at `j` of `s` leaves `parent` with exactly `reference_type` and
/// ends at a node named `name`.
pub open spec fn child_named_at(
    s: SpaceView,
    j: int,
    parent: NodeIdView,
    reference_type: NodeIdView,
    name: QualifiedNameView,
) -> bool {
    &&& 0 <= j < s.references.len()
    &&& s.references[j].source == parent
    &&& s.references[j].reference_type == reference_type
    &&& match find_node(s, s.references[j].target) {
        Some(n) => n.browse_name == name,
        None => false,
    }
}

/// Whether `parent` already has a child named `name` through `reference_type`.
pub open spec fn has_child_named(
    s: SpaceView,
    parent: NodeIdView,
    reference_type: NodeIdView,
    name: QualifiedNameView,
) -> bool {
    exists|j: int| child_named_at(s, j, parent, reference_type, name)
}

/// The views of reference entries `(other, reference_type, forward)`.
pub open spec fn ref_entry_views(v: Seq<(NodeId, NodeId, bool)>) -> Seq<(NodeIdView, NodeIdView, bool)> {
    v.map_values(|e: (NodeId, NodeId, bool)| (e.0@, e.1@, e.2))
}

/// The references that entries add for a new node `id`.
pub open spec fn new_references(id: NodeIdView, entries: Seq<(NodeIdView, NodeIdView, bool)>) -> Seq<
    ReferenceView,
>
    decreases entries.len(),
{
    if entries.len() == 0 {
        Seq::empty()
    } else {
        let e = entries.last();
        new_references(id, entries.drop_last()).push(
            if e.2 {
                ReferenceView { source: id, target: e.0, reference_type: e.1 }
            } else {
                ReferenceView { source: e.0, target: id, reference_type: e.1 }
            },
        )
    }
}

/// The address space after inserting `node` with `entries`, unless its id is taken.
pub open spec fn insert_if_absent(s: SpaceView, node: NodeView, entries: Seq<(NodeIdView, NodeIdView, bool)>) -> SpaceView {
    if node_exists(s, node.id) {
        s
    } else {
        insert_node_spec(s, node, entries)
    }
}

/// The address space after inserting `node` with reference entries `entries`.
pub open spec fn insert_node_spec(
    s: SpaceView,
    node: NodeView,
    entries: Seq<(NodeIdView, NodeIdView, bool)>,
) -> SpaceView {
    SpaceView {
        namespaces: s.namespaces,
        nodes: s.nodes.push(node),
        references: s.references + new_references(node.id, entries),
    }
}

} // verus!
