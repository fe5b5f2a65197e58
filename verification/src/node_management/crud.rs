//! AddNodes and DeleteNodes (OPC UA Part 4, 5.7.2 and 5.7.4) on the address space.

use vstd::prelude::*;
use crate::address_space::type_tree::{TypeEntryView, TypeTree};
use crate::address_space::{
    lemma_distinct_ids_not_all_used,
    delete_node_spec, has_child_named, insert_node_spec, node_exists, owns_namespace, AddressSpace,
    NodeClass, NodeView, QualifiedName, QualifiedNameView, SpaceView,
};
use crate::node_id::{contains_id, id_views, ids_contain, is_null_view, numeric_view, Identifier, IdentifierView, NodeId, NodeIdView};
use crate::node_management::attributes::{build_node, node_built, null_id, AddNodeAttributes, AttributesView};
use crate::node_management::types::{
    reference_type_is_known, reference_type_known, type_definition_check, type_refinement_check,
    validate_type_definition, validate_type_refinement, HAS_TYPE_DEFINITION,
};
use crate::node_management::{authorize_node_management_permission, may_manage, NodeManagementContext};
use crate::permissions::{PermissionType, PERMISSION_ADD_NODE, PERMISSION_DELETE_NODE};
use crate::status::StatusCode;

verus! {

/// `NodeId::next_numeric` of async-opcua-types: a numeric id in `namespace`, its number
/// drawn from a counter shared by the whole process. The contract states the namespace
/// and that the identifier is numeric; the number depends on every earlier draw.
#[verifier::external_body]
fn next_numeric_node_id(namespace: u16) -> (r: NodeId)
    ensures
        r@.namespace == namespace,
        r@.identifier is Numeric,
{
    let id = opcua_types::NodeId::next_numeric(namespace);
    let identifier = match id.identifier {
        opcua_types::Identifier::Numeric(n) => Identifier::Numeric(n),
        opcua_types::Identifier::String(s) => Identifier::String(s.as_ref().to_owned()),
        opcua_types::Identifier::Guid(g) => Identifier::Guid(u128::from_be_bytes(g.to_bytes())),
        opcua_types::Identifier::ByteString(b) => Identifier::ByteString(b.value.unwrap_or_default()),
    };
    NodeId { namespace: id.namespace, identifier }
}

/// Whether `id` may be given to a new node under a parent in namespace `ns`: numeric,
/// in that namespace, and not yet used in `s`.
pub open spec fn fresh_id(s: SpaceView, ns: u16, id: NodeIdView) -> bool {
    id.namespace == ns && id.identifier is Numeric && !node_exists(s, id)
}

/// A numeric node id in `namespace` that `address_space` does not use yet. Ids are drawn
/// from the process-wide counter, one more draw than there are nodes; should every draw
/// hit a node in use, the numbers from 0 up to the node count are tried in turn, and one
/// of them is free. Only an address space of `u32::MAX` nodes or more can exhaust them.
pub fn next_unused_node_id(address_space: &AddressSpace, namespace: u16) -> (r: Option<NodeId>)
    ensures
        match r {
            Some(id) => fresh_id(address_space@, namespace, id@),
            None => address_space@.nodes.len() >= u32::MAX,
        },
{
    let attempts = address_space.node_count();
    let mut k: usize = 0;
    while k <= attempts
        invariant
            k <= attempts + 1,
            attempts == address_space@.nodes.len(),
        decreases attempts + 1 - k,
    {
        let id = next_numeric_node_id(namespace);
        if !address_space.node_exists(&id) {
            return Some(id);
        }
        if k == attempts {
            break;
        }
        k = k + 1;
    }
    if attempts >= 0xFFFF_FFFFusize {
        return None;
    }
    let limit: u32 = attempts as u32;
    let mut i: u32 = 0;
    while i <= limit
        invariant
            limit == address_space@.nodes.len(),
            limit < u32::MAX,
            i <= limit + 1,
            forall|j: u32| j < i ==> node_exists(address_space@, #[trigger] numeric_view(namespace, j)),
        decreases limit + 1 - i,
    {
        let id = NodeId::numeric(namespace, i);
        if !address_space.node_exists(&id) {
            return Some(id);
        }
        i = i + 1;
    }
    proof {
        let ids = Seq::new((limit + 1) as nat, |j: int| numeric_view(namespace, j as u32));
        assert forall|a: int, b: int| 0 <= a < ids.len() && 0 <= b < ids.len() && a != b implies ids[a] != ids[b] by {
            assert(ids[a].identifier == IdentifierView::Numeric(a as u32));
            assert(ids[b].identifier == IdentifierView::Numeric(b as u32));
        }
        lemma_distinct_ids_not_all_used(address_space@, ids);
        let q = choose|q: int| 0 <= q < ids.len() && !node_exists(address_space@, #[trigger] ids[q]);
        assert(node_exists(address_space@, numeric_view(namespace, q as u32)));
    }
    None
}

/// One AddNodes request item with its result.
#[derive(Debug)]
pub struct AddNodeItem {
    pub parent_node_id: NodeId,
    pub reference_type_id: NodeId,
    pub requested_new_node_id: NodeId,
    pub browse_name: QualifiedName,
    pub node_class: NodeClass,
    pub node_attributes: AddNodeAttributes,
    pub type_definition_id: NodeId,
    pub status: StatusCode,
    pub added_node_id: NodeId,
}

/// Mathematical view of an [`AddNodeItem`].
pub struct AddNodeItemView {
    pub parent: NodeIdView,
    pub reference_type: NodeIdView,
    pub requested: NodeIdView,
    pub browse_name: QualifiedNameView,
    pub node_class: NodeClass,
    pub attributes: AttributesView,
    pub type_definition: NodeIdView,
    pub status: StatusCode,
    pub added: NodeIdView,
}

impl View for AddNodeItem {
    type V = AddNodeItemView;

    open spec fn view(&self) -> AddNodeItemView {
        AddNodeItemView {
            parent: self.parent_node_id@,
            reference_type: self.reference_type_id@,
            requested: self.requested_new_node_id@,
            browse_name: self.browse_name@,
            node_class: self.node_class,
            attributes: self.node_attributes@,
            type_definition: self.type_definition_id@,
            status: self.status,
            added: self.added_node_id@,
        }
    }
}

/// The views of a list of items.
pub open spec fn add_node_views(items: Seq<AddNodeItem>) -> Seq<AddNodeItemView> {
    items.map_values(|it: AddNodeItem| it@)
}

/// The item with its result set.
pub open spec fn with_result(it: AddNodeItemView, added: NodeIdView, status: StatusCode) -> AddNodeItemView {
    AddNodeItemView { added, status, ..it }
}

/// Whether some pending item of `items` requests the id `id`.
pub open spec fn requested_in_batch(items: Seq<AddNodeItemView>, id: NodeIdView) -> bool {
    exists|j: int|
        0 <= j < items.len() && (#[trigger] items[j]).status == StatusCode::BadNotSupported && !is_null_view(
            items[j].requested,
        ) && items[j].requested == id
}

/// The validation of a pending item against the address space before any change: its
/// parent must exist or be requested by a pending item of the batch, a requested id must
/// be unused, the reference type must be known and the TypeDefinition valid.
pub open spec fn add_node_prevalidated(
    s: SpaceView,
    t: Seq<TypeEntryView>,
    batch: Seq<AddNodeItemView>,
    it: AddNodeItemView,
) -> AddNodeItemView {
    if it.status != StatusCode::BadNotSupported {
        it
    } else if (is_null_view(it.parent) || !node_exists(s, it.parent)) && !requested_in_batch(batch, it.parent) {
        with_result(it, null_id(), StatusCode::BadParentNodeIdInvalid)
    } else if !is_null_view(it.requested) && node_exists(s, it.requested) {
        with_result(it, null_id(), StatusCode::BadNodeIdExists)
    } else if !reference_type_known(t, it.reference_type) {
        with_result(it, null_id(), StatusCode::BadReferenceTypeIdInvalid)
    } else {
        match type_definition_check(s, t, it.node_class, it.type_definition) {
            Err(e) => with_result(it, null_id(), e),
            Ok(_) => it,
        }
    }
}

/// A pending item refused as unsupported.
pub open spec fn add_node_refused(it: AddNodeItemView) -> AddNodeItemView {
    if it.status == StatusCode::BadNotSupported {
        with_result(it, null_id(), StatusCode::BadServiceUnsupported)
    } else {
        it
    }
}

/// The reference entries a new node is inserted with: from its parent through the
/// item's reference type, and to its TypeDefinition when one is given.
pub open spec fn new_node_entries(it: AddNodeItemView) -> Seq<(NodeIdView, NodeIdView, bool)> {
    if is_null_view(it.type_definition) {
        seq![(it.parent, it.reference_type, false)]
    } else {
        seq![(it.parent, it.reference_type, false), (it.type_definition, numeric_view(0, HAS_TYPE_DEFINITION), true)]
    }
}

/// Applying one validated item to `s`, where `drawn` is the id the counter gave when the
/// item requests none: the checks in order, then the insertion of the node.
pub open spec fn add_node_applied(
    s: SpaceView,
    t: Seq<TypeEntryView>,
    ctx: NodeManagementContext,
    it: AddNodeItemView,
    drawn: Option<NodeIdView>,
) -> (AddNodeItemView, SpaceView) {
    if it.status != StatusCode::Good && it.status != StatusCode::BadNotSupported {
        (it, s)
    } else if is_null_view(it.parent) || !node_exists(s, it.parent) {
        (with_result(it, null_id(), StatusCode::BadParentNodeIdInvalid), s)
    } else if !may_manage(ctx, s, it.parent, PERMISSION_ADD_NODE) {
        (with_result(it, null_id(), StatusCode::BadUserAccessDenied), s)
    } else if is_null_view(it.reference_type) {
        (with_result(it, null_id(), StatusCode::BadReferenceTypeIdInvalid), s)
    } else if has_child_named(s, it.parent, it.reference_type, it.browse_name) {
        (with_result(it, null_id(), StatusCode::BadBrowseNameDuplicated), s)
    } else if type_definition_check(s, t, it.node_class, it.type_definition) is Err {
        (with_result(it, null_id(), type_definition_check(s, t, it.node_class, it.type_definition)->Err_0), s)
    } else {
        let assigned: Result<NodeIdView, StatusCode> = if is_null_view(it.requested) {
            match drawn {
                Some(id) => if fresh_id(s, it.parent.namespace, id) {
                    Ok(id)
                } else {
                    Err(StatusCode::BadNodeIdExists)
                },
                None => Err(StatusCode::BadNodeIdExists),
            }
        } else if !owns_namespace(s, it.requested.namespace) {
            Err(StatusCode::BadNodeIdRejected)
        } else if node_exists(s, it.requested) {
            Err(StatusCode::BadNodeIdExists)
        } else {
            Ok(it.requested)
        };
        match assigned {
            Err(e) => (with_result(it, null_id(), e), s),
            Ok(id) => match node_built(it.node_class, it.attributes, it.browse_name, id) {
                Err(e) => (with_result(it, null_id(), e), s),
                Ok(node) => match type_refinement_check(s, t, it.reference_type, it.parent, node) {
                    Err(e) => (with_result(it, null_id(), e), s),
                    Ok(_) => (with_result(it, id, StatusCode::Good), insert_node_spec(s, node, new_node_entries(it))),
                },
            },
        }
    }
}

/// Applying the validated items in order, the `k`-th drawing `drawn[k]`.
pub open spec fn add_nodes_applied(
    s: SpaceView,
    t: Seq<TypeEntryView>,
    ctx: NodeManagementContext,
    items: Seq<AddNodeItemView>,
    drawn: Seq<Option<NodeIdView>>,
) -> (Seq<AddNodeItemView>, SpaceView)
    decreases items.len(),
{
    if items.len() == 0 {
        (items, s)
    } else {
        let (done, s1) = add_nodes_applied(s, t, ctx, items.drop_last(), drawn);
        let (it, s2) = add_node_applied(s1, t, ctx, items.last(), drawn[items.len() - 1]);
        (done.push(it), s2)
    }
}

/// Whether applying `it` to `s` reaches the point where an id is drawn: the item is
/// still to be applied, passes the checks on its parent, reference type, browse name and
/// TypeDefinition, and requests no id.
pub open spec fn draws_id(s: SpaceView, t: Seq<TypeEntryView>, ctx: NodeManagementContext, it: AddNodeItemView) -> bool {
    &&& (it.status == StatusCode::Good || it.status == StatusCode::BadNotSupported)
    &&& !is_null_view(it.parent) && node_exists(s, it.parent)
    &&& may_manage(ctx, s, it.parent, PERMISSION_ADD_NODE)
    &&& !is_null_view(it.reference_type)
    &&& !has_child_named(s, it.parent, it.reference_type, it.browse_name)
    &&& type_definition_check(s, t, it.node_class, it.type_definition) is Ok
    &&& is_null_view(it.requested)
}

/// Whether the `k`-th item, applied after the ones before it, got a fresh id in its
/// parent's namespace wherever it drew one.
pub open spec fn draw_fresh_at(
    s: SpaceView,
    t: Seq<TypeEntryView>,
    ctx: NodeManagementContext,
    items: Seq<AddNodeItemView>,
    drawn: Seq<Option<NodeIdView>>,
    k: int,
) -> bool {
    let sk = add_nodes_applied(s, t, ctx, items.take(k), drawn).1;
    draws_id(sk, t, ctx, items[k]) ==> (drawn[k] matches Some(id) && fresh_id(sk, items[k].parent.namespace, id))
}

/// Whether every id drawn while applying `items` was fresh where it was used.
pub open spec fn draws_fresh(
    s: SpaceView,
    t: Seq<TypeEntryView>,
    ctx: NodeManagementContext,
    items: Seq<AddNodeItemView>,
    drawn: Seq<Option<NodeIdView>>,
) -> bool {
    forall|k: int| 0 <= k < items.len() ==> #[trigger] draw_fresh_at(s, t, ctx, items, drawn, k)
}

/// The items of an AddNodes request after validation against `s` (see
/// [`add_node_prevalidated`]).
pub open spec fn add_nodes_validated(s: SpaceView, t: Seq<TypeEntryView>, items: Seq<AddNodeItemView>) -> Seq<AddNodeItemView> {
    items.map_values(|it: AddNodeItemView| add_node_prevalidated(s, t, items, it))
}

/// The outcome of AddNodes given the ids drawn for items that request none: every item is
/// validated against the address space as it was; then either the pending ones are
/// refused as unsupported, or the items are applied in order.
pub open spec fn add_nodes_outcome(
    s: SpaceView,
    t: Seq<TypeEntryView>,
    ctx: NodeManagementContext,
    items: Seq<AddNodeItemView>,
    drawn: Seq<Option<NodeIdView>>,
) -> (Seq<AddNodeItemView>, SpaceView) {
    let validated = add_nodes_validated(s, t, items);
    if !ctx.clients_can_modify_address_space {
        (validated.map_values(|it: AddNodeItemView| add_node_refused(it)), s)
    } else {
        add_nodes_applied(s, t, ctx, validated, drawn)
    }
}

/// The ids requested by the pending items of a batch.
fn batch_requested_ids(items: &Vec<AddNodeItem>) -> (r: Vec<NodeId>)
    ensures
        forall|x: NodeIdView| #[trigger] ids_contain(id_views(r@), x) == requested_in_batch(add_node_views(items@), x),
{
    let ghost v = add_node_views(items@);
    let mut r: Vec<NodeId> = Vec::new();
    let mut j: usize = 0;
    while j < items.len()
        invariant
            j <= items.len(),
            v == add_node_views(items@),
            forall|x: NodeIdView|
                #[trigger] ids_contain(id_views(r@), x) == exists|k: int|
                    0 <= k < j && (#[trigger] v[k]).status == StatusCode::BadNotSupported && !is_null_view(v[k].requested)
                        && v[k].requested == x,
        decreases items.len() - j,
    {
        let it = &items[j];
        assert(v[j as int] == it@);
        let ghost before = r@;
        if it.status == StatusCode::BadNotSupported && !it.requested_new_node_id.is_null() {
            r.push(it.requested_new_node_id.duplicate());
        }
        assert forall|x: NodeIdView| #[trigger] ids_contain(id_views(r@), x) == exists|k: int|
            0 <= k < j + 1 && (#[trigger] v[k]).status == StatusCode::BadNotSupported && !is_null_view(v[k].requested)
                && v[k].requested == x by {
            if ids_contain(id_views(r@), x) {
                let m = choose|m: int| 0 <= m < id_views(r@).len() && id_views(r@)[m] == x;
                if m < before.len() {
                    assert(id_views(before)[m] == x);
                    assert(ids_contain(id_views(before), x));
                } else {
                    assert(v[j as int].requested == x);
                }
            }
            if exists|k: int| 0 <= k < j + 1 && (#[trigger] v[k]).status == StatusCode::BadNotSupported && !is_null_view(v[k].requested)
                && v[k].requested == x {
                let k = choose|k: int| 0 <= k < j + 1 && (#[trigger] v[k]).status == StatusCode::BadNotSupported && !is_null_view(v[k].requested)
                    && v[k].requested == x;
                if k < j {
                    assert(ids_contain(id_views(before), x));
                    let m = choose|m: int| 0 <= m < id_views(before).len() && id_views(before)[m] == x;
                    assert(id_views(r@)[m] == x);
                } else {
                    assert(id_views(r@)[r@.len() - 1] == x);
                }
            }
        }
        j = j + 1;
    }
    r
}

fn prevalidate_add_node(
    address_space: &AddressSpace,
    type_tree: &TypeTree,
    in_batch: bool,
    item: &mut AddNodeItem,
)
    ensures
        final(item)@ == (if old(item)@.status != StatusCode::BadNotSupported {
            old(item)@
        } else if (is_null_view(old(item)@.parent) || !node_exists(address_space@, old(item)@.parent)) && !in_batch {
            with_result(old(item)@, null_id(), StatusCode::BadParentNodeIdInvalid)
        } else if !is_null_view(old(item)@.requested) && node_exists(address_space@, old(item)@.requested) {
            with_result(old(item)@, null_id(), StatusCode::BadNodeIdExists)
        } else if !reference_type_known(type_tree@, old(item)@.reference_type) {
            with_result(old(item)@, null_id(), StatusCode::BadReferenceTypeIdInvalid)
        } else {
            match type_definition_check(address_space@, type_tree@, old(item)@.node_class, old(item)@.type_definition) {
                Err(e) => with_result(old(item)@, null_id(), e),
                Ok(_) => old(item)@,
            }
        }),
{
    if item.status != StatusCode::BadNotSupported {
        return;
    }
    if (item.parent_node_id.is_null() || !address_space.node_exists(&item.parent_node_id)) && !in_batch {
        item.added_node_id = NodeId::null();
        item.status = StatusCode::BadParentNodeIdInvalid;
        return;
    }
    if !item.requested_new_node_id.is_null() && address_space.node_exists(&item.requested_new_node_id) {
        item.added_node_id = NodeId::null();
        item.status = StatusCode::BadNodeIdExists;
        return;
    }
    if !reference_type_is_known(type_tree, &item.reference_type_id) {
        item.added_node_id = NodeId::null();
        item.status = StatusCode::BadReferenceTypeIdInvalid;
        return;
    }
    if let Err(e) = validate_type_definition(address_space, type_tree, item.node_class, &item.type_definition_id) {
        item.added_node_id = NodeId::null();
        item.status = e;
    }
}

fn apply_add_node(
    address_space: &mut AddressSpace,
    type_tree: &TypeTree,
    ctx: &NodeManagementContext,
    item: &mut AddNodeItem,
) -> (drawn: Ghost<Option<NodeIdView>>)
    requires
        old(address_space).wf(),
    ensures
        final(address_space).wf(),
        (final(item)@, final(address_space)@) == add_node_applied(old(address_space)@, type_tree@, *ctx, old(item)@, drawn@),
        final(address_space)@.nodes.len() <= old(address_space)@.nodes.len() + 1,
        draws_id(old(address_space)@, type_tree@, *ctx, old(item)@) && old(address_space)@.nodes.len() < u32::MAX
            ==> (drawn@ matches Some(id) && fresh_id(old(address_space)@, old(item)@.parent.namespace, id)),
{
    if item.status != StatusCode::Good && item.status != StatusCode::BadNotSupported {
        return Ghost(None);
    }
    if item.parent_node_id.is_null() || !address_space.node_exists(&item.parent_node_id) {
        item.added_node_id = NodeId::null();
        item.status = StatusCode::BadParentNodeIdInvalid;
        return Ghost(None);
    }
    if !authorize_node_management_permission(ctx, address_space, &item.parent_node_id, PermissionType::from_bits(PERMISSION_ADD_NODE)) {
        item.added_node_id = NodeId::null();
        item.status = StatusCode::BadUserAccessDenied;
        return Ghost(None);
    }
    if item.reference_type_id.is_null() {
        item.added_node_id = NodeId::null();
        item.status = StatusCode::BadReferenceTypeIdInvalid;
        return Ghost(None);
    }
    if address_space.has_child_named(&item.parent_node_id, &item.reference_type_id, &item.browse_name) {
        item.added_node_id = NodeId::null();
        item.status = StatusCode::BadBrowseNameDuplicated;
        return Ghost(None);
    }
    if let Err(e) = validate_type_definition(address_space, type_tree, item.node_class, &item.type_definition_id) {
        item.added_node_id = NodeId::null();
        item.status = e;
        return Ghost(None);
    }
    let ghost mut drawn_v: Option<NodeIdView> = None;
    let assigned: Result<NodeId, StatusCode> = if item.requested_new_node_id.is_null() {
        match next_unused_node_id(address_space, item.parent_node_id.namespace) {
            Some(id) => {
                proof {
                    drawn_v = Some(id@);
                }
                Ok(id)
            },
            None => Err(StatusCode::BadNodeIdExists),
        }
    } else if !address_space.owns_namespace(item.requested_new_node_id.namespace) {
        Err(StatusCode::BadNodeIdRejected)
    } else if address_space.node_exists(&item.requested_new_node_id) {
        Err(StatusCode::BadNodeIdExists)
    } else {
        Ok(item.requested_new_node_id.duplicate())
    };
    let id = match assigned {
        Err(e) => {
            item.added_node_id = NodeId::null();
            item.status = e;
            return Ghost(drawn_v);
        },
        Ok(id) => id,
    };
    let node = match build_node(item.node_class, &item.node_attributes, &item.browse_name, &id) {
        Err(e) => {
            item.added_node_id = NodeId::null();
            item.status = e;
            return Ghost(drawn_v);
        },
        Ok(node) => node,
    };
    if let Err(e) = validate_type_refinement(address_space, type_tree, &item.reference_type_id, &item.parent_node_id, &node) {
        item.added_node_id = NodeId::null();
        item.status = e;
        return Ghost(drawn_v);
    }
    let mut entries: Vec<(NodeId, NodeId, bool)> = Vec::new();
    entries.push((item.parent_node_id.duplicate(), item.reference_type_id.duplicate(), false));
    if !item.type_definition_id.is_null() {
        entries.push((item.type_definition_id.duplicate(), NodeId::numeric(0, HAS_TYPE_DEFINITION), true));
    }
    proof {
        assert(crate::address_space::ref_entry_views(entries@) =~= new_node_entries(old(item)@));
    }
    let inserted = address_space.insert_node(node, entries.as_slice());
    if inserted {
        item.added_node_id = id;
        item.status = StatusCode::Good;
    } else {
        item.added_node_id = NodeId::null();
        item.status = StatusCode::BadNodeIdExists;
    }
    Ghost(drawn_v)
}

/// AddNodes on the items of one node manager: the outcome is [`add_nodes_outcome`] for
/// the ids the counter gave, each fresh where it was used.
pub fn add_nodes_impl(
    address_space: &mut AddressSpace,
    type_tree: &TypeTree,
    ctx: &NodeManagementContext,
    items: &mut Vec<AddNodeItem>,
)
    requires
        old(address_space).wf(),
    ensures
        final(address_space).wf(),
        exists|drawn: Seq<Option<NodeIdView>>|
            (add_node_views(final(items)@), final(address_space)@) == #[trigger] add_nodes_outcome(
                old(address_space)@,
                type_tree@,
                *ctx,
                add_node_views(old(items)@),
                drawn,
            ) && (ctx.clients_can_modify_address_space && old(address_space)@.nodes.len() + old(items)@.len() < u32::MAX
                ==> draws_fresh(
                old(address_space)@,
                type_tree@,
                *ctx,
                add_nodes_validated(old(address_space)@, type_tree@, add_node_views(old(items)@)),
                drawn,
            )),
{
    let ghost s0 = address_space@;
    let ghost items0 = add_node_views(items@);
    let ghost validated = items0.map_values(|it: AddNodeItemView| add_node_prevalidated(s0, type_tree@, items0, it));
    let batch = batch_requested_ids(items);
    let mut i: usize = 0;
    while i < items.len()
        invariant
            i <= items.len(),
            items.len() == items0.len(),
            address_space@ == s0,
            items0.len() == validated.len(),
            validated == items0.map_values(|it: AddNodeItemView| add_node_prevalidated(s0, type_tree@, items0, it)),
            forall|x: NodeIdView| #[trigger] ids_contain(id_views(batch@), x) == requested_in_batch(items0, x),
            forall|j: int| 0 <= j < i ==> #[trigger] items@[j]@ == validated[j],
            forall|j: int| i <= j < items.len() ==> #[trigger] items@[j]@ == items0[j],
        decreases items.len() - i,
    {
        assert(items@[i as int]@ == items0[i as int]);
        let in_batch = contains_id(batch.as_slice(), &items[i].parent_node_id);
        prevalidate_add_node(address_space, type_tree, in_batch, &mut items[i]);
        i = i + 1;
    }
    assert(add_node_views(items@) =~= validated);
    if !ctx.clients_can_modify_address_space {
        let ghost refused = validated.map_values(|it: AddNodeItemView| add_node_refused(it));
        let mut k: usize = 0;
        while k < items.len()
            invariant
                k <= items.len(),
                items.len() == validated.len(),
                refused == validated.map_values(|it: AddNodeItemView| add_node_refused(it)),
                forall|j: int| 0 <= j < k ==> #[trigger] items@[j]@ == refused[j],
                forall|j: int| k <= j < items.len() ==> #[trigger] items@[j]@ == validated[j],
            decreases items.len() - k,
        {
            assert(refused[k as int] == add_node_refused(validated[k as int]));
            assert(items@[k as int]@ == validated[k as int]);
            if items[k].status == StatusCode::BadNotSupported {
                items[k].added_node_id = NodeId::null();
                items[k].status = StatusCode::BadServiceUnsupported;
            }
            assert(items@[k as int]@ == refused[k as int]);
            k = k + 1;
        }
        assert(add_node_views(items@) =~= refused);
        assert(add_nodes_outcome(s0, type_tree@, *ctx, items0, Seq::empty()) == (refused, s0));
        assert(add_nodes_validated(s0, type_tree@, items0) == validated);
        return;
    }
    let ghost mut drawn: Seq<Option<NodeIdView>> = Seq::empty();
    let mut k: usize = 0;
    while k < items.len()
        invariant
            k <= items.len(),
            items.len() == validated.len(),
            drawn.len() == k,
            address_space.wf(),
            (add_node_views(items@).take(k as int), address_space@) == add_nodes_applied(s0, type_tree@, *ctx, validated.take(k as int), drawn),
            forall|j: int| k <= j < items.len() ==> #[trigger] items@[j]@ == validated[j],
            address_space@.nodes.len() <= s0.nodes.len() + k,
            s0.nodes.len() + validated.len() < u32::MAX ==> forall|j: int|
                0 <= j < k ==> #[trigger] draw_fresh_at(s0, type_tree@, *ctx, validated, drawn, j),
        decreases items.len() - k,
    {
        assert(validated.take(k + 1).drop_last() =~= validated.take(k as int));
        let ghost before = add_node_views(items@).take(k as int);
        let ghost s_before = address_space@;
        let ghost old_drawn = drawn;
        assert(items@[k as int]@ == validated[k as int]);
        let d = apply_add_node(address_space, type_tree, ctx, &mut items[k]);
        proof {
            lemma_applied_ignores_later_draws(s0, type_tree@, *ctx, validated.take(k as int), drawn, d@);
            drawn = drawn.push(d@);
            if s0.nodes.len() + validated.len() < u32::MAX {
                assert forall|j: int| 0 <= j < k + 1 implies #[trigger] draw_fresh_at(s0, type_tree@, *ctx, validated, drawn, j) by {
                    assert(validated.take(j) =~= validated.take(k as int).take(j)) by {
                        assert(validated.take(j) =~= validated.take(k as int).take(j));
                    }
                    lemma_prefix_draws(s0, type_tree@, *ctx, validated.take(j), old_drawn, drawn);
                    if j < k {
                        assert(draw_fresh_at(s0, type_tree@, *ctx, validated, old_drawn, j));
                    } else {
                        assert(add_nodes_applied(s0, type_tree@, *ctx, validated.take(j), old_drawn).1 == s_before);
                    }
                }
            }
        }
        assert(add_node_views(items@).take(k + 1) =~= before.push(items@[k as int]@));
        k = k + 1;
    }
    assert(validated.take(items.len() as int) =~= validated);
    assert(add_node_views(items@).take(items.len() as int) =~= add_node_views(items@));
    assert(add_nodes_outcome(s0, type_tree@, *ctx, items0, drawn) == (add_node_views(items@), address_space@));
    assert(add_nodes_validated(s0, type_tree@, items0) == validated);
}

proof fn lemma_applied_ignores_later_draws(
    s: SpaceView,
    t: Seq<TypeEntryView>,
    ctx: NodeManagementContext,
    items: Seq<AddNodeItemView>,
    drawn: Seq<Option<NodeIdView>>,
    next: Option<NodeIdView>,
)
    requires
        drawn.len() == items.len(),
    ensures
        add_nodes_applied(s, t, ctx, items, drawn.push(next)) == add_nodes_applied(s, t, ctx, items, drawn),
    decreases items.len(),
{
    if items.len() > 0 {
        lemma_applied_ignores_later_draws(s, t, ctx, items.drop_last(), drawn.drop_last(), drawn.last());
        lemma_prefix_draws(s, t, ctx, items.drop_last(), drawn, drawn.push(next));
    }
}

proof fn lemma_prefix_draws(
    s: SpaceView,
    t: Seq<TypeEntryView>,
    ctx: NodeManagementContext,
    items: Seq<AddNodeItemView>,
    a: Seq<Option<NodeIdView>>,
    b: Seq<Option<NodeIdView>>,
)
    requires
        items.len() <= a.len(),
        items.len() <= b.len(),
        forall|j: int| 0 <= j < items.len() ==> a[j] == b[j],
    ensures
        add_nodes_applied(s, t, ctx, items, a) == add_nodes_applied(s, t, ctx, items, b),
    decreases items.len(),
{
    if items.len() > 0 {
        lemma_prefix_draws(s, t, ctx, items.drop_last(), a, b);
    }
}

/// One DeleteNodes request item with its result. A pending item arrives with
/// `BadNodeIdUnknown`.
#[derive(Debug)]
pub struct DeleteNodeItem {
    pub node_id: NodeId,
    pub delete_target_references: bool,
    pub status: StatusCode,
}

/// Mathematical view of a [`DeleteNodeItem`].
pub struct DeleteNodeItemView {
    pub node_id: NodeIdView,
    pub delete_target_references: bool,
    pub status: StatusCode,
}

impl View for DeleteNodeItem {
    type V = DeleteNodeItemView;

    open spec fn view(&self) -> DeleteNodeItemView {
        DeleteNodeItemView {
            node_id: self.node_id@,
            delete_target_references: self.delete_target_references,
            status: self.status,
        }
    }
}

/// The views of a list of items.
pub open spec fn delete_node_views(items: Seq<DeleteNodeItem>) -> Seq<DeleteNodeItemView> {
    items.map_values(|it: DeleteNodeItem| it@)
}

/// The item with its status set.
pub open spec fn with_status(it: DeleteNodeItemView, status: StatusCode) -> DeleteNodeItemView {
    DeleteNodeItemView { status, ..it }
}

/// The validation of a pending item before any change: a node that exists becomes
/// `BadNotSupported` (to be handled) unless the session may not delete it.
pub open spec fn delete_node_prevalidated(
    s: SpaceView,
    ctx: NodeManagementContext,
    it: DeleteNodeItemView,
) -> DeleteNodeItemView {
    if it.status != StatusCode::BadNodeIdUnknown || !node_exists(s, it.node_id) {
        it
    } else if !may_manage(ctx, s, it.node_id, PERMISSION_DELETE_NODE) {
        with_status(it, StatusCode::BadUserAccessDenied)
    } else {
        with_status(it, StatusCode::BadNotSupported)
    }
}

/// Applying one validated item to `s`.
pub open spec fn delete_node_applied(
    s: SpaceView,
    ctx: NodeManagementContext,
    it: DeleteNodeItemView,
) -> (DeleteNodeItemView, SpaceView) {
    if it.status != StatusCode::Good && it.status != StatusCode::BadNotSupported {
        (it, s)
    } else if is_null_view(it.node_id) {
        (with_status(it, StatusCode::BadNodeIdInvalid), s)
    } else if !may_manage(ctx, s, it.node_id, PERMISSION_DELETE_NODE) {
        (with_status(it, StatusCode::BadUserAccessDenied), s)
    } else if node_exists(s, it.node_id) {
        (with_status(it, StatusCode::Good), delete_node_spec(s, it.node_id, it.delete_target_references))
    } else {
        (with_status(it, StatusCode::BadNodeIdUnknown), s)
    }
}

/// Applying the validated items in order.
pub open spec fn delete_nodes_applied(
    s: SpaceView,
    ctx: NodeManagementContext,
    items: Seq<DeleteNodeItemView>,
) -> (Seq<DeleteNodeItemView>, SpaceView)
    decreases items.len(),
{
    if items.len() == 0 {
        (items, s)
    } else {
        let (done, s1) = delete_nodes_applied(s, ctx, items.drop_last());
        let (it, s2) = delete_node_applied(s1, ctx, items.last());
        (done.push(it), s2)
    }
}

/// The outcome of DeleteNodes: validation against the address space as it was, then
/// either refusal of the pending items as unsupported or their deletion in order.
pub open spec fn delete_nodes_outcome(
    s: SpaceView,
    ctx: NodeManagementContext,
    items: Seq<DeleteNodeItemView>,
) -> (Seq<DeleteNodeItemView>, SpaceView) {
    let validated = items.map_values(|it: DeleteNodeItemView| delete_node_prevalidated(s, ctx, it));
    if !ctx.clients_can_modify_address_space {
        (validated.map_values(|it: DeleteNodeItemView| if it.status == StatusCode::BadNotSupported {
            with_status(it, StatusCode::BadServiceUnsupported)
        } else {
            it
        }), s)
    } else {
        delete_nodes_applied(s, ctx, validated)
    }
}

/// DeleteNodes on the items of one node manager (see [`delete_nodes_outcome`]).
pub fn delete_nodes_impl(
    address_space: &mut AddressSpace,
    ctx: &NodeManagementContext,
    items: &mut Vec<DeleteNodeItem>,
)
    requires
        old(address_space).wf(),
    ensures
        final(address_space).wf(),
        (delete_node_views(final(items)@), final(address_space)@) == delete_nodes_outcome(
            old(address_space)@,
            *ctx,
            delete_node_views(old(items)@),
        ),
{
    let ghost s0 = address_space@;
    let ghost items0 = delete_node_views(items@);
    let ghost validated = items0.map_values(|it: DeleteNodeItemView| delete_node_prevalidated(s0, *ctx, it));
    let mut i: usize = 0;
    while i < items.len()
        invariant
            i <= items.len(),
            items.len() == items0.len(),
            address_space@ == s0,
            items0.len() == validated.len(),
            validated == items0.map_values(|it: DeleteNodeItemView| delete_node_prevalidated(s0, *ctx, it)),
            forall|j: int| 0 <= j < i ==> #[trigger] items@[j]@ == validated[j],
            forall|j: int| i <= j < items.len() ==> #[trigger] items@[j]@ == items0[j],
        decreases items.len() - i,
    {
        assert(items@[i as int]@ == items0[i as int]);
        assert(validated[i as int] == delete_node_prevalidated(s0, *ctx, items0[i as int]));
        if items[i].status == StatusCode::BadNodeIdUnknown && address_space.node_exists(&items[i].node_id) {
            if !authorize_node_management_permission(ctx, address_space, &items[i].node_id, PermissionType::from_bits(PERMISSION_DELETE_NODE)) {
                items[i].status = StatusCode::BadUserAccessDenied;
            } else {
                items[i].status = StatusCode::BadNotSupported;
            }
        }
        assert(items@[i as int]@ == validated[i as int]);
        i = i + 1;
    }
    assert(delete_node_views(items@) =~= validated);
    if !ctx.clients_can_modify_address_space {
        let ghost refused = validated.map_values(|it: DeleteNodeItemView| if it.status == StatusCode::BadNotSupported {
            with_status(it, StatusCode::BadServiceUnsupported)
        } else {
            it
        });
        let mut k: usize = 0;
        while k < items.len()
            invariant
                k <= items.len(),
                items.len() == validated.len(),
                refused == validated.map_values(|it: DeleteNodeItemView| if it.status == StatusCode::BadNotSupported {
                    with_status(it, StatusCode::BadServiceUnsupported)
                } else {
                    it
                }),
                forall|j: int| 0 <= j < k ==> #[trigger] items@[j]@ == refused[j],
                forall|j: int| k <= j < items.len() ==> #[trigger] items@[j]@ == validated[j],
            decreases items.len() - k,
        {
            assert(items@[k as int]@ == validated[k as int]);
            assert(refused[k as int] == (if validated[k as int].status == StatusCode::BadNotSupported {
                with_status(validated[k as int], StatusCode::BadServiceUnsupported)
            } else {
                validated[k as int]
            }));
            if items[k].status == StatusCode::BadNotSupported {
                items[k].status = StatusCode::BadServiceUnsupported;
            }
            assert(items@[k as int]@ == refused[k as int]);
            k = k + 1;
        }
        assert(delete_node_views(items@) =~= refused);
        return;
    }
    let mut k: usize = 0;
    while k < items.len()
        invariant
            k <= items.len(),
            items.len() == validated.len(),
            address_space.wf(),
            (delete_node_views(items@).take(k as int), address_space@) == delete_nodes_applied(s0, *ctx, validated.take(k as int)),
            forall|j: int| k <= j < items.len() ==> #[trigger] items@[j]@ == validated[j],
        decreases items.len() - k,
    {
        assert(validated.take(k + 1).drop_last() =~= validated.take(k as int));
        let ghost before = delete_node_views(items@).take(k as int);
        let ghost s_before = address_space@;
        let ghost it0 = items@[k as int]@;
        assert(it0 == validated[k as int]);
        let st = items[k].status;
        if st == StatusCode::Good || st == StatusCode::BadNotSupported {
            if items[k].node_id.is_null() {
                items[k].status = StatusCode::BadNodeIdInvalid;
            } else if !authorize_node_management_permission(ctx, address_space, &items[k].node_id, PermissionType::from_bits(PERMISSION_DELETE_NODE)) {
                items[k].status = StatusCode::BadUserAccessDenied;
            } else {
                let id = items[k].node_id.duplicate();
                let target_refs = items[k].delete_target_references;
                if address_space.delete(&id, target_refs) {
                    items[k].status = StatusCode::Good;
                } else {
                    items[k].status = StatusCode::BadNodeIdUnknown;
                }
            }
        }
        assert((items@[k as int]@, address_space@) == delete_node_applied(s_before, *ctx, it0));
        assert(delete_node_views(items@).take(k + 1) =~= before.push(items@[k as int]@));
        k = k + 1;
    }
    assert(validated.take(items.len() as int) =~= validated);
    assert(delete_node_views(items@).take(items.len() as int) =~= delete_node_views(items@));
}

} // verus!
