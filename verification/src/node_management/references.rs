//! AddReferences and DeleteReferences (OPC UA Part 4, 5.7.3 and 5.7.5) on the address
//! space: per-item validation first, then, where clients may modify the address space,
//! the changes in request order.

use vstd::prelude::*;
use crate::address_space::type_tree::{type_class, TypeEntryView, TypeTree};
use crate::address_space::{
    delete_reference_spec, find_node, has_reference, has_reference_from, node_exists, owns_namespace,
    AddressSpace, NodeClass, ReferenceView, SpaceView,
};
use crate::node_id::{numeric_view, NodeId, NodeIdView};
use crate::node_management::types::{
    reference_is_structurally_allowed, reference_type_abstract, reference_type_is_abstract,
    structurally_allowed, HAS_TYPE_DEFINITION,
};
use crate::node_management::{may_manage, authorize_node_management_permission, NodeManagementContext};
use crate::permissions::{PermissionType, PERMISSION_ADD_REFERENCE, PERMISSION_REMOVE_REFERENCE};
use crate::status::StatusCode;

verus! {

/// `code` where the side is handled and its status still pending, else `current`.
pub open spec fn mark_pending(handled: bool, current: StatusCode, code: StatusCode) -> StatusCode {
    if handled && current == StatusCode::BadNotSupported {
        code
    } else {
        current
    }
}

/// `code` where `flag` holds, else `current`.
pub open spec fn set_if(flag: bool, current: StatusCode, code: StatusCode) -> StatusCode {
    if flag {
        code
    } else {
        current
    }
}

/// One AddReferences request item with its per-side results. A side whose status is
/// `BadNotSupported` is still to be handled by the node manager that owns its namespace.
#[derive(Debug)]
pub struct AddReferenceItem {
    pub source_node_id: NodeId,
    pub target_node_id: NodeId,
    pub reference_type_id: NodeId,
    pub is_forward: bool,
    pub target_node_class: NodeClass,
    pub source_status: StatusCode,
    pub target_status: StatusCode,
}

/// Mathematical view of an [`AddReferenceItem`].
pub struct AddReferenceItemView {
    pub source: NodeIdView,
    pub target: NodeIdView,
    pub reference_type: NodeIdView,
    pub is_forward: bool,
    pub target_node_class: NodeClass,
    pub source_status: StatusCode,
    pub target_status: StatusCode,
}

impl View for AddReferenceItem {
    type V = AddReferenceItemView;

    open spec fn view(&self) -> AddReferenceItemView {
        AddReferenceItemView {
            source: self.source_node_id@,
            target: self.target_node_id@,
            reference_type: self.reference_type_id@,
            is_forward: self.is_forward,
            target_node_class: self.target_node_class,
            source_status: self.source_status,
            target_status: self.target_status,
        }
    }
}

/// The views of a list of items.
pub open spec fn add_reference_views(items: Seq<AddReferenceItem>) -> Seq<AddReferenceItemView> {
    items.map_values(|it: AddReferenceItem| it@)
}

/// The item with both statuses replaced.
pub open spec fn with_statuses(it: AddReferenceItemView, s: StatusCode, t: StatusCode) -> AddReferenceItemView {
    AddReferenceItemView { source_status: s, target_status: t, ..it }
}

/// The validation of an item against the address space before any change: unknown
/// endpoints, a reference type that is not a ReferenceType, and, when both endpoints
/// exist, a self reference or a duplicate of an existing reference.
pub open spec fn add_reference_prevalidated(s: SpaceView, t: Seq<TypeEntryView>, it: AddReferenceItemView) -> AddReferenceItemView {
    let pending = StatusCode::BadNotSupported;
    let hs = owns_namespace(s, it.source.namespace) && it.source_status == pending;
    let ht = owns_namespace(s, it.target.namespace) && it.target_status == pending;
    if it.source_status != pending && it.target_status != pending {
        it
    } else if !hs && !ht {
        it
    } else {
        let se = node_exists(s, it.source);
        let te = node_exists(s, it.target);
        let s1 = set_if(hs && !se, it.source_status, StatusCode::BadSourceNodeIdInvalid);
        let t1 = set_if(ht && !te, it.target_status, StatusCode::BadTargetNodeIdInvalid);
        let src = if it.is_forward { it.source } else { it.target };
        let tgt = if it.is_forward { it.target } else { it.source };
        if type_class(t, it.reference_type) != Some(NodeClass::ReferenceType) {
            with_statuses(
                it,
                mark_pending(hs, s1, StatusCode::BadReferenceTypeIdInvalid),
                mark_pending(ht, t1, StatusCode::BadReferenceTypeIdInvalid),
            )
        } else if se && te && src == tgt {
            with_statuses(
                it,
                mark_pending(hs, s1, StatusCode::BadInvalidSelfReference),
                mark_pending(ht, t1, StatusCode::BadInvalidSelfReference),
            )
        } else if se && te && has_reference(s, src, tgt, it.reference_type) {
            with_statuses(
                it,
                mark_pending(hs, s1, StatusCode::BadDuplicateReferenceNotAllowed),
                mark_pending(ht, t1, StatusCode::BadDuplicateReferenceNotAllowed),
            )
        } else {
            with_statuses(it, s1, t1)
        }
    }
}

/// Items still pending after validation when clients may not modify the address space
/// are refused as unsupported.
pub open spec fn refused_as_unsupported(it: AddReferenceItemView) -> AddReferenceItemView {
    with_statuses(
        it,
        set_if(it.source_status == StatusCode::BadNotSupported, it.source_status, StatusCode::BadServiceUnsupported),
        set_if(it.target_status == StatusCode::BadNotSupported, it.target_status, StatusCode::BadServiceUnsupported),
    )
}

/// Applying one validated item to the address space `s`: the item's results and the
/// address space after it.
pub open spec fn add_reference_applied(
    s: SpaceView,
    t: Seq<TypeEntryView>,
    ctx: NodeManagementContext,
    it: AddReferenceItemView,
) -> (AddReferenceItemView, SpaceView) {
    let pending = StatusCode::BadNotSupported;
    let so = owns_namespace(s, it.source.namespace);
    let to = owns_namespace(s, it.target.namespace);
    let hs = so && it.source_status == pending;
    let ht = to && it.target_status == pending;
    let se = node_exists(s, it.source);
    let te = node_exists(s, it.target);
    let invalid_type = StatusCode::BadReferenceTypeIdInvalid;
    let src = if it.is_forward { it.source } else { it.target };
    let tgt = if it.is_forward { it.target } else { it.source };
    let sr = hs && se;
    let tr = ht && te;
    if !hs && !ht {
        (it, s)
    } else if so && it.source_status == StatusCode::BadSourceNodeIdInvalid {
        (with_statuses(it, it.source_status, set_if(to && it.target_status == pending, it.target_status, StatusCode::BadSourceNodeIdInvalid)), s)
    } else if to && it.target_status == StatusCode::BadTargetNodeIdInvalid {
        (with_statuses(it, set_if(so && it.source_status == pending, it.source_status, StatusCode::BadTargetNodeIdInvalid), it.target_status), s)
    } else if se && !may_manage(ctx, s, it.source, PERMISSION_ADD_REFERENCE) {
        (with_statuses(it, StatusCode::BadUserAccessDenied, StatusCode::BadUserAccessDenied), s)
    } else if type_class(t, it.reference_type) != Some(NodeClass::ReferenceType) || reference_type_abstract(s, it.reference_type) {
        (with_statuses(it, set_if(hs, it.source_status, invalid_type), set_if(ht, it.target_status, invalid_type)), s)
    } else if (hs && !se) || (ht && !te) {
        (with_statuses(
            it,
            set_if(hs && !se, it.source_status, StatusCode::BadSourceNodeIdInvalid),
            set_if(ht && !te, it.target_status, StatusCode::BadTargetNodeIdInvalid),
        ), s)
    } else if !sr && !tr {
        (it, s)
    } else if it.source == it.target {
        (with_statuses(it, set_if(sr, it.source_status, StatusCode::BadInvalidSelfReference), set_if(tr, it.target_status, StatusCode::BadInvalidSelfReference)), s)
    } else if te && it.target_node_class != NodeClass::Unspecified && match find_node(s, it.target) {
        Some(n) => n.node_class != it.target_node_class,
        None => false,
    } {
        (with_statuses(it, set_if(sr, it.source_status, StatusCode::BadNodeClassInvalid), set_if(tr, it.target_status, StatusCode::BadNodeClassInvalid)), s)
    } else if !structurally_allowed(s, t, it.reference_type, src, tgt) || (it.reference_type == numeric_view(0, HAS_TYPE_DEFINITION)
        && has_reference_from(s, src, numeric_view(0, HAS_TYPE_DEFINITION))) {
        (with_statuses(it, set_if(sr, it.source_status, StatusCode::BadReferenceNotAllowed), set_if(tr, it.target_status, StatusCode::BadReferenceNotAllowed)), s)
    } else if has_reference(s, src, tgt, it.reference_type) {
        (with_statuses(it, set_if(sr, it.source_status, StatusCode::BadDuplicateReferenceNotAllowed), set_if(tr, it.target_status, StatusCode::BadDuplicateReferenceNotAllowed)), s)
    } else {
        (with_statuses(it, set_if(sr, it.source_status, StatusCode::Good), set_if(tr, it.target_status, StatusCode::Good)),
        SpaceView {
            references: s.references.push(ReferenceView { source: src, target: tgt, reference_type: it.reference_type }),
            ..s
        })
    }
}

/// Applying the validated items in order.
pub open spec fn add_references_applied(
    s: SpaceView,
    t: Seq<TypeEntryView>,
    ctx: NodeManagementContext,
    items: Seq<AddReferenceItemView>,
) -> (Seq<AddReferenceItemView>, SpaceView)
    decreases items.len(),
{
    if items.len() == 0 {
        (items, s)
    } else {
        let (done, s1) = add_references_applied(s, t, ctx, items.drop_last());
        let (it, s2) = add_reference_applied(s1, t, ctx, items.last());
        (done.push(it), s2)
    }
}

/// The outcome of AddReferences: every item is validated against the address space as it
/// was; then either the pending ones are refused as unsupported, or the items are
/// applied in order.
pub open spec fn add_references_outcome(
    s: SpaceView,
    t: Seq<TypeEntryView>,
    ctx: NodeManagementContext,
    items: Seq<AddReferenceItemView>,
) -> (Seq<AddReferenceItemView>, SpaceView) {
    let validated = items.map_values(|it: AddReferenceItemView| add_reference_prevalidated(s, t, it));
    if !ctx.clients_can_modify_address_space {
        (validated.map_values(|it: AddReferenceItemView| refused_as_unsupported(it)), s)
    } else {
        add_references_applied(s, t, ctx, validated)
    }
}

fn pending_mark(handled: bool, current: StatusCode, code: StatusCode) -> (r: StatusCode)
    ensures
        r == mark_pending(handled, current, code),
{
    if handled && current == StatusCode::BadNotSupported {
        code
    } else {
        current
    }
}

fn set_when(flag: bool, current: StatusCode, code: StatusCode) -> (r: StatusCode)
    ensures
        r == set_if(flag, current, code),
{
    if flag {
        code
    } else {
        current
    }
}

fn prevalidate_add_reference(address_space: &AddressSpace, type_tree: &TypeTree, item: &mut AddReferenceItem)
    ensures
        final(item)@ == add_reference_prevalidated(address_space@, type_tree@, old(item)@),
{
    let pending = StatusCode::BadNotSupported;
    if item.source_status != pending && item.target_status != pending {
        return;
    }
    let hs = address_space.owns_namespace(item.source_node_id.namespace) && item.source_status == pending;
    let ht = address_space.owns_namespace(item.target_node_id.namespace) && item.target_status == pending;
    if !hs && !ht {
        return;
    }
    let se = address_space.node_exists(&item.source_node_id);
    let te = address_space.node_exists(&item.target_node_id);
    let s1 = set_when(hs && !se, item.source_status, StatusCode::BadSourceNodeIdInvalid);
    let t1 = set_when(ht && !te, item.target_status, StatusCode::BadTargetNodeIdInvalid);
    let (s2, t2) = if !matches!(type_tree.get(&item.reference_type_id), Some(NodeClass::ReferenceType)) {
        (
            pending_mark(hs, s1, StatusCode::BadReferenceTypeIdInvalid),
            pending_mark(ht, t1, StatusCode::BadReferenceTypeIdInvalid),
        )
    } else if se && te {
        let (src, tgt) = if item.is_forward {
            (&item.source_node_id, &item.target_node_id)
        } else {
            (&item.target_node_id, &item.source_node_id)
        };
        if src.equals(tgt) {
            (
                pending_mark(hs, s1, StatusCode::BadInvalidSelfReference),
                pending_mark(ht, t1, StatusCode::BadInvalidSelfReference),
            )
        } else if address_space.has_reference(src, tgt, &item.reference_type_id) {
            (
                pending_mark(hs, s1, StatusCode::BadDuplicateReferenceNotAllowed),
                pending_mark(ht, t1, StatusCode::BadDuplicateReferenceNotAllowed),
            )
        } else {
            (s1, t1)
        }
    } else {
        (s1, t1)
    };
    item.source_status = s2;
    item.target_status = t2;
}

fn apply_add_reference(
    address_space: &mut AddressSpace,
    type_tree: &TypeTree,
    ctx: &NodeManagementContext,
    item: &mut AddReferenceItem,
)
    requires
        old(address_space).wf(),
    ensures
        final(address_space).wf(),
        (final(item)@, final(address_space)@) == add_reference_applied(old(address_space)@, type_tree@, *ctx, old(item)@),
{
    let pending = StatusCode::BadNotSupported;
    let so = address_space.owns_namespace(item.source_node_id.namespace);
    let to = address_space.owns_namespace(item.target_node_id.namespace);
    let hs = so && item.source_status == pending;
    let ht = to && item.target_status == pending;
    if !hs && !ht {
        return;
    }
    let se = address_space.node_exists(&item.source_node_id);
    let te = address_space.node_exists(&item.target_node_id);
    if so && item.source_status == StatusCode::BadSourceNodeIdInvalid {
        item.target_status = set_when(to && item.target_status == pending, item.target_status, StatusCode::BadSourceNodeIdInvalid);
        return;
    }
    if to && item.target_status == StatusCode::BadTargetNodeIdInvalid {
        item.source_status = set_when(so && item.source_status == pending, item.source_status, StatusCode::BadTargetNodeIdInvalid);
        return;
    }
    if se && !authorize_node_management_permission(ctx, address_space, &item.source_node_id, PermissionType::from_bits(PERMISSION_ADD_REFERENCE)) {
        item.source_status = StatusCode::BadUserAccessDenied;
        item.target_status = StatusCode::BadUserAccessDenied;
        return;
    }
    if !matches!(type_tree.get(&item.reference_type_id), Some(NodeClass::ReferenceType))
        || reference_type_is_abstract(address_space, &item.reference_type_id) {
        item.source_status = set_when(hs, item.source_status, StatusCode::BadReferenceTypeIdInvalid);
        item.target_status = set_when(ht, item.target_status, StatusCode::BadReferenceTypeIdInvalid);
        return;
    }
    if (hs && !se) || (ht && !te) {
        item.source_status = set_when(hs && !se, item.source_status, StatusCode::BadSourceNodeIdInvalid);
        item.target_status = set_when(ht && !te, item.target_status, StatusCode::BadTargetNodeIdInvalid);
        return;
    }
    let sr = hs && se;
    let tr = ht && te;
    if !sr && !tr {
        return;
    }
    if item.source_node_id.equals(&item.target_node_id) {
        item.source_status = set_when(sr, item.source_status, StatusCode::BadInvalidSelfReference);
        item.target_status = set_when(tr, item.target_status, StatusCode::BadInvalidSelfReference);
        return;
    }
    if te && !matches!(item.target_node_class, NodeClass::Unspecified) {
        let mismatch = match address_space.find(&item.target_node_id) {
            Some(i) => address_space.node_at(i).node_class != item.target_node_class,
            None => false,
        };
        if mismatch {
            item.source_status = set_when(sr, item.source_status, StatusCode::BadNodeClassInvalid);
            item.target_status = set_when(tr, item.target_status, StatusCode::BadNodeClassInvalid);
            return;
        }
    }
    let (src, tgt) = if item.is_forward {
        (item.source_node_id.duplicate(), item.target_node_id.duplicate())
    } else {
        (item.target_node_id.duplicate(), item.source_node_id.duplicate())
    };
    let has_type_definition = NodeId::numeric(0, HAS_TYPE_DEFINITION);
    let not_allowed = !reference_is_structurally_allowed(address_space, type_tree, &item.reference_type_id, &src, &tgt)
        || (item.reference_type_id.equals(&has_type_definition)
        && address_space.has_reference_from(&src, &has_type_definition));
    if not_allowed {
        item.source_status = set_when(sr, item.source_status, StatusCode::BadReferenceNotAllowed);
        item.target_status = set_when(tr, item.target_status, StatusCode::BadReferenceNotAllowed);
        return;
    }
    if address_space.has_reference(&src, &tgt, &item.reference_type_id) {
        item.source_status = set_when(sr, item.source_status, StatusCode::BadDuplicateReferenceNotAllowed);
        item.target_status = set_when(tr, item.target_status, StatusCode::BadDuplicateReferenceNotAllowed);
        return;
    }
    address_space.insert_reference(&src, &tgt, &item.reference_type_id);
    item.source_status = set_when(sr, item.source_status, StatusCode::Good);
    item.target_status = set_when(tr, item.target_status, StatusCode::Good);
}

/// AddReferences on the items of one node manager (see [`add_references_outcome`]).
pub fn add_references_impl(
    address_space: &mut AddressSpace,
    type_tree: &TypeTree,
    ctx: &NodeManagementContext,
    items: &mut Vec<AddReferenceItem>,
)
    requires
        old(address_space).wf(),
    ensures
        final(address_space).wf(),
        (add_reference_views(final(items)@), final(address_space)@) == add_references_outcome(
            old(address_space)@,
            type_tree@,
            *ctx,
            add_reference_views(old(items)@),
        ),
{
    let ghost s0 = address_space@;
    let ghost items0 = add_reference_views(items@);
    let ghost validated = items0.map_values(|it: AddReferenceItemView| add_reference_prevalidated(s0, type_tree@, it));
    let mut i: usize = 0;
    while i < items.len()
        invariant
            i <= items.len(),
            items.len() == items0.len(),
            address_space@ == s0,
            items0.len() == validated.len(),
            validated == items0.map_values(|it: AddReferenceItemView| add_reference_prevalidated(s0, type_tree@, it)),
            forall|j: int| 0 <= j < i ==> #[trigger] items@[j]@ == validated[j],
            forall|j: int| i <= j < items.len() ==> #[trigger] items@[j]@ == items0[j],
        decreases items.len() - i,
    {
        prevalidate_add_reference(address_space, type_tree, &mut items[i]);
        i = i + 1;
    }
    assert(add_reference_views(items@) =~= validated);
    if !ctx.clients_can_modify_address_space {
        let ghost refused = validated.map_values(|it: AddReferenceItemView| refused_as_unsupported(it));
        let mut k: usize = 0;
        while k < items.len()
            invariant
                k <= items.len(),
                items.len() == validated.len(),
                refused == validated.map_values(|it: AddReferenceItemView| refused_as_unsupported(it)),
                forall|j: int| 0 <= j < k ==> #[trigger] items@[j]@ == refused[j],
                forall|j: int| k <= j < items.len() ==> #[trigger] items@[j]@ == validated[j],
            decreases items.len() - k,
        {
            assert(refused[k as int] == refused_as_unsupported(validated[k as int]));
            assert(items@[k as int]@ == validated[k as int]);
            let ss = items[k].source_status;
            let ts = items[k].target_status;
            assert(ss == validated[k as int].source_status);
            items[k].source_status = set_when(ss == StatusCode::BadNotSupported, ss, StatusCode::BadServiceUnsupported);
            items[k].target_status = set_when(ts == StatusCode::BadNotSupported, ts, StatusCode::BadServiceUnsupported);
            assert(items@[k as int].source_status == set_if(ss == StatusCode::BadNotSupported, ss, StatusCode::BadServiceUnsupported));
            assert(items@[k as int]@.source_status == refused[k as int].source_status);
            assert(items@[k as int]@.target_status == refused[k as int].target_status);
            assert(items@[k as int]@.source == refused[k as int].source);
            assert(items@[k as int]@.target == refused[k as int].target);
            assert(items@[k as int]@ == refused[k as int]);
            k = k + 1;
        }
        assert(add_reference_views(items@) =~= refused);
        return;
    }
    let mut k: usize = 0;
    while k < items.len()
        invariant
            k <= items.len(),
            items.len() == validated.len(),
            address_space.wf(),
            (add_reference_views(items@).take(k as int), address_space@) == add_references_applied(s0, type_tree@, *ctx, validated.take(k as int)),
            forall|j: int| k <= j < items.len() ==> #[trigger] items@[j]@ == validated[j],
        decreases items.len() - k,
    {
        assert(validated.take(k + 1).drop_last() =~= validated.take(k as int));
        let ghost before = add_reference_views(items@).take(k as int);
        apply_add_reference(address_space, type_tree, ctx, &mut items[k]);
        assert(add_reference_views(items@).take(k + 1) =~= before.push(items@[k as int]@));
        k = k + 1;
    }
    assert(validated.take(items.len() as int) =~= validated);
    assert(add_reference_views(items@).take(items.len() as int) =~= add_reference_views(items@));
}


/// One DeleteReferences request item with its per-side results.
#[derive(Debug)]
pub struct DeleteReferenceItem {
    pub source_node_id: NodeId,
    pub target_node_id: NodeId,
    pub reference_type_id: NodeId,
    pub is_forward: bool,
    pub delete_bidirectional: bool,
    pub source_status: StatusCode,
    pub target_status: StatusCode,
}

/// Mathematical view of a [`DeleteReferenceItem`].
pub struct DeleteReferenceItemView {
    pub source: NodeIdView,
    pub target: NodeIdView,
    pub reference_type: NodeIdView,
    pub is_forward: bool,
    pub delete_bidirectional: bool,
    pub source_status: StatusCode,
    pub target_status: StatusCode,
}

impl View for DeleteReferenceItem {
    type V = DeleteReferenceItemView;

    open spec fn view(&self) -> DeleteReferenceItemView {
        DeleteReferenceItemView {
            source: self.source_node_id@,
            target: self.target_node_id@,
            reference_type: self.reference_type_id@,
            is_forward: self.is_forward,
            delete_bidirectional: self.delete_bidirectional,
            source_status: self.source_status,
            target_status: self.target_status,
        }
    }
}

/// The views of a list of items.
pub open spec fn delete_reference_views(items: Seq<DeleteReferenceItem>) -> Seq<DeleteReferenceItemView> {
    items.map_values(|it: DeleteReferenceItem| it@)
}

/// The item with both statuses replaced.
pub open spec fn delete_with_statuses(it: DeleteReferenceItemView, s: StatusCode, t: StatusCode) -> DeleteReferenceItemView {
    DeleteReferenceItemView { source_status: s, target_status: t, ..it }
}

/// The validation of an item against the address space before any change: unknown
/// endpoints and a reference type that is not a ReferenceType.
pub open spec fn delete_reference_prevalidated(
    s: SpaceView,
    t: Seq<TypeEntryView>,
    it: DeleteReferenceItemView,
) -> DeleteReferenceItemView {
    let pending = StatusCode::BadNotSupported;
    let hs = owns_namespace(s, it.source.namespace) && it.source_status == pending;
    let ht = owns_namespace(s, it.target.namespace) && it.target_status == pending;
    if it.source_status != pending && it.target_status != pending {
        it
    } else if !hs && !ht {
        it
    } else {
        let s1 = set_if(hs && !node_exists(s, it.source), it.source_status, StatusCode::BadSourceNodeIdInvalid);
        let t1 = set_if(ht && !node_exists(s, it.target), it.target_status, StatusCode::BadTargetNodeIdInvalid);
        if type_class(t, it.reference_type) != Some(NodeClass::ReferenceType) {
            delete_with_statuses(
                it,
                mark_pending(hs, s1, StatusCode::BadReferenceTypeIdInvalid),
                mark_pending(ht, t1, StatusCode::BadReferenceTypeIdInvalid),
            )
        } else {
            delete_with_statuses(it, s1, t1)
        }
    }
}

/// Pending items refused as unsupported.
pub open spec fn delete_refused_as_unsupported(it: DeleteReferenceItemView) -> DeleteReferenceItemView {
    delete_with_statuses(
        it,
        set_if(it.source_status == StatusCode::BadNotSupported, it.source_status, StatusCode::BadServiceUnsupported),
        set_if(it.target_status == StatusCode::BadNotSupported, it.target_status, StatusCode::BadServiceUnsupported),
    )
}

/// Applying one validated item to `s`: the reference (and, when bidirectional, its
/// reverse) is deleted once the item passes every check.
pub open spec fn delete_reference_applied(
    s: SpaceView,
    t: Seq<TypeEntryView>,
    ctx: NodeManagementContext,
    it: DeleteReferenceItemView,
) -> (DeleteReferenceItemView, SpaceView) {
    let pending = StatusCode::BadNotSupported;
    let so = owns_namespace(s, it.source.namespace);
    let to = owns_namespace(s, it.target.namespace);
    let hs = so && it.source_status == pending;
    let ht = to && it.target_status == pending;
    let se = node_exists(s, it.source);
    let te = node_exists(s, it.target);
    let src = if it.is_forward { it.source } else { it.target };
    let tgt = if it.is_forward { it.target } else { it.source };
    let sr = hs && se;
    let tr = ht && te;
    if !hs && !ht {
        (it, s)
    } else if so && it.source_status == StatusCode::BadSourceNodeIdInvalid {
        (delete_with_statuses(it, it.source_status, set_if(to && it.target_status == pending, it.target_status, StatusCode::BadSourceNodeIdInvalid)), s)
    } else if to && it.target_status == StatusCode::BadTargetNodeIdInvalid {
        (delete_with_statuses(it, set_if(so && it.source_status == pending, it.source_status, StatusCode::BadTargetNodeIdInvalid), it.target_status), s)
    } else if se && !may_manage(ctx, s, it.source, PERMISSION_REMOVE_REFERENCE) {
        (delete_with_statuses(it, StatusCode::BadUserAccessDenied, StatusCode::BadUserAccessDenied), s)
    } else if type_class(t, it.reference_type) != Some(NodeClass::ReferenceType) {
        (delete_with_statuses(it, set_if(hs, it.source_status, StatusCode::BadReferenceTypeIdInvalid), set_if(ht, it.target_status, StatusCode::BadReferenceTypeIdInvalid)), s)
    } else if (hs && !se) || (ht && !te) {
        (delete_with_statuses(
            it,
            set_if(hs && !se, it.source_status, StatusCode::BadSourceNodeIdInvalid),
            set_if(ht && !te, it.target_status, StatusCode::BadTargetNodeIdInvalid),
        ), s)
    } else if !sr && !tr {
        (it, s)
    } else {
        let s1 = delete_reference_spec(s, src, tgt, it.reference_type);
        let s2 = if it.delete_bidirectional {
            delete_reference_spec(s1, tgt, src, it.reference_type)
        } else {
            s1
        };
        (delete_with_statuses(it, set_if(sr, it.source_status, StatusCode::Good), set_if(tr, it.target_status, StatusCode::Good)), s2)
    }
}

/// Applying the validated items in order.
pub open spec fn delete_references_applied(
    s: SpaceView,
    t: Seq<TypeEntryView>,
    ctx: NodeManagementContext,
    items: Seq<DeleteReferenceItemView>,
) -> (Seq<DeleteReferenceItemView>, SpaceView)
    decreases items.len(),
{
    if items.len() == 0 {
        (items, s)
    } else {
        let (done, s1) = delete_references_applied(s, t, ctx, items.drop_last());
        let (it, s2) = delete_reference_applied(s1, t, ctx, items.last());
        (done.push(it), s2)
    }
}

/// The outcome of DeleteReferences, in the shape of [`add_references_outcome`].
pub open spec fn delete_references_outcome(
    s: SpaceView,
    t: Seq<TypeEntryView>,
    ctx: NodeManagementContext,
    items: Seq<DeleteReferenceItemView>,
) -> (Seq<DeleteReferenceItemView>, SpaceView) {
    let validated = items.map_values(|it: DeleteReferenceItemView| delete_reference_prevalidated(s, t, it));
    if !ctx.clients_can_modify_address_space {
        (validated.map_values(|it: DeleteReferenceItemView| delete_refused_as_unsupported(it)), s)
    } else {
        delete_references_applied(s, t, ctx, validated)
    }
}

fn prevalidate_delete_reference(address_space: &AddressSpace, type_tree: &TypeTree, item: &mut DeleteReferenceItem)
    ensures
        final(item)@ == delete_reference_prevalidated(address_space@, type_tree@, old(item)@),
{
    let pending = StatusCode::BadNotSupported;
    if item.source_status != pending && item.target_status != pending {
        return;
    }
    let hs = address_space.owns_namespace(item.source_node_id.namespace) && item.source_status == pending;
    let ht = address_space.owns_namespace(item.target_node_id.namespace) && item.target_status == pending;
    if !hs && !ht {
        return;
    }
    let se = address_space.node_exists(&item.source_node_id);
    let te = address_space.node_exists(&item.target_node_id);
    let s1 = set_when(hs && !se, item.source_status, StatusCode::BadSourceNodeIdInvalid);
    let t1 = set_when(ht && !te, item.target_status, StatusCode::BadTargetNodeIdInvalid);
    if !matches!(type_tree.get(&item.reference_type_id), Some(NodeClass::ReferenceType)) {
        item.source_status = pending_mark(hs, s1, StatusCode::BadReferenceTypeIdInvalid);
        item.target_status = pending_mark(ht, t1, StatusCode::BadReferenceTypeIdInvalid);
    } else {
        item.source_status = s1;
        item.target_status = t1;
    }
}

fn apply_delete_reference(
    address_space: &mut AddressSpace,
    type_tree: &TypeTree,
    ctx: &NodeManagementContext,
    item: &mut DeleteReferenceItem,
)
    requires
        old(address_space).wf(),
    ensures
        final(address_space).wf(),
        (final(item)@, final(address_space)@) == delete_reference_applied(old(address_space)@, type_tree@, *ctx, old(item)@),
{
    let pending = StatusCode::BadNotSupported;
    let so = address_space.owns_namespace(item.source_node_id.namespace);
    let to = address_space.owns_namespace(item.target_node_id.namespace);
    let hs = so && item.source_status == pending;
    let ht = to && item.target_status == pending;
    if !hs && !ht {
        return;
    }
    let se = address_space.node_exists(&item.source_node_id);
    let te = address_space.node_exists(&item.target_node_id);
    if so && item.source_status == StatusCode::BadSourceNodeIdInvalid {
        item.target_status = set_when(to && item.target_status == pending, item.target_status, StatusCode::BadSourceNodeIdInvalid);
        return;
    }
    if to && item.target_status == StatusCode::BadTargetNodeIdInvalid {
        item.source_status = set_when(so && item.source_status == pending, item.source_status, StatusCode::BadTargetNodeIdInvalid);
        return;
    }
    if se && !authorize_node_management_permission(ctx, address_space, &item.source_node_id, PermissionType::from_bits(PERMISSION_REMOVE_REFERENCE)) {
        item.source_status = StatusCode::BadUserAccessDenied;
        item.target_status = StatusCode::BadUserAccessDenied;
        return;
    }
    if !matches!(type_tree.get(&item.reference_type_id), Some(NodeClass::ReferenceType)) {
        item.source_status = set_when(hs, item.source_status, StatusCode::BadReferenceTypeIdInvalid);
        item.target_status = set_when(ht, item.target_status, StatusCode::BadReferenceTypeIdInvalid);
        return;
    }
    if (hs && !se) || (ht && !te) {
        item.source_status = set_when(hs && !se, item.source_status, StatusCode::BadSourceNodeIdInvalid);
        item.target_status = set_when(ht && !te, item.target_status, StatusCode::BadTargetNodeIdInvalid);
        return;
    }
    let sr = hs && se;
    let tr = ht && te;
    if !sr && !tr {
        return;
    }
    let (src, tgt) = if item.is_forward {
        (item.source_node_id.duplicate(), item.target_node_id.duplicate())
    } else {
        (item.target_node_id.duplicate(), item.source_node_id.duplicate())
    };
    address_space.delete_reference(&src, &tgt, &item.reference_type_id);
    if item.delete_bidirectional {
        address_space.delete_reference(&tgt, &src, &item.reference_type_id);
    }
    item.source_status = set_when(sr, item.source_status, StatusCode::Good);
    item.target_status = set_when(tr, item.target_status, StatusCode::Good);
}

/// DeleteReferences on the items of one node manager (see [`delete_references_outcome`]).
pub fn delete_references_impl(
    address_space: &mut AddressSpace,
    type_tree: &TypeTree,
    ctx: &NodeManagementContext,
    items: &mut Vec<DeleteReferenceItem>,
)
    requires
        old(address_space).wf(),
    ensures
        final(address_space).wf(),
        (delete_reference_views(final(items)@), final(address_space)@) == delete_references_outcome(
            old(address_space)@,
            type_tree@,
            *ctx,
            delete_reference_views(old(items)@),
        ),
{
    let ghost s0 = address_space@;
    let ghost items0 = delete_reference_views(items@);
    let ghost validated = items0.map_values(|it: DeleteReferenceItemView| delete_reference_prevalidated(s0, type_tree@, it));
    let mut i: usize = 0;
    while i < items.len()
        invariant
            i <= items.len(),
            items.len() == items0.len(),
            address_space@ == s0,
            items0.len() == validated.len(),
            validated == items0.map_values(|it: DeleteReferenceItemView| delete_reference_prevalidated(s0, type_tree@, it)),
            forall|j: int| 0 <= j < i ==> #[trigger] items@[j]@ == validated[j],
            forall|j: int| i <= j < items.len() ==> #[trigger] items@[j]@ == items0[j],
        decreases items.len() - i,
    {
        prevalidate_delete_reference(address_space, type_tree, &mut items[i]);
        i = i + 1;
    }
    assert(delete_reference_views(items@) =~= validated);
    if !ctx.clients_can_modify_address_space {
        let ghost refused = validated.map_values(|it: DeleteReferenceItemView| delete_refused_as_unsupported(it));
        let mut k: usize = 0;
        while k < items.len()
            invariant
                k <= items.len(),
                items.len() == validated.len(),
                refused == validated.map_values(|it: DeleteReferenceItemView| delete_refused_as_unsupported(it)),
                forall|j: int| 0 <= j < k ==> #[trigger] items@[j]@ == refused[j],
                forall|j: int| k <= j < items.len() ==> #[trigger] items@[j]@ == validated[j],
            decreases items.len() - k,
        {
            assert(refused[k as int] == delete_refused_as_unsupported(validated[k as int]));
            assert(items@[k as int]@ == validated[k as int]);
            let ss = items[k].source_status;
            let ts = items[k].target_status;
            assert(ss == validated[k as int].source_status);
            items[k].source_status = set_when(ss == StatusCode::BadNotSupported, ss, StatusCode::BadServiceUnsupported);
            items[k].target_status = set_when(ts == StatusCode::BadNotSupported, ts, StatusCode::BadServiceUnsupported);
            assert(items@[k as int].source_status == set_if(ss == StatusCode::BadNotSupported, ss, StatusCode::BadServiceUnsupported));
            assert(items@[k as int]@ == refused[k as int]);
            k = k + 1;
        }
        assert(delete_reference_views(items@) =~= refused);
        return;
    }
    let mut k: usize = 0;
    while k < items.len()
        invariant
            k <= items.len(),
            items.len() == validated.len(),
            address_space.wf(),
            (delete_reference_views(items@).take(k as int), address_space@) == delete_references_applied(s0, type_tree@, *ctx, validated.take(k as int)),
            forall|j: int| k <= j < items.len() ==> #[trigger] items@[j]@ == validated[j],
        decreases items.len() - k,
    {
        assert(validated.take(k + 1).drop_last() =~= validated.take(k as int));
        let ghost before = delete_reference_views(items@).take(k as int);
        apply_delete_reference(address_space, type_tree, ctx, &mut items[k]);
        assert(delete_reference_views(items@).take(k + 1) =~= before.push(items@[k as int]@));
        k = k + 1;
    }
    assert(validated.take(items.len() as int) =~= validated);
    assert(delete_reference_views(items@).take(items.len() as int) =~= delete_reference_views(items@));
}

} // verus!
