//! What every node-management request keeps, whatever its items.

use vstd::prelude::*;
use crate::address_space::type_tree::TypeEntryView;
use crate::address_space::{
    refs_without,
    ids_distinct,
    find_node, has_reference, insert_node_spec, lemma_node_index, new_references, node_exists, node_index,
    NodeView, ReferenceView, SpaceView,
};
use crate::node_id::{is_null_view, NodeIdView};
use crate::node_management::crud::{
    add_node_applied, add_node_prevalidated, add_node_refused, add_nodes_applied, add_nodes_outcome, delete_node_applied, delete_nodes_outcome, new_node_entries,
    AddNodeItemView, DeleteNodeItemView,
};
use crate::node_management::references::{
    delete_reference_applied, delete_reference_prevalidated, delete_references_applied, delete_refused_as_unsupported,
    add_reference_applied, add_reference_prevalidated, add_references_applied, add_references_outcome, refused_as_unsupported, delete_references_outcome, AddReferenceItemView,
    DeleteReferenceItemView,
};
use crate::node_management::NodeManagementContext;
use crate::status::StatusCode;

verus! {

/// When clients may not modify the address space, no node-management request changes
/// it, and no item ends `BadNotSupported` (pending) or `Good`.
pub proof fn law_closed_address_space_is_unchanged(
    s: SpaceView,
    t: Seq<TypeEntryView>,
    ctx: NodeManagementContext,
    add_nodes: Seq<AddNodeItemView>,
    drawn: Seq<Option<NodeIdView>>,
    delete_nodes: Seq<DeleteNodeItemView>,
    add_refs: Seq<AddReferenceItemView>,
    delete_refs: Seq<DeleteReferenceItemView>,
)
    requires
        !ctx.clients_can_modify_address_space,
    ensures
        add_nodes_outcome(s, t, ctx, add_nodes, drawn).1 == s,
        delete_nodes_outcome(s, ctx, delete_nodes).1 == s,
        add_references_outcome(s, t, ctx, add_refs).1 == s,
        delete_references_outcome(s, t, ctx, delete_refs).1 == s,
        forall|i: int|
            0 <= i < add_nodes.len() ==> (#[trigger] add_nodes_outcome(s, t, ctx, add_nodes, drawn).0[i]).status
                != StatusCode::BadNotSupported,
        forall|i: int|
            0 <= i < delete_nodes.len() ==> (#[trigger] delete_nodes_outcome(s, ctx, delete_nodes).0[i]).status
                != StatusCode::BadNotSupported,
        forall|i: int|
            0 <= i < add_refs.len() ==> (#[trigger] add_references_outcome(s, t, ctx, add_refs).0[i]).source_status
                != StatusCode::BadNotSupported && add_references_outcome(s, t, ctx, add_refs).0[i].target_status
                != StatusCode::BadNotSupported,
{
}

/// An AddReferences item only ever adds the one reference it asks for, between two
/// distinct nodes, when the address space does not hold it yet; it reports `Good` on a
/// side only when that reference is then held.
pub proof fn law_add_reference_adds_no_duplicate(
    s: SpaceView,
    t: Seq<TypeEntryView>,
    ctx: NodeManagementContext,
    it: AddReferenceItemView,
)
    ensures
        ({
            let (r, s2) = add_reference_applied(s, t, ctx, it);
            let src = if it.is_forward { it.source } else { it.target };
            let tgt = if it.is_forward { it.target } else { it.source };
            let added = ReferenceView { source: src, target: tgt, reference_type: it.reference_type };
            &&& s2.nodes == s.nodes
            &&& s2.namespaces == s.namespaces
            &&& (s2.references == s.references || (s2.references == s.references.push(added)
                && !has_reference(s, src, tgt, it.reference_type) && src != tgt))
            &&& ((r.source_status == StatusCode::Good && it.source_status != StatusCode::Good) || (
            r.target_status == StatusCode::Good && it.target_status != StatusCode::Good)) ==> has_reference(
                s2,
                src,
                tgt,
                it.reference_type,
            )
        }),
{
    let (r, s2) = add_reference_applied(s, t, ctx, it);
    let src = if it.is_forward { it.source } else { it.target };
    let tgt = if it.is_forward { it.target } else { it.source };
    if s2.references.len() == s.references.len() + 1 {
        assert(s2.references[s.references.len() as int] == (ReferenceView {
            source: src,
            target: tgt,
            reference_type: it.reference_type,
        }));
    }
}

proof fn lemma_new_references(id: NodeIdView, e: Seq<(NodeIdView, NodeIdView, bool)>)
    ensures
        new_references(id, e).len() == e.len(),
        forall|j: int|
            0 <= j < e.len() ==> #[trigger] new_references(id, e)[j] == (if e[j].2 {
                ReferenceView { source: id, target: e[j].0, reference_type: e[j].1 }
            } else {
                ReferenceView { source: e[j].0, target: id, reference_type: e[j].1 }
            }),
    decreases e.len(),
{
    if e.len() > 0 {
        lemma_new_references(id, e.drop_last());
        assert forall|j: int| 0 <= j < e.len() - 1 implies e.drop_last()[j] == e[j] by {}
    }
}

/// An AddNodes item that ends `Good` added a node under an id that was unused: the node
/// then has the requested class and browse name and is the target of the requested
/// reference from its parent.
pub proof fn law_added_node_is_found(
    s: SpaceView,
    t: Seq<TypeEntryView>,
    ctx: NodeManagementContext,
    it: AddNodeItemView,
    drawn: Option<NodeIdView>,
)
    ensures
        ({
            let (r, s2) = add_node_applied(s, t, ctx, it, drawn);
            r.status == StatusCode::Good ==> {
                &&& !node_exists(s, r.added)
                &&& find_node(s2, r.added) is Some
                &&& find_node(s2, r.added)->Some_0.node_class == it.node_class
                &&& find_node(s2, r.added)->Some_0.browse_name == it.browse_name
                &&& has_reference(s2, it.parent, r.added, it.reference_type)
            }
        }),
{
    let (r, s2) = add_node_applied(s, t, ctx, it, drawn);
    if r.status == StatusCode::Good && !(it.status != StatusCode::Good && it.status != StatusCode::BadNotSupported) {
        lemma_node_index(s.nodes, r.added);
        lemma_node_index(s2.nodes, r.added);
        assert(s2.nodes[s.nodes.len() as int].id == r.added);
        let entries = new_node_entries(it);
        assert(entries[0] == (it.parent, it.reference_type, false));
        let refs = new_references(r.added, entries);
        lemma_new_references(r.added, entries);
        assert(refs[0] == (ReferenceView { source: it.parent, target: r.added, reference_type: it.reference_type }));
        assert(s2.references[s.references.len() as int] == refs[0]);
    }
}

/// A DeleteNodes item that ends `Good` removed its node.
pub proof fn law_deleted_node_is_gone(s: SpaceView, ctx: NodeManagementContext, it: DeleteNodeItemView)
    requires
        crate::address_space::ids_distinct(s.nodes),
    ensures
        ({
            let (r, s2) = delete_node_applied(s, ctx, it);
            r.status == StatusCode::Good ==> !node_exists(s2, it.node_id)
        }),
{
    let (r, s2) = delete_node_applied(s, ctx, it);
    if r.status == StatusCode::Good && node_exists(s, it.node_id) && !(it.status != StatusCode::Good && it.status
        != StatusCode::BadNotSupported) {
        lemma_node_index(s.nodes, it.node_id);
        let i = node_index(s.nodes, it.node_id)->Some_0;
        lemma_node_index(s2.nodes, it.node_id);
        if let Some(k) = node_index(s2.nodes, it.node_id) {
            let k2 = if k < i { k } else { k + 1 };
            assert(s2.nodes[k] == s.nodes[k2]);
        }
    }
}

/// The reference an AddReferences item asks for, oriented from source to target.
pub open spec fn requested_reference(it: AddReferenceItemView) -> ReferenceView {
    ReferenceView {
        source: if it.is_forward { it.source } else { it.target },
        target: if it.is_forward { it.target } else { it.source },
        reference_type: it.reference_type,
    }
}

/// Whether a side of an AddReferences item ended `Good` that was not `Good` before.
pub open spec fn became_good(before: AddReferenceItemView, after: AddReferenceItemView) -> bool {
    (after.source_status == StatusCode::Good && before.source_status != StatusCode::Good) || (after.target_status
        == StatusCode::Good && before.target_status != StatusCode::Good)
}

/// Whether `after` holds the references of `before` in place and appends only
/// references that it did not hold yet, each once.
pub open spec fn only_appends_new_references(before: Seq<ReferenceView>, after: Seq<ReferenceView>) -> bool {
    &&& before.len() <= after.len()
    &&& after.subrange(0, before.len() as int) == before
    &&& forall|k: int, j: int|
        before.len() <= k < after.len() && 0 <= j < k ==> #[trigger] after[j] != #[trigger] after[k]
}

proof fn lemma_add_references_applied(
    s: SpaceView,
    t: Seq<TypeEntryView>,
    ctx: NodeManagementContext,
    items: Seq<AddReferenceItemView>,
)
    ensures
        ({
            let (done, s2) = add_references_applied(s, t, ctx, items);
            &&& done.len() == items.len()
            &&& s2.nodes == s.nodes
            &&& s2.namespaces == s.namespaces
            &&& only_appends_new_references(s.references, s2.references)
            &&& forall|i: int|
                0 <= i < items.len() && #[trigger] became_good(items[i], done[i]) ==> {
                    let r = requested_reference(items[i]);
                    has_reference(s2, r.source, r.target, r.reference_type)
                }
        }),
    decreases items.len(),
{
    if items.len() == 0 {
        assert(s.references.subrange(0, s.references.len() as int) =~= s.references);
    } else {
        let init = items.drop_last();
        lemma_add_references_applied(s, t, ctx, init);
        let (done1, s1) = add_references_applied(s, t, ctx, init);
        let last = items.last();
        law_add_reference_adds_no_duplicate(s1, t, ctx, last);
        let (it, s2) = add_reference_applied(s1, t, ctx, last);
        let done = done1.push(it);
        let req = requested_reference(last);
        assert(s1.references.subrange(0, s.references.len() as int) == s.references);
        if s2.references != s1.references {
            assert(s2.references == s1.references.push(req));
            assert forall|j: int| 0 <= j < s1.references.len() implies s1.references[j] != req by {
                if s1.references[j] == req {
                    assert(has_reference(s1, req.source, req.target, req.reference_type));
                }
            }
            assert(s2.references.subrange(0, s.references.len() as int) =~= s.references);
            assert forall|k: int, j: int|
                s.references.len() <= k < s2.references.len() && 0 <= j < k implies #[trigger] s2.references[j]
                != #[trigger] s2.references[k] by {
                if k < s1.references.len() {
                    assert(s1.references[j] != s1.references[k]);
                }
            }
        }
        assert forall|i: int|
            0 <= i < items.len() && #[trigger] became_good(items[i], done[i]) implies {
                let r = requested_reference(items[i]);
                has_reference(s2, r.source, r.target, r.reference_type)
            } by {
            let r = requested_reference(items[i]);
            if i < init.len() {
                assert(items[i] == init[i]);
                assert(done[i] == done1[i]);
                assert(became_good(init[i], done1[i]));
                assert(has_reference(s1, r.source, r.target, r.reference_type));
                let w = choose|w: int| 0 <= w < s1.references.len() && #[trigger] s1.references[w] == (ReferenceView {
                    source: r.source,
                    target: r.target,
                    reference_type: r.reference_type,
                });
                assert(s2.references[w] == s1.references[w]);
            } else {
                assert(items[i] == last);
                assert(done[i] == it);
            }
        }
    }
}

proof fn lemma_validation_makes_nothing_good(s: SpaceView, t: Seq<TypeEntryView>, it: AddReferenceItemView)
    ensures
        ({
            let v = add_reference_prevalidated(s, t, it);
            &&& it.source_status != StatusCode::Good ==> v.source_status != StatusCode::Good
            &&& it.target_status != StatusCode::Good ==> v.target_status != StatusCode::Good
            &&& requested_reference(v) == requested_reference(it)
            &&& refused_as_unsupported(v).source_status != StatusCode::Good || v.source_status == StatusCode::Good
            &&& refused_as_unsupported(v).target_status != StatusCode::Good || v.target_status == StatusCode::Good
        }),
{
}

/// AddReferences removes nothing and adds only references: the nodes and namespaces
/// stay, the references held before stay in place, every added reference was not held
/// before and is added once, and each item side that ends `Good` has its requested
/// reference held afterwards.
pub proof fn law_add_references_only_adds(
    s: SpaceView,
    t: Seq<TypeEntryView>,
    ctx: NodeManagementContext,
    items: Seq<AddReferenceItemView>,
)
    ensures
        ({
            let (out, s2) = add_references_outcome(s, t, ctx, items);
            &&& out.len() == items.len()
            &&& s2.nodes == s.nodes
            &&& s2.namespaces == s.namespaces
            &&& only_appends_new_references(s.references, s2.references)
            &&& forall|i: int|
                0 <= i < items.len() && #[trigger] became_good(items[i], out[i]) ==> {
                    let r = requested_reference(items[i]);
                    has_reference(s2, r.source, r.target, r.reference_type)
                }
        }),
{
    let validated = items.map_values(|it: AddReferenceItemView| add_reference_prevalidated(s, t, it));
    let (out, s2) = add_references_outcome(s, t, ctx, items);
    assert(s.references.subrange(0, s.references.len() as int) =~= s.references);
    if ctx.clients_can_modify_address_space {
        lemma_add_references_applied(s, t, ctx, validated);
        assert forall|i: int|
            0 <= i < items.len() && #[trigger] became_good(items[i], out[i]) implies {
                let r = requested_reference(items[i]);
                has_reference(s2, r.source, r.target, r.reference_type)
            } by {
            lemma_validation_makes_nothing_good(s, t, items[i]);
            assert(validated[i] == add_reference_prevalidated(s, t, items[i]));
            assert(became_good(validated[i], out[i]));
        }
    } else {
        assert forall|i: int| 0 <= i < items.len() implies !#[trigger] became_good(items[i], out[i]) by {
            lemma_validation_makes_nothing_good(s, t, items[i]);
            assert(validated[i] == add_reference_prevalidated(s, t, items[i]));
            assert(out[i] == refused_as_unsupported(validated[i]));
        }
    }
}

/// Whether `after` keeps the nodes of `before` in place and only appends nodes.
pub open spec fn only_appends_nodes(before: Seq<NodeView>, after: Seq<NodeView>) -> bool {
    before.len() <= after.len() && after.subrange(0, before.len() as int) == before
}

/// Whether `after` keeps the references of `before` in place and only appends.
pub open spec fn only_appends_references(before: Seq<ReferenceView>, after: Seq<ReferenceView>) -> bool {
    before.len() <= after.len() && after.subrange(0, before.len() as int) == before
}

proof fn lemma_add_node_applied_appends(
    s: SpaceView,
    t: Seq<TypeEntryView>,
    ctx: NodeManagementContext,
    it: AddNodeItemView,
    drawn: Option<NodeIdView>,
)
    ensures
        ({
            let (r, s2) = add_node_applied(s, t, ctx, it, drawn);
            &&& s2.namespaces == s.namespaces
            &&& (s2 == s || (s2.nodes == s.nodes.push(s2.nodes.last()) && !node_exists(s, s2.nodes.last().id)
                && s2.nodes.last().id == r.added && r.status == StatusCode::Good))
            &&& only_appends_references(s.references, s2.references)
            &&& r.status == StatusCode::Good ==> s2 != s
        }),
{
    let (r, s2) = add_node_applied(s, t, ctx, it, drawn);
    law_added_node_is_found(s, t, ctx, it, drawn);
    assert(s.references.subrange(0, s.references.len() as int) =~= s.references);
    if r.status == StatusCode::Good {
        assert(s2.references.subrange(0, s.references.len() as int) =~= s.references);
        lemma_node_index(s2.nodes, r.added);
        lemma_node_index(s.nodes, r.added);
        let k = node_index(s2.nodes, r.added)->Some_0;
        if k < s.nodes.len() {
            assert(s2.nodes[k] == s.nodes[k]);
        }
        assert(s2.nodes.len() == s.nodes.len() + 1);
        assert(s2.nodes != s.nodes);
    }
}

proof fn lemma_add_nodes_applied(
    s: SpaceView,
    t: Seq<TypeEntryView>,
    ctx: NodeManagementContext,
    items: Seq<AddNodeItemView>,
    drawn: Seq<Option<NodeIdView>>,
)
    ensures
        ({
            let (done, s2) = add_nodes_applied(s, t, ctx, items, drawn);
            &&& done.len() == items.len()
            &&& s2.namespaces == s.namespaces
            &&& only_appends_nodes(s.nodes, s2.nodes)
            &&& only_appends_references(s.references, s2.references)
            &&& ids_distinct(s.nodes) ==> ids_distinct(s2.nodes)
            &&& forall|i: int|
                0 <= i < items.len() && (#[trigger] done[i]).status == StatusCode::Good ==> node_exists(s2, done[i].added)
        }),
    decreases items.len(),
{
    assert(s.nodes.subrange(0, s.nodes.len() as int) =~= s.nodes);
    assert(s.references.subrange(0, s.references.len() as int) =~= s.references);
    if items.len() > 0 {
        let init = items.drop_last();
        lemma_add_nodes_applied(s, t, ctx, init, drawn);
        let (done1, s1) = add_nodes_applied(s, t, ctx, init, drawn);
        let last = items.last();
        lemma_add_node_applied_appends(s1, t, ctx, last, drawn[items.len() - 1]);
        let (it, s2) = add_node_applied(s1, t, ctx, last, drawn[items.len() - 1]);
        let done = done1.push(it);
        if s2 != s1 {
            let n = s2.nodes.last();
            assert(s2.nodes.subrange(0, s.nodes.len() as int) =~= s1.nodes.subrange(0, s.nodes.len() as int));
            assert(s2.references.subrange(0, s.references.len() as int) =~= s1.references.subrange(
                0,
                s.references.len() as int,
            ));
            if ids_distinct(s.nodes) {
                assert forall|a: int, b: int|
                    0 <= a < s2.nodes.len() && 0 <= b < s2.nodes.len() && a != b implies #[trigger] s2.nodes[a].id
                    != #[trigger] s2.nodes[b].id by {
                    if a == s1.nodes.len() || b == s1.nodes.len() {
                        let o = if a == s1.nodes.len() { b } else { a };
                        lemma_node_index(s1.nodes, n.id);
                        assert(s2.nodes[o] == s1.nodes[o]);
                    } else {
                        assert(s2.nodes[a] == s1.nodes[a]);
                        assert(s2.nodes[b] == s1.nodes[b]);
                    }
                }
            }
        }
        assert forall|i: int|
            0 <= i < items.len() && (#[trigger] done[i]).status == StatusCode::Good implies node_exists(s2, done[i].added) by {
            if i < init.len() {
                assert(done[i] == done1[i]);
                assert(node_exists(s1, done1[i].added));
                if s2 != s1 {
                    lemma_node_index(s1.nodes, done1[i].added);
                    let k = node_index(s1.nodes, done1[i].added)->Some_0;
                    assert(s2.nodes[k] == s1.nodes[k]);
                    lemma_node_index(s2.nodes, done1[i].added);
                }
            } else {
                assert(done[i] == it);
                lemma_node_index(s2.nodes, it.added);
                assert(s2.nodes[s2.nodes.len() - 1].id == it.added);
            }
        }
    }
}

/// AddNodes removes nothing: the namespaces stay, the nodes and references held before
/// stay in place and the request only appends to them; node ids stay distinct, and an
/// item that ends `Good` (and was not `Good` on entry) names a node that exists
/// afterwards.
pub proof fn law_add_nodes_only_adds(
    s: SpaceView,
    t: Seq<TypeEntryView>,
    ctx: NodeManagementContext,
    items: Seq<AddNodeItemView>,
    drawn: Seq<Option<NodeIdView>>,
)
    ensures
        ({
            let (out, s2) = add_nodes_outcome(s, t, ctx, items, drawn);
            &&& out.len() == items.len()
            &&& s2.namespaces == s.namespaces
            &&& only_appends_nodes(s.nodes, s2.nodes)
            &&& only_appends_references(s.references, s2.references)
            &&& ids_distinct(s.nodes) ==> ids_distinct(s2.nodes)
            &&& forall|i: int|
                0 <= i < items.len() && items[i].status != StatusCode::Good && (#[trigger] out[i]).status
                    == StatusCode::Good ==> node_exists(s2, out[i].added)
        }),
{
    let validated = items.map_values(|it: AddNodeItemView| add_node_prevalidated(s, t, items, it));
    assert(s.nodes.subrange(0, s.nodes.len() as int) =~= s.nodes);
    assert(s.references.subrange(0, s.references.len() as int) =~= s.references);
    if ctx.clients_can_modify_address_space {
        lemma_add_nodes_applied(s, t, ctx, validated, drawn);
    } else {
        let (out, s2) = add_nodes_outcome(s, t, ctx, items, drawn);
        assert forall|i: int| 0 <= i < items.len() && items[i].status != StatusCode::Good implies (#[trigger] out[i]).status
            != StatusCode::Good by {
            assert(validated[i] == add_node_prevalidated(s, t, items, items[i]));
            assert(out[i] == add_node_refused(validated[i]));
        }
    }
}

/// `refs_without` keeps exactly the references that the predicate does not match.
proof fn lemma_refs_without(refs: Seq<ReferenceView>, pred: spec_fn(ReferenceView) -> bool)
    ensures
        forall|x: ReferenceView| #[trigger] refs_without(refs, pred).contains(x) <==> refs.contains(x) && !pred(x),
    decreases refs.len(),
{
    if refs.len() > 0 {
        let init = refs.drop_last();
        let last = refs.last();
        lemma_refs_without(init, pred);
        let w0 = refs_without(init, pred);
        let w = refs_without(refs, pred);
        assert(w == if pred(last) { w0 } else { w0.push(last) });
        assert forall|x: ReferenceView| #[trigger] w.contains(x) implies refs.contains(x) && !pred(x) by {
            let j = choose|j: int| 0 <= j < w.len() && w[j] == x;
            if j < w0.len() {
                assert(w0[j] == x);
                assert(w0.contains(x));
                assert(init.contains(x));
                let k = choose|k: int| 0 <= k < init.len() && init[k] == x;
                assert(refs[k] == x);
            } else {
                assert(x == last);
                assert(refs[refs.len() - 1] == x);
            }
        }
        assert forall|x: ReferenceView| refs.contains(x) && !pred(x) implies #[trigger] w.contains(x) by {
            let k = choose|k: int| 0 <= k < refs.len() && refs[k] == x;
            if k < init.len() {
                assert(init[k] == x);
                assert(init.contains(x));
                assert(w0.contains(x));
                let j = choose|j: int| 0 <= j < w0.len() && w0[j] == x;
                assert(w[j] == x);
            } else {
                assert(x == last);
                assert(w[w.len() - 1] == x);
            }
        }
    }
}

/// The reference a DeleteReferences item asks to remove, oriented from source to target.
pub open spec fn reference_to_delete(it: DeleteReferenceItemView) -> ReferenceView {
    ReferenceView {
        source: if it.is_forward { it.source } else { it.target },
        target: if it.is_forward { it.target } else { it.source },
        reference_type: it.reference_type,
    }
}

/// The same reference in the opposite direction.
pub open spec fn reversed(r: ReferenceView) -> ReferenceView {
    ReferenceView { source: r.target, target: r.source, reference_type: r.reference_type }
}

/// Whether a side of a DeleteReferences item ended `Good` that was not `Good` before.
pub open spec fn delete_became_good(before: DeleteReferenceItemView, after: DeleteReferenceItemView) -> bool {
    (after.source_status == StatusCode::Good && before.source_status != StatusCode::Good) || (after.target_status
        == StatusCode::Good && before.target_status != StatusCode::Good)
}

/// Whether the reference, and its reverse for a bidirectional item, are gone from `refs`.
pub open spec fn deleted_from(it: DeleteReferenceItemView, refs: Seq<ReferenceView>) -> bool {
    &&& !refs.contains(reference_to_delete(it))
    &&& it.delete_bidirectional ==> !refs.contains(reversed(reference_to_delete(it)))
}

proof fn lemma_delete_reference_applied(
    s: SpaceView,
    t: Seq<TypeEntryView>,
    ctx: NodeManagementContext,
    it: DeleteReferenceItemView,
)
    ensures
        ({
            let (r, s2) = delete_reference_applied(s, t, ctx, it);
            &&& s2.nodes == s.nodes
            &&& s2.namespaces == s.namespaces
            &&& forall|x: ReferenceView| #[trigger] s2.references.contains(x) ==> s.references.contains(x)
            &&& delete_became_good(it, r) ==> deleted_from(it, s2.references)
        }),
{
    let req = reference_to_delete(it);
    let p1 = |x: ReferenceView| x == (ReferenceView { source: req.source, target: req.target, reference_type: req.reference_type });
    lemma_refs_without(s.references, p1);
    let r1 = refs_without(s.references, p1);
    let p2 = |x: ReferenceView| x == (ReferenceView { source: req.target, target: req.source, reference_type: req.reference_type });
    lemma_refs_without(r1, p2);
}

/// DeleteReferences removes only references: the nodes and namespaces stay, every
/// reference held afterwards was held before, and for each item side that ends `Good`
/// the reference (and its reverse, for a bidirectional item) is no longer held.
pub proof fn law_delete_references_only_removes(
    s: SpaceView,
    t: Seq<TypeEntryView>,
    ctx: NodeManagementContext,
    items: Seq<DeleteReferenceItemView>,
)
    ensures
        ({
            let (out, s2) = delete_references_outcome(s, t, ctx, items);
            &&& out.len() == items.len()
            &&& s2.nodes == s.nodes
            &&& s2.namespaces == s.namespaces
            &&& forall|x: ReferenceView| #[trigger] s2.references.contains(x) ==> s.references.contains(x)
            &&& forall|i: int|
                0 <= i < items.len() && #[trigger] delete_became_good(items[i], out[i]) ==> deleted_from(items[i], s2.references)
        }),
{
    let validated = items.map_values(|it: DeleteReferenceItemView| delete_reference_prevalidated(s, t, it));
    let (out, s2) = delete_references_outcome(s, t, ctx, items);
    if ctx.clients_can_modify_address_space {
        lemma_delete_references_applied(s, t, ctx, validated);
        assert forall|i: int|
            0 <= i < items.len() && #[trigger] delete_became_good(items[i], out[i]) implies deleted_from(items[i], s2.references) by {
            assert(validated[i] == delete_reference_prevalidated(s, t, items[i]));
            assert(delete_became_good(validated[i], out[i]));
            assert(reference_to_delete(validated[i]) == reference_to_delete(items[i]));
        }
    } else {
        assert forall|i: int| 0 <= i < items.len() implies !#[trigger] delete_became_good(items[i], out[i]) by {
            assert(validated[i] == delete_reference_prevalidated(s, t, items[i]));
            assert(out[i] == delete_refused_as_unsupported(validated[i]));
        }
    }
}

proof fn lemma_delete_references_applied(
    s: SpaceView,
    t: Seq<TypeEntryView>,
    ctx: NodeManagementContext,
    items: Seq<DeleteReferenceItemView>,
)
    ensures
        ({
            let (done, s2) = delete_references_applied(s, t, ctx, items);
            &&& done.len() == items.len()
            &&& s2.nodes == s.nodes
            &&& s2.namespaces == s.namespaces
            &&& forall|x: ReferenceView| #[trigger] s2.references.contains(x) ==> s.references.contains(x)
            &&& forall|i: int|
                0 <= i < items.len() && #[trigger] delete_became_good(items[i], done[i]) ==> deleted_from(items[i], s2.references)
        }),
    decreases items.len(),
{
    if items.len() > 0 {
        let init = items.drop_last();
        lemma_delete_references_applied(s, t, ctx, init);
        let (done1, s1) = delete_references_applied(s, t, ctx, init);
        lemma_delete_reference_applied(s1, t, ctx, items.last());
        let (it, s2) = delete_reference_applied(s1, t, ctx, items.last());
        let done = done1.push(it);
        assert forall|i: int|
            0 <= i < items.len() && #[trigger] delete_became_good(items[i], done[i]) implies deleted_from(items[i], s2.references) by {
            if i < init.len() {
                assert(items[i] == init[i]);
                assert(done[i] == done1[i]);
                assert(delete_became_good(init[i], done1[i]));
            } else {
                assert(done[i] == it);
            }
        }
    }
}

} // verus!
