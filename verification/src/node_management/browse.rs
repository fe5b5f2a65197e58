//! The view services over the in-memory address space: browsing the references of a
//! node, and following relative browse paths to the node ids they end at.

use vstd::prelude::*;
use crate::address_space::references::{
    filter_view, found_references, found_views, BrowseDirection, FoundReference, FoundReferenceView,
};
use crate::address_space::type_tree::{TypeEntryView, TypeTree};
use crate::address_space::{
    find_node, node_authorized, AddressSpace, NodeClass, NodeView, QualifiedName,
    QualifiedNameView, SpaceView,
};
use crate::node_id::{contains_id, id_views, ids_contain, is_null_view, numeric_view, NodeId, NodeIdView};
use crate::node_management::types::{is_standard_reference_type, is_standard_reference_type_id, HAS_TYPE_DEFINITION};
use crate::permissions::{PermissionType, PERMISSION_BROWSE, RESTRICTION_APPLY_TO_BROWSE};
use crate::rbac::decision::{access_restrictions_ok_ctx, restrictions_satisfied, AccessContext, NodeRbacAttributes};

verus! {

/// Whether a qualified name is the null name (namespace 0, no text).
pub open spec fn is_null_name(q: QualifiedNameView) -> bool {
    q.namespace_index == 0 && q.name.len() == 0
}

/// Whether `known` holds the namespace index `ns`.
pub open spec fn namespace_known(known: Seq<u16>, ns: u16) -> bool {
    exists|i: int| 0 <= i < known.len() && known[i] == ns
}

fn is_known_namespace(known: &[u16], ns: u16) -> (r: bool)
    ensures
        r == namespace_known(known@, ns),
{
    let mut i: usize = 0;
    while i < known.len()
        invariant
            i <= known.len(),
            forall|j: int| 0 <= j < i ==> known@[j] != ns,
        decreases known.len() - i,
    {
        if known[i] == ns {
            return true;
        }
        i = i + 1;
    }
    false
}

// ---------------------------------------------------------------------------------------
// Browse

/// A reference offered by Browse: the reference's type and direction, and the target
/// node's id, browse name, class and (when asked for) type definition.
#[derive(Debug)]
pub struct BrowseReference {
    pub reference_type: NodeId,
    pub is_forward: bool,
    pub target: NodeId,
    pub browse_name: QualifiedName,
    pub node_class: NodeClass,
    pub type_definition: NodeId,
}

/// Mathematical view of a [`BrowseReference`].
pub struct BrowseReferenceView {
    pub reference_type: NodeIdView,
    pub is_forward: bool,
    pub target: NodeIdView,
    pub browse_name: QualifiedNameView,
    pub node_class: NodeClass,
    pub type_definition: NodeIdView,
}

impl View for BrowseReference {
    type V = BrowseReferenceView;

    open spec fn view(&self) -> BrowseReferenceView {
        BrowseReferenceView {
            reference_type: self.reference_type@,
            is_forward: self.is_forward,
            target: self.target@,
            browse_name: self.browse_name@,
            node_class: self.node_class,
            type_definition: self.type_definition@,
        }
    }
}

/// The views of a list of browse references.
pub open spec fn browse_reference_views(v: Seq<BrowseReference>) -> Seq<BrowseReferenceView> {
    v.map_values(|b: BrowseReference| b@)
}

/// What Browse found from one node: the references it may report, and the references
/// into namespaces of other node managers, which those resolve.
#[derive(Debug)]
pub struct BrowseResult {
    pub references: Vec<BrowseReference>,
    pub external: Vec<FoundReference>,
}

/// The reference-type filter of a Browse request: only a standard reference type
/// filters; a null or other id browses every reference.
pub open spec fn browse_filter(reference_type_id: NodeIdView, include_subtypes: bool) -> Option<(NodeIdView, bool)> {
    if is_standard_reference_type(reference_type_id) {
        Some((reference_type_id, include_subtypes))
    } else {
        None
    }
}

/// Whether the session may see `n` in a Browse: it holds Browse on it, and when the
/// node's own restrictions apply to Browse they are met.
pub open spec fn can_browse(ctx: AccessContext, n: NodeView) -> bool {
    &&& node_authorized(ctx, n, PERMISSION_BROWSE)
    &&& match n.access_restrictions {
        Some(bits) => (bits & RESTRICTION_APPLY_TO_BROWSE == RESTRICTION_APPLY_TO_BROWSE) ==> (
        !ctx.enforce_role_based_access || restrictions_satisfied(Some(bits), ctx.security_mode)),
        None => true,
    }
}

/// The type definition reported for `n`: for Objects and Variables, when asked for, the
/// target of its first HasTypeDefinition reference; else the null id.
pub open spec fn type_definition_of(s: SpaceView, t: Seq<TypeEntryView>, n: NodeView, wanted: bool) -> NodeIdView {
    let found = found_references(
        s,
        t,
        n.id,
        Some((numeric_view(0, HAS_TYPE_DEFINITION), false)),
        BrowseDirection::Forward,
    );
    if wanted && (n.node_class == NodeClass::Object || n.node_class == NodeClass::Variable) && found.len() > 0 {
        found[0].other
    } else {
        numeric_view(0, 0)
    }
}

/// The reports of the first `n` found references: a reference with a null target is
/// dropped; one whose target is missing is external when its namespace belongs to no
/// node manager here, else dropped; one whose target the session may not browse is
/// dropped; the others are reported with the target's attributes.
pub open spec fn browse_reports(
    s: SpaceView,
    t: Seq<TypeEntryView>,
    ctx: AccessContext,
    known: Seq<u16>,
    want_type_definition: bool,
    found: Seq<FoundReferenceView>,
    n: nat,
) -> (Seq<BrowseReferenceView>, Seq<FoundReferenceView>)
    decreases n,
{
    if n == 0 {
        (Seq::empty(), Seq::empty())
    } else {
        let (refs, ext) = browse_reports(s, t, ctx, known, want_type_definition, found, (n - 1) as nat);
        let f = found[n - 1];
        if is_null_view(f.other) {
            (refs, ext)
        } else {
            match find_node(s, f.other) {
                None => if namespace_known(known, f.other.namespace) {
                    (refs, ext)
                } else {
                    (refs, ext.push(f))
                },
                Some(target) => if can_browse(ctx, target) {
                    (
                        refs.push(
                            BrowseReferenceView {
                                reference_type: f.reference_type,
                                is_forward: f.is_forward,
                                target: f.other,
                                browse_name: target.browse_name,
                                node_class: target.node_class,
                                type_definition: type_definition_of(s, t, target, want_type_definition),
                            },
                        ),
                        ext,
                    )
                } else {
                    (refs, ext)
                },
            }
        }
    }
}

/// What Browse finds from `node` (see [`browse_reports`]).
pub open spec fn browse_spec(
    s: SpaceView,
    t: Seq<TypeEntryView>,
    ctx: AccessContext,
    known: Seq<u16>,
    node: NodeIdView,
    reference_type_id: NodeIdView,
    include_subtypes: bool,
    direction: BrowseDirection,
    want_type_definition: bool,
) -> (Seq<BrowseReferenceView>, Seq<FoundReferenceView>) {
    let found = found_references(s, t, node, browse_filter(reference_type_id, include_subtypes), direction);
    browse_reports(s, t, ctx, known, want_type_definition, found, found.len())
}

fn browse_allowed(ctx: &AccessContext, address_space: &AddressSpace, i: usize) -> (r: bool)
    requires
        i < address_space@.nodes.len(),
    ensures
        r == can_browse(*ctx, address_space@.nodes[i as int]),
{
    let target = address_space.node_at(i);
    if !target.authorize(ctx, PermissionType::from_bits(PERMISSION_BROWSE)) {
        return false;
    }
    match target.access_restrictions {
        Some(restrictions) => {
            if restrictions.contains(RESTRICTION_APPLY_TO_BROWSE) {
                let attributes = NodeRbacAttributes {
                    node_id: target.node_id.duplicate(),
                    role_permissions: None,
                    access_restrictions: Some(restrictions),
                };
                access_restrictions_ok_ctx(ctx, &attributes).is_ok()
            } else {
                true
            }
        },
        None => true,
    }
}

fn type_definition(address_space: &AddressSpace, type_tree: &TypeTree, i: usize, wanted: bool) -> (r: NodeId)
    requires
        i < address_space@.nodes.len(),
    ensures
        r@ == type_definition_of(address_space@, type_tree@, address_space@.nodes[i as int], wanted),
{
    let target = address_space.node_at(i);
    if !wanted || !(matches!(target.node_class, NodeClass::Object) || matches!(target.node_class, NodeClass::Variable)) {
        return NodeId::null();
    }
    let filter = Some((NodeId::numeric(0, HAS_TYPE_DEFINITION), false));
    let found = address_space.find_references(type_tree, &target.node_id, &filter, BrowseDirection::Forward);
    if found.len() > 0 {
        assert(found_views(found@)[0] == found@[0]@);
        found[0].other.duplicate()
    } else {
        NodeId::null()
    }
}

/// Browses the references of `node` (see [`browse_spec`]); `known_namespaces` are the
/// namespaces served by node managers of this server.
pub fn browse_node(
    address_space: &AddressSpace,
    type_tree: &TypeTree,
    context: &AccessContext,
    known_namespaces: &[u16],
    node: &NodeId,
    reference_type_id: &NodeId,
    include_subtypes: bool,
    direction: BrowseDirection,
    want_type_definition: bool,
) -> (r: BrowseResult)
    ensures
        (browse_reference_views(r.references@), found_views(r.external@)) == browse_spec(
            address_space@,
            type_tree@,
            *context,
            known_namespaces@,
            node@,
            reference_type_id@,
            include_subtypes,
            direction,
            want_type_definition,
        ),
{
    let filter = if is_standard_reference_type_id(reference_type_id) {
        Some((reference_type_id.duplicate(), include_subtypes))
    } else {
        None
    };
    assert(filter_view(filter) == browse_filter(reference_type_id@, include_subtypes));
    let found = address_space.find_references(type_tree, node, &filter, direction);
    let ghost fv = found_views(found@);
    let ghost s = address_space@;
    let ghost t = type_tree@;
    let mut references: Vec<BrowseReference> = Vec::new();
    let mut external: Vec<FoundReference> = Vec::new();
    let mut i: usize = 0;
    while i < found.len()
        invariant
            i <= found.len(),
            fv == found_views(found@),
            s == address_space@,
            t == type_tree@,
            (browse_reference_views(references@), found_views(external@)) == browse_reports(
                s,
                t,
                *context,
                known_namespaces@,
                want_type_definition,
                fv,
                i as nat,
            ),
        decreases found.len() - i,
    {
        let f = &found[i];
        assert(fv[i as int] == f@);
        let ghost before_refs = browse_reference_views(references@);
        let ghost before_ext = found_views(external@);
        if !f.other.is_null() {
            match address_space.find(&f.other) {
                None => {
                    if !is_known_namespace(known_namespaces, f.other.namespace) {
                        let e = FoundReference {
                            reference_type: f.reference_type.duplicate(),
                            other: f.other.duplicate(),
                            is_forward: f.is_forward,
                        };
                        let ghost ev = e@;
                        external.push(e);
                        assert(found_views(external@) =~= before_ext.push(ev));
                    }
                },
                Some(k) => {
                    if browse_allowed(context, address_space, k) {
                        let target = address_space.node_at(k);
                        let b = BrowseReference {
                            reference_type: f.reference_type.duplicate(),
                            is_forward: f.is_forward,
                            target: f.other.duplicate(),
                            browse_name: target.browse_name.duplicate(),
                            node_class: target.node_class,
                            type_definition: type_definition(address_space, type_tree, k, want_type_definition),
                        };
                        let ghost bv = b@;
                        references.push(b);
                        assert(browse_reference_views(references@) =~= before_refs.push(bv));
                    }
                },
            }
        }
        i = i + 1;
    }
    BrowseResult { references, external }
}

// ---------------------------------------------------------------------------------------
// TranslateBrowsePathsToNodeIds

/// One element of a relative browse path: the references to follow (a null type follows
/// every one), their direction, and the browse name of the node to reach (the null name
/// accepts any).
#[derive(Debug)]
pub struct RelativePathElement {
    pub reference_type_id: NodeId,
    pub is_inverse: bool,
    pub include_subtypes: bool,
    pub target_name: QualifiedName,
}

/// Mathematical view of a [`RelativePathElement`].
pub struct RelativePathElementView {
    pub reference_type_id: NodeIdView,
    pub is_inverse: bool,
    pub include_subtypes: bool,
    pub target_name: QualifiedNameView,
}

impl View for RelativePathElement {
    type V = RelativePathElementView;

    open spec fn view(&self) -> RelativePathElementView {
        RelativePathElementView {
            reference_type_id: self.reference_type_id@,
            is_inverse: self.is_inverse,
            include_subtypes: self.include_subtypes,
            target_name: self.target_name@,
        }
    }
}

/// The views of a relative path.
pub open spec fn path_views(v: Seq<RelativePathElement>) -> Seq<RelativePathElementView> {
    v.map_values(|e: RelativePathElement| e@)
}

/// A node a browse path reaches: its id, the number of path elements followed to reach
/// it, and, when the node lies in another node manager's namespace, the browse name that
/// node still has to match.
#[derive(Debug)]
pub struct BrowsePathTarget {
    pub node_id: NodeId,
    pub depth: usize,
    pub remaining_name: Option<QualifiedName>,
}

/// Mathematical view of a [`BrowsePathTarget`].
pub struct BrowsePathTargetView {
    pub node_id: NodeIdView,
    pub depth: int,
    pub remaining_name: Option<QualifiedNameView>,
}

impl View for BrowsePathTarget {
    type V = BrowsePathTargetView;

    open spec fn view(&self) -> BrowsePathTargetView {
        BrowsePathTargetView {
            node_id: self.node_id@,
            depth: self.depth as int,
            remaining_name: match self.remaining_name {
                Some(q) => Some(q@),
                None => None,
            },
        }
    }
}

/// The views of a list of targets.
pub open spec fn target_views(v: Seq<BrowsePathTarget>) -> Seq<BrowsePathTargetView> {
    v.map_values(|t: BrowsePathTarget| t@)
}

/// The state of a walk along a path: the nodes matched at the current depth, in the
/// order they were reached, and the targets found so far.
pub struct Walk {
    pub matched: Seq<NodeIdView>,
    pub targets: Seq<BrowsePathTargetView>,
}

/// The reference-type filter of a path element.
pub open spec fn element_filter(e: RelativePathElementView) -> Option<(NodeIdView, bool)> {
    if is_null_view(e.reference_type_id) {
        None
    } else {
        Some((e.reference_type_id, e.include_subtypes))
    }
}

/// The direction of a path element.
pub open spec fn element_direction(e: RelativePathElementView) -> BrowseDirection {
    if e.is_inverse {
        BrowseDirection::Inverse
    } else {
        BrowseDirection::Forward
    }
}

/// Whether a path element is resolved through the browse-name index: a named forward
/// step along any reference type. The index holds only nodes of this address space.
pub open spec fn uses_name_index(e: RelativePathElementView) -> bool {
    !is_null_name(e.target_name) && !e.is_inverse && element_filter(e) is None
}

/// The nodes at the other end of the references a path element follows from `node`,
/// in order.
pub open spec fn element_candidates(
    s: SpaceView,
    t: Seq<TypeEntryView>,
    node: NodeIdView,
    e: RelativePathElementView,
) -> Seq<NodeIdView> {
    found_references(s, t, node, element_filter(e), element_direction(e)).map_values(
        |f: FoundReferenceView| f.other,
    )
}

/// One candidate `x` of a path element at `depth`: one already matched at this depth is
/// skipped; a node of this address space is matched (and a target) when the element
/// names no node or names this one; a missing node whose namespace belongs to no node
/// manager here is a target that still has to match the element's name (unless the
/// element is resolved through the index, which holds no such node).
pub open spec fn consider(
    s: SpaceView,
    known: Seq<u16>,
    e: RelativePathElementView,
    depth: int,
    x: NodeIdView,
    w: Walk,
) -> Walk {
    if ids_contain(w.matched, x) {
        w
    } else {
        match find_node(s, x) {
            None => if uses_name_index(e) || namespace_known(known, x.namespace) {
                w
            } else {
                Walk {
                    matched: w.matched,
                    targets: w.targets.push(
                        BrowsePathTargetView { node_id: x, depth, remaining_name: Some(e.target_name) },
                    ),
                }
            },
            Some(n) => if is_null_name(e.target_name) || n.browse_name == e.target_name {
                Walk {
                    matched: w.matched.push(x),
                    targets: w.targets.push(BrowsePathTargetView { node_id: x, depth, remaining_name: None }),
                }
            } else {
                w
            },
        }
    }
}

/// The walk after considering the first `n` of `xs` in order.
pub open spec fn consider_all(
    s: SpaceView,
    known: Seq<u16>,
    e: RelativePathElementView,
    depth: int,
    xs: Seq<NodeIdView>,
    w: Walk,
    n: nat,
) -> Walk
    decreases n,
{
    if n == 0 {
        w
    } else {
        consider(s, known, e, depth, xs[n - 1], consider_all(s, known, e, depth, xs, w, (n - 1) as nat))
    }
}

/// The walk after following a path element from the first `n` nodes of `frontier`.
pub open spec fn step_frontier(
    s: SpaceView,
    t: Seq<TypeEntryView>,
    known: Seq<u16>,
    e: RelativePathElementView,
    depth: int,
    frontier: Seq<NodeIdView>,
    w: Walk,
    n: nat,
) -> Walk
    decreases n,
{
    if n == 0 {
        w
    } else {
        let before = step_frontier(s, t, known, e, depth, frontier, w, (n - 1) as nat);
        let xs = element_candidates(s, t, frontier[n - 1], e);
        consider_all(s, known, e, depth, xs, before, xs.len())
    }
}

/// The walk after the first `k` elements of `path` from `start`: each element is
/// followed from every node matched by the one before, at depth one more.
pub open spec fn walk_path(
    s: SpaceView,
    t: Seq<TypeEntryView>,
    known: Seq<u16>,
    start: NodeIdView,
    path: Seq<RelativePathElementView>,
    k: nat,
) -> Walk
    decreases k,
{
    if k == 0 {
        Walk { matched: seq![start], targets: Seq::empty() }
    } else {
        let w = walk_path(s, t, known, start, path, (k - 1) as nat);
        step_frontier(
            s,
            t,
            known,
            path[k - 1],
            k as int,
            w.matched,
            Walk { matched: Seq::empty(), targets: w.targets },
            w.matched.len(),
        )
    }
}

/// The targets of a browse path from `start`, or `None` when the start node still had
/// to match `unmatched_name` and does not: it must be a node here whose browse name is
/// that name, unless the name is null.
pub open spec fn translate_spec(
    s: SpaceView,
    t: Seq<TypeEntryView>,
    known: Seq<u16>,
    start: NodeIdView,
    unmatched_name: Option<QualifiedNameView>,
    path: Seq<RelativePathElementView>,
) -> Option<Seq<BrowsePathTargetView>> {
    let start_ok = match unmatched_name {
        None => true,
        Some(name) => match find_node(s, start) {
            Some(n) => is_null_name(name) || n.browse_name == name,
            None => false,
        },
    };
    if start_ok {
        Some(walk_path(s, t, known, start, path, path.len()).targets)
    } else {
        None
    }
}

fn consider_exec(
    address_space: &AddressSpace,
    known: &[u16],
    e: &RelativePathElement,
    depth: usize,
    x: &NodeId,
    matched: &mut Vec<NodeId>,
    targets: &mut Vec<BrowsePathTarget>,
)
    ensures
        (Walk { matched: id_views(final(matched)@), targets: target_views(final(targets)@) }) == consider(
            address_space@,
            known@,
            e@,
            depth as int,
            x@,
            Walk { matched: id_views(old(matched)@), targets: target_views(old(targets)@) },
        ),
{
    let ghost m0 = id_views(matched@);
    let ghost t0 = target_views(targets@);
    if contains_id(matched.as_slice(), x) {
        return;
    }
    let by_index = !is_null_name_exec(&e.target_name) && !e.is_inverse && e.reference_type_id.is_null();
    assert(by_index == uses_name_index(e@));
    match address_space.find(x) {
        None => {
            if by_index || is_known_namespace(known, x.namespace) {
                return;
            }
            let target = BrowsePathTarget {
                node_id: x.duplicate(),
                depth,
                remaining_name: Some(e.target_name.duplicate()),
            };
            let ghost tv = target@;
            targets.push(target);
            assert(target_views(targets@) =~= t0.push(tv));
        },
        Some(k) => {
            let n = address_space.node_at(k);
            if is_null_name_exec(&e.target_name) || n.browse_name.equals(&e.target_name) {
                matched.push(x.duplicate());
                assert(id_views(matched@) =~= m0.push(x@));
                let target = BrowsePathTarget { node_id: x.duplicate(), depth, remaining_name: None };
                let ghost tv = target@;
                targets.push(target);
                assert(target_views(targets@) =~= t0.push(tv));
            }
        },
    }
}

fn is_null_name_exec(q: &QualifiedName) -> (r: bool)
    ensures
        r == is_null_name(q@),
{
    q.namespace_index == 0 && q.name.as_str().is_empty()
}

fn step_frontier_exec(
    address_space: &AddressSpace,
    type_tree: &TypeTree,
    known: &[u16],
    e: &RelativePathElement,
    depth: usize,
    frontier: &Vec<NodeId>,
    matched: &mut Vec<NodeId>,
    targets: &mut Vec<BrowsePathTarget>,
)
    ensures
        (Walk { matched: id_views(final(matched)@), targets: target_views(final(targets)@) }) == step_frontier(
            address_space@,
            type_tree@,
            known@,
            e@,
            depth as int,
            id_views(frontier@),
            Walk { matched: id_views(old(matched)@), targets: target_views(old(targets)@) },
            frontier@.len(),
        ),
{
    let ghost s = address_space@;
    let ghost t = type_tree@;
    let ghost fr = id_views(frontier@);
    let ghost w0 = Walk { matched: id_views(matched@), targets: target_views(targets@) };
    let filter = if e.reference_type_id.is_null() {
        None
    } else {
        Some((e.reference_type_id.duplicate(), e.include_subtypes))
    };
    let direction = if e.is_inverse {
        BrowseDirection::Inverse
    } else {
        BrowseDirection::Forward
    };
    assert(filter_view(filter) == element_filter(e@));
    let mut i: usize = 0;
    while i < frontier.len()
        invariant
            i <= frontier.len(),
            s == address_space@,
            t == type_tree@,
            fr == id_views(frontier@),
            filter_view(filter) == element_filter(e@),
            direction == element_direction(e@),
            (Walk { matched: id_views(matched@), targets: target_views(targets@) }) == step_frontier(
                s,
                t,
                known@,
                e@,
                depth as int,
                fr,
                w0,
                i as nat,
            ),
        decreases frontier.len() - i,
    {
        assert(fr[i as int] == frontier@[i as int]@);
        let found = address_space.find_references(type_tree, &frontier[i], &filter, direction);
        let ghost xs = element_candidates(s, t, fr[i as int], e@);
        assert(xs =~= found_views(found@).map_values(|f: FoundReferenceView| f.other));
        let ghost wi = Walk { matched: id_views(matched@), targets: target_views(targets@) };
        let mut j: usize = 0;
        while j < found.len()
            invariant
                j <= found.len(),
                s == address_space@,
                xs.len() == found@.len(),
                forall|q: int| 0 <= q < found@.len() ==> xs[q] == #[trigger] found@[q]@.other,
                (Walk { matched: id_views(matched@), targets: target_views(targets@) }) == consider_all(
                    s,
                    known@,
                    e@,
                    depth as int,
                    xs,
                    wi,
                    j as nat,
                ),
            decreases found.len() - j,
        {
            assert(xs[j as int] == found@[j as int]@.other);
            consider_exec(address_space, known, e, depth, &found[j].other, matched, targets);
            j = j + 1;
        }
        i = i + 1;
    }
}

/// Follows a relative browse path from `start` (see [`translate_spec`]): `None` when the
/// start node does not match the browse name it still had to match, else the targets
/// found, in the order they were reached.
pub fn translate_browse_paths(
    address_space: &AddressSpace,
    type_tree: &TypeTree,
    known_namespaces: &[u16],
    start: &NodeId,
    unmatched_name: Option<&QualifiedName>,
    path: &[RelativePathElement],
) -> (r: Option<Vec<BrowsePathTarget>>)
    ensures
        match r {
            Some(v) => translate_spec(
                address_space@,
                type_tree@,
                known_namespaces@,
                start@,
                match unmatched_name {
                    Some(q) => Some(q@),
                    None => None,
                },
                path_views(path@),
            ) == Some(target_views(v@)),
            None => translate_spec(
                address_space@,
                type_tree@,
                known_namespaces@,
                start@,
                match unmatched_name {
                    Some(q) => Some(q@),
                    None => None,
                },
                path_views(path@),
            ) is None,
        },
{
    if let Some(name) = unmatched_name {
        let full_match = match address_space.find(start) {
            Some(k) => is_null_name_exec(name) || address_space.node_at(k).browse_name.equals(name),
            None => false,
        };
        if !full_match {
            return None;
        }
    }
    let ghost s = address_space@;
    let ghost t = type_tree@;
    let ghost pv = path_views(path@);
    let mut matched: Vec<NodeId> = Vec::new();
    matched.push(start.duplicate());
    let mut targets: Vec<BrowsePathTarget> = Vec::new();
    assert(id_views(matched@) =~= seq![start@]);
    assert(target_views(targets@) =~= Seq::<BrowsePathTargetView>::empty());
    let mut k: usize = 0;
    while k < path.len()
        invariant
            k <= path.len(),
            s == address_space@,
            t == type_tree@,
            pv == path_views(path@),
            (Walk { matched: id_views(matched@), targets: target_views(targets@) }) == walk_path(
                s,
                t,
                known_namespaces@,
                start@,
                pv,
                k as nat,
            ),
        decreases path.len() - k,
    {
        assert(pv[k as int] == path@[k as int]@);
        let mut next: Vec<NodeId> = Vec::new();
        assert(id_views(next@) =~= Seq::<NodeIdView>::empty());
        step_frontier_exec(address_space, type_tree, known_namespaces, &path[k], k + 1, &matched, &mut next, &mut targets);
        matched = next;
        k = k + 1;
    }
    Some(targets)
}

/// Browse reveals only what the session may see: every reported reference leads to a node
/// of the address space that the session may browse, reported under its browse name and
/// class.
pub proof fn law_browse_reports_only_browsable_nodes(
    s: SpaceView,
    t: Seq<TypeEntryView>,
    ctx: AccessContext,
    known: Seq<u16>,
    node: NodeIdView,
    reference_type_id: NodeIdView,
    include_subtypes: bool,
    direction: BrowseDirection,
    want_type_definition: bool,
)
    ensures
        ({
            let refs = browse_spec(s, t, ctx, known, node, reference_type_id, include_subtypes, direction, want_type_definition).0;
            forall|i: int|
                0 <= i < refs.len() ==> match find_node(s, #[trigger] refs[i].target) {
                    Some(n) => can_browse(ctx, n) && n.browse_name == refs[i].browse_name && n.node_class
                        == refs[i].node_class,
                    None => false,
                }
        }),
{
    let found = found_references(s, t, node, browse_filter(reference_type_id, include_subtypes), direction);
    lemma_browse_reports_browsable(s, t, ctx, known, want_type_definition, found, found.len());
}

proof fn lemma_browse_reports_browsable(
    s: SpaceView,
    t: Seq<TypeEntryView>,
    ctx: AccessContext,
    known: Seq<u16>,
    want_type_definition: bool,
    found: Seq<FoundReferenceView>,
    n: nat,
)
    requires
        n <= found.len(),
    ensures
        ({
            let refs = browse_reports(s, t, ctx, known, want_type_definition, found, n).0;
            forall|i: int|
                0 <= i < refs.len() ==> match find_node(s, #[trigger] refs[i].target) {
                    Some(m) => can_browse(ctx, m) && m.browse_name == refs[i].browse_name && m.node_class
                        == refs[i].node_class,
                    None => false,
                }
        }),
    decreases n,
{
    if n > 0 {
        lemma_browse_reports_browsable(s, t, ctx, known, want_type_definition, found, (n - 1) as nat);
    }
}

/// Whether every target of `ts` was reached by one of the first `max_depth` path
/// elements, and is either a node of the address space (nothing left to match) or a node
/// of a namespace no node manager here serves (its browse name still to match).
pub open spec fn targets_well_formed(s: SpaceView, known: Seq<u16>, ts: Seq<BrowsePathTargetView>, max_depth: int) -> bool {
    forall|i: int|
        0 <= i < ts.len() ==> 1 <= (#[trigger] ts[i]).depth <= max_depth && match ts[i].remaining_name {
            None => find_node(s, ts[i].node_id) is Some,
            Some(_) => find_node(s, ts[i].node_id) is None && !namespace_known(known, ts[i].node_id.namespace),
        }
}

proof fn lemma_consider_all_well_formed(
    s: SpaceView,
    known: Seq<u16>,
    e: RelativePathElementView,
    depth: int,
    xs: Seq<NodeIdView>,
    w: Walk,
    n: nat,
    max_depth: int,
)
    requires
        n <= xs.len(),
        1 <= depth <= max_depth,
        targets_well_formed(s, known, w.targets, max_depth),
    ensures
        targets_well_formed(s, known, consider_all(s, known, e, depth, xs, w, n).targets, max_depth),
    decreases n,
{
    if n > 0 {
        lemma_consider_all_well_formed(s, known, e, depth, xs, w, (n - 1) as nat, max_depth);
        let before = consider_all(s, known, e, depth, xs, w, (n - 1) as nat);
        let after = consider(s, known, e, depth, xs[n - 1], before);
        assert forall|i: int| 0 <= i < after.targets.len() implies 1 <= (#[trigger] after.targets[i]).depth <= max_depth
            && match after.targets[i].remaining_name {
            None => find_node(s, after.targets[i].node_id) is Some,
            Some(_) => find_node(s, after.targets[i].node_id) is None && !namespace_known(
                known,
                after.targets[i].node_id.namespace,
            ),
        } by {
            if i < before.targets.len() {
                assert(after.targets[i] == before.targets[i]);
            }
        }
    }
}

proof fn lemma_step_frontier_well_formed(
    s: SpaceView,
    t: Seq<TypeEntryView>,
    known: Seq<u16>,
    e: RelativePathElementView,
    depth: int,
    frontier: Seq<NodeIdView>,
    w: Walk,
    n: nat,
    max_depth: int,
)
    requires
        n <= frontier.len(),
        1 <= depth <= max_depth,
        targets_well_formed(s, known, w.targets, max_depth),
    ensures
        targets_well_formed(s, known, step_frontier(s, t, known, e, depth, frontier, w, n).targets, max_depth),
    decreases n,
{
    if n > 0 {
        lemma_step_frontier_well_formed(s, t, known, e, depth, frontier, w, (n - 1) as nat, max_depth);
        let before = step_frontier(s, t, known, e, depth, frontier, w, (n - 1) as nat);
        let xs = element_candidates(s, t, frontier[n - 1], e);
        lemma_consider_all_well_formed(s, known, e, depth, xs, before, xs.len(), max_depth);
    }
}

proof fn lemma_walk_well_formed(
    s: SpaceView,
    t: Seq<TypeEntryView>,
    known: Seq<u16>,
    start: NodeIdView,
    path: Seq<RelativePathElementView>,
    k: nat,
    max_depth: int,
)
    requires
        k <= path.len(),
        k <= max_depth,
    ensures
        targets_well_formed(s, known, walk_path(s, t, known, start, path, k).targets, max_depth),
    decreases k,
{
    if k > 0 {
        lemma_walk_well_formed(s, t, known, start, path, (k - 1) as nat, max_depth);
        let w = walk_path(s, t, known, start, path, (k - 1) as nat);
        lemma_step_frontier_well_formed(
            s,
            t,
            known,
            path[k - 1],
            k as int,
            w.matched,
            Walk { matched: Seq::empty(), targets: w.targets },
            w.matched.len(),
            max_depth,
        );
    }
}

/// Every target of a browse path was reached by one of its elements (depth 1 to the
/// path's length); a target with nothing left to match is a node of the address space,
/// and one whose browse name is still to match lies in a namespace that no node manager
/// here serves.
pub proof fn law_translate_targets_well_formed(
    s: SpaceView,
    t: Seq<TypeEntryView>,
    known: Seq<u16>,
    start: NodeIdView,
    unmatched_name: Option<QualifiedNameView>,
    path: Seq<RelativePathElementView>,
)
    ensures
        match translate_spec(s, t, known, start, unmatched_name, path) {
            Some(ts) => targets_well_formed(s, known, ts, path.len() as int),
            None => true,
        },
{
    lemma_walk_well_formed(s, t, known, start, path, path.len(), path.len() as int);
}

} // verus!
