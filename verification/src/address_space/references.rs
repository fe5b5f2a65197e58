//! Following the references of a node: forward ones leave it, inverse ones arrive at it,
//! optionally restricted to one reference type and its subtypes.

use vstd::prelude::*;
use crate::address_space::type_tree::{is_subtype_of, TypeEntryView, TypeTree};
use crate::address_space::{AddressSpace, ReferenceView, SpaceView};
use crate::node_id::{NodeId, NodeIdView};

verus! {

/// Which way references are followed.
#[derive(Debug, Clone, Copy, PartialEq, Eq, Structural)]
pub enum BrowseDirection {
    Forward,
    Inverse,
    Both,
}

/// A reference as seen from the node it was found from: its type, the node at its other
/// end, and whether it leaves (forward) or arrives at (inverse) the node.
#[derive(Debug)]
pub struct FoundReference {
    pub reference_type: NodeId,
    pub other: NodeId,
    pub is_forward: bool,
}

/// Mathematical view of a [`FoundReference`].
pub struct FoundReferenceView {
    pub reference_type: NodeIdView,
    pub other: NodeIdView,
    pub is_forward: bool,
}

impl View for FoundReference {
    type V = FoundReferenceView;

    open spec fn view(&self) -> FoundReferenceView {
        FoundReferenceView {
            reference_type: self.reference_type@,
            other: self.other@,
            is_forward: self.is_forward,
        }
    }
}

/// The views of a list of found references.
pub open spec fn found_views(v: Seq<FoundReference>) -> Seq<FoundReferenceView> {
    v.map_values(|f: FoundReference| f@)
}

/// The view of a reference-type filter: the type, and whether its subtypes pass too.
pub open spec fn filter_view(filter: Option<(NodeId, bool)>) -> Option<(NodeIdView, bool)> {
    match filter {
        Some((t, s)) => Some((t@, s)),
        None => None,
    }
}

/// Whether a reference of type `ty` passes `filter`: every one does without a filter;
/// else `ty` must be the filter's type, or with subtypes a subtype of it.
pub open spec fn type_passes(t: Seq<TypeEntryView>, ty: NodeIdView, filter: Option<(NodeIdView, bool)>) -> bool {
    match filter {
        None => true,
        Some((f, subtypes)) => if subtypes {
            is_subtype_of(t, ty, f)
        } else {
            ty == f
        },
    }
}

/// The forward references among the first `n` of `refs` that leave `node` and pass
/// `filter`, in order.
pub open spec fn forward_found(
    refs: Seq<ReferenceView>,
    t: Seq<TypeEntryView>,
    node: NodeIdView,
    filter: Option<(NodeIdView, bool)>,
    n: nat,
) -> Seq<FoundReferenceView>
    decreases n,
{
    if n == 0 {
        Seq::empty()
    } else {
        let p = forward_found(refs, t, node, filter, (n - 1) as nat);
        let r = refs[n - 1];
        if r.source == node && type_passes(t, r.reference_type, filter) {
            p.push(FoundReferenceView { reference_type: r.reference_type, other: r.target, is_forward: true })
        } else {
            p
        }
    }
}

/// The inverse references among the first `n` of `refs` that arrive at `node` and pass
/// `filter`, in order.
pub open spec fn inverse_found(
    refs: Seq<ReferenceView>,
    t: Seq<TypeEntryView>,
    node: NodeIdView,
    filter: Option<(NodeIdView, bool)>,
    n: nat,
) -> Seq<FoundReferenceView>
    decreases n,
{
    if n == 0 {
        Seq::empty()
    } else {
        let p = inverse_found(refs, t, node, filter, (n - 1) as nat);
        let r = refs[n - 1];
        if r.target == node && type_passes(t, r.reference_type, filter) {
            p.push(FoundReferenceView { reference_type: r.reference_type, other: r.source, is_forward: false })
        } else {
            p
        }
    }
}

/// The references of `node` in `direction` that pass `filter`: the forward ones first,
/// then the inverse ones.
pub open spec fn found_references(
    s: SpaceView,
    t: Seq<TypeEntryView>,
    node: NodeIdView,
    filter: Option<(NodeIdView, bool)>,
    direction: BrowseDirection,
) -> Seq<FoundReferenceView> {
    let forward = if direction != BrowseDirection::Inverse {
        forward_found(s.references, t, node, filter, s.references.len())
    } else {
        Seq::empty()
    };
    let inverse = if direction != BrowseDirection::Forward {
        inverse_found(s.references, t, node, filter, s.references.len())
    } else {
        Seq::empty()
    };
    forward + inverse
}

fn passes(type_tree: &TypeTree, ty: &NodeId, filter: &Option<(NodeId, bool)>) -> (r: bool)
    ensures
        r == type_passes(type_tree@, ty@, filter_view(*filter)),
{
    match filter {
        None => true,
        Some((f, subtypes)) => if *subtypes {
            type_tree.is_subtype_of(ty, f)
        } else {
            ty.equals(f)
        },
    }
}

impl AddressSpace {
    /// The references of `node` in `direction` that pass `filter` (see
    /// [`found_references`]).
    pub fn find_references(
        &self,
        type_tree: &TypeTree,
        node: &NodeId,
        filter: &Option<(NodeId, bool)>,
        direction: BrowseDirection,
    ) -> (r: Vec<FoundReference>)
        ensures
            found_views(r@) == found_references(self@, type_tree@, node@, filter_view(*filter), direction),
    {
        let ghost refs = self@.references;
        let ghost fv = filter_view(*filter);
        let mut out: Vec<FoundReference> = Vec::new();
        if direction != BrowseDirection::Inverse {
            let mut i: usize = 0;
            while i < self.references.len()
                invariant
                    i <= self.references.len(),
                    refs == self@.references,
                    refs.len() == self.references.len(),
                    fv == filter_view(*filter),
                    found_views(out@) == forward_found(refs, type_tree@, node@, fv, i as nat),
                decreases self.references.len() - i,
            {
                let r = &self.references[i];
                assert(refs[i as int] == r@);
                let ghost before = found_views(out@);
                if r.source.equals(node) && passes(type_tree, &r.reference_type, filter) {
                    let f = FoundReference {
                        reference_type: r.reference_type.duplicate(),
                        other: r.target.duplicate(),
                        is_forward: true,
                    };
                    let ghost fview = f@;
                    out.push(f);
                    assert(found_views(out@) =~= before.push(fview));
                }
                i = i + 1;
            }
        }
        let ghost forward = found_views(out@);
        assert(forward == (if direction != BrowseDirection::Inverse {
            forward_found(refs, type_tree@, node@, fv, refs.len())
        } else {
            Seq::<FoundReferenceView>::empty()
        })) by {
            if direction == BrowseDirection::Inverse {
                assert(found_views(out@) =~= Seq::<FoundReferenceView>::empty());
            }
        }
        if direction != BrowseDirection::Forward {
            let mut i: usize = 0;
            assert(found_views(out@) =~= forward + inverse_found(refs, type_tree@, node@, fv, 0));
            while i < self.references.len()
                invariant
                    i <= self.references.len(),
                    refs == self@.references,
                    refs.len() == self.references.len(),
                    fv == filter_view(*filter),
                    found_views(out@) == forward + inverse_found(refs, type_tree@, node@, fv, i as nat),
                decreases self.references.len() - i,
            {
                let r = &self.references[i];
                assert(refs[i as int] == r@);
                let ghost before = found_views(out@);
                if r.target.equals(node) && passes(type_tree, &r.reference_type, filter) {
                    let f = FoundReference {
                        reference_type: r.reference_type.duplicate(),
                        other: r.source.duplicate(),
                        is_forward: false,
                    };
                    let ghost fview = f@;
                    out.push(f);
                    assert(found_views(out@) =~= before.push(fview));
                    assert(forward + inverse_found(refs, type_tree@, node@, fv, (i + 1) as nat) =~= (forward
                        + inverse_found(refs, type_tree@, node@, fv, i as nat)).push(fview));
                }
                i = i + 1;
            }
        } else {
            assert(found_views(out@) =~= forward + Seq::<FoundReferenceView>::empty());
        }
        out
    }
}

} // verus!
