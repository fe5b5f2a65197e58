//! The type metadata the server keeps beside the address space: each known type with
//! its node class, whether it is abstract, and its supertype.

use vstd::prelude::*;
use crate::address_space::{is_type_class, NodeClass};
use crate::node_id::{NodeId, NodeIdView};

verus! {

/// One known type.
#[derive(Debug)]
pub struct TypeEntry {
    pub type_id: NodeId,
    pub node_class: NodeClass,
    pub is_abstract: bool,
    pub supertype: Option<NodeId>,
}

/// Mathematical view of a [`TypeEntry`].
pub struct TypeEntryView {
    pub type_id: NodeIdView,
    pub node_class: NodeClass,
    pub is_abstract: bool,
    pub supertype: Option<NodeIdView>,
}

impl View for TypeEntry {
    type V = TypeEntryView;

    open spec fn view(&self) -> TypeEntryView {
        TypeEntryView {
            type_id: self.type_id@,
            node_class: self.node_class,
            is_abstract: self.is_abstract,
            supertype: match self.supertype {
                Some(s) => Some(s@),
                None => None,
            },
        }
    }
}

/// The index of the entry for `id` in `t`: the last one added wins.
pub open spec fn entry_index(t: Seq<TypeEntryView>, id: NodeIdView) -> Option<int>
    decreases t.len(),
{
    if t.len() == 0 {
        None
    } else if t.last().type_id == id {
        Some(t.len() - 1)
    } else {
        entry_index(t.drop_last(), id)
    }
}

/// The node class of the type `id`, if known.
pub open spec fn type_class(t: Seq<TypeEntryView>, id: NodeIdView) -> Option<NodeClass> {
    match entry_index(t, id) {
        Some(i) => Some(t[i].node_class),
        None => None,
    }
}

/// Whether the type `id` is abstract, if known.
pub open spec fn type_is_abstract(t: Seq<TypeEntryView>, id: NodeIdView) -> Option<bool> {
    match entry_index(t, id) {
        Some(i) => Some(t[i].is_abstract),
        None => None,
    }
}

/// The supertype of `id`, if known.
pub open spec fn supertype_of(t: Seq<TypeEntryView>, id: NodeIdView) -> Option<NodeIdView> {
    match entry_index(t, id) {
        Some(i) => t[i].supertype,
        None => None,
    }
}

/// Whether walking at most `steps` supertype links up from `child` (through known type
/// nodes) reaches `ancestor`.
pub open spec fn subtype_within(
    t: Seq<TypeEntryView>,
    child: NodeIdView,
    ancestor: NodeIdView,
    steps: nat,
) -> bool
    decreases steps,
{
    if child == ancestor {
        true
    } else if steps == 0 {
        false
    } else {
        match type_class(t, child) {
            None => false,
            Some(class) => is_type_class(class) && match supertype_of(t, child) {
                None => false,
                Some(p) => subtype_within(t, p, ancestor, (steps - 1) as nat),
            },
        }
    }
}

/// Whether `child` is `ancestor` or one of its subtypes. The walk is bounded by the
/// number of known types, which every chain without a cycle respects.
pub open spec fn is_subtype_of(t: Seq<TypeEntryView>, child: NodeIdView, ancestor: NodeIdView) -> bool {
    subtype_within(t, child, ancestor, t.len())
}

/// The known types.
pub struct TypeTree {
    entries: Vec<TypeEntry>,
}

impl View for TypeTree {
    type V = Seq<TypeEntryView>;

    closed spec fn view(&self) -> Seq<TypeEntryView> {
        self.entries@.map_values(|e: TypeEntry| e@)
    }
}

impl TypeTree {
    /// An empty type tree.
    pub fn new() -> (r: TypeTree)
        ensures
            r@.len() == 0,
    {
        let r = TypeTree { entries: Vec::new() };
        assert(r@ =~= Seq::<TypeEntryView>::empty());
        r
    }

    /// Records the type `type_id` of class `node_class` under `supertype`.
    pub fn add_type_node(&mut self, type_id: NodeId, supertype: Option<NodeId>, node_class: NodeClass, is_abstract: bool)
        ensures
            final(self)@ == old(self)@.push(
                TypeEntryView {
                    type_id: type_id@,
                    node_class,
                    is_abstract,
                    supertype: match supertype {
                        Some(s) => Some(s@),
                        None => None,
                    },
                },
            ),
    {
        let e = TypeEntry { type_id, node_class, is_abstract, supertype };
        let ghost ev = e@;
        self.entries.push(e);
        assert(self@ =~= old(self)@.push(ev));
    }

    fn lookup(&self, id: &NodeId) -> (r: Option<usize>)
        ensures
            match r {
                Some(i) => entry_index(self@, id@) == Some(i as int) && i < self@.len(),
                None => entry_index(self@, id@) is None,
            },
    {
        let ghost v = self@;
        let mut i: usize = self.entries.len();
        assert(v.take(i as int) =~= v);
        while i > 0
            invariant
                i <= self.entries.len(),
                v == self@,
                v.len() == self.entries.len(),
                entry_index(v, id@) == entry_index(v.take(i as int), id@),
            decreases i,
        {
            let k = i - 1;
            assert(v.take(i as int).last() == self.entries@[k as int]@);
            assert(v.take(i as int).drop_last() =~= v.take(k as int));
            if self.entries[k].type_id.equals(id) {
                return Some(k);
            }
            i = k;
        }
        None
    }

    /// The node class of the type `id`, if known.
    pub fn get(&self, id: &NodeId) -> (r: Option<NodeClass>)
        ensures
            r == type_class(self@, id@),
    {
        match self.lookup(id) {
            Some(i) => {
                assert(self@[i as int] == self.entries@[i as int]@);
                Some(self.entries[i].node_class)
            },
            None => None,
        }
    }

    /// Whether the type `id` is abstract, if known.
    pub fn is_abstract(&self, id: &NodeId) -> (r: Option<bool>)
        ensures
            r == type_is_abstract(self@, id@),
    {
        match self.lookup(id) {
            Some(i) => {
                assert(self@[i as int] == self.entries@[i as int]@);
                Some(self.entries[i].is_abstract)
            },
            None => None,
        }
    }

    /// Whether `child` is `ancestor` or one of its subtypes (see [`is_subtype_of`]).
    pub fn is_subtype_of(&self, child: &NodeId, ancestor: &NodeId) -> (r: bool)
        ensures
            r == is_subtype_of(self@, child@, ancestor@),
    {
        let mut node = child.duplicate();
        let mut steps: usize = self.entries.len();
        assert(self@.len() == steps);
        loop
            invariant
                steps <= self@.len(),
                subtype_within(self@, node@, ancestor@, steps as nat) == is_subtype_of(
                    self@,
                    child@,
                    ancestor@,
                ),
            decreases steps,
        {
            if node.equals(ancestor) {
                return true;
            }
            if steps == 0 {
                return false;
            }
            let i = match self.lookup(&node) {
                None => {
                    return false;
                },
                Some(i) => i,
            };
            assert(self@[i as int] == self.entries@[i as int]@);
            let class = self.entries[i].node_class;
            let type_node = match class {
                NodeClass::ObjectType | NodeClass::VariableType | NodeClass::ReferenceType
                | NodeClass::DataType => true,
                _ => false,
            };
            if !type_node {
                return false;
            }
            let next = match &self.entries[i].supertype {
                None => {
                    return false;
                },
                Some(p) => p.duplicate(),
            };
            node = next;
            steps = steps - 1;
        }
    }
}

} // verus!
