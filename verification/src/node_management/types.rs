//! Type rules of node management: abstract reference types, type definitions of new
//! instances, VariableType refinement and the structural constraints on references.

use vstd::prelude::*;
use crate::address_space::type_tree::{is_subtype_of, type_class, type_is_abstract, TypeTree};
use crate::address_space::{
    find_node, is_type_class, lemma_node_index, node_index, AddressSpace, Node, NodeClass, NodeView,
    SpaceView,
};
use crate::node_id::{is_null_view, numeric_view, Identifier, IdentifierView, NodeId, NodeIdView};
use crate::status::StatusCode;

verus! {

/// `References`, the root of all reference types.
pub const REFERENCES: u32 = 31;
/// `NonHierarchicalReferences`.
pub const NON_HIERARCHICAL_REFERENCES: u32 = 32;
/// `HierarchicalReferences`.
pub const HIERARCHICAL_REFERENCES: u32 = 33;
/// `HasChild`.
pub const HAS_CHILD: u32 = 34;
/// `HasTypeDefinition`.
pub const HAS_TYPE_DEFINITION: u32 = 40;
/// `Aggregates`.
pub const AGGREGATES: u32 = 44;
/// `HasSubtype`.
pub const HAS_SUBTYPE: u32 = 45;
/// `HasProperty`.
pub const HAS_PROPERTY: u32 = 46;
/// `HasComponent`.
pub const HAS_COMPONENT: u32 = 47;
/// `BaseDataType`, the DataType of a node that specifies none.
pub const BASE_DATA_TYPE: u32 = 24;

/// ValueRank `Any`.
pub const VALUE_RANK_ANY: i32 = -2;
/// ValueRank `ScalarOrOneDimension`.
pub const VALUE_RANK_SCALAR_OR_ONE_DIMENSION: i32 = -3;
/// ValueRank `OneOrMoreDimensions`.
pub const VALUE_RANK_ONE_OR_MORE_DIMENSIONS: i32 = 0;
/// ValueRank `Scalar`.
pub const VALUE_RANK_SCALAR: i32 = -1;

/// Whether `n` is the numeric value of a standard ReferenceType of namespace 0.
pub uninterp spec fn standard_reference_type_value(n: u32) -> bool;

/// `ReferenceTypeId::try_from(value).is_ok()` of async-opcua-types: whether `value` is
/// the id of one of the standard reference types. The contract names that set and
/// states that the abstract reference types and `HasSubtype`, `HasProperty`,
/// `HasComponent` and `HasTypeDefinition` are in it, as the generated match shows.
#[verifier::external_body]
fn is_standard_reference_type_value(value: u32) -> (r: bool)
    ensures
        r == standard_reference_type_value(value),
        (value == REFERENCES || value == NON_HIERARCHICAL_REFERENCES || value == HIERARCHICAL_REFERENCES
            || value == HAS_CHILD || value == AGGREGATES || value == HAS_SUBTYPE || value == HAS_PROPERTY
            || value == HAS_COMPONENT || value == HAS_TYPE_DEFINITION) ==> r,
{
    opcua_types::ReferenceTypeId::try_from(value).is_ok()
}

/// Whether `id` is one of the standard reference types of namespace 0.
pub open spec fn is_standard_reference_type(id: NodeIdView) -> bool {
    &&& !is_null_view(id)
    &&& id.namespace == 0
    &&& match id.identifier {
        IdentifierView::Numeric(n) => standard_reference_type_value(n),
        _ => false,
    }
}

/// Whether `id` is one of the standard reference types of namespace 0 (see
/// [`is_standard_reference_type`]).
pub fn is_standard_reference_type_id(id: &NodeId) -> (r: bool)
    ensures
        r == is_standard_reference_type(id@),
{
    if id.is_null() || id.namespace != 0 {
        return false;
    }
    match id.identifier {
        Identifier::Numeric(n) => is_standard_reference_type_value(n),
        _ => false,
    }
}

/// The standard reference types that are abstract: `References`, `NonHierarchicalReferences`,
/// `HierarchicalReferences`, `HasChild` and `Aggregates`.
pub open spec fn is_standard_abstract_reference_type(id: NodeIdView) -> bool {
    id == numeric_view(0, REFERENCES) || id == numeric_view(0, NON_HIERARCHICAL_REFERENCES) || id
        == numeric_view(0, HIERARCHICAL_REFERENCES) || id == numeric_view(0, HAS_CHILD) || id
        == numeric_view(0, AGGREGATES)
}

/// Whether `id` is one of the abstract standard reference types.
pub fn standard_reference_type_is_abstract(id: &NodeId) -> (r: bool)
    ensures
        r == is_standard_abstract_reference_type(id@),
{
    if id.is_null() || id.namespace != 0 {
        return false;
    }
    match id.identifier {
        Identifier::Numeric(n) => {
            is_standard_reference_type_value(n) && (n == REFERENCES || n == NON_HIERARCHICAL_REFERENCES
                || n == HIERARCHICAL_REFERENCES || n == HAS_CHILD || n == AGGREGATES)
        },
        _ => false,
    }
}

/// Whether a reference type is abstract: by its node when the address space has one,
/// else by the standard reference types.
pub open spec fn reference_type_abstract(s: SpaceView, id: NodeIdView) -> bool {
    match find_node(s, id) {
        Some(n) => n.node_class == NodeClass::ReferenceType && n.is_abstract,
        None => is_standard_abstract_reference_type(id),
    }
}

/// Whether the reference type `id` is abstract (see [`reference_type_abstract`]).
pub fn reference_type_is_abstract(address_space: &AddressSpace, id: &NodeId) -> (r: bool)
    ensures
        r == reference_type_abstract(address_space@, id@),
{
    match address_space.find(id) {
        Some(i) => {
            let n = address_space.node_at(i);
            matches!(n.node_class, NodeClass::ReferenceType) && n.is_abstract
        },
        None => standard_reference_type_is_abstract(id),
    }
}

/// Whether `id` names a reference type: one the type metadata knows as a
/// ReferenceType, or a standard one.
pub open spec fn reference_type_known(t: Seq<crate::address_space::type_tree::TypeEntryView>, id: NodeIdView) -> bool {
    type_class(t, id) == Some(NodeClass::ReferenceType) || is_standard_reference_type(id)
}

/// Whether `id` names a reference type (see [`reference_type_known`]).
pub fn reference_type_is_known(type_tree: &TypeTree, id: &NodeId) -> (r: bool)
    ensures
        r == reference_type_known(type_tree@, id@),
{
    if matches!(type_tree.get(id), Some(NodeClass::ReferenceType)) {
        return true;
    }
    if id.is_null() || id.namespace != 0 {
        return false;
    }
    match id.identifier {
        Identifier::Numeric(n) => is_standard_reference_type_value(n),
        _ => false,
    }
}

/// The node class of `id`: its node's when the address space has one, else the
/// type metadata's.
pub open spec fn node_class_of(
    s: SpaceView,
    t: Seq<crate::address_space::type_tree::TypeEntryView>,
    id: NodeIdView,
) -> Option<NodeClass> {
    match find_node(s, id) {
        Some(n) => Some(n.node_class),
        None => type_class(t, id),
    }
}

/// The node class of `id` (see [`node_class_of`]).
pub fn resolve_node_class(address_space: &AddressSpace, type_tree: &TypeTree, id: &NodeId) -> (r: Option<NodeClass>)
    ensures
        r == node_class_of(address_space@, type_tree@, id@),
{
    match address_space.find(id) {
        Some(i) => Some(address_space.node_at(i).node_class),
        None => type_tree.get(id),
    }
}

/// The structural constraints on a reference `source --reference_type--> target`:
/// the target of a `HasProperty` (or subtype) must be a Variable when it is known; a
/// `HasSubtype` (or subtype) must join two known nodes of one type class.
pub open spec fn structurally_allowed(
    s: SpaceView,
    t: Seq<crate::address_space::type_tree::TypeEntryView>,
    reference_type: NodeIdView,
    source: NodeIdView,
    target: NodeIdView,
) -> bool {
    if is_subtype_of(t, reference_type, numeric_view(0, HAS_PROPERTY)) {
        match find_node(s, target) {
            Some(n) => n.node_class == NodeClass::Variable,
            None => true,
        }
    } else if is_subtype_of(t, reference_type, numeric_view(0, HAS_SUBTYPE)) {
        match (node_class_of(s, t, source), node_class_of(s, t, target)) {
            (Some(sc), Some(tc)) => is_type_class(sc) && sc == tc,
            _ => true,
        }
    } else {
        true
    }
}

/// Whether the reference is structurally allowed (see [`structurally_allowed`]).
pub fn reference_is_structurally_allowed(
    address_space: &AddressSpace,
    type_tree: &TypeTree,
    reference_type_id: &NodeId,
    source_node_id: &NodeId,
    target_node_id: &NodeId,
) -> (r: bool)
    ensures
        r == structurally_allowed(
            address_space@,
            type_tree@,
            reference_type_id@,
            source_node_id@,
            target_node_id@,
        ),
{
    let has_property = NodeId::numeric(0, HAS_PROPERTY);
    if type_tree.is_subtype_of(reference_type_id, &has_property) {
        return match address_space.find(target_node_id) {
            Some(i) => matches!(address_space.node_at(i).node_class, NodeClass::Variable),
            None => true,
        };
    }
    let has_subtype = NodeId::numeric(0, HAS_SUBTYPE);
    if type_tree.is_subtype_of(reference_type_id, &has_subtype) {
        let source_class = resolve_node_class(address_space, type_tree, source_node_id);
        let target_class = resolve_node_class(address_space, type_tree, target_node_id);
        if let (Some(sc), Some(tc)) = (source_class, target_class) {
            let type_class = matches!(
                sc,
                NodeClass::ObjectType | NodeClass::VariableType | NodeClass::ReferenceType
                    | NodeClass::DataType
            );
            if !type_class || sc != tc {
                return false;
            }
        }
    }
    true
}

/// Whether ValueRank `child` further restricts (or equals) ValueRank `parent`: `Any`
/// accepts anything; `ScalarOrOneDimension` accepts itself, `Scalar` or one dimension;
/// `OneOrMoreDimensions` accepts itself or any fixed number of dimensions; every other
/// rank accepts only itself.
pub open spec fn value_rank_restricts(parent: i32, child: i32) -> bool {
    if parent == VALUE_RANK_ANY {
        true
    } else if parent == VALUE_RANK_SCALAR_OR_ONE_DIMENSION {
        child == VALUE_RANK_SCALAR_OR_ONE_DIMENSION || child == VALUE_RANK_SCALAR || child == 1
    } else if parent == VALUE_RANK_ONE_OR_MORE_DIMENSIONS {
        child == VALUE_RANK_ONE_OR_MORE_DIMENSIONS || child >= 1
    } else {
        child == parent
    }
}

/// Whether ValueRank `child` is a valid restriction of ValueRank `parent`.
pub fn value_rank_is_restriction_of(parent: i32, child: i32) -> (r: bool)
    ensures
        r == value_rank_restricts(parent, child),
{
    if parent == VALUE_RANK_ANY {
        true
    } else if parent == VALUE_RANK_SCALAR_OR_ONE_DIMENSION {
        child == VALUE_RANK_SCALAR_OR_ONE_DIMENSION || child == VALUE_RANK_SCALAR || child == 1
    } else if parent == VALUE_RANK_ONE_OR_MORE_DIMENSIONS {
        child == VALUE_RANK_ONE_OR_MORE_DIMENSIONS || child >= 1
    } else {
        child == parent
    }
}

/// ValueRank restriction is a preorder: every rank restricts itself, and a restriction
/// of a restriction is a restriction.
pub proof fn law_value_rank_restriction_is_preorder(a: i32, b: i32, c: i32)
    ensures
        value_rank_restricts(a, a),
        value_rank_restricts(a, b) && value_rank_restricts(b, c) ==> value_rank_restricts(a, c),
{
}

/// The outcome of checking the TypeDefinition of a new node of class `node_class`: only
/// Objects and Variables are checked; the definition must be a non-abstract ObjectType
/// (resp. VariableType), judged by its node when the address space has one, else by the
/// type metadata, where an unknown type or one of another class is invalid.
pub open spec fn type_definition_check(
    s: SpaceView,
    t: Seq<crate::address_space::type_tree::TypeEntryView>,
    node_class: NodeClass,
    type_definition: NodeIdView,
) -> Result<(), StatusCode> {
    if is_null_view(type_definition) {
        Ok(())
    } else if node_class != NodeClass::Object && node_class != NodeClass::Variable {
        Ok(())
    } else {
        let expected = if node_class == NodeClass::Object {
            NodeClass::ObjectType
        } else {
            NodeClass::VariableType
        };
        match find_node(s, type_definition) {
            Some(n) => if n.node_class == expected && !n.is_abstract {
                Ok(())
            } else {
                Err(StatusCode::BadTypeDefinitionInvalid)
            },
            None => if type_class(t, type_definition) == Some(expected) && type_is_abstract(
                t,
                type_definition,
            ) != Some(true) {
                Ok(())
            } else {
                Err(StatusCode::BadTypeDefinitionInvalid)
            },
        }
    }
}

/// Checks the TypeDefinition of a new node (see [`type_definition_check`]).
pub fn validate_type_definition(
    address_space: &AddressSpace,
    type_tree: &TypeTree,
    node_class: NodeClass,
    type_definition_id: &NodeId,
) -> (r: Result<(), StatusCode>)
    ensures
        r == type_definition_check(address_space@, type_tree@, node_class, type_definition_id@),
{
    if type_definition_id.is_null() {
        return Ok(());
    }
    let expected = match node_class {
        NodeClass::Object => NodeClass::ObjectType,
        NodeClass::Variable => NodeClass::VariableType,
        _ => {
            return Ok(());
        },
    };
    if let Some(i) = address_space.find(type_definition_id) {
        let n = address_space.node_at(i);
        return if n.node_class == expected && !n.is_abstract {
            Ok(())
        } else {
            Err(StatusCode::BadTypeDefinitionInvalid)
        };
    }
    match type_tree.get(type_definition_id) {
        Some(class) if class == expected => {
            if matches!(type_tree.is_abstract(type_definition_id), Some(true)) {
                Err(StatusCode::BadTypeDefinitionInvalid)
            } else {
                Ok(())
            }
        },
        _ => Err(StatusCode::BadTypeDefinitionInvalid),
    }
}

/// The outcome of checking that a new VariableType `node`, added as a `HasSubtype` (or
/// subtype) child of a VariableType `parent`, only refines it: a DataType the metadata
/// knows must be a subtype of the parent's, and the ValueRank must restrict the parent's.
pub open spec fn type_refinement_check(
    s: SpaceView,
    t: Seq<crate::address_space::type_tree::TypeEntryView>,
    reference_type: NodeIdView,
    parent: NodeIdView,
    node: NodeView,
) -> Result<(), StatusCode> {
    if node.node_class != NodeClass::VariableType {
        Ok(())
    } else if !is_subtype_of(t, reference_type, numeric_view(0, HAS_SUBTYPE)) {
        Ok(())
    } else {
        match find_node(s, parent) {
            None => Ok(()),
            Some(p) => if p.node_class != NodeClass::VariableType {
                Ok(())
            } else if type_class(t, node.data_type) is Some && !is_subtype_of(
                t,
                node.data_type,
                p.data_type,
            ) {
                Err(StatusCode::BadNodeAttributesInvalid)
            } else if !value_rank_restricts(p.value_rank, node.value_rank) {
                Err(StatusCode::BadNodeAttributesInvalid)
            } else {
                Ok(())
            },
        }
    }
}

/// Checks VariableType refinement (see [`type_refinement_check`]).
pub fn validate_type_refinement(
    address_space: &AddressSpace,
    type_tree: &TypeTree,
    reference_type_id: &NodeId,
    parent_node_id: &NodeId,
    node: &Node,
) -> (r: Result<(), StatusCode>)
    ensures
        r == type_refinement_check(
            address_space@,
            type_tree@,
            reference_type_id@,
            parent_node_id@,
            node@,
        ),
{
    if !matches!(node.node_class, NodeClass::VariableType) {
        return Ok(());
    }
    let has_subtype = NodeId::numeric(0, HAS_SUBTYPE);
    if !type_tree.is_subtype_of(reference_type_id, &has_subtype) {
        return Ok(());
    }
    let i = match address_space.find(parent_node_id) {
        None => {
            return Ok(());
        },
        Some(i) => i,
    };
    let parent = address_space.node_at(i);
    if !matches!(parent.node_class, NodeClass::VariableType) {
        return Ok(());
    }
    if type_tree.get(&node.data_type).is_some() && !type_tree.is_subtype_of(&node.data_type, &parent.data_type) {
        return Err(StatusCode::BadNodeAttributesInvalid);
    }
    if !value_rank_is_restriction_of(parent.value_rank, node.value_rank) {
        return Err(StatusCode::BadNodeAttributesInvalid);
    }
    Ok(())
}

} // verus!
