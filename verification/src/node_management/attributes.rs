//! The node attributes of an AddNodes item: which attributes each node class may
//! specify, and the node they describe.

use vstd::prelude::*;
use crate::address_space::{NodeValue, NodeValueView};
use crate::address_space::{Node, NodeClass, NodeView, QualifiedName, QualifiedNameView};
use crate::node_id::{is_null_view, numeric_view, NodeId, NodeIdView};
use crate::node_management::types::{BASE_DATA_TYPE, VALUE_RANK_SCALAR};
use crate::status::StatusCode;

verus! {

/// AttributesMask bit of AccessLevel.
pub const MASK_ACCESS_LEVEL: u32 = 1;
/// AttributesMask bit of ArrayDimensions.
pub const MASK_ARRAY_DIMENSIONS: u32 = 2;
/// AttributesMask bit of ContainsNoLoops.
pub const MASK_CONTAINS_NO_LOOPS: u32 = 8;
/// AttributesMask bit of DataType.
pub const MASK_DATA_TYPE: u32 = 16;
/// AttributesMask bit of Description.
pub const MASK_DESCRIPTION: u32 = 32;
/// AttributesMask bit of DisplayName.
pub const MASK_DISPLAY_NAME: u32 = 64;
/// AttributesMask bit of EventNotifier.
pub const MASK_EVENT_NOTIFIER: u32 = 128;
/// AttributesMask bit of Executable.
pub const MASK_EXECUTABLE: u32 = 256;
/// AttributesMask bit of Historizing.
pub const MASK_HISTORIZING: u32 = 512;
/// AttributesMask bit of InverseName.
pub const MASK_INVERSE_NAME: u32 = 1024;
/// AttributesMask bit of IsAbstract.
pub const MASK_IS_ABSTRACT: u32 = 2048;
/// AttributesMask bit of MinimumSamplingInterval.
pub const MASK_MINIMUM_SAMPLING_INTERVAL: u32 = 4096;
/// AttributesMask bit of Symmetric.
pub const MASK_SYMMETRIC: u32 = 32768;
/// AttributesMask bit of UserAccessLevel.
pub const MASK_USER_ACCESS_LEVEL: u32 = 65536;
/// AttributesMask bit of UserExecutable.
pub const MASK_USER_EXECUTABLE: u32 = 131072;
/// AttributesMask bit of UserWriteMask.
pub const MASK_USER_WRITE_MASK: u32 = 262144;
/// AttributesMask bit of ValueRank.
pub const MASK_VALUE_RANK: u32 = 524288;
/// AttributesMask bit of WriteMask.
pub const MASK_WRITE_MASK: u32 = 1048576;
/// AttributesMask bit of Value.
pub const MASK_VALUE: u32 = 2097152;
/// Every defined AttributesMask bit.
pub const MASK_ALL: u32 = 4169723;

/// The attributes every node class may specify: Description, DisplayName, WriteMask
/// and UserWriteMask.
pub fn base_attributes_mask() -> (r: u32)
    ensures
        r == MASK_DESCRIPTION | MASK_DISPLAY_NAME | MASK_WRITE_MASK | MASK_USER_WRITE_MASK,
{
    MASK_DESCRIPTION | MASK_DISPLAY_NAME | MASK_WRITE_MASK | MASK_USER_WRITE_MASK
}

/// The attributes of an Object: the base ones and EventNotifier.
pub fn object_attributes_mask() -> (r: u32)
    ensures
        r == base_mask() | MASK_EVENT_NOTIFIER,
{
    base_attributes_mask() | MASK_EVENT_NOTIFIER
}

/// The attributes of a Variable: the base ones, AccessLevel, ArrayDimensions,
/// DataType, Historizing, MinimumSamplingInterval, UserAccessLevel, Value, ValueRank.
pub fn variable_attributes_mask() -> (r: u32)
    ensures
        r == base_mask() | MASK_ACCESS_LEVEL | MASK_ARRAY_DIMENSIONS | MASK_DATA_TYPE | MASK_HISTORIZING
            | MASK_MINIMUM_SAMPLING_INTERVAL | MASK_USER_ACCESS_LEVEL | MASK_VALUE | MASK_VALUE_RANK,
{
    base_attributes_mask() | MASK_ACCESS_LEVEL | MASK_ARRAY_DIMENSIONS | MASK_DATA_TYPE | MASK_HISTORIZING
        | MASK_MINIMUM_SAMPLING_INTERVAL | MASK_USER_ACCESS_LEVEL | MASK_VALUE | MASK_VALUE_RANK
}

/// The attributes of a Method: the base ones, Executable and UserExecutable.
pub fn method_attributes_mask() -> (r: u32)
    ensures
        r == base_mask() | MASK_EXECUTABLE | MASK_USER_EXECUTABLE,
{
    base_attributes_mask() | MASK_EXECUTABLE | MASK_USER_EXECUTABLE
}

/// The attributes of an ObjectType: the base ones and IsAbstract.
pub fn object_type_attributes_mask() -> (r: u32)
    ensures
        r == base_mask() | MASK_IS_ABSTRACT,
{
    base_attributes_mask() | MASK_IS_ABSTRACT
}

/// The attributes of a VariableType: the base ones, ArrayDimensions, DataType,
/// IsAbstract, Value and ValueRank.
pub fn variable_type_attributes_mask() -> (r: u32)
    ensures
        r == base_mask() | MASK_ARRAY_DIMENSIONS | MASK_DATA_TYPE | MASK_IS_ABSTRACT | MASK_VALUE
            | MASK_VALUE_RANK,
{
    base_attributes_mask() | MASK_ARRAY_DIMENSIONS | MASK_DATA_TYPE | MASK_IS_ABSTRACT | MASK_VALUE
        | MASK_VALUE_RANK
}

/// The attributes of a ReferenceType: the base ones, InverseName, IsAbstract, Symmetric.
pub fn reference_type_attributes_mask() -> (r: u32)
    ensures
        r == base_mask() | MASK_INVERSE_NAME | MASK_IS_ABSTRACT | MASK_SYMMETRIC,
{
    base_attributes_mask() | MASK_INVERSE_NAME | MASK_IS_ABSTRACT | MASK_SYMMETRIC
}

/// The attributes of a DataType: the base ones and IsAbstract.
pub fn data_type_attributes_mask() -> (r: u32)
    ensures
        r == base_mask() | MASK_IS_ABSTRACT,
{
    base_attributes_mask() | MASK_IS_ABSTRACT
}

/// The attributes of a View: the base ones, ContainsNoLoops and EventNotifier.
pub fn view_attributes_mask() -> (r: u32)
    ensures
        r == base_mask() | MASK_CONTAINS_NO_LOOPS | MASK_EVENT_NOTIFIER,
{
    base_attributes_mask() | MASK_CONTAINS_NO_LOOPS | MASK_EVENT_NOTIFIER
}

/// The base attributes as a value.
pub open spec fn base_mask() -> u32 {
    MASK_DESCRIPTION | MASK_DISPLAY_NAME | MASK_WRITE_MASK | MASK_USER_WRITE_MASK
}

/// The specified attributes when they are defined bits all allowed for the node class.
pub open spec fn mask_check(specified: u32, allowed: u32) -> Result<u32, StatusCode> {
    if specified & !MASK_ALL != 0 || specified & !allowed != 0 {
        Err(StatusCode::BadNodeAttributesInvalid)
    } else {
        Ok(specified)
    }
}

/// Checks the specified attributes against those the node class allows.
pub fn attributes_mask(specified: u32, allowed: u32) -> (r: Result<u32, StatusCode>)
    ensures
        r == mask_check(specified, allowed),
{
    if specified & !MASK_ALL != 0 || specified & !allowed != 0 {
        Err(StatusCode::BadNodeAttributesInvalid)
    } else {
        Ok(specified)
    }
}

/// Whether `mask` holds the bit `bit`.
pub open spec fn has_bit(mask: u32, bit: u32) -> bool {
    mask & bit == bit
}

/// ArrayDimensions agree with a fixed ValueRank: as many dimensions as the rank.
pub open spec fn array_dimensions_check(value_rank: i32, dimensions: nat) -> Result<(), StatusCode> {
    if value_rank >= 1 && dimensions != value_rank {
        Err(StatusCode::BadNodeAttributesInvalid)
    } else {
        Ok(())
    }
}

/// Checks ArrayDimensions against ValueRank (see [`array_dimensions_check`]).
pub fn validate_array_dimensions(value_rank: i32, array_dimensions: &[u32]) -> (r: Result<(), StatusCode>)
    ensures
        r == array_dimensions_check(value_rank, array_dimensions@.len()),
{
    if value_rank >= 1 && array_dimensions.len() != value_rank as usize {
        Err(StatusCode::BadNodeAttributesInvalid)
    } else {
        Ok(())
    }
}

/// The attributes that an AddNodes item gives for its node, by node class. Each holds
/// the SpecifiedAttributes mask; an empty InverseName is no InverseName.
#[derive(Debug)]
pub enum AddNodeAttributes {
    Unspecified,
    Object { specified: u32 },
    Variable { specified: u32, data_type: NodeId, value_rank: i32, array_dimensions: Option<Vec<u32>> },
    Method { specified: u32 },
    ObjectType { specified: u32, is_abstract: bool },
    VariableType {
        specified: u32,
        data_type: NodeId,
        value_rank: i32,
        array_dimensions: Option<Vec<u32>>,
        is_abstract: bool,
    },
    ReferenceType { specified: u32, is_abstract: bool, symmetric: bool, inverse_name: String },
    DataType { specified: u32, is_abstract: bool },
    View { specified: u32 },
}

/// Mathematical view of [`AddNodeAttributes`].
pub enum AttributesView {
    Unspecified,
    Object { specified: u32 },
    Variable { specified: u32, data_type: NodeIdView, value_rank: i32, array_dimensions: Option<Seq<u32>> },
    Method { specified: u32 },
    ObjectType { specified: u32, is_abstract: bool },
    VariableType {
        specified: u32,
        data_type: NodeIdView,
        value_rank: i32,
        array_dimensions: Option<Seq<u32>>,
        is_abstract: bool,
    },
    ReferenceType { specified: u32, is_abstract: bool, symmetric: bool, inverse_name: Seq<char> },
    DataType { specified: u32, is_abstract: bool },
    View { specified: u32 },
}

/// The view of optional array dimensions.
pub open spec fn opt_dims(d: Option<Vec<u32>>) -> Option<Seq<u32>> {
    match d {
        Some(v) => Some(v@),
        None => None,
    }
}

impl View for AddNodeAttributes {
    type V = AttributesView;

    open spec fn view(&self) -> AttributesView {
        match self {
            AddNodeAttributes::Unspecified => AttributesView::Unspecified,
            AddNodeAttributes::Object { specified } => AttributesView::Object { specified: *specified },
            AddNodeAttributes::Variable { specified, data_type, value_rank, array_dimensions } => AttributesView::Variable {
                specified: *specified,
                data_type: data_type@,
                value_rank: *value_rank,
                array_dimensions: opt_dims(*array_dimensions),
            },
            AddNodeAttributes::Method { specified } => AttributesView::Method { specified: *specified },
            AddNodeAttributes::ObjectType { specified, is_abstract } => AttributesView::ObjectType {
                specified: *specified,
                is_abstract: *is_abstract,
            },
            AddNodeAttributes::VariableType { specified, data_type, value_rank, array_dimensions, is_abstract } => AttributesView::VariableType {
                specified: *specified,
                data_type: data_type@,
                value_rank: *value_rank,
                array_dimensions: opt_dims(*array_dimensions),
                is_abstract: *is_abstract,
            },
            AddNodeAttributes::ReferenceType { specified, is_abstract, symmetric, inverse_name } => AttributesView::ReferenceType {
                specified: *specified,
                is_abstract: *is_abstract,
                symmetric: *symmetric,
                inverse_name: inverse_name@,
            },
            AddNodeAttributes::DataType { specified, is_abstract } => AttributesView::DataType {
                specified: *specified,
                is_abstract: *is_abstract,
            },
            AddNodeAttributes::View { specified } => AttributesView::View { specified: *specified },
        }
    }
}

/// A node of class `class` with the attributes the rules read.
pub open spec fn node_spec(
    id: NodeIdView,
    class: NodeClass,
    browse_name: QualifiedNameView,
    is_abstract: bool,
    data_type: NodeIdView,
    value_rank: i32,
) -> NodeView {
    NodeView {
        id,
        node_class: class,
        browse_name,
        is_abstract,
        data_type,
        value_rank,
        role_permissions: None,
        access_restrictions: None,
        value: NodeValueView::Empty,
        writable: false,
    }
}

/// The null node id as a view.
pub open spec fn null_id() -> NodeIdView {
    numeric_view(0, 0)
}

/// The DataType of a Variable or VariableType: the given one when specified, else
/// `BaseDataType`.
pub open spec fn data_type_of(mask: u32, data_type: NodeIdView) -> NodeIdView {
    if has_bit(mask, MASK_DATA_TYPE) {
        data_type
    } else {
        numeric_view(0, BASE_DATA_TYPE)
    }
}

/// The ValueRank of a Variable or VariableType: the given one when specified, else Scalar.
pub open spec fn value_rank_of(mask: u32, value_rank: i32) -> i32 {
    if has_bit(mask, MASK_VALUE_RANK) {
        value_rank
    } else {
        VALUE_RANK_SCALAR
    }
}

/// The ArrayDimensions check: when specified they must be given and agree with the
/// given ValueRank.
pub open spec fn dims_check(mask: u32, value_rank: i32, dims: Option<Seq<u32>>) -> Result<(), StatusCode> {
    if has_bit(mask, MASK_ARRAY_DIMENSIONS) {
        match dims {
            Some(d) => array_dimensions_check(value_rank, d.len()),
            None => Err(StatusCode::BadNodeAttributesInvalid),
        }
    } else {
        Ok(())
    }
}

/// IsAbstract as specified, else false.
pub open spec fn abstract_of(mask: u32, is_abstract: bool) -> bool {
    has_bit(mask, MASK_IS_ABSTRACT) && is_abstract
}

/// The node an AddNodes item describes, given its id, or why it cannot be built: the
/// attributes must be those of the node class, specify only allowed attributes, give
/// ArrayDimensions that agree with the ValueRank, and a symmetric ReferenceType must
/// not have an InverseName. Other node classes and nodes have neither DataType
/// (null) nor a ValueRank other than Scalar.
pub open spec fn node_built(
    class: NodeClass,
    attributes: AttributesView,
    browse_name: QualifiedNameView,
    id: NodeIdView,
) -> Result<NodeView, StatusCode> {
    match (class, attributes) {
        (NodeClass::Object, AttributesView::Object { specified }) => match mask_check(specified, base_mask() | MASK_EVENT_NOTIFIER) {
            Err(e) => Err(e),
            Ok(_) => Ok(node_spec(id, class, browse_name, false, null_id(), VALUE_RANK_SCALAR)),
        },
        (NodeClass::Variable, AttributesView::Variable { specified, data_type, value_rank, array_dimensions }) => match mask_check(
            specified,
            base_mask() | MASK_ACCESS_LEVEL | MASK_ARRAY_DIMENSIONS | MASK_DATA_TYPE | MASK_HISTORIZING
                | MASK_MINIMUM_SAMPLING_INTERVAL | MASK_USER_ACCESS_LEVEL | MASK_VALUE | MASK_VALUE_RANK,
        ) {
            Err(e) => Err(e),
            Ok(_) => match dims_check(specified, value_rank, array_dimensions) {
                Err(e) => Err(e),
                Ok(_) => Ok(node_spec(id, class, browse_name, false, data_type_of(specified, data_type), value_rank_of(specified, value_rank))),
            },
        },
        (NodeClass::Method, AttributesView::Method { specified }) => match mask_check(specified, base_mask() | MASK_EXECUTABLE | MASK_USER_EXECUTABLE) {
            Err(e) => Err(e),
            Ok(_) => Ok(node_spec(id, class, browse_name, false, null_id(), VALUE_RANK_SCALAR)),
        },
        (NodeClass::ObjectType, AttributesView::ObjectType { specified, is_abstract }) => match mask_check(specified, base_mask() | MASK_IS_ABSTRACT) {
            Err(e) => Err(e),
            Ok(_) => Ok(node_spec(id, class, browse_name, abstract_of(specified, is_abstract), null_id(), VALUE_RANK_SCALAR)),
        },
        (NodeClass::VariableType, AttributesView::VariableType { specified, data_type, value_rank, array_dimensions, is_abstract }) => match mask_check(
            specified,
            base_mask() | MASK_ARRAY_DIMENSIONS | MASK_DATA_TYPE | MASK_IS_ABSTRACT | MASK_VALUE | MASK_VALUE_RANK,
        ) {
            Err(e) => Err(e),
            Ok(_) => match dims_check(specified, value_rank, array_dimensions) {
                Err(e) => Err(e),
                Ok(_) => Ok(node_spec(id, class, browse_name, abstract_of(specified, is_abstract), data_type_of(specified, data_type), value_rank_of(specified, value_rank))),
            },
        },
        (NodeClass::ReferenceType, AttributesView::ReferenceType { specified, is_abstract, symmetric, inverse_name }) => match mask_check(
            specified,
            base_mask() | MASK_INVERSE_NAME | MASK_IS_ABSTRACT | MASK_SYMMETRIC,
        ) {
            Err(e) => Err(e),
            Ok(_) => if has_bit(specified, MASK_SYMMETRIC) && symmetric && has_bit(specified, MASK_INVERSE_NAME) && inverse_name.len() > 0 {
                Err(StatusCode::BadNodeAttributesInvalid)
            } else {
                Ok(node_spec(id, class, browse_name, abstract_of(specified, is_abstract), null_id(), VALUE_RANK_SCALAR))
            },
        },
        (NodeClass::DataType, AttributesView::DataType { specified, is_abstract }) => match mask_check(specified, base_mask() | MASK_IS_ABSTRACT) {
            Err(e) => Err(e),
            Ok(_) => Ok(node_spec(id, class, browse_name, abstract_of(specified, is_abstract), null_id(), VALUE_RANK_SCALAR)),
        },
        (NodeClass::View, AttributesView::View { specified }) => match mask_check(specified, base_mask() | MASK_CONTAINS_NO_LOOPS | MASK_EVENT_NOTIFIER) {
            Err(e) => Err(e),
            Ok(_) => Ok(node_spec(id, class, browse_name, false, null_id(), VALUE_RANK_SCALAR)),
        },
        (NodeClass::Unspecified, _) => Err(StatusCode::BadNodeClassInvalid),
        _ => Err(StatusCode::BadNodeAttributesInvalid),
    }
}

fn new_node(id: &NodeId, class: NodeClass, browse_name: &QualifiedName, is_abstract: bool, data_type: NodeId, value_rank: i32) -> (r: Node)
    ensures
        r@ == node_spec(id@, class, browse_name@, is_abstract, data_type@, value_rank),
{
    Node {
        node_id: id.duplicate(),
        node_class: class,
        browse_name: browse_name.duplicate(),
        is_abstract,
        data_type,
        value_rank,
        role_permissions: None,
        access_restrictions: None,
        value: NodeValue::Empty,
        writable: false,
    }
}

fn specified_data_type(mask: u32, data_type: &NodeId) -> (r: NodeId)
    ensures
        r@ == data_type_of(mask, data_type@),
{
    if mask & MASK_DATA_TYPE == MASK_DATA_TYPE {
        data_type.duplicate()
    } else {
        NodeId::numeric(0, BASE_DATA_TYPE)
    }
}

fn specified_value_rank(mask: u32, value_rank: i32) -> (r: i32)
    ensures
        r == value_rank_of(mask, value_rank),
{
    if mask & MASK_VALUE_RANK == MASK_VALUE_RANK {
        value_rank
    } else {
        VALUE_RANK_SCALAR
    }
}

fn check_dimensions(mask: u32, value_rank: i32, dims: &Option<Vec<u32>>) -> (r: Result<(), StatusCode>)
    ensures
        r == dims_check(mask, value_rank, opt_dims(*dims)),
{
    if mask & MASK_ARRAY_DIMENSIONS == MASK_ARRAY_DIMENSIONS {
        match dims {
            Some(d) => validate_array_dimensions(value_rank, d.as_slice()),
            None => Err(StatusCode::BadNodeAttributesInvalid),
        }
    } else {
        Ok(())
    }
}

/// The node an AddNodes item describes (see [`node_built`]).
pub fn build_node(
    class: NodeClass,
    attributes: &AddNodeAttributes,
    browse_name: &QualifiedName,
    id: &NodeId,
) -> (r: Result<Node, StatusCode>)
    ensures
        match r {
            Ok(n) => node_built(class, attributes@, browse_name@, id@) == Ok::<NodeView, StatusCode>(n@),
            Err(e) => node_built(class, attributes@, browse_name@, id@) == Err::<NodeView, StatusCode>(e),
        },
{
    match (class, attributes) {
        (NodeClass::Object, AddNodeAttributes::Object { specified }) => {
            attributes_mask(*specified, object_attributes_mask())?;
            Ok(new_node(id, class, browse_name, false, NodeId::null(), VALUE_RANK_SCALAR))
        },
        (NodeClass::Variable, AddNodeAttributes::Variable { specified, data_type, value_rank, array_dimensions }) => {
            attributes_mask(*specified, variable_attributes_mask())?;
            check_dimensions(*specified, *value_rank, array_dimensions)?;
            Ok(new_node(id, class, browse_name, false, specified_data_type(*specified, data_type), specified_value_rank(*specified, *value_rank)))
        },
        (NodeClass::Method, AddNodeAttributes::Method { specified }) => {
            attributes_mask(*specified, method_attributes_mask())?;
            Ok(new_node(id, class, browse_name, false, NodeId::null(), VALUE_RANK_SCALAR))
        },
        (NodeClass::ObjectType, AddNodeAttributes::ObjectType { specified, is_abstract }) => {
            attributes_mask(*specified, object_type_attributes_mask())?;
            let a = *specified & MASK_IS_ABSTRACT == MASK_IS_ABSTRACT && *is_abstract;
            Ok(new_node(id, class, browse_name, a, NodeId::null(), VALUE_RANK_SCALAR))
        },
        (NodeClass::VariableType, AddNodeAttributes::VariableType { specified, data_type, value_rank, array_dimensions, is_abstract }) => {
            attributes_mask(*specified, variable_type_attributes_mask())?;
            check_dimensions(*specified, *value_rank, array_dimensions)?;
            let a = *specified & MASK_IS_ABSTRACT == MASK_IS_ABSTRACT && *is_abstract;
            Ok(new_node(id, class, browse_name, a, specified_data_type(*specified, data_type), specified_value_rank(*specified, *value_rank)))
        },
        (NodeClass::ReferenceType, AddNodeAttributes::ReferenceType { specified, is_abstract, symmetric, inverse_name }) => {
            attributes_mask(*specified, reference_type_attributes_mask())?;
            if *specified & MASK_SYMMETRIC == MASK_SYMMETRIC && *symmetric && *specified & MASK_INVERSE_NAME
                == MASK_INVERSE_NAME && !inverse_name.as_str().is_empty() {
                return Err(StatusCode::BadNodeAttributesInvalid);
            }
            let a = *specified & MASK_IS_ABSTRACT == MASK_IS_ABSTRACT && *is_abstract;
            Ok(new_node(id, class, browse_name, a, NodeId::null(), VALUE_RANK_SCALAR))
        },
        (NodeClass::DataType, AddNodeAttributes::DataType { specified, is_abstract }) => {
            attributes_mask(*specified, data_type_attributes_mask())?;
            let a = *specified & MASK_IS_ABSTRACT == MASK_IS_ABSTRACT && *is_abstract;
            Ok(new_node(id, class, browse_name, a, NodeId::null(), VALUE_RANK_SCALAR))
        },
        (NodeClass::View, AddNodeAttributes::View { specified }) => {
            attributes_mask(*specified, view_attributes_mask())?;
            Ok(new_node(id, class, browse_name, false, NodeId::null(), VALUE_RANK_SCALAR))
        },
        (NodeClass::Unspecified, _) => Err(StatusCode::BadNodeClassInvalid),
        _ => Err(StatusCode::BadNodeAttributesInvalid),
    }
}

} // verus!
