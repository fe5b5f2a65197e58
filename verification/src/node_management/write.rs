//! Writes to variables of the simple node manager: what a validated write does next.

use vstd::prelude::*;
use crate::address_space::NodeClass;

verus! {

/// `BadNotWritable`, as raw bits.
pub const STATUS_BAD_NOT_WRITABLE: u32 = 0x803B_0000;
/// `BadNothingToDo`, as raw bits.
pub const STATUS_BAD_NOTHING_TO_DO: u32 = 0x800F_0000;

/// The next step of a write.
#[derive(Debug, PartialEq, Eq)]
pub enum WriteStep {
    /// The write ends with this status (raw bits).
    Finish(u32),
    /// The node's write callback decides the status.
    CallCallback,
    /// The value is written into the node.
    WriteValue,
}

/// The step of a write whose validation gave `validated` (the node's class, or the
/// refusal): a refused write ends with the refusal; only the Value attribute of a
/// Variable is written (else `BadNotWritable`); a node with a write callback leaves it to
/// the callback; otherwise a given value is written, and a write without a value is
/// `BadNothingToDo`.
pub open spec fn write_step_spec(
    validated: Result<NodeClass, u32>,
    attribute_is_value: bool,
    has_callback: bool,
    has_value: bool,
) -> WriteStep {
    match validated {
        Err(status) => WriteStep::Finish(status),
        Ok(class) => if class != NodeClass::Variable || !attribute_is_value {
            WriteStep::Finish(STATUS_BAD_NOT_WRITABLE)
        } else if has_callback {
            WriteStep::CallCallback
        } else if has_value {
            WriteStep::WriteValue
        } else {
            WriteStep::Finish(STATUS_BAD_NOTHING_TO_DO)
        },
    }
}

/// The step of a write (see [`write_step_spec`]).
pub fn write_step(
    validated: Result<NodeClass, u32>,
    attribute_is_value: bool,
    has_callback: bool,
    has_value: bool,
) -> (r: WriteStep)
    ensures
        r == write_step_spec(validated, attribute_is_value, has_callback, has_value),
{
    match validated {
        Err(status) => WriteStep::Finish(status),
        Ok(class) => {
            if !matches!(class, NodeClass::Variable) || !attribute_is_value {
                WriteStep::Finish(STATUS_BAD_NOT_WRITABLE)
            } else if has_callback {
                WriteStep::CallCallback
            } else if has_value {
                WriteStep::WriteValue
            } else {
                WriteStep::Finish(STATUS_BAD_NOTHING_TO_DO)
            }
        },
    }
}

/// Whether a status (raw bits) is good: its severity bits are clear.
pub open spec fn status_is_good(status: u32) -> bool {
    status & 0xC000_0000 == 0
}

/// Whether subscribers are told of the new value: exactly when the write ended good.
pub fn notifies_data_change(status: u32) -> (r: bool)
    ensures
        r == status_is_good(status),
{
    status & 0xC000_0000 == 0
}


/// Only the Value of a Variable is ever written, and a registered write callback always
/// decides such a write: with a callback the step is `CallCallback` whether or not the
/// request carries a value; the value goes straight into the node only when there is no
/// callback and a value is given; a refused validation ends with its own status.
pub proof fn law_write_callback_decides(
    validated: Result<NodeClass, u32>,
    attribute_is_value: bool,
    has_callback: bool,
    has_value: bool,
)
    ensures
        (validated matches Ok(c) && c == NodeClass::Variable && attribute_is_value && has_callback) ==> write_step_spec(
            validated,
            attribute_is_value,
            has_callback,
            has_value,
        ) == WriteStep::CallCallback,
        (write_step_spec(validated, attribute_is_value, has_callback, has_value) == WriteStep::WriteValue) <==> (
        validated matches Ok(c) && c == NodeClass::Variable && attribute_is_value && !has_callback && has_value),
        (write_step_spec(validated, attribute_is_value, has_callback, has_value) == WriteStep::CallCallback) <==> (
        validated matches Ok(c) && c == NodeClass::Variable && attribute_is_value && has_callback),
        validated matches Err(status) ==> write_step_spec(validated, attribute_is_value, has_callback, has_value)
            == WriteStep::Finish(status),
        has_callback ==> write_step_spec(validated, attribute_is_value, has_callback, true) == write_step_spec(
            validated,
            attribute_is_value,
            has_callback,
            false,
        ),
{
}

} // verus!
