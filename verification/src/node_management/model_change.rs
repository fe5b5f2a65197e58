//! The fields of the server's GeneralModelChangeEvent that event filters can select.

use vstd::prelude::*;
use crate::address_space::{QualifiedName, QualifiedNameView};

verus! {

/// A field of a GeneralModelChangeEvent.
#[derive(Debug, Clone, Copy, PartialEq, Eq, Structural)]
pub enum ModelChangeField {
    EventId,
    EventType,
    SourceNode,
    SourceName,
    Time,
    ReceiveTime,
    Message,
    Severity,
    Changes,
}

/// The field an event filter selects: only the Value attribute of a one-element browse
/// path naming a field (by its name, whatever its namespace) selects one; anything else
/// selects nothing (the empty value).
pub open spec fn selected_field(attribute_is_value: bool, path: Seq<QualifiedNameView>) -> Option<ModelChangeField> {
    if !attribute_is_value || path.len() != 1 {
        None
    } else {
        let name = path[0].name;
        if name == "EventId"@ {
            Some(ModelChangeField::EventId)
        } else if name == "EventType"@ {
            Some(ModelChangeField::EventType)
        } else if name == "SourceNode"@ {
            Some(ModelChangeField::SourceNode)
        } else if name == "SourceName"@ {
            Some(ModelChangeField::SourceName)
        } else if name == "Time"@ {
            Some(ModelChangeField::Time)
        } else if name == "ReceiveTime"@ {
            Some(ModelChangeField::ReceiveTime)
        } else if name == "Message"@ {
            Some(ModelChangeField::Message)
        } else if name == "Severity"@ {
            Some(ModelChangeField::Severity)
        } else if name == "Changes"@ {
            Some(ModelChangeField::Changes)
        } else {
            None
        }
    }
}

fn text_is(s: &String, literal: &str) -> (r: bool)
    ensures
        r == (s@ == literal@),
{
    *s == literal.to_owned()
}

/// The field an event filter selects (see [`selected_field`]).
pub fn model_change_field(attribute_is_value: bool, path: &[QualifiedName]) -> (r: Option<ModelChangeField>)
    ensures
        r == selected_field(attribute_is_value, path@.map_values(|q: QualifiedName| q@)),
{
    if !attribute_is_value || path.len() != 1 {
        return None;
    }
    let name = &path[0].name;
    assert(path@.map_values(|q: QualifiedName| q@)[0].name == name@);
    if text_is(name, "EventId") {
        Some(ModelChangeField::EventId)
    } else if text_is(name, "EventType") {
        Some(ModelChangeField::EventType)
    } else if text_is(name, "SourceNode") {
        Some(ModelChangeField::SourceNode)
    } else if text_is(name, "SourceName") {
        Some(ModelChangeField::SourceName)
    } else if text_is(name, "Time") {
        Some(ModelChangeField::Time)
    } else if text_is(name, "ReceiveTime") {
        Some(ModelChangeField::ReceiveTime)
    } else if text_is(name, "Message") {
        Some(ModelChangeField::Message)
    } else if text_is(name, "Severity") {
        Some(ModelChangeField::Severity)
    } else if text_is(name, "Changes") {
        Some(ModelChangeField::Changes)
    } else {
        None
    }
}

} // verus!
