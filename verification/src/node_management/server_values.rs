//! The values the core node manager serves for the configured limits of the server:
//! the ServerCapabilities limits, the operation limits and the history capabilities,
//! each chosen by the numeric id of its Variable in namespace 0.

use vstd::prelude::*;
use crate::address_space::max_namespace_index;
use crate::node_id::{Identifier, IdentifierView, NodeId, NodeIdView};

verus! {

/// The configured limits of the server that its capability variables publish.
#[derive(Debug, Clone, Copy)]
pub struct ServerLimits {
    pub max_array_length: usize,
    pub max_browse_continuation_points: usize,
    pub max_byte_string_length: usize,
    pub max_history_continuation_points: usize,
    pub max_query_continuation_points: usize,
    pub max_string_length: usize,
    pub max_monitored_items_per_call: usize,
    pub max_nodes_per_browse: usize,
    pub max_nodes_per_history_read_data: usize,
    pub max_nodes_per_history_read_events: usize,
    pub max_nodes_per_history_update: usize,
    pub max_nodes_per_method_call: usize,
    pub max_nodes_per_node_management: usize,
    pub max_nodes_per_read: usize,
    pub max_nodes_per_register_nodes: usize,
    pub max_nodes_per_translate_browse_paths_to_node_ids: usize,
    pub max_nodes_per_write: usize,
}

/// The optional services the server was built with: a service that is left out
/// publishes 0 for its limits.
#[derive(Debug, Clone, Copy)]
pub struct ServerFeatures {
    pub history: bool,
    pub query: bool,
    pub method_call: bool,
    pub node_management: bool,
}

/// The history capabilities of the server.
#[derive(Debug, Clone, Copy)]
pub struct HistoryCapabilities {
    pub access_history_data: bool,
    pub access_history_events: bool,
    pub delete_at_time: bool,
    pub delete_event: bool,
    pub delete_raw: bool,
    pub insert_annotation: bool,
    pub insert_data: bool,
    pub insert_event: bool,
    pub max_return_data_values: u32,
    pub max_return_event_values: u32,
    pub replace_data: bool,
    pub replace_event: bool,
    pub server_timestamp_supported: bool,
    pub update_data: bool,
    pub update_event: bool,
}

/// A value served for a capability variable.
#[derive(Debug, Clone, Copy, PartialEq, Eq, Structural)]
pub enum ServerValue {
    UInt16(u16),
    UInt32(u32),
    Boolean(bool),
}

/// The history capabilities of a server without the history service: all off.
pub open spec fn history_off() -> HistoryCapabilities {
    HistoryCapabilities {
        access_history_data: false,
        access_history_events: false,
        delete_at_time: false,
        delete_event: false,
        delete_raw: false,
        insert_annotation: false,
        insert_data: false,
        insert_event: false,
        max_return_data_values: 0,
        max_return_event_values: 0,
        replace_data: false,
        replace_event: false,
        server_timestamp_supported: false,
        update_data: false,
        update_event: false,
    }
}

/// A limit that only a built-in service publishes: 0 without it.
pub open spec fn gated(enabled: bool, limit: usize) -> u32 {
    if enabled { limit as u32 } else { 0 }
}

/// The value served for the capability variable with numeric id `v` in namespace 0:
/// a limit as UInt32 (browse, history and query continuation points as UInt16, cut
/// to the width of the type), or a history capability; `None` for any other id.
pub open spec fn capability_value(v: u32, l: ServerLimits, f: ServerFeatures, h0: HistoryCapabilities) -> Option<ServerValue> {
    let h = if f.history { h0 } else { history_off() };
    if v == 11702 {
        Some(ServerValue::UInt32(l.max_array_length as u32))
    } else if v == 2735 {
        Some(ServerValue::UInt16(l.max_browse_continuation_points as u16))
    } else if v == 12911 {
        Some(ServerValue::UInt32(l.max_byte_string_length as u32))
    } else if v == 2737 {
        Some(ServerValue::UInt16(if f.history { l.max_history_continuation_points as u16 } else { 0 }))
    } else if v == 2736 {
        Some(ServerValue::UInt16(if f.query { l.max_query_continuation_points as u16 } else { 0 }))
    } else if v == 11703 {
        Some(ServerValue::UInt32(l.max_string_length as u32))
    } else if v == 11714 {
        Some(ServerValue::UInt32(l.max_monitored_items_per_call as u32))
    } else if v == 11710 {
        Some(ServerValue::UInt32(l.max_nodes_per_browse as u32))
    } else if v == 12165 {
        Some(ServerValue::UInt32(gated(f.history, l.max_nodes_per_history_read_data)))
    } else if v == 12166 {
        Some(ServerValue::UInt32(gated(f.history, l.max_nodes_per_history_read_events)))
    } else if v == 12167 || v == 12168 {
        Some(ServerValue::UInt32(gated(f.history, l.max_nodes_per_history_update)))
    } else if v == 11709 {
        Some(ServerValue::UInt32(gated(f.method_call, l.max_nodes_per_method_call)))
    } else if v == 11713 {
        Some(ServerValue::UInt32(gated(f.node_management, l.max_nodes_per_node_management)))
    } else if v == 11705 {
        Some(ServerValue::UInt32(l.max_nodes_per_read as u32))
    } else if v == 11711 {
        Some(ServerValue::UInt32(l.max_nodes_per_register_nodes as u32))
    } else if v == 11712 {
        Some(ServerValue::UInt32(l.max_nodes_per_translate_browse_paths_to_node_ids as u32))
    } else if v == 11707 {
        Some(ServerValue::UInt32(l.max_nodes_per_write as u32))
    } else if v == 11193 {
        Some(ServerValue::Boolean(h.access_history_data))
    } else if v == 11242 {
        Some(ServerValue::Boolean(h.access_history_events))
    } else if v == 11200 {
        Some(ServerValue::Boolean(h.delete_at_time))
    } else if v == 11502 {
        Some(ServerValue::Boolean(h.delete_event))
    } else if v == 11199 {
        Some(ServerValue::Boolean(h.delete_raw))
    } else if v == 11275 {
        Some(ServerValue::Boolean(h.insert_annotation))
    } else if v == 11196 {
        Some(ServerValue::Boolean(h.insert_data))
    } else if v == 11281 {
        Some(ServerValue::Boolean(h.insert_event))
    } else if v == 11273 {
        Some(ServerValue::UInt32(h.max_return_data_values))
    } else if v == 11274 {
        Some(ServerValue::UInt32(h.max_return_event_values))
    } else if v == 11197 {
        Some(ServerValue::Boolean(h.replace_data))
    } else if v == 11282 {
        Some(ServerValue::Boolean(h.replace_event))
    } else if v == 19091 {
        Some(ServerValue::Boolean(h.server_timestamp_supported))
    } else if v == 11198 {
        Some(ServerValue::Boolean(h.update_data))
    } else if v == 11283 {
        Some(ServerValue::Boolean(h.update_event))
    } else {
        None
    }
}

/// The value served for the node `id`, when it is a capability variable (a numeric
/// id in namespace 0, see [`capability_value`]).
pub open spec fn server_capability_value(id: NodeIdView, l: ServerLimits, f: ServerFeatures, h: HistoryCapabilities) -> Option<ServerValue> {
    match id.identifier {
        IdentifierView::Numeric(v) => if id.namespace == 0 {
            capability_value(v, l, f, h)
        } else {
            None
        },
        _ => None,
    }
}

fn gate(enabled: bool, limit: usize) -> (r: u32)
    ensures
        r == gated(enabled, limit),
{
    if enabled {
        limit as u32
    } else {
        0
    }
}

fn history_or_off(f: &ServerFeatures, h: &HistoryCapabilities) -> (r: HistoryCapabilities)
    ensures
        r == (if f.history { *h } else { history_off() }),
{
    if f.history {
        *h
    } else {
        HistoryCapabilities {
            access_history_data: false,
            access_history_events: false,
            delete_at_time: false,
            delete_event: false,
            delete_raw: false,
            insert_annotation: false,
            insert_data: false,
            insert_event: false,
            max_return_data_values: 0,
            max_return_event_values: 0,
            replace_data: false,
            replace_event: false,
            server_timestamp_supported: false,
            update_data: false,
            update_event: false,
        }
    }
}

/// The value the core node manager serves for a capability variable (see
/// [`server_capability_value`]); `None` for any other node.
pub fn read_server_value(
    node_id: &NodeId,
    limits: &ServerLimits,
    features: &ServerFeatures,
    history: &HistoryCapabilities,
) -> (r: Option<ServerValue>)
    ensures
        r == server_capability_value(node_id@, *limits, *features, *history),
{
    let v: u32 = match node_id.identifier {
        Identifier::Numeric(v) => v,
        _ => {
            return None;
        },
    };
    if node_id.namespace != 0 {
        return None;
    }
    let l = limits;
    let f = features;
    let h = history_or_off(features, history);
    if v == 11702 {
        Some(ServerValue::UInt32(l.max_array_length as u32))
    } else if v == 2735 {
        Some(ServerValue::UInt16(l.max_browse_continuation_points as u16))
    } else if v == 12911 {
        Some(ServerValue::UInt32(l.max_byte_string_length as u32))
    } else if v == 2737 {
        Some(ServerValue::UInt16(if f.history { l.max_history_continuation_points as u16 } else { 0 }))
    } else if v == 2736 {
        Some(ServerValue::UInt16(if f.query { l.max_query_continuation_points as u16 } else { 0 }))
    } else if v == 11703 {
        Some(ServerValue::UInt32(l.max_string_length as u32))
    } else if v == 11714 {
        Some(ServerValue::UInt32(l.max_monitored_items_per_call as u32))
    } else if v == 11710 {
        Some(ServerValue::UInt32(l.max_nodes_per_browse as u32))
    } else if v == 12165 {
        Some(ServerValue::UInt32(gate(f.history, l.max_nodes_per_history_read_data)))
    } else if v == 12166 {
        Some(ServerValue::UInt32(gate(f.history, l.max_nodes_per_history_read_events)))
    } else if v == 12167 || v == 12168 {
        Some(ServerValue::UInt32(gate(f.history, l.max_nodes_per_history_update)))
    } else if v == 11709 {
        Some(ServerValue::UInt32(gate(f.method_call, l.max_nodes_per_method_call)))
    } else if v == 11713 {
        Some(ServerValue::UInt32(gate(f.node_management, l.max_nodes_per_node_management)))
    } else if v == 11705 {
        Some(ServerValue::UInt32(l.max_nodes_per_read as u32))
    } else if v == 11711 {
        Some(ServerValue::UInt32(l.max_nodes_per_register_nodes as u32))
    } else if v == 11712 {
        Some(ServerValue::UInt32(l.max_nodes_per_translate_browse_paths_to_node_ids as u32))
    } else if v == 11707 {
        Some(ServerValue::UInt32(l.max_nodes_per_write as u32))
    } else if v == 11193 {
        Some(ServerValue::Boolean(h.access_history_data))
    } else if v == 11242 {
        Some(ServerValue::Boolean(h.access_history_events))
    } else if v == 11200 {
        Some(ServerValue::Boolean(h.delete_at_time))
    } else if v == 11502 {
        Some(ServerValue::Boolean(h.delete_event))
    } else if v == 11199 {
        Some(ServerValue::Boolean(h.delete_raw))
    } else if v == 11275 {
        Some(ServerValue::Boolean(h.insert_annotation))
    } else if v == 11196 {
        Some(ServerValue::Boolean(h.insert_data))
    } else if v == 11281 {
        Some(ServerValue::Boolean(h.insert_event))
    } else if v == 11273 {
        Some(ServerValue::UInt32(h.max_return_data_values))
    } else if v == 11274 {
        Some(ServerValue::UInt32(h.max_return_event_values))
    } else if v == 11197 {
        Some(ServerValue::Boolean(h.replace_data))
    } else if v == 11282 {
        Some(ServerValue::Boolean(h.replace_event))
    } else if v == 19091 {
        Some(ServerValue::Boolean(h.server_timestamp_supported))
    } else if v == 11198 {
        Some(ServerValue::Boolean(h.update_data))
    } else if v == 11283 {
        Some(ServerValue::Boolean(h.update_event))
    } else {
        None
    }
}

/// The URI that the last of `entries` with index `idx` gives, if any: when several
/// node managers report the same index, the later one wins.
pub open spec fn last_uri(entries: Seq<(u16, Seq<char>)>, idx: int) -> Option<Seq<char>>
    decreases entries.len(),
{
    if entries.len() == 0 {
        None
    } else if entries.last().0 == idx {
        Some(entries.last().1)
    } else {
        last_uri(entries.drop_last(), idx)
    }
}

/// The NamespaceArray for the namespaces that the node managers report: one URI per
/// index from 0 to the largest, with an empty string for an index that none reports.
pub open spec fn namespace_array_spec(entries: Seq<(u16, Seq<char>)>) -> Option<Seq<Seq<char>>> {
    if entries.len() == 0 {
        None
    } else {
        Some(Seq::new((max_namespace_index(entries) + 1) as nat, |i: int| match last_uri(entries, i) {
            Some(u) => u,
            None => Seq::empty(),
        }))
    }
}

fn uri_at(entries: &[(u16, String)], idx: u16) -> (r: String)
    ensures
        r@ == match last_uri(entries@.map_values(|e: (u16, String)| (e.0, e.1@)), idx as int) {
            Some(u) => u,
            None => Seq::empty(),
        },
{
    let ghost v = entries@.map_values(|e: (u16, String)| (e.0, e.1@));
    let mut k: usize = entries.len();
    assert(v.take(k as int) =~= v);
    while k > 0
        invariant
            k <= entries.len(),
            v == entries@.map_values(|e: (u16, String)| (e.0, e.1@)),
            last_uri(v, idx as int) == last_uri(v.take(k as int), idx as int),
        decreases k,
    {
        let e = &entries[k - 1];
        assert(v.take(k as int).last() == (e.0, e.1@));
        assert(v.take(k as int).drop_last() =~= v.take(k - 1));
        if e.0 == idx {
            return e.1.clone();
        }
        k = k - 1;
    }
    assert(v.take(0) =~= Seq::<(u16, Seq<char>)>::empty());
    String::new()
}

/// The NamespaceArray of the server (see [`namespace_array_spec`]): `None` when no node
/// manager reports a namespace.
pub fn namespace_array(entries: &[(u16, String)]) -> (r: Option<Vec<String>>)
    ensures
        match (r, namespace_array_spec(entries@.map_values(|e: (u16, String)| (e.0, e.1@)))) {
            (None, None) => true,
            (Some(v), Some(s)) => v@.map_values(|x: String| x@) == s,
            _ => false,
        },
{
    let ghost v = entries@.map_values(|e: (u16, String)| (e.0, e.1@));
    if entries.len() == 0 {
        return None;
    }
    let mut max: u16 = 0;
    let mut k: usize = 0;
    while k < entries.len()
        invariant
            0 < entries.len(),
            k <= entries.len(),
            v == entries@.map_values(|e: (u16, String)| (e.0, e.1@)),
            max == max_namespace_index(v.take(k as int)),
        decreases entries.len() - k,
    {
        assert(v.take(k + 1).drop_last() =~= v.take(k as int));
        assert(v.take(k + 1).last() == v[k as int]);
        if entries[k].0 > max {
            max = entries[k].0;
        }
        k = k + 1;
    }
    assert(v.take(entries.len() as int) =~= v);
    let mut out: Vec<String> = Vec::new();
    let mut idx: u32 = 0;
    while idx <= max as u32
        invariant
            idx <= max as u32 + 1,
            max == max_namespace_index(v),
            v == entries@.map_values(|e: (u16, String)| (e.0, e.1@)),
            out@.len() == idx,
            forall|i: int| 0 <= i < idx ==> (#[trigger] out@[i])@ == match last_uri(v, i) {
                Some(u) => u,
                None => Seq::<char>::empty(),
            },
        decreases max as u32 + 1 - idx,
    {
        out.push(uri_at(entries, idx as u16));
        idx = idx + 1;
    }
    let ghost s = namespace_array_spec(v)->Some_0;
    assert(out@.map_values(|x: String| x@) =~= s);
    Some(out)
}

/// Without the history service every history capability is off and every history
/// limit is 0, whatever the configuration.
pub proof fn law_history_off_without_history_service(
    v: u32,
    l: ServerLimits,
    f: ServerFeatures,
    h: HistoryCapabilities,
)
    requires
        !f.history,
        v == 2737 || v == 12165 || v == 12166 || v == 12167 || v == 12168 || v == 11273 || v == 11274 || v == 11193
            || v == 11242 || v == 11200 || v == 11502 || v == 11199 || v == 11275 || v == 11196 || v == 11281
            || v == 11197 || v == 11282 || v == 19091 || v == 11198 || v == 11283,
    ensures
        capability_value(v, l, f, h) == Some(ServerValue::UInt16(0)) || capability_value(v, l, f, h) == Some(
            ServerValue::UInt32(0),
        ) || capability_value(v, l, f, h) == Some(ServerValue::Boolean(false)),
{
}

} // verus!
