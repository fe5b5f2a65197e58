//! HistoryUpdate in the simple node manager: what each node of a request reports, from
//! the history backend's reply (the backend itself is the application's).

use vstd::prelude::*;
use crate::node_id::NodeId;

verus! {

/// The status code `Good`, as raw bits.
pub const STATUS_GOOD: u32 = 0;
/// The status code `BadHistoryOperationUnsupported`, as raw bits.
pub const STATUS_BAD_HISTORY_OPERATION_UNSUPPORTED: u32 = 0x8072_0000;

/// A history backend's reply to one HistoryUpdate operation: per-value results for the
/// update and delete-at-time/delete-event operations, or a single status for
/// delete-raw-modified. Status codes are raw bits.
#[derive(Debug)]
pub enum BackendReply {
    Results(Result<Vec<u32>, u32>),
    Status(Result<u32, u32>),
}

/// What a node of a HistoryUpdate request reports: its status and, when the backend
/// gave them, the per-value operation results.
#[derive(Debug)]
pub struct HistoryUpdateOutcome {
    pub status: u32,
    pub operation_results: Option<Vec<u32>>,
}

/// The outcome of every node of a request when no history backend is set: the operation
/// is unsupported.
pub fn history_update_without_backend(count: usize) -> (r: Vec<HistoryUpdateOutcome>)
    ensures
        r@.len() == count,
        forall|i: int|
            0 <= i < count ==> (#[trigger] r@[i]).status == STATUS_BAD_HISTORY_OPERATION_UNSUPPORTED
                && r@[i].operation_results is None,
{
    let mut r: Vec<HistoryUpdateOutcome> = Vec::new();
    let mut i: usize = 0;
    while i < count
        invariant
            i <= count,
            r@.len() == i,
            forall|j: int|
                0 <= j < i ==> (#[trigger] r@[j]).status == STATUS_BAD_HISTORY_OPERATION_UNSUPPORTED
                    && r@[j].operation_results is None,
        decreases count - i,
    {
        r.push(HistoryUpdateOutcome { status: STATUS_BAD_HISTORY_OPERATION_UNSUPPORTED, operation_results: None });
        i = i + 1;
    }
    r
}

/// The outcome of a node from the backend's reply: results make the node `Good` with
/// those results; an error status, or the single status of delete-raw-modified, is the
/// node's status, with no results.
pub fn history_update_outcome(reply: BackendReply) -> (r: HistoryUpdateOutcome)
    ensures
        match reply {
            BackendReply::Results(Ok(results)) => r.status == STATUS_GOOD && r.operation_results == Some(
                results,
            ),
            BackendReply::Results(Err(status)) => r.status == status && r.operation_results is None,
            BackendReply::Status(Ok(status)) => r.status == status && r.operation_results is None,
            BackendReply::Status(Err(status)) => r.status == status && r.operation_results is None,
        },
{
    match reply {
        BackendReply::Results(Ok(results)) => HistoryUpdateOutcome {
            status: STATUS_GOOD,
            operation_results: Some(results),
        },
        BackendReply::Results(Err(status)) => HistoryUpdateOutcome { status, operation_results: None },
        BackendReply::Status(Ok(status)) => HistoryUpdateOutcome { status, operation_results: None },
        BackendReply::Status(Err(status)) => HistoryUpdateOutcome { status, operation_results: None },
    }
}

/// How an update operation treats existing history entries.
#[derive(Debug, Clone, Copy, PartialEq, Eq, Structural)]
pub enum UpdateMode {
    Insert,
    Replace,
    Update,
    Remove,
}

/// The details of one HistoryUpdate operation, as the request gives them: values `V`
/// of data and structure updates, event field lists `E` and the event filter `F` of
/// event updates, times as ticks, and event ids as bytes. A list the request leaves
/// out is `None`.
#[derive(Debug)]
pub enum HistoryUpdateDetails<V, E, F> {
    UpdateData { node_id: NodeId, mode: UpdateMode, values: Option<Vec<V>> },
    UpdateStructureData { node_id: NodeId, mode: UpdateMode, values: Option<Vec<V>> },
    UpdateEvent { node_id: NodeId, mode: UpdateMode, filter: F, events: Option<Vec<E>> },
    DeleteRawModified { node_id: NodeId, is_delete_modified: bool, start_time: i64, end_time: i64 },
    DeleteAtTime { node_id: NodeId, times: Option<Vec<i64>> },
    DeleteEvent { node_id: NodeId, event_ids: Option<Vec<Vec<u8>>> },
}

/// The call a HistoryUpdate operation makes on the history backend: the same node and
/// parameters, with a left-out list passed as empty.
#[derive(Debug)]
pub enum HistoryBackendRequest<V, E, F> {
    UpdateData { node_id: NodeId, mode: UpdateMode, values: Vec<V> },
    UpdateStructureData { node_id: NodeId, mode: UpdateMode, values: Vec<V> },
    UpdateEvent { node_id: NodeId, mode: UpdateMode, filter: F, events: Vec<E> },
    DeleteRawModified { node_id: NodeId, is_delete_modified: bool, start_time: i64, end_time: i64 },
    DeleteAtTime { node_id: NodeId, times: Vec<i64> },
    DeleteEvent { node_id: NodeId, event_ids: Vec<Vec<u8>> },
}

/// The entries of an optional list: none when it is left out.
pub open spec fn listed<T>(o: Option<Vec<T>>) -> Seq<T> {
    match o {
        Some(v) => v@,
        None => Seq::empty(),
    }
}

/// Whether `r` is the backend call for the operation `d`: same kind, node and
/// parameters, and the entries of each list (empty when left out).
pub open spec fn routes_to<V, E, F>(d: HistoryUpdateDetails<V, E, F>, r: HistoryBackendRequest<V, E, F>) -> bool {
    match d {
        HistoryUpdateDetails::UpdateData { node_id, mode, values } => r matches HistoryBackendRequest::UpdateData {
            node_id: n,
            mode: m,
            values: v,
        } && n@ == node_id@ && m == mode && v@ == listed(values),
        HistoryUpdateDetails::UpdateStructureData { node_id, mode, values } => r matches HistoryBackendRequest::UpdateStructureData {
            node_id: n,
            mode: m,
            values: v,
        } && n@ == node_id@ && m == mode && v@ == listed(values),
        HistoryUpdateDetails::UpdateEvent { node_id, mode, filter, events } => r matches HistoryBackendRequest::UpdateEvent {
            node_id: n,
            mode: m,
            filter: f,
            events: e,
        } && n@ == node_id@ && m == mode && f == filter && e@ == listed(events),
        HistoryUpdateDetails::DeleteRawModified { node_id, is_delete_modified, start_time, end_time } => r matches HistoryBackendRequest::DeleteRawModified {
            node_id: n,
            is_delete_modified: dm,
            start_time: st,
            end_time: et,
        } && n@ == node_id@ && dm == is_delete_modified && st == start_time && et == end_time,
        HistoryUpdateDetails::DeleteAtTime { node_id, times } => r matches HistoryBackendRequest::DeleteAtTime {
            node_id: n,
            times: t,
        } && n@ == node_id@ && t@ == listed(times),
        HistoryUpdateDetails::DeleteEvent { node_id, event_ids } => r matches HistoryBackendRequest::DeleteEvent {
            node_id: n,
            event_ids: ids,
        } && n@ == node_id@ && ids@ == listed(event_ids),
    }
}

fn entries<T>(o: Option<Vec<T>>) -> (r: Vec<T>)
    ensures
        r@ == listed(o),
{
    match o {
        Some(v) => v,
        None => Vec::new(),
    }
}

/// The backend call that the operation `details` makes (see [`routes_to`]).
pub fn history_backend_request<V, E, F>(details: HistoryUpdateDetails<V, E, F>) -> (r: HistoryBackendRequest<V, E, F>)
    ensures
        routes_to(details, r),
{
    match details {
        HistoryUpdateDetails::UpdateData { node_id, mode, values } => HistoryBackendRequest::UpdateData {
            node_id,
            mode,
            values: entries(values),
        },
        HistoryUpdateDetails::UpdateStructureData { node_id, mode, values } => HistoryBackendRequest::UpdateStructureData {
            node_id,
            mode,
            values: entries(values),
        },
        HistoryUpdateDetails::UpdateEvent { node_id, mode, filter, events } => HistoryBackendRequest::UpdateEvent {
            node_id,
            mode,
            filter,
            events: entries(events),
        },
        HistoryUpdateDetails::DeleteRawModified { node_id, is_delete_modified, start_time, end_time } => HistoryBackendRequest::DeleteRawModified {
            node_id,
            is_delete_modified,
            start_time,
            end_time,
        },
        HistoryUpdateDetails::DeleteAtTime { node_id, times } => HistoryBackendRequest::DeleteAtTime {
            node_id,
            times: entries(times),
        },
        HistoryUpdateDetails::DeleteEvent { node_id, event_ids } => HistoryBackendRequest::DeleteEvent {
            node_id,
            event_ids: entries(event_ids),
        },
    }
}

} // verus!
