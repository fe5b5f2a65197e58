use opcua_server::node_id::NodeId;
use opcua_server::node_management::history::{
    history_backend_request, HistoryBackendRequest, HistoryUpdateDetails, UpdateMode,
    history_update_outcome, history_update_without_backend, BackendReply, STATUS_BAD_HISTORY_OPERATION_UNSUPPORTED,
    STATUS_GOOD,
};
use opcua_server::address_space::NodeClass;
use opcua_server::node_management::write::{notifies_data_change, write_step, WriteStep};
use opcua_types::StatusCode;

#[test]
fn history_update_without_backend_sets_node_statuses() {
    let outcomes = history_update_without_backend(2);
    assert_eq!(outcomes.len(), 2);
    for o in &outcomes {
        assert_eq!(o.status, StatusCode::BadHistoryOperationUnsupported.bits());
        assert_eq!(o.operation_results, None);
    }
    assert_eq!(STATUS_BAD_HISTORY_OPERATION_UNSUPPORTED, StatusCode::BadHistoryOperationUnsupported.bits());
    assert_eq!(STATUS_GOOD, StatusCode::Good.bits());
}

#[test]
fn history_update_routes_all_details_to_backend() {
    type Details = HistoryUpdateDetails<u32, u32, ()>;
    let node_id = NodeId::string(1, "with_backend");
    let same = |n: &NodeId| n.equals(&node_id);
    match history_backend_request(Details::UpdateData { node_id: node_id.duplicate(), mode: UpdateMode::Insert, values: Some(vec![1, 2]) }) {
        HistoryBackendRequest::UpdateData { node_id: n, mode, values } => {
            assert!(same(&n));
            assert_eq!(mode, UpdateMode::Insert);
            assert_eq!(values.len(), 2);
        }
        other => panic!("unexpected {other:?}"),
    }
    match history_backend_request(Details::UpdateStructureData { node_id: node_id.duplicate(), mode: UpdateMode::Replace, values: Some(vec![1]) }) {
        HistoryBackendRequest::UpdateStructureData { node_id: n, mode, values } => {
            assert!(same(&n));
            assert_eq!(mode, UpdateMode::Replace);
            assert_eq!(values.len(), 1);
        }
        other => panic!("unexpected {other:?}"),
    }
    match history_backend_request(Details::UpdateEvent { node_id: node_id.duplicate(), mode: UpdateMode::Update, filter: (), events: Some(vec![7, 8]) }) {
        HistoryBackendRequest::UpdateEvent { node_id: n, mode, events, .. } => {
            assert!(same(&n));
            assert_eq!(mode, UpdateMode::Update);
            assert_eq!(events, vec![7, 8]);
        }
        other => panic!("unexpected {other:?}"),
    }
    match history_backend_request(Details::DeleteRawModified { node_id: node_id.duplicate(), is_delete_modified: true, start_time: 10, end_time: 20 }) {
        HistoryBackendRequest::DeleteRawModified { node_id: n, is_delete_modified, start_time, end_time } => {
            assert!(same(&n));
            assert!(is_delete_modified);
            assert_eq!((start_time, end_time), (10, 20));
        }
        other => panic!("unexpected {other:?}"),
    }
    match history_backend_request(Details::DeleteAtTime { node_id: node_id.duplicate(), times: Some(vec![30, 40]) }) {
        HistoryBackendRequest::DeleteAtTime { node_id: n, times } => {
            assert!(same(&n));
            assert_eq!(times, vec![30, 40]);
        }
        other => panic!("unexpected {other:?}"),
    }
    match history_backend_request(Details::DeleteEvent { node_id: node_id.duplicate(), event_ids: Some(vec![vec![1u8]]) }) {
        HistoryBackendRequest::DeleteEvent { node_id: n, event_ids } => {
            assert!(same(&n));
            assert_eq!(event_ids.len(), 1);
        }
        other => panic!("unexpected {other:?}"),
    }
    match history_backend_request(Details::DeleteAtTime { node_id: node_id.duplicate(), times: None }) {
        HistoryBackendRequest::DeleteAtTime { times, .. } => assert!(times.is_empty()),
        other => panic!("unexpected {other:?}"),
    }

    let good = StatusCode::Good.bits();
    let update_data =
        history_update_outcome(BackendReply::Results(Ok(vec![good, StatusCode::BadNoData.bits()])));
    assert_eq!(update_data.status, good);
    assert_eq!(update_data.operation_results, Some(vec![good, StatusCode::BadNoData.bits()]));

    let update_structure = history_update_outcome(BackendReply::Results(Ok(vec![StatusCode::BadOutOfRange.bits()])));
    assert_eq!(update_structure.status, good);
    assert_eq!(update_structure.operation_results, Some(vec![StatusCode::BadOutOfRange.bits()]));

    let delete_raw = history_update_outcome(BackendReply::Status(Ok(StatusCode::BadDataLost.bits())));
    assert_eq!(delete_raw.status, StatusCode::BadDataLost.bits());
    assert_eq!(delete_raw.operation_results, None);

    let delete_event = history_update_outcome(BackendReply::Results(Ok(vec![StatusCode::BadEventIdUnknown.bits()])));
    assert_eq!(delete_event.status, good);
    assert_eq!(delete_event.operation_results, Some(vec![StatusCode::BadEventIdUnknown.bits()]));

    let failed = history_update_outcome(BackendReply::Results(Err(StatusCode::BadNodeIdUnknown.bits())));
    assert_eq!(failed.status, StatusCode::BadNodeIdUnknown.bits());
    assert_eq!(failed.operation_results, None);
    let failed_delete = history_update_outcome(BackendReply::Status(Err(StatusCode::BadTimeout.bits())));
    assert_eq!(failed_delete.status, StatusCode::BadTimeout.bits());
}

#[test]
fn write_steps_follow_validation_class_callback_and_value() {
    let denied = StatusCode::BadUserAccessDenied.bits();
    assert_eq!(write_step(Err(denied), true, true, true), WriteStep::Finish(denied));
    assert_eq!(
        write_step(Ok(NodeClass::Object), true, false, true),
        WriteStep::Finish(StatusCode::BadNotWritable.bits())
    );
    assert_eq!(
        write_step(Ok(NodeClass::Variable), false, false, true),
        WriteStep::Finish(StatusCode::BadNotWritable.bits())
    );
    assert_eq!(write_step(Ok(NodeClass::Variable), true, true, false), WriteStep::CallCallback);
    assert_eq!(write_step(Ok(NodeClass::Variable), true, false, true), WriteStep::WriteValue);
    assert_eq!(
        write_step(Ok(NodeClass::Variable), true, false, false),
        WriteStep::Finish(StatusCode::BadNothingToDo.bits())
    );
    assert!(notifies_data_change(StatusCode::Good.bits()));
    assert!(!notifies_data_change(StatusCode::BadNotWritable.bits()));
    assert!(!notifies_data_change(StatusCode::UncertainLastUsableValue.bits()));
}
