use opcua_server::discovery::registry::LocalizedText;
use opcua_server::node_management::server_status::{read_server_status_value, ServerStatusInfo, StatusValue};
use opcua_server::permissions::{AccessRestrictionType, PermissionType, RolePermission};
use opcua_server::rbac::defaults::NamespaceDefaults;
use opcua_server::node_id::NodeId;
use opcua_server::node_management::server_values::{
    namespace_array, read_server_value, HistoryCapabilities, ServerFeatures, ServerLimits, ServerValue,
};

fn limits() -> ServerLimits {
    ServerLimits {
        max_array_length: 1000,
        max_browse_continuation_points: 70_000,
        max_byte_string_length: 65535,
        max_history_continuation_points: 5,
        max_query_continuation_points: 6,
        max_string_length: 4096,
        max_monitored_items_per_call: 100,
        max_nodes_per_browse: 50,
        max_nodes_per_history_read_data: 11,
        max_nodes_per_history_read_events: 12,
        max_nodes_per_history_update: 13,
        max_nodes_per_method_call: 14,
        max_nodes_per_node_management: 15,
        max_nodes_per_read: 16,
        max_nodes_per_register_nodes: 17,
        max_nodes_per_translate_browse_paths_to_node_ids: 18,
        max_nodes_per_write: 19,
    }
}

fn history() -> HistoryCapabilities {
    HistoryCapabilities {
        access_history_data: true,
        access_history_events: true,
        delete_at_time: true,
        delete_event: false,
        delete_raw: true,
        insert_annotation: false,
        insert_data: true,
        insert_event: false,
        max_return_data_values: 500,
        max_return_event_values: 600,
        replace_data: true,
        replace_event: false,
        server_timestamp_supported: true,
        update_data: true,
        update_event: false,
    }
}

fn read(id: u32, features: &ServerFeatures) -> Option<ServerValue> {
    read_server_value(&NodeId::numeric(0, id), &limits(), features, &history())
}

#[test]
fn capability_limits_are_served_from_the_configuration() {
    let all = ServerFeatures { history: true, query: true, method_call: true, node_management: true };
    assert_eq!(read(11702, &all), Some(ServerValue::UInt32(1000)));
    // Continuation points are UInt16 and cut to its width.
    assert_eq!(read(2735, &all), Some(ServerValue::UInt16(70_000u32 as u16)));
    assert_eq!(read(2737, &all), Some(ServerValue::UInt16(5)));
    assert_eq!(read(2736, &all), Some(ServerValue::UInt16(6)));
    assert_eq!(read(11705, &all), Some(ServerValue::UInt32(16)));
    assert_eq!(read(12167, &all), Some(ServerValue::UInt32(13)));
    assert_eq!(read(12168, &all), Some(ServerValue::UInt32(13)));
    assert_eq!(read(11709, &all), Some(ServerValue::UInt32(14)));
    assert_eq!(read(11273, &all), Some(ServerValue::UInt32(500)));
    assert_eq!(read(11193, &all), Some(ServerValue::Boolean(true)));
    assert_eq!(read(11502, &all), Some(ServerValue::Boolean(false)));
    assert_eq!(read(2256, &all), None);
    assert_eq!(read_server_value(&NodeId::numeric(1, 11702), &limits(), &all, &history()), None);
    assert_eq!(read_server_value(&NodeId::string(0, "MaxArrayLength"), &limits(), &all, &history()), None);
}

#[test]
fn services_left_out_publish_zero_and_no_history() {
    let none = ServerFeatures { history: false, query: false, method_call: false, node_management: false };
    assert_eq!(read(2737, &none), Some(ServerValue::UInt16(0)));
    assert_eq!(read(2736, &none), Some(ServerValue::UInt16(0)));
    assert_eq!(read(12165, &none), Some(ServerValue::UInt32(0)));
    assert_eq!(read(11709, &none), Some(ServerValue::UInt32(0)));
    assert_eq!(read(11713, &none), Some(ServerValue::UInt32(0)));
    assert_eq!(read(11273, &none), Some(ServerValue::UInt32(0)));
    assert_eq!(read(11193, &none), Some(ServerValue::Boolean(false)));
    assert_eq!(read(19091, &none), Some(ServerValue::Boolean(false)));
    assert_eq!(read(11702, &none), Some(ServerValue::UInt32(1000)));
}

#[test]
fn namespace_array_fills_holes_and_takes_the_last_report() {
    assert_eq!(namespace_array(&[]), None);
    let entries = vec![
        (0u16, "http://opcfoundation.org/UA/".to_string()),
        (3u16, "urn:three".to_string()),
        (1u16, "urn:one".to_string()),
        (1u16, "urn:one-again".to_string()),
    ];
    assert_eq!(
        namespace_array(&entries),
        Some(vec![
            "http://opcfoundation.org/UA/".to_string(),
            "urn:one-again".to_string(),
            String::new(),
            "urn:three".to_string(),
        ])
    );
}

fn status_info() -> ServerStatusInfo {
    ServerStatusInfo {
        application_uri: "urn:server".to_string(),
        profiles: vec!["http://opcfoundation.org/UA-Profile/Server/StandardUA2017".to_string()],
        locale_ids: vec!["en".to_string(), "de".to_string()],
        service_level: 255,
        product_uri: "urn:product".to_string(),
        manufacturer_name: "Maker".to_string(),
        product_name: "Server".to_string(),
        software_version: "0.19.0".to_string(),
        build_number: "7".to_string(),
        build_date: 1234,
        state: 0,
        start_time: 5678,
        seconds_till_shutdown: None,
        shutdown_reason: LocalizedText { locale: String::new(), text: String::new() },
    }
}

fn status(id: u32, defaults: &NamespaceDefaults) -> Option<StatusValue> {
    read_server_status_value(&NodeId::numeric(0, id), &status_info(), defaults)
}

#[test]
fn status_variables_are_served_from_the_server_info() {
    let defaults = NamespaceDefaults::new();
    assert!(matches!(status(2267, &defaults), Some(StatusValue::Byte(255))));
    assert!(matches!(status(2254, &defaults), Some(StatusValue::TextArray(v)) if v == vec!["urn:server".to_string()]));
    assert!(matches!(status(2271, &defaults), Some(StatusValue::TextArray(v)) if v.len() == 2 && v[1] == "de"));
    assert!(matches!(status(2262, &defaults), Some(StatusValue::Text(t)) if t == "urn:product"));
    assert!(matches!(status(2266, &defaults), Some(StatusValue::DateTime(1234))));
    assert!(matches!(status(2259, &defaults), Some(StatusValue::Int32(0))));
    assert!(matches!(status(2992, &defaults), Some(StatusValue::Empty)));
    assert!(matches!(status(2258, &defaults), Some(StatusValue::DateTime(t)) if t > 0));
    assert!(status(16136, &defaults).is_none());
    assert!(status(11702, &defaults).is_none());
    assert!(read_server_status_value(&NodeId::numeric(1, 2267), &status_info(), &defaults).is_none());
    let mut restricted = NamespaceDefaults::new();
    restricted.set_access_restrictions(0, AccessRestrictionType { bits: 3 });
    assert!(matches!(status(16136, &restricted), Some(StatusValue::UInt16(3))));
}

#[test]
fn namespace_zero_default_role_permissions_are_served() {
    let defaults = NamespaceDefaults::new();
    assert!(status(16134, &defaults).is_none());
    let mut configured = NamespaceDefaults::new();
    configured.set_role_permissions(
        0,
        vec![RolePermission { role_id: NodeId::numeric(0, 15644), permissions: PermissionType { bits: 1 } }],
    );
    match status(16134, &configured) {
        Some(StatusValue::RolePermissions(g)) => {
            assert_eq!(g.len(), 1);
            assert!(g[0].role_id.equals(&NodeId::numeric(0, 15644)));
            assert_eq!(g[0].permissions.bits, 1);
        }
        other => panic!("unexpected {other:?}"),
    }
}
