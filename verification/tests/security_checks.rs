use opcua_server::security_checks::{SecurityCheckCategory, SecurityCheckOutcome, SecurityCheckRegistry};
use opcua_server::status::StatusCode;

#[test]
fn records_and_retrieves_entries() {
    let mut registry = SecurityCheckRegistry::new(100);
    registry.record(
        SecurityCheckCategory::CertificateValidation,
        SecurityCheckOutcome::Fail,
        StatusCode::BadCertificateUntrusted,
        "urn:test-client".to_string(),
    );
    registry.record(
        SecurityCheckCategory::UserAuthentication,
        SecurityCheckOutcome::Pass,
        StatusCode::Good,
        "test-user".to_string(),
    );
    let snapshot = registry.snapshot();
    assert_eq!(snapshot.len(), 2);
    assert_eq!(snapshot[0].category, SecurityCheckCategory::CertificateValidation);
    assert_eq!(snapshot[0].outcome, SecurityCheckOutcome::Fail);
    assert_eq!(snapshot[1].category, SecurityCheckCategory::UserAuthentication);
    assert_eq!(snapshot[1].outcome, SecurityCheckOutcome::Pass);
}

#[test]
fn bounded_registry_evicts_oldest() {
    let mut registry = SecurityCheckRegistry::new(10);
    for i in 0..15 {
        registry.record(
            SecurityCheckCategory::ChannelNegotiation,
            SecurityCheckOutcome::Pass,
            StatusCode::Good,
            format!("client-{i}"),
        );
    }
    assert_eq!(registry.count(), 10);
    let snapshot = registry.snapshot();
    assert_eq!(snapshot[0].identity, "client-5");
    assert_eq!(snapshot[9].identity, "client-14");
}

#[test]
fn record_pass_and_fail_set_outcome_and_reason() {
    let mut registry = SecurityCheckRegistry::new(4);
    registry.record_pass(SecurityCheckCategory::RbacDecision, "alice".to_string());
    registry.record_fail(SecurityCheckCategory::UserAuthentication, StatusCode::BadUserAccessDenied, "bob".to_string());
    let snapshot = registry.snapshot();
    assert_eq!(snapshot[0].outcome, SecurityCheckOutcome::Pass);
    assert_eq!(snapshot[0].reason, StatusCode::Good);
    assert_eq!(snapshot[1].outcome, SecurityCheckOutcome::Fail);
    assert_eq!(snapshot[1].reason, StatusCode::BadUserAccessDenied);
    assert_eq!(snapshot[1].identity, "bob");
}

#[test]
fn default_registry_keeps_a_thousand_entries() {
    let mut registry = SecurityCheckRegistry::default_registry();
    for i in 0..1005 {
        registry.record_pass(SecurityCheckCategory::ChannelNegotiation, format!("c{i}"));
    }
    assert_eq!(registry.count(), 1000);
    assert_eq!(registry.snapshot()[0].identity, "c5");
}

#[test]
fn category_names() {
    assert_eq!(SecurityCheckCategory::CertificateValidation.name(), "CertificateValidation");
    assert_eq!(SecurityCheckCategory::RbacDecision.name(), "RbacDecision");
}

#[test]
fn registry_with_no_room_keeps_nothing() {
    let mut registry = SecurityCheckRegistry::new(0);
    registry.record_pass(SecurityCheckCategory::RbacDecision, "alice".to_string());
    registry.record_fail(SecurityCheckCategory::UserAuthentication, StatusCode::BadUserAccessDenied, "bob".to_string());
    assert_eq!(registry.count(), 0);
    assert!(registry.snapshot().is_empty());
}

#[test]
fn recording_keeps_the_timestamps_of_kept_entries() {
    let mut registry = SecurityCheckRegistry::new(2);
    registry.record_pass(SecurityCheckCategory::RbacDecision, "a".to_string());
    registry.record_pass(SecurityCheckCategory::RbacDecision, "b".to_string());
    let before = registry.snapshot();
    registry.record_pass(SecurityCheckCategory::RbacDecision, "c".to_string());
    let after = registry.snapshot();
    assert_eq!(after.len(), 2);
    assert_eq!(after[0].identity, "b");
    assert_eq!(after[0].timestamp, before[1].timestamp);
}
