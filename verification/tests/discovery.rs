use opcua_server::discovery::own::{
    application_type, endpoint_application_description, gateway_server_uri, registered_server, session_endpoint_descriptions,
    new_session_endpoint_descriptions,
    ServerIdentity,
};
use opcua_server::discovery::endpoints::{
    base_endpoint, discovery_urls, endpoint_exists, endpoint_hostname_matches_advertised_endpoint,
    endpoints_with_filters_inner, matches_discovery_endpoint_url, matches_find_servers_filters,
    checked_endpoint_descriptions, new_endpoint_descriptions, transport_profile_uri_binary, validate_endpoint_hostname, EndpointEntry,
    SecurityPolicy,
};
use opcua_server::discovery::locale::{locale_id_matches, normalize_locale_id};
use opcua_server::discovery::mdns::{
    bounded_mdns_string, plan_register_server2_mdns, registered_mdns_capabilities, registered_mdns_name,
    MdnsPlan,
};
use opcua_server::discovery::network::{str_less, DiscoveredServer};
use opcua_server::discovery::registry::{
    find_servers_application_description, registered_server_application_name, supports_locale_ids,
    ApplicationDescription, ApplicationType, LocalizedText, RegisteredServer, ServerRegistry,
    MAX_REGISTERED_SERVERS,
};
use opcua_server::permissions::MessageSecurityMode;
use opcua_server::status::StatusCode;

fn text(locale: &str, t: &str) -> LocalizedText {
    LocalizedText { locale: locale.to_string(), text: t.to_string() }
}

fn reg(uri: &str, is_online: bool) -> RegisteredServer {
    RegisteredServer {
        server_uri: uri.to_string(),
        product_uri: String::new(),
        server_names: Some(vec![text("en", "Test")]),
        server_type: ApplicationType::Server,
        gateway_server_uri: String::new(),
        discovery_urls: Some(vec!["opc.tcp://127.0.0.1:4840/".to_string()]),
        semaphore_file_path: String::new(),
        is_online,
    }
}

fn endpoint(url: &str, policy: SecurityPolicy, mode: MessageSecurityMode) -> EndpointEntry {
    EndpointEntry { endpoint_url: url.to_string(), security_policy: policy, security_mode: mode }
}

fn discovered(inst: &str, url: &str, caps: &[&str]) -> DiscoveredServer {
    DiscoveredServer {
        instance_name: inst.to_string(),
        server_name: inst.to_string(),
        discovery_url: url.to_string(),
        capabilities: caps.iter().map(|s| s.to_string()).collect(),
    }
}

#[test]
fn register_server_registry_is_bounded_and_safe() {
    let mut registry = ServerRegistry::new();

    // A missing server URI is rejected.
    let null_uri = reg("", true);
    assert_eq!(registry.apply_register_server(null_uri), StatusCode::BadServerUriInvalid);
    // Unregistering an unknown server is a clean no-op success.
    assert_eq!(registry.apply_register_server(reg("urn:never-registered", false)), StatusCode::Good);
    assert_eq!(registry.len(), 0);

    for i in 0..MAX_REGISTERED_SERVERS {
        assert_eq!(registry.apply_register_server(reg(&format!("urn:s{i}"), true)), StatusCode::Good);
    }
    assert_eq!(registry.apply_register_server(reg("urn:over-cap", true)), StatusCode::BadTooManyOperations);
    assert_eq!(registry.apply_register_server(reg("urn:s0", true)), StatusCode::Good);
    assert_eq!(registry.apply_register_server(reg("urn:s0", false)), StatusCode::Good);
    assert_eq!(registry.apply_register_server(reg("urn:over-cap", true)), StatusCode::Good);
    assert_eq!(registry.len(), MAX_REGISTERED_SERVERS);
}

#[test]
fn concurrent_register_unregister_keeps_registry_consistent() {
    let mut registry = ServerRegistry::new();
    // Every interleaving of concurrent tasks is a sequence of single registrations.
    for i in 0..200u32 {
        for t in 0..16u32 {
            let uri = format!("urn:race-{}", i % 4);
            let online = (t + i) % 2 == 0;
            registry.apply_register_server(reg(&uri, online));
        }
    }
    for i in 0..4 {
        assert_eq!(registry.apply_register_server(reg(&format!("urn:race-{i}"), true)), StatusCode::Good);
    }
    let descs = registry.registered_application_descriptions(&None);
    for i in 0..4 {
        let uri = format!("urn:race-{i}");
        assert_eq!(descs.iter().filter(|d| d.application_uri == uri).count(), 1);
    }
}

#[test]
fn online_registration_requires_name_and_discovery_url() {
    let mut registry = ServerRegistry::new();
    let mut no_name = reg("urn:a", true);
    no_name.server_names = Some(vec![]);
    assert_eq!(registry.apply_register_server(no_name), StatusCode::BadServerNameMissing);
    let mut no_url = reg("urn:a", true);
    no_url.discovery_urls = None;
    assert_eq!(registry.apply_register_server(no_url), StatusCode::BadDiscoveryUrlMissing);
    assert_eq!(registry.len(), 0);
    assert_eq!(registry.apply_register_server(reg("urn:a", true)), StatusCode::Good);
    assert_eq!(registry.find("urn:a"), Some(0));
    assert_eq!(registry.get(0).server_uri, "urn:a");
    assert_eq!(registry.apply_register_server(reg("urn:a", false)), StatusCode::Good);
    assert_eq!(registry.find("urn:a"), None);
}

fn two_endpoints() -> Vec<EndpointEntry> {
    vec![
        endpoint("opc.tcp://127.0.0.1:4840/", SecurityPolicy::NoSecurity, MessageSecurityMode::NoSecurity),
        endpoint("opc.tcp://127.0.0.1:4840/diagnostics", SecurityPolicy::NoSecurity, MessageSecurityMode::NoSecurity),
    ]
}

#[test]
fn endpoints_filter_by_requested_endpoint_url() {
    let eps = two_endpoints();
    let chosen =
        endpoints_with_filters_inner(&eps, &[], None, "opc.tcp://localhost:4840/diagnostics", &None, &None, false)
            .expect("endpoints should be returned");
    assert_eq!(chosen.len(), 1);
    assert!(chosen[0].endpoint_url.ends_with("/diagnostics"));
    assert_eq!(chosen[0].index, 1);

    let chosen = endpoints_with_filters_inner(&eps, &[], None, "opc.tcp://localhost:4840/missing", &None, &None, false)
        .expect("endpoint filtering should return an empty list");
    assert!(chosen.is_empty());
}

#[test]
fn endpoints_for_request_edge_cases() {
    let eps = two_endpoints();
    // No URL: every endpoint.
    let all = endpoints_with_filters_inner(&eps, &[], None, "", &None, &None, false).unwrap();
    assert_eq!(all.len(), 2);
    // Mirroring reports the requested URL.
    let m = endpoints_with_filters_inner(&eps, &[], None, "opc.tcp://localhost:4840/", &None, &None, true).unwrap();
    assert_eq!(m.len(), 1);
    assert_eq!(m[0].endpoint_url, "opc.tcp://localhost:4840/");
    // Only a foreign transport: no answer at all.
    let foreign = Some(vec!["http://example.com/other".to_string()]);
    assert!(endpoints_with_filters_inner(&eps, &[], None, "", &foreign, &None, false).is_none());
    let binary = Some(vec![transport_profile_uri_binary().to_string()]);
    assert!(endpoints_with_filters_inner(&eps, &[], None, "", &binary, &None, false).is_some());
    // An unsupported locale: an empty list.
    let fr = Some(vec!["fr-FR".to_string()]);
    let none = endpoints_with_filters_inner(&eps, &["de-DE".to_string()], None, "", &None, &fr, false).unwrap();
    assert!(none.is_empty());
    // A URL without a host: the default endpoint.
    let d = endpoints_with_filters_inner(&eps, &[], Some(1), "not a url", &None, &None, false).unwrap();
    assert_eq!(d.len(), 1);
    assert_eq!(d[0].index, 1);
}

#[test]
fn find_servers_filters_match_endpoint_url_and_locale_ids() {
    let eps = vec![endpoint(
        "opc.tcp://127.0.0.1:4840/diagnostics",
        SecurityPolicy::NoSecurity,
        MessageSecurityMode::NoSecurity,
    )];
    let discovery = vec!["opc.tcp://127.0.0.1:4840/diagnostics".to_string()];
    let locales = vec!["de-DE".to_string()];
    assert!(matches_find_servers_filters(
        &eps,
        &discovery,
        &locales,
        "opc.tcp://localhost:4840/diagnostics",
        &Some(vec!["de".to_string()])
    ));
    assert!(!matches_find_servers_filters(
        &eps,
        &discovery,
        &locales,
        "opc.tcp://localhost:4840/missing",
        &Some(vec!["de".to_string()])
    ));
    assert!(!matches_find_servers_filters(
        &eps,
        &discovery,
        &locales,
        "opc.tcp://localhost:4840/diagnostics",
        &Some(vec!["fr-FR".to_string()])
    ));
    assert!(matches_discovery_endpoint_url(&eps, &discovery, ""));
    assert!(supports_locale_ids(&locales, &None));
    assert!(supports_locale_ids(&locales, &Some(vec![])));
    assert!(supports_locale_ids(&locales, &Some(vec!["".to_string()])));
}

#[test]
fn endpoint_hostname_validation_requires_certificate_san_or_advertised_endpoint_host() {
    let eps = vec![endpoint("opc.tcp://127.0.0.1:4840/", SecurityPolicy::Aes256Sha256RsaPss, MessageSecurityMode::Sign)];
    let discovery = vec!["opc.tcp://127.0.0.1:4840/".to_string()];

    assert_eq!(
        validate_endpoint_hostname(&eps, &discovery, None, "opc.tcp://not-advertised.example:4840/"),
        Err(StatusCode::BadCertificateHostNameInvalid)
    );

    let description = opcua_types::ApplicationDescription {
        application_uri: "urn:endpoint-filter-test".into(),
        application_name: opcua_types::LocalizedText::new("", "Endpoint Filter Test"),
        ..Default::default()
    };
    let mut data = opcua_crypto::X509Data::from((description, Some(vec!["public.example".to_string()])));
    data.key_size = 2048;
    data.certificate_duration_days = 30;
    let cert = opcua_crypto::X509::cert_and_pkey(&data).expect("test certificate should be generated").0;
    let der = cert.to_der().expect("certificate encodes");

    assert_eq!(validate_endpoint_hostname(&eps, &discovery, Some(&der), "opc.tcp://public.example:4840/"), Ok(()));
    assert_eq!(validate_endpoint_hostname(&eps, &discovery, Some(&der), "opc.tcp://127.0.0.1:4840/"), Ok(()));
    assert_eq!(
        validate_endpoint_hostname(&eps, &discovery, Some(&der), "opc.tcp://other.example:4840/"),
        Err(StatusCode::BadCertificateHostNameInvalid)
    );
}

#[test]
fn endpoint_hostname_without_host_is_invalid() {
    let eps = two_endpoints();
    assert_eq!(validate_endpoint_hostname(&eps, &[], None, "no url"), Err(StatusCode::BadTcpEndpointUrlInvalid));
    assert!(endpoint_hostname_matches_advertised_endpoint(&eps, &[], "opc.tcp://127.0.0.1:4840/", "127.0.0.1"));
    assert!(!endpoint_hostname_matches_advertised_endpoint(&eps, &[], "opc.tcp://127.0.0.1:4840/", "localhost"));
}

#[test]
fn find_servers_on_network_pull_based_unchanged_without_mdns() {
    let mut registry = ServerRegistry::new();
    assert_eq!(registry.apply_register_server(reg("urn:registered", true)), StatusCode::Good);
    assert_eq!(registry.find_servers_on_network(&[], 0, 0, &None).len(), 1);
    assert!(registry.find_servers_on_network(&[], 0, 0, &Some(vec!["DA".to_string()])).is_empty());
}

#[test]
fn find_servers_on_network_merges_filters_and_excludes_self_and_expired() {
    let mut registry = ServerRegistry::new();
    assert_eq!(registry.apply_register_server(reg("urn:registered", true)), StatusCode::Good);
    // The discovery cache's snapshot holds only live servers other than this one.
    let live = vec![
        discovered("DiscA", "opc.tcp://10.0.0.1:4840/", &["DA"]),
        discovered("DiscB", "opc.tcp://10.0.0.2:4840/", &["HD", "AC"]),
    ];
    let all = registry.find_servers_on_network(&live, 0, 0, &None);
    let names: Vec<String> = all.iter().map(|s| s.server_name.clone()).collect();
    assert_eq!(all.len(), 3, "registered + 2 live discovered; got {names:?}");
    assert!(names.iter().any(|n| n == "Test"));
    assert!(names.iter().any(|n| n == "DiscA"));
    assert!(names.iter().any(|n| n == "DiscB"));
    assert!(!names.iter().any(|n| n == "DiscExpired"));
    assert!(!names.iter().any(|n| n == "MdnsMerge"));

    let da = registry.find_servers_on_network(&live, 0, 0, &Some(vec!["DA".to_string()]));
    assert_eq!(da.len(), 1);
    assert_eq!(da[0].server_name, "DiscA");
    assert!(da[0].server_capabilities.as_ref().is_some_and(|c| c.iter().any(|x| x == "DA")));
}

#[test]
fn find_servers_on_network_records_are_sorted_numbered_and_bounded() {
    let mut registry = ServerRegistry::new();
    assert_eq!(registry.apply_register_server(reg("urn:b", true)), StatusCode::Good);
    let live = vec![discovered("a", "opc.tcp://10.0.0.1:4840/", &["da"]), discovered("zz", "u", &[])];
    let all = registry.find_servers_on_network(&live, 0, 0, &None);
    let ids: Vec<u32> = all.iter().map(|s| s.record_id).collect();
    assert_eq!(ids, vec![0, 1, 2]);
    assert_eq!(all[0].server_name, "a");
    assert_eq!(all[1].server_name, "Test");
    assert!(all[1].server_capabilities.is_none());
    // Record ids below the start are skipped; the count is bounded.
    let later = registry.find_servers_on_network(&live, 1, 0, &None);
    assert_eq!(later.iter().map(|s| s.record_id).collect::<Vec<u32>>(), vec![1, 2]);
    let one = registry.find_servers_on_network(&live, 0, 1, &None);
    assert_eq!(one.len(), 1);
    assert_eq!(one[0].record_id, 0);
    // Capabilities match up to ASCII case; an empty filter entry asks for nothing.
    assert_eq!(registry.find_servers_on_network(&live, 0, 0, &Some(vec!["DA".to_string()])).len(), 1);
    assert_eq!(registry.find_servers_on_network(&live, 0, 0, &Some(vec!["".to_string()])).len(), 3);
    assert!(str_less("a", "b"));
    assert!(!str_less("b", "a"));
    assert!(str_less("", "a"));
}

#[test]
fn locale_ids_match_by_language() {
    assert!(locale_id_matches("de-DE", "de"));
    assert!(locale_id_matches("de", "de-DE"));
    assert!(locale_id_matches(" en-US ", "en-US"));
    assert!(!locale_id_matches("de-DE", "fr-FR"));
    assert!(!locale_id_matches("de-DE", "de-AT"));
    assert!(locale_id_matches("de-DE", ""));
    assert!(!locale_id_matches("", "de"));
    assert_eq!(normalize_locale_id("  de-DE\t"), vec!['d', 'e', '-', 'd', 'e']);
}

#[test]
fn application_name_follows_requested_locales() {
    let names = Some(vec![text("en", "Server"), text("de-DE", "Diener")]);
    assert_eq!(registered_server_application_name(&names, &Some(vec!["de".to_string()])).text, "Diener");
    assert_eq!(registered_server_application_name(&names, &Some(vec!["fr".to_string()])).text, "Server");
    assert_eq!(registered_server_application_name(&names, &None).text, "Server");
    let none = registered_server_application_name(&None, &None);
    assert_eq!(none.text, "");
    assert_eq!(none.locale, "");
}

#[test]
fn find_servers_description_uses_requested_endpoint_url() {
    let own = ApplicationDescription {
        application_uri: "urn:own".to_string(),
        product_uri: "urn:own".to_string(),
        application_name: text("", "Own"),
        application_type: ApplicationType::Server,
        gateway_server_uri: String::new(),
        discovery_profile_uri: String::new(),
        discovery_urls: Some(vec!["opc.tcp://127.0.0.1:4840/".to_string()]),
    };
    let d = find_servers_application_description(own, "opc.tcp://host:4840/x");
    assert_eq!(d.discovery_urls, Some(vec!["opc.tcp://host:4840/x".to_string()]));
    assert_eq!(d.application_uri, "urn:own");
}

#[test]
fn mdns_strings_are_bounded_on_char_boundaries() {
    assert_eq!(bounded_mdns_string("short", 63), "short");
    assert_eq!(bounded_mdns_string("abcdef", 3), "abc");
    // 'é' takes two bytes: it does not fit in the third byte.
    assert_eq!(bounded_mdns_string("abé", 3), "ab");
    assert_eq!(bounded_mdns_string("abé", 4), "abé");
    assert_eq!(bounded_mdns_string("abc", 0), "");
}

#[test]
fn mdns_name_and_capabilities() {
    let server = reg("urn:x", true);
    assert_eq!(registered_mdns_name(&server, "", 63), "Test");
    assert_eq!(registered_mdns_name(&server, "Configured", 4), "Conf");
    let mut unnamed = reg("urn:x", true);
    unnamed.server_names = None;
    assert_eq!(registered_mdns_name(&unnamed, "", 63), "urn:x");

    let caps = vec!["".to_string(), "DA".to_string(), "HDLONG".to_string(), "AC".to_string()];
    assert_eq!(registered_mdns_capabilities(&caps, 2, 3), vec!["DA".to_string(), "HDL".to_string()]);
    assert_eq!(registered_mdns_capabilities(&[], 2, 3), vec!["NA".to_string()]);
}

#[test]
fn register_server2_mdns_plan() {
    let server = reg("urn:x", true);
    assert!(matches!(plan_register_server2_mdns(false, &server, "", &[], 63, 10, 10), MdnsPlan::NotSupported));
    let offline = reg("urn:x", false);
    match plan_register_server2_mdns(true, &offline, "", &[], 63, 10, 10) {
        MdnsPlan::Unregister { server_uri } => assert_eq!(server_uri, "urn:x"),
        other => panic!("unexpected {other:?}"),
    }
    let mut no_url = reg("urn:x", true);
    no_url.discovery_urls = Some(vec!["".to_string()]);
    assert!(matches!(
        plan_register_server2_mdns(true, &no_url, "", &[], 63, 10, 10),
        MdnsPlan::Refuse(StatusCode::BadDiscoveryUrlMissing)
    ));
    let mut no_name = reg("", true);
    no_name.server_names = None;
    assert!(matches!(
        plan_register_server2_mdns(true, &no_name, "", &[], 63, 10, 10),
        MdnsPlan::Refuse(StatusCode::BadServerNameMissing)
    ));
    match plan_register_server2_mdns(true, &server, "", &["DA".to_string()], 63, 10, 10) {
        MdnsPlan::Register { server_uri, name, discovery_url, capabilities } => {
            assert_eq!(server_uri, "urn:x");
            assert_eq!(name, "Test");
            assert_eq!(discovery_url, "opc.tcp://127.0.0.1:4840/");
            assert_eq!(capabilities, vec!["DA".to_string()]);
        }
        other => panic!("unexpected {other:?}"),
    }
}

#[test]
fn session_endpoints_and_endpoint_existence() {
    let eps = vec![
        endpoint("opc.tcp://127.0.0.1:4840/", SecurityPolicy::NoSecurity, MessageSecurityMode::NoSecurity),
        endpoint("opc.tcp://127.0.0.1:4840/", SecurityPolicy::Basic128Rsa15, MessageSecurityMode::Sign),
    ];
    assert_eq!(new_endpoint_descriptions(&eps, false, "opc.tcp://localhost:4840/"), Some(vec![0]));
    assert_eq!(new_endpoint_descriptions(&eps, true, "opc.tcp://localhost:4840/"), Some(vec![0, 1]));
    assert_eq!(new_endpoint_descriptions(&eps, true, "opc.tcp://localhost:4840/other"), None);
    assert_eq!(checked_endpoint_descriptions(&eps, false, "opc.tcp://localhost:4840/"), Some(Some(vec![0])));
    let unknown = vec![endpoint("opc.tcp://127.0.0.1:4840/", SecurityPolicy::Unknown, MessageSecurityMode::NoSecurity)];
    assert_eq!(checked_endpoint_descriptions(&unknown, false, "opc.tcp://localhost:4840/"), None);
    assert_eq!(checked_endpoint_descriptions(&unknown, true, "opc.tcp://localhost:4840/"), Some(Some(vec![0])));
    assert_eq!(checked_endpoint_descriptions(&unknown, false, "opc.tcp://localhost:4840/x"), Some(None));
    assert!(endpoint_exists(
        &eps,
        false,
        "opc.tcp://localhost:4840/",
        SecurityPolicy::NoSecurity,
        MessageSecurityMode::NoSecurity
    ));
    assert!(!endpoint_exists(&eps, false, "opc.tcp://localhost:4840/", SecurityPolicy::Basic128Rsa15, MessageSecurityMode::Sign));
    assert!(endpoint_exists(&eps, true, "opc.tcp://localhost:4840/", SecurityPolicy::Basic128Rsa15, MessageSecurityMode::Sign));
    assert!(!endpoint_exists(
        &eps,
        true,
        "opc.tcp://localhost:4840/",
        SecurityPolicy::Basic128Rsa15,
        MessageSecurityMode::SignAndEncrypt
    ));
}

#[test]
fn base_endpoint_and_discovery_urls() {
    assert_eq!(base_endpoint("127.0.0.1", 4840), "opc.tcp://127.0.0.1:4840");
    assert_eq!(base_endpoint("h", 0), "opc.tcp://h:0");
    assert_eq!(discovery_urls(&[]), None);
    assert_eq!(discovery_urls(&["a".to_string()]), Some(vec!["a".to_string()]));
}

#[test]
fn own_registration_and_endpoint_description() {
    let identity = ServerIdentity {
        application_uri: "urn:own".to_string(),
        product_uri: "urn:product".to_string(),
        application_name: text("en", "Own Server"),
    };
    let urls = vec!["opc.tcp://127.0.0.1:4840/".to_string()];
    let running = registered_server(&identity, &urls, true);
    assert_eq!(running.server_uri, "urn:own");
    assert_eq!(running.product_uri, "urn:product");
    assert_eq!(running.server_names.as_ref().unwrap()[0].text, "Own Server");
    assert_eq!(running.discovery_urls, Some(urls.clone()));
    assert!(running.is_online);
    assert_eq!(running.server_type, ApplicationType::Server);
    let stopped = registered_server(&identity, &[], false);
    assert!(!stopped.is_online);
    assert_eq!(stopped.discovery_urls, None);

    let full = endpoint_application_description(&identity, &urls, true);
    assert_eq!(full.product_uri, "urn:product");
    assert_eq!(full.application_name.text, "Own Server");
    let brief = endpoint_application_description(&identity, &urls, false);
    assert_eq!(brief.application_uri, "urn:own");
    assert_eq!(brief.product_uri, "");
    assert_eq!(brief.application_name.text, "");

    let eps = vec![
        endpoint("opc.tcp://127.0.0.1:4840/", SecurityPolicy::NoSecurity, MessageSecurityMode::NoSecurity),
        endpoint("opc.tcp://127.0.0.1:4840/other", SecurityPolicy::Basic256Sha256, MessageSecurityMode::Sign),
        endpoint("opc.tcp://127.0.0.1:4840/", SecurityPolicy::Basic256Sha256, MessageSecurityMode::SignAndEncrypt),
        endpoint("opc.tcp://127.0.0.1:4840/", SecurityPolicy::Basic256, MessageSecurityMode::Sign),
    ];
    let session = session_endpoint_descriptions(&identity, &urls, &eps, &[0, 2]);
    assert_eq!(session.len(), 2);
    assert_eq!((session[0].endpoint, session[1].endpoint), (0, 2));
    assert_eq!(session[1].server.application_uri, "urn:own");
    assert_eq!(session[1].server.product_uri, "");
    assert_eq!(session[1].server.discovery_urls, Some(urls.clone()));
    assert!(session[0].server_certificate.is_none());
    assert_eq!(session[1].security_mode, MessageSecurityMode::SignAndEncrypt);

    let found = new_session_endpoint_descriptions(&identity, &urls, &eps, false, "opc.tcp://localhost:4840/")
        .unwrap()
        .unwrap();
    assert_eq!(found.iter().map(|d| d.endpoint).collect::<Vec<_>>(), vec![0, 2]);
    assert_eq!(found[0].endpoint_url, "opc.tcp://127.0.0.1:4840/");
    assert_eq!(found[1].security_policy, SecurityPolicy::Basic256Sha256);
    assert_eq!(found[1].server.product_uri, "");
    assert!(found[1].server_certificate.is_none());
    let legacy = new_session_endpoint_descriptions(&identity, &urls, &eps, true, "opc.tcp://localhost:4840/").unwrap().unwrap();
    assert_eq!(legacy.len(), 3);
    assert!(new_session_endpoint_descriptions(&identity, &urls, &eps, false, "opc.tcp://localhost:4840/none").unwrap().is_none());
    assert_eq!(brief.discovery_urls, Some(urls));
    assert_eq!(application_type(), ApplicationType::Server);
    assert_eq!(gateway_server_uri(), "");
}
