//! This server's own descriptions: as a registration for a discovery server, and as the
//! application an endpoint description names.

use vstd::prelude::*;
use crate::discovery::endpoints::{
    checked_endpoint_descriptions, discovery_urls, endpoint_views, session_endpoints, unknown_policy_served, EndpointEntry,
    EndpointEntryView, SecurityPolicy,
};
use crate::permissions::MessageSecurityMode;
use crate::discovery::registry::{
    opt_string_views, ApplicationDescription, ApplicationDescriptionView, ApplicationType, LocalizedText,
    LocalizedTextView, RegisteredServer, RegisteredServerView,
};
use crate::text::string_views;

verus! {

/// The server's configured identity: its application URI, product URI and name.
#[derive(Debug)]
pub struct ServerIdentity {
    pub application_uri: String,
    pub product_uri: String,
    pub application_name: LocalizedText,
}

/// The kind of application this server is.
pub fn application_type() -> (r: ApplicationType)
    ensures
        r == ApplicationType::Server,
{
    ApplicationType::Server
}

/// The gateway server URI of this server: none (the empty text).
pub fn gateway_server_uri() -> (r: String)
    ensures
        r@ == Seq::<char>::empty(),
{
    let r = String::new();
    assert(r@ =~= Seq::<char>::empty());
    r
}

/// The configured discovery URLs as an optional list: none when there are none.
pub open spec fn discovery_urls_view(configured: Seq<Seq<char>>) -> Option<Seq<Seq<char>>> {
    if configured.len() == 0 {
        None
    } else {
        Some(configured)
    }
}

/// The server as a registration: its URIs, its name as its only server name, its
/// discovery URLs, online exactly when it is running.
pub open spec fn own_registration(
    application_uri: Seq<char>,
    product_uri: Seq<char>,
    application_name: LocalizedTextView,
    configured_discovery_urls: Seq<Seq<char>>,
    is_running: bool,
) -> RegisteredServerView {
    RegisteredServerView {
        server_uri: application_uri,
        product_uri,
        server_names: Some(seq![application_name]),
        server_type: ApplicationType::Server,
        gateway_server_uri: Seq::empty(),
        discovery_urls: discovery_urls_view(configured_discovery_urls),
        semaphore_file_path: Seq::empty(),
        is_online: is_running,
    }
}

/// This server as a `RegisteredServer` (see [`own_registration`]).
pub fn registered_server(identity: &ServerIdentity, configured_discovery_urls: &[String], is_running: bool) -> (r:
    RegisteredServer)
    ensures
        r@ == own_registration(
            identity.application_uri@,
            identity.product_uri@,
            identity.application_name@,
            string_views(configured_discovery_urls@),
            is_running,
        ),
{
    let mut names: Vec<LocalizedText> = Vec::new();
    names.push(identity.application_name.duplicate());
    let r = RegisteredServer {
        server_uri: identity.application_uri.clone(),
        product_uri: identity.product_uri.clone(),
        server_names: Some(names),
        server_type: application_type(),
        gateway_server_uri: gateway_server_uri(),
        discovery_urls: discovery_urls(configured_discovery_urls),
        semaphore_file_path: String::new(),
        is_online: is_running,
    };
    assert(r@.server_names == Some(seq![identity.application_name@]));
    assert(r@.discovery_urls == discovery_urls_view(string_views(configured_discovery_urls@)));
    r
}

/// The application an endpoint description names: with all fields, the server's URIs,
/// name and discovery URLs; else (for CreateSession) only its application URI, type and
/// discovery URLs, the product URI and name left empty.
pub open spec fn endpoint_server_description(
    application_uri: Seq<char>,
    product_uri: Seq<char>,
    application_name: LocalizedTextView,
    configured_discovery_urls: Seq<Seq<char>>,
    all_fields: bool,
) -> ApplicationDescriptionView {
    ApplicationDescriptionView {
        application_uri,
        product_uri: if all_fields {
            product_uri
        } else {
            Seq::empty()
        },
        application_name: if all_fields {
            application_name
        } else {
            LocalizedTextView { locale: Seq::empty(), text: Seq::empty() }
        },
        application_type: ApplicationType::Server,
        gateway_server_uri: Seq::empty(),
        discovery_profile_uri: Seq::empty(),
        discovery_urls: discovery_urls_view(configured_discovery_urls),
    }
}

/// The application description of this server in an endpoint description (see
/// [`endpoint_server_description`]).
pub fn endpoint_application_description(
    identity: &ServerIdentity,
    configured_discovery_urls: &[String],
    all_fields: bool,
) -> (r: ApplicationDescription)
    ensures
        r@ == endpoint_server_description(
            identity.application_uri@,
            identity.product_uri@,
            identity.application_name@,
            string_views(configured_discovery_urls@),
            all_fields,
        ),
{
    let (product_uri, application_name) = if all_fields {
        (identity.product_uri.clone(), identity.application_name.duplicate())
    } else {
        let name = LocalizedText::null();
        assert(name@.locale =~= Seq::<char>::empty());
        assert(name@.text =~= Seq::<char>::empty());
        (String::new(), name)
    };
    let r = ApplicationDescription {
        application_uri: identity.application_uri.clone(),
        product_uri,
        application_name,
        application_type: application_type(),
        gateway_server_uri: gateway_server_uri(),
        discovery_profile_uri: String::new(),
        discovery_urls: discovery_urls(configured_discovery_urls),
    };
    assert(r@.discovery_urls == discovery_urls_view(string_views(configured_discovery_urls@)));
    assert(r@.application_name == (if all_fields {
        identity.application_name@
    } else {
        LocalizedTextView { locale: Seq::empty(), text: Seq::empty() }
    }));
    r
}

/// An endpoint description for CreateSession, as far as the server's configuration
/// decides it: which configured endpoint it describes, with its URL, security policy
/// and mode, the application it names, and its server certificate, which CreateSession
/// leaves out (`None`).
#[derive(Debug)]
pub struct SessionEndpointDescription {
    pub endpoint: usize,
    pub endpoint_url: String,
    pub security_policy: SecurityPolicy,
    pub security_mode: MessageSecurityMode,
    pub server: ApplicationDescription,
    pub server_certificate: Option<Vec<u8>>,
}

/// Whether `d` describes the configured endpoint `e` at position `p` for CreateSession:
/// its URL, policy and mode, the server named with its application URI, type and
/// discovery URLs only (see [`endpoint_server_description`]), and no certificate.
pub open spec fn describes_for_session(
    d: SessionEndpointDescription,
    p: int,
    e: EndpointEntryView,
    identity: ServerIdentity,
    configured_discovery_urls: Seq<Seq<char>>,
) -> bool {
    &&& d.endpoint == p
    &&& d.endpoint_url@ == e.endpoint_url
    &&& d.security_policy == e.security_policy
    &&& d.security_mode == e.security_mode
    &&& d.server@ == endpoint_server_description(
        identity.application_uri@,
        identity.product_uri@,
        identity.application_name@,
        configured_discovery_urls,
        false,
    )
    &&& d.server_certificate is None
}

/// The CreateSession descriptions of the configured endpoints at `positions`, in order
/// (see [`describes_for_session`]).
pub fn session_endpoint_descriptions(
    identity: &ServerIdentity,
    configured_discovery_urls: &[String],
    endpoints: &[EndpointEntry],
    positions: &[usize],
) -> (r: Vec<SessionEndpointDescription>)
    requires
        forall|k: int| 0 <= k < positions@.len() ==> #[trigger] positions@[k] < endpoints@.len(),
    ensures
        r@.len() == positions@.len(),
        forall|k: int|
            0 <= k < r@.len() ==> describes_for_session(
                #[trigger] r@[k],
                positions@[k] as int,
                endpoints@[positions@[k] as int]@,
                *identity,
                string_views(configured_discovery_urls@),
            ),
{
    let mut r: Vec<SessionEndpointDescription> = Vec::new();
    let mut k: usize = 0;
    while k < positions.len()
        invariant
            k <= positions.len(),
            r@.len() == k,
            forall|q: int| 0 <= q < positions@.len() ==> #[trigger] positions@[q] < endpoints@.len(),
            forall|j: int|
                0 <= j < k ==> describes_for_session(
                    #[trigger] r@[j],
                    positions@[j] as int,
                    endpoints@[positions@[j] as int]@,
                    *identity,
                    string_views(configured_discovery_urls@),
                ),
        decreases positions.len() - k,
    {
        let p = positions[k];
        assert(p < endpoints@.len());
        let e = &endpoints[p];
        let server = endpoint_application_description(identity, configured_discovery_urls, false);
        r.push(SessionEndpointDescription {
            endpoint: p,
            endpoint_url: e.endpoint_url.clone(),
            security_policy: e.security_policy,
            security_mode: e.security_mode,
            server,
            server_certificate: None,
        });
        k = k + 1;
    }
    r
}

/// The endpoint descriptions for a CreateSession on `endpoint_url`: one per configured
/// endpoint that serves it (see [`session_endpoints`]), in order, or `None` when there
/// is none. The outer `None` is the configuration that `checked_endpoint_descriptions`
/// refuses: an endpoint serving the URL with an unknown policy while legacy policies
/// are not allowed.
pub fn new_session_endpoint_descriptions(
    identity: &ServerIdentity,
    configured_discovery_urls: &[String],
    endpoints: &[EndpointEntry],
    allow_legacy_crypto: bool,
    endpoint_url: &str,
) -> (r: Option<Option<Vec<SessionEndpointDescription>>>)
    ensures
        ({
            let eps = endpoint_views(endpoints@);
            let s = session_endpoints(eps, endpoint_url@, allow_legacy_crypto, endpoints@.len());
            match r {
                None => unknown_policy_served(eps, allow_legacy_crypto, endpoint_url@),
                Some(None) => !unknown_policy_served(eps, allow_legacy_crypto, endpoint_url@) && s.len() == 0,
                Some(Some(v)) => !unknown_policy_served(eps, allow_legacy_crypto, endpoint_url@) && s.len() > 0
                    && v@.len() == s.len() && forall|k: int|
                    0 <= k < v@.len() ==> describes_for_session(
                        #[trigger] v@[k],
                        s[k],
                        eps[s[k]],
                        *identity,
                        string_views(configured_discovery_urls@),
                    ),
            }
        }),
{
    let ghost eps = endpoint_views(endpoints@);
    match checked_endpoint_descriptions(endpoints, allow_legacy_crypto, endpoint_url) {
        None => None,
        Some(None) => Some(None),
        Some(Some(positions)) => {
            let ghost s = session_endpoints(eps, endpoint_url@, allow_legacy_crypto, endpoints@.len());
            proof {
                lemma_session_endpoints_in_range(eps, endpoint_url@, allow_legacy_crypto, endpoints@.len());
                assert forall|k: int| 0 <= k < positions@.len() implies #[trigger] positions@[k] < endpoints@.len() by {
                    assert(positions@.map_values(|i: usize| i as int)[k] == s[k]);
                }
            }
            let v = session_endpoint_descriptions(identity, configured_discovery_urls, endpoints, positions.as_slice());
            proof {
                assert forall|k: int| 0 <= k < v@.len() implies describes_for_session(
                    #[trigger] v@[k],
                    s[k],
                    eps[s[k]],
                    *identity,
                    string_views(configured_discovery_urls@),
                ) by {
                    assert(positions@.map_values(|i: usize| i as int)[k] == s[k]);
                    assert(eps[s[k]] == endpoints@[s[k]]@);
                }
            }
            Some(Some(v))
        },
    }
}

/// Every position that [`session_endpoints`] selects is that of a configured endpoint.
proof fn lemma_session_endpoints_in_range(eps: Seq<EndpointEntryView>, requested: Seq<char>, allow_legacy: bool, n: nat)
    ensures
        forall|k: int| 0 <= k < session_endpoints(eps, requested, allow_legacy, n).len() ==> 0 <= #[trigger] session_endpoints(
            eps,
            requested,
            allow_legacy,
            n,
        )[k] < n,
    decreases n,
{
    if n > 0 {
        lemma_session_endpoints_in_range(eps, requested, allow_legacy, (n - 1) as nat);
        let p = session_endpoints(eps, requested, allow_legacy, (n - 1) as nat);
        let q = session_endpoints(eps, requested, allow_legacy, n);
        assert forall|k: int| 0 <= k < q.len() implies 0 <= #[trigger] q[k] < n by {
            if k < p.len() {
                assert(q[k] == p[k]);
            }
        }
    }
}

} // verus!
