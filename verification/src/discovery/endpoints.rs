//! Which configured endpoints the server offers for GetEndpoints, FindServers and
//! CreateSession, and the checks on the endpoint URL a client asks for.

use vstd::prelude::*;
use vstd::string::StringExecFns;
use crate::discovery::locale::locale_matches;
use crate::discovery::registry::{opt_string_views, supports_locale_ids, supports_locales_spec};
use crate::permissions::MessageSecurityMode;
use crate::rbac::role_management::decimal_string;
use crate::node_id::decimal_text;
use crate::status::StatusCode;
use crate::text::{eq_ignore_ascii_case, str_eq_ignore_ascii_case, string_views};

verus! {

/// The URI of the binary TCP transport profile, the only transport the server supports.
pub open spec fn binary_transport_profile() -> Seq<char> {
    "http://opcfoundation.org/UA-Profile/Transport/uatcp-uasc-uabinary"@
}

/// The URI of the binary TCP transport profile.
pub fn transport_profile_uri_binary() -> (r: &'static str)
    ensures
        r@ == binary_transport_profile(),
{
    "http://opcfoundation.org/UA-Profile/Transport/uatcp-uasc-uabinary"
}

/// The security policies of OPC UA (`Unknown` for a URI that names none).
#[derive(Debug, Clone, Copy, PartialEq, Eq, Structural)]
pub enum SecurityPolicy {
    Unknown,
    NoSecurity,
    Aes128Sha256RsaOaep,
    Basic256Sha256,
    Aes256Sha256RsaPss,
    Basic128Rsa15,
    Basic256,
}

/// Whether two URLs agree in everything but the host (async-opcua-core's URL parsing).
pub uninterp spec fn urls_match_except_host(a: Seq<char>, b: Seq<char>) -> bool;

/// The host of a URL, if it parses and has one (async-opcua-core's URL parsing).
pub uninterp spec fn url_host(url: Seq<char>) -> Option<Seq<char>>;

/// Whether a security policy is deprecated: Basic128Rsa15 and Basic256, which sign with
/// SHA-1.
pub open spec fn policy_deprecated(policy: SecurityPolicy) -> bool {
    policy == SecurityPolicy::Basic128Rsa15 || policy == SecurityPolicy::Basic256
}

/// Whether a DER certificate names `host` among its subject alternative names
/// (async-opcua-crypto).
pub uninterp spec fn certificate_names_host(der: Seq<u8>, host: Seq<char>) -> bool;

/// `url_matches_except_host` of async-opcua-core: whether both URLs parse and agree in
/// scheme, path (but for a trailing `/`), query and fragment. The contract names it.
#[verifier::external_body]
fn url_matches_except_host(a: &str, b: &str) -> (r: bool)
    ensures
        r == urls_match_except_host(a@, b@),
{
    opcua_core::comms::url::url_matches_except_host(a, b)
}

/// `hostname_from_url` of async-opcua-core: the host of a URL that parses and has one.
/// The contract names it.
#[verifier::external_body]
fn hostname_from_url(url: &str) -> (r: Option<String>)
    ensures
        match r {
            Some(h) => url_host(url@) == Some(h@),
            None => url_host(url@) is None,
        },
{
    opcua_core::comms::url::hostname_from_url(url).ok()
}

/// `SecurityPolicy::is_deprecated` of async-opcua-crypto, which panics on `Unknown`:
/// true exactly for the policies whose `DEPRECATED` constant is set, Basic128Rsa15 and
/// Basic256.
#[verifier::external_body]
fn is_deprecated(policy: SecurityPolicy) -> (r: bool)
    requires
        policy != SecurityPolicy::Unknown,
    ensures
        r == policy_deprecated(policy),
{
    let p = match policy {
        SecurityPolicy::Unknown => opcua_crypto::SecurityPolicy::Unknown,
        SecurityPolicy::NoSecurity => opcua_crypto::SecurityPolicy::None,
        SecurityPolicy::Aes128Sha256RsaOaep => opcua_crypto::SecurityPolicy::Aes128Sha256RsaOaep,
        SecurityPolicy::Basic256Sha256 => opcua_crypto::SecurityPolicy::Basic256Sha256,
        SecurityPolicy::Aes256Sha256RsaPss => opcua_crypto::SecurityPolicy::Aes256Sha256RsaPss,
        SecurityPolicy::Basic128Rsa15 => opcua_crypto::SecurityPolicy::Basic128Rsa15,
        SecurityPolicy::Basic256 => opcua_crypto::SecurityPolicy::Basic256,
    };
    p.is_deprecated()
}

/// `X509::from_der` then `is_hostname_valid` of async-opcua-crypto: whether the DER
/// certificate parses and one of its subject alternative names (after the first) equals
/// `host` up to ASCII case. As the source shows, an empty host is never valid.
#[verifier::external_body]
fn certificate_hostname_valid(der: &[u8], host: &str) -> (r: bool)
    ensures
        r == certificate_names_host(der@, host@),
        host@.len() == 0 ==> !r,
{
    match opcua_crypto::X509::from_der(der) {
        Ok(cert) => cert.is_hostname_valid(host).is_ok(),
        Err(_) => false,
    }
}

/// A configured endpoint: its URL (resolved against the base endpoint), security policy
/// and mode.
#[derive(Debug)]
pub struct EndpointEntry {
    pub endpoint_url: String,
    pub security_policy: SecurityPolicy,
    pub security_mode: MessageSecurityMode,
}

/// Mathematical view of an [`EndpointEntry`].
pub struct EndpointEntryView {
    pub endpoint_url: Seq<char>,
    pub security_policy: SecurityPolicy,
    pub security_mode: MessageSecurityMode,
}

impl View for EndpointEntry {
    type V = EndpointEntryView;

    open spec fn view(&self) -> EndpointEntryView {
        EndpointEntryView {
            endpoint_url: self.endpoint_url@,
            security_policy: self.security_policy,
            security_mode: self.security_mode,
        }
    }
}

/// The views of a list of endpoints.
pub open spec fn endpoint_views(v: Seq<EndpointEntry>) -> Seq<EndpointEntryView> {
    v.map_values(|e: EndpointEntry| e@)
}

/// An endpoint offered to a client: the position of the configured endpoint and the URL
/// to report for it.
#[derive(Debug)]
pub struct EndpointChoice {
    pub index: usize,
    pub endpoint_url: String,
}

/// The view of a choice.
pub open spec fn choice_view(c: EndpointChoice) -> (int, Seq<char>) {
    (c.index as int, c.endpoint_url@)
}

/// The views of a list of choices.
pub open spec fn choice_views(v: Seq<EndpointChoice>) -> Seq<(int, Seq<char>)> {
    v.map_values(|c: EndpointChoice| choice_view(c))
}

/// Whether a client's transport profile URIs allow the binary transport: none or an
/// empty list do; otherwise the list must name it.
pub open spec fn transport_supported(profiles: Option<Seq<Seq<char>>>) -> bool {
    match profiles {
        None => true,
        Some(p) => p.len() == 0 || p.contains(binary_transport_profile()),
    }
}

/// The endpoints at positions `0..n` of `eps` whose URL agrees with `requested` but for
/// the host, each reported under `url_override` when given, else its own URL.
pub open spec fn matching_choices(
    eps: Seq<EndpointEntryView>,
    requested: Seq<char>,
    url_override: Option<Seq<char>>,
    n: nat,
) -> Seq<(int, Seq<char>)>
    decreases n,
{
    if n == 0 {
        Seq::empty()
    } else {
        let p = matching_choices(eps, requested, url_override, (n - 1) as nat);
        let i = n - 1;
        if urls_match_except_host(eps[i].endpoint_url, requested) {
            p.push((i, match url_override {
                Some(u) => u,
                None => eps[i].endpoint_url,
            }))
        } else {
            p
        }
    }
}

/// Every endpoint under its own URL.
pub open spec fn all_choices(eps: Seq<EndpointEntryView>) -> Seq<(int, Seq<char>)> {
    Seq::new(eps.len(), |i: int| (i, eps[i].endpoint_url))
}

/// The endpoints offered for a GetEndpoints request: none at all (`None`) when the
/// client asks only for transports other than binary TCP; an empty list when none of
/// the client's locales is supported; every endpoint when no URL is given; those whose
/// URL agrees with the requested one but for the host when the URL has a host (reported
/// under the requested URL when `mirror`); else the default endpoint, if any.
pub open spec fn endpoints_for_request(
    eps: Seq<EndpointEntryView>,
    server_locales: Seq<Seq<char>>,
    default_index: Option<int>,
    requested: Seq<char>,
    profiles: Option<Seq<Seq<char>>>,
    locale_ids: Option<Seq<Seq<char>>>,
    mirror: bool,
) -> Option<Seq<(int, Seq<char>)>> {
    if !transport_supported(profiles) {
        None
    } else if !supports_locales_spec(server_locales, locale_ids) {
        Some(Seq::empty())
    } else if requested.len() == 0 {
        Some(all_choices(eps))
    } else if url_host(requested) is Some {
        Some(matching_choices(eps, requested, if mirror { Some(requested) } else { None }, eps.len()))
    } else {
        match default_index {
            Some(i) => Some(seq![(i, eps[i].endpoint_url)]),
            None => Some(Seq::empty()),
        }
    }
}

fn transport_profiles_supported(profiles: &Option<Vec<String>>) -> (r: bool)
    ensures
        r == transport_supported(opt_string_views(*profiles)),
{
    match profiles {
        None => true,
        Some(p) => {
            if p.len() == 0 {
                return true;
            }
            let binary = transport_profile_uri_binary().to_owned();
            let ghost pv = string_views(p@);
            let mut i: usize = 0;
            while i < p.len()
                invariant
                    i <= p.len(),
                    pv == string_views(p@),
                    opt_string_views(*profiles) == Some(pv),
                    binary@ == binary_transport_profile(),
                    forall|j: int| 0 <= j < i ==> pv[j] != binary_transport_profile(),
                decreases p.len() - i,
            {
                assert(pv[i as int] == p@[i as int]@);
                if p[i] == binary {
                    assert(pv.contains(binary_transport_profile()));
                    return true;
                }
                i = i + 1;
            }
            assert(!pv.contains(binary_transport_profile()));
            false
        },
    }
}

/// The endpoints offered for a GetEndpoints request (see [`endpoints_for_request`]).
pub fn endpoints_with_filters_inner(
    endpoints: &[EndpointEntry],
    server_locale_ids: &[String],
    default_index: Option<usize>,
    endpoint_url: &str,
    transport_profile_uris: &Option<Vec<String>>,
    locale_ids: &Option<Vec<String>>,
    mirror_requested_endpoint_url: bool,
) -> (r: Option<Vec<EndpointChoice>>)
    requires
        match default_index {
            Some(i) => i < endpoints@.len(),
            None => true,
        },
    ensures
        match r {
            Some(v) => endpoints_for_request(
                endpoint_views(endpoints@),
                string_views(server_locale_ids@),
                match default_index {
                    Some(i) => Some(i as int),
                    None => None,
                },
                endpoint_url@,
                opt_string_views(*transport_profile_uris),
                opt_string_views(*locale_ids),
                mirror_requested_endpoint_url,
            ) == Some(choice_views(v@)),
            None => endpoints_for_request(
                endpoint_views(endpoints@),
                string_views(server_locale_ids@),
                match default_index {
                    Some(i) => Some(i as int),
                    None => None,
                },
                endpoint_url@,
                opt_string_views(*transport_profile_uris),
                opt_string_views(*locale_ids),
                mirror_requested_endpoint_url,
            ) is None,
        },
{
    let ghost eps = endpoint_views(endpoints@);
    if !transport_profiles_supported(transport_profile_uris) {
        return None;
    }
    if !supports_locale_ids(server_locale_ids, locale_ids) {
        let r: Vec<EndpointChoice> = Vec::new();
        assert(choice_views(r@) =~= Seq::<(int, Seq<char>)>::empty());
        return Some(r);
    }
    let mut out: Vec<EndpointChoice> = Vec::new();
    if endpoint_url.is_empty() {
        let mut i: usize = 0;
        while i < endpoints.len()
            invariant
                i <= endpoints.len(),
                eps == endpoint_views(endpoints@),
                choice_views(out@) == all_choices(eps).take(i as int),
            decreases endpoints.len() - i,
        {
            let ghost before = choice_views(out@);
            assert(eps[i as int] == endpoints@[i as int]@);
            out.push(EndpointChoice { index: i, endpoint_url: endpoints[i].endpoint_url.clone() });
            assert(choice_views(out@) =~= before.push((i as int, eps[i as int].endpoint_url)));
            assert(all_choices(eps).take(i + 1) =~= all_choices(eps).take(i as int).push((i as int, eps[i as int].endpoint_url)));
            i = i + 1;
        }
        assert(all_choices(eps).take(endpoints.len() as int) =~= all_choices(eps));
        return Some(out);
    }
    if hostname_from_url(endpoint_url).is_some() {
        let ghost ov: Option<Seq<char>> = if mirror_requested_endpoint_url { Some(endpoint_url@) } else { None };
        let mut i: usize = 0;
        while i < endpoints.len()
            invariant
                i <= endpoints.len(),
                eps == endpoint_views(endpoints@),
                ov == (if mirror_requested_endpoint_url { Some(endpoint_url@) } else { None::<Seq<char>> }),
                choice_views(out@) == matching_choices(eps, endpoint_url@, ov, i as nat),
            decreases endpoints.len() - i,
        {
            assert(eps[i as int] == endpoints@[i as int]@);
            if url_matches_except_host(endpoints[i].endpoint_url.as_str(), endpoint_url) {
                let url = if mirror_requested_endpoint_url {
                    endpoint_url.to_owned()
                } else {
                    endpoints[i].endpoint_url.clone()
                };
                let ghost before = choice_views(out@);
                let ghost uv = url@;
                out.push(EndpointChoice { index: i, endpoint_url: url });
                assert(choice_views(out@) =~= before.push((i as int, uv)));
            }
            i = i + 1;
        }
        return Some(out);
    }
    match default_index {
        Some(i) => {
            out.push(EndpointChoice { index: i, endpoint_url: endpoints[i].endpoint_url.clone() });
            assert(choice_views(out@) =~= seq![(i as int, eps[i as int].endpoint_url)]);
            Some(out)
        },
        None => {
            assert(choice_views(out@) =~= Seq::<(int, Seq<char>)>::empty());
            Some(out)
        },
    }
}

/// The URLs the server advertises: each endpoint's URL, then the discovery URLs.
pub open spec fn advertised_urls(eps: Seq<EndpointEntryView>, discovery_urls: Seq<Seq<char>>) -> Seq<Seq<char>> {
    eps.map_values(|e: EndpointEntryView| e.endpoint_url) + discovery_urls
}

fn advertised(endpoints: &[EndpointEntry], discovery_urls: &[String]) -> (r: Vec<String>)
    ensures
        string_views(r@) == advertised_urls(endpoint_views(endpoints@), string_views(discovery_urls@)),
{
    let ghost target = advertised_urls(endpoint_views(endpoints@), string_views(discovery_urls@));
    let mut r: Vec<String> = Vec::new();
    let mut i: usize = 0;
    while i < endpoints.len()
        invariant
            i <= endpoints.len(),
            target == advertised_urls(endpoint_views(endpoints@), string_views(discovery_urls@)),
            string_views(r@) == target.take(i as int),
        decreases endpoints.len() - i,
    {
        let ghost before = string_views(r@);
        r.push(endpoints[i].endpoint_url.clone());
        assert(target[i as int] == endpoints@[i as int].endpoint_url@);
        assert(string_views(r@) =~= before.push(endpoints@[i as int].endpoint_url@));
        assert(string_views(r@) =~= target.take(i + 1));
        i = i + 1;
    }
    let mut k: usize = 0;
    while k < discovery_urls.len()
        invariant
            k <= discovery_urls.len(),
            target == advertised_urls(endpoint_views(endpoints@), string_views(discovery_urls@)),
            string_views(r@) == target.take(endpoints@.len() + k),
        decreases discovery_urls.len() - k,
    {
        let ghost before = string_views(r@);
        r.push(discovery_urls[k].clone());
        assert(target[endpoints@.len() + k] == discovery_urls@[k as int]@);
        assert(string_views(r@) =~= before.push(discovery_urls@[k as int]@));
        assert(string_views(r@) =~= target.take(endpoints@.len() + k + 1));
        k = k + 1;
    }
    assert(target.take((endpoints@.len() + discovery_urls@.len()) as int) =~= target);
    r
}

/// Whether a requested discovery endpoint URL is served: an empty URL always is; else it
/// must agree with an advertised URL but for the host.
pub open spec fn discovery_url_served(advertised: Seq<Seq<char>>, requested: Seq<char>) -> bool {
    requested.len() == 0 || exists|i: int| 0 <= i < advertised.len() && urls_match_except_host(#[trigger] advertised[i], requested)
}

/// Whether the requested endpoint URL of a FindServers request is served (see
/// [`discovery_url_served`]).
pub fn matches_discovery_endpoint_url(endpoints: &[EndpointEntry], discovery_urls: &[String], endpoint_url: &str) -> (r: bool)
    ensures
        r == discovery_url_served(advertised_urls(endpoint_views(endpoints@), string_views(discovery_urls@)), endpoint_url@),
{
    if endpoint_url.is_empty() {
        return true;
    }
    let adv = advertised(endpoints, discovery_urls);
    let ghost av = string_views(adv@);
    let mut i: usize = 0;
    while i < adv.len()
        invariant
            i <= adv.len(),
            av == string_views(adv@),
            av == advertised_urls(endpoint_views(endpoints@), string_views(discovery_urls@)),
            endpoint_url@.len() > 0,
            forall|j: int| 0 <= j < i ==> !urls_match_except_host(#[trigger] av[j], endpoint_url@),
        decreases adv.len() - i,
    {
        assert(av[i as int] == adv@[i as int]@);
        if url_matches_except_host(adv[i].as_str(), endpoint_url) {
            assert(urls_match_except_host(av[i as int], endpoint_url@));
            return true;
        }
        i = i + 1;
    }
    false
}

/// Whether an advertised URL agrees with `endpoint_url` but for the host and has the
/// host `hostname` (up to ASCII case).
pub open spec fn host_advertised(advertised: Seq<Seq<char>>, endpoint_url: Seq<char>, hostname: Seq<char>) -> bool {
    exists|i: int|
        0 <= i < advertised.len() && urls_match_except_host(#[trigger] advertised[i], endpoint_url) && match url_host(
            advertised[i],
        ) {
            Some(h) => eq_ignore_ascii_case(h, hostname),
            None => false,
        }
}

/// Whether a FindServers request's filters select this server: it supports one of the
/// requested locales and serves the requested endpoint URL.
pub fn matches_find_servers_filters(
    endpoints: &[EndpointEntry],
    discovery_urls: &[String],
    server_locale_ids: &[String],
    endpoint_url: &str,
    locale_ids: &Option<Vec<String>>,
) -> (r: bool)
    ensures
        r == (supports_locales_spec(string_views(server_locale_ids@), opt_string_views(*locale_ids))
            && discovery_url_served(advertised_urls(endpoint_views(endpoints@), string_views(discovery_urls@)), endpoint_url@)),
{
    supports_locale_ids(server_locale_ids, locale_ids) && matches_discovery_endpoint_url(endpoints, discovery_urls, endpoint_url)
}

/// Whether `hostname` is the host of an advertised URL matching `endpoint_url` (see
/// [`host_advertised`]).
pub fn endpoint_hostname_matches_advertised_endpoint(
    endpoints: &[EndpointEntry],
    discovery_urls: &[String],
    endpoint_url: &str,
    hostname: &str,
) -> (r: bool)
    ensures
        r == host_advertised(advertised_urls(endpoint_views(endpoints@), string_views(discovery_urls@)), endpoint_url@, hostname@),
{
    let adv = advertised(endpoints, discovery_urls);
    let ghost av = string_views(adv@);
    let mut i: usize = 0;
    while i < adv.len()
        invariant
            i <= adv.len(),
            av == string_views(adv@),
            av == advertised_urls(endpoint_views(endpoints@), string_views(discovery_urls@)),
            forall|j: int|
                0 <= j < i ==> !(urls_match_except_host(#[trigger] av[j], endpoint_url@) && match url_host(av[j]) {
                    Some(h) => eq_ignore_ascii_case(h, hostname@),
                    None => false,
                }),
        decreases adv.len() - i,
    {
        assert(av[i as int] == adv@[i as int]@);
        if url_matches_except_host(adv[i].as_str(), endpoint_url) {
            if let Some(h) = hostname_from_url(adv[i].as_str()) {
                if str_eq_ignore_ascii_case(h.as_str(), hostname) {
                    assert(urls_match_except_host(av[i as int], endpoint_url@) && match url_host(av[i as int]) {
                        Some(hh) => eq_ignore_ascii_case(hh, hostname@),
                        None => false,
                    });
                    return true;
                }
            }
        }
        i = i + 1;
    }
    false
}

/// The check of the host of a requested endpoint URL: the URL must have a host; it must
/// be advertised for that URL or named by the server certificate.
pub open spec fn endpoint_hostname_check(
    advertised: Seq<Seq<char>>,
    certificate: Option<Seq<u8>>,
    endpoint_url: Seq<char>,
) -> Result<(), StatusCode> {
    match url_host(endpoint_url) {
        None => Err(StatusCode::BadTcpEndpointUrlInvalid),
        Some(h) => if host_advertised(advertised, endpoint_url, h) {
            Ok(())
        } else if match certificate {
            Some(der) => certificate_names_host(der, h),
            None => false,
        } {
            Ok(())
        } else {
            Err(StatusCode::BadCertificateHostNameInvalid)
        },
    }
}

/// Validates the host of a requested endpoint URL (see [`endpoint_hostname_check`]);
/// `certificate` is the DER of the server certificate, if any.
pub fn validate_endpoint_hostname(
    endpoints: &[EndpointEntry],
    discovery_urls: &[String],
    certificate: Option<&[u8]>,
    endpoint_url: &str,
) -> (r: Result<(), StatusCode>)
    ensures
        r == endpoint_hostname_check(
            advertised_urls(endpoint_views(endpoints@), string_views(discovery_urls@)),
            match certificate {
                Some(c) => Some(c@),
                None => None,
            },
            endpoint_url@,
        ),
{
    let hostname = match hostname_from_url(endpoint_url) {
        Some(h) => h,
        None => {
            return Err(StatusCode::BadTcpEndpointUrlInvalid);
        },
    };
    if endpoint_hostname_matches_advertised_endpoint(endpoints, discovery_urls, endpoint_url, hostname.as_str()) {
        return Ok(());
    }
    let valid = match certificate {
        Some(der) => certificate_hostname_valid(der, hostname.as_str()),
        None => false,
    };
    if valid {
        Ok(())
    } else {
        Err(StatusCode::BadCertificateHostNameInvalid)
    }
}

/// The endpoints at positions `0..n` whose URL agrees with `requested` but for the host
/// and whose policy is allowed (not deprecated, unless legacy policies are allowed).
pub open spec fn session_endpoints(eps: Seq<EndpointEntryView>, requested: Seq<char>, allow_legacy: bool, n: nat) -> Seq<int>
    decreases n,
{
    if n == 0 {
        Seq::empty()
    } else {
        let p = session_endpoints(eps, requested, allow_legacy, (n - 1) as nat);
        let i = n - 1;
        if urls_match_except_host(eps[i].endpoint_url, requested) && (allow_legacy || !policy_deprecated(eps[i].security_policy)) {
            p.push(i)
        } else {
            p
        }
    }
}

/// The positions of the endpoints that can serve a session on `endpoint_url` (see
/// [`session_endpoints`]), or `None` when there are none.
pub fn new_endpoint_descriptions(endpoints: &[EndpointEntry], allow_legacy_crypto: bool, endpoint_url: &str) -> (r: Option<Vec<usize>>)
    requires
        !allow_legacy_crypto ==> forall|i: int|
            0 <= i < endpoints@.len() && urls_match_except_host(#[trigger] endpoints@[i].endpoint_url@, endpoint_url@)
                ==> endpoints@[i].security_policy != SecurityPolicy::Unknown,
    ensures
        ({
            let s = session_endpoints(endpoint_views(endpoints@), endpoint_url@, allow_legacy_crypto, endpoints@.len());
            match r {
                Some(v) => s.len() > 0 && v@.map_values(|i: usize| i as int) == s,
                None => s.len() == 0,
            }
        }),
{
    let ghost eps = endpoint_views(endpoints@);
    let mut out: Vec<usize> = Vec::new();
    let mut i: usize = 0;
    while i < endpoints.len()
        invariant
            i <= endpoints.len(),
            eps == endpoint_views(endpoints@),
            !allow_legacy_crypto ==> forall|j: int|
                0 <= j < endpoints@.len() && urls_match_except_host(#[trigger] endpoints@[j].endpoint_url@, endpoint_url@)
                    ==> endpoints@[j].security_policy != SecurityPolicy::Unknown,
            out@.map_values(|k: usize| k as int) == session_endpoints(eps, endpoint_url@, allow_legacy_crypto, i as nat),
        decreases endpoints.len() - i,
    {
        assert(eps[i as int] == endpoints@[i as int]@);
        if url_matches_except_host(endpoints[i].endpoint_url.as_str(), endpoint_url)
            && (allow_legacy_crypto || !is_deprecated(endpoints[i].security_policy)) {
            let ghost before = out@.map_values(|k: usize| k as int);
            out.push(i);
            assert(out@.map_values(|k: usize| k as int) =~= before.push(i as int));
        }
        i = i + 1;
    }
    if out.len() == 0 {
        None
    } else {
        Some(out)
    }
}

/// Whether an endpoint that serves `endpoint_url` has an unknown security policy while
/// legacy policies are not allowed: the one case in which the policy check of
/// [`new_endpoint_descriptions`] cannot be made.
pub open spec fn unknown_policy_served(eps: Seq<EndpointEntryView>, allow_legacy: bool, requested: Seq<char>) -> bool {
    !allow_legacy && exists|i: int|
        0 <= i < eps.len() && urls_match_except_host(#[trigger] eps[i].endpoint_url, requested)
            && eps[i].security_policy == SecurityPolicy::Unknown
}

/// The session endpoints of [`new_endpoint_descriptions`] for any configuration: `None`
/// when an endpoint serving `endpoint_url` has an unknown policy and legacy policies are
/// not allowed (see [`unknown_policy_served`]), else `Some` of its result.
pub fn checked_endpoint_descriptions(
    endpoints: &[EndpointEntry],
    allow_legacy_crypto: bool,
    endpoint_url: &str,
) -> (r: Option<Option<Vec<usize>>>)
    ensures
        ({
            let eps = endpoint_views(endpoints@);
            let s = session_endpoints(eps, endpoint_url@, allow_legacy_crypto, endpoints@.len());
            match r {
                None => unknown_policy_served(eps, allow_legacy_crypto, endpoint_url@),
                Some(None) => !unknown_policy_served(eps, allow_legacy_crypto, endpoint_url@) && s.len() == 0,
                Some(Some(v)) => !unknown_policy_served(eps, allow_legacy_crypto, endpoint_url@) && s.len() > 0
                    && v@.map_values(|i: usize| i as int) == s,
            }
        }),
{
    let ghost eps = endpoint_views(endpoints@);
    if !allow_legacy_crypto {
        let mut i: usize = 0;
        while i < endpoints.len()
            invariant
                i <= endpoints.len(),
                !allow_legacy_crypto,
                eps == endpoint_views(endpoints@),
                forall|j: int|
                    0 <= j < i && urls_match_except_host(#[trigger] endpoints@[j].endpoint_url@, endpoint_url@)
                        ==> endpoints@[j].security_policy != SecurityPolicy::Unknown,
            decreases endpoints.len() - i,
        {
            assert(eps[i as int] == endpoints@[i as int]@);
            if url_matches_except_host(endpoints[i].endpoint_url.as_str(), endpoint_url)
                && endpoints[i].security_policy == SecurityPolicy::Unknown {
                assert(urls_match_except_host(eps[i as int].endpoint_url, endpoint_url@));
                assert(eps[i as int].security_policy == SecurityPolicy::Unknown);
                assert(unknown_policy_served(eps, allow_legacy_crypto, endpoint_url@));
                return None;
            }
            i = i + 1;
        }
        assert(!unknown_policy_served(eps, allow_legacy_crypto, endpoint_url@)) by {
            assert forall|j: int|
                0 <= j < eps.len() && urls_match_except_host(#[trigger] eps[j].endpoint_url, endpoint_url@)
                    implies eps[j].security_policy != SecurityPolicy::Unknown by {
                assert(eps[j] == endpoints@[j]@);
            }
        }
    }
    Some(new_endpoint_descriptions(endpoints, allow_legacy_crypto, endpoint_url))
}

/// Whether an endpoint serves `endpoint_url` with this policy and mode: the URL agrees
/// but for the host, the policy and mode are equal.
pub open spec fn endpoint_found(
    eps: Seq<EndpointEntryView>,
    endpoint_url: Seq<char>,
    policy: SecurityPolicy,
    mode: MessageSecurityMode,
) -> bool {
    exists|i: int|
        0 <= i < eps.len() && urls_match_except_host(#[trigger] eps[i].endpoint_url, endpoint_url)
            && eps[i].security_policy == policy && eps[i].security_mode == mode
}

/// Whether the server has an endpoint for `endpoint_url` with this policy and mode; a
/// deprecated policy has none unless legacy policies are allowed.
pub fn endpoint_exists(
    endpoints: &[EndpointEntry],
    allow_legacy_crypto: bool,
    endpoint_url: &str,
    security_policy: SecurityPolicy,
    security_mode: MessageSecurityMode,
) -> (r: bool)
    requires
        security_policy != SecurityPolicy::Unknown,
    ensures
        r == ((allow_legacy_crypto || !policy_deprecated(security_policy)) && endpoint_found(
            endpoint_views(endpoints@),
            endpoint_url@,
            security_policy,
            security_mode,
        )),
{
    if is_deprecated(security_policy) && !allow_legacy_crypto {
        return false;
    }
    let ghost eps = endpoint_views(endpoints@);
    let mut i: usize = 0;
    while i < endpoints.len()
        invariant
            i <= endpoints.len(),
            eps == endpoint_views(endpoints@),
            allow_legacy_crypto || !policy_deprecated(security_policy),
            forall|j: int|
                0 <= j < i ==> !(urls_match_except_host(#[trigger] eps[j].endpoint_url, endpoint_url@)
                    && eps[j].security_policy == security_policy && eps[j].security_mode == security_mode),
        decreases endpoints.len() - i,
    {
        assert(eps[i as int] == endpoints@[i as int]@);
        if url_matches_except_host(endpoints[i].endpoint_url.as_str(), endpoint_url)
            && endpoints[i].security_policy == security_policy && endpoints[i].security_mode == security_mode {
            assert(urls_match_except_host(eps[i as int].endpoint_url, endpoint_url@));
            return true;
        }
        i = i + 1;
    }
    false
}

/// The server's discovery URLs, or `None` when it has none.
pub fn discovery_urls(configured: &[String]) -> (r: Option<Vec<String>>)
    ensures
        match r {
            Some(v) => configured@.len() > 0 && string_views(v@) == string_views(configured@),
            None => configured@.len() == 0,
        },
{
    if configured.len() == 0 {
        return None;
    }
    let mut r: Vec<String> = Vec::new();
    let mut i: usize = 0;
    while i < configured.len()
        invariant
            i <= configured.len(),
            r.len() == i,
            forall|j: int| 0 <= j < i ==> r@[j]@ == configured@[j]@,
        decreases configured.len() - i,
    {
        r.push(configured[i].clone());
        i = i + 1;
    }
    assert(string_views(r@) =~= string_views(configured@));
    Some(r)
}

/// The base endpoint URL `opc.tcp://<host>:<port>`.
pub open spec fn base_endpoint_text(host: Seq<char>, port: u16) -> Seq<char> {
    seq!['o', 'p', 'c', '.', 't', 'c', 'p', ':', '/', '/'] + host + seq![':'] + decimal_text(port as nat)
}

/// The base endpoint URL of the server: its configured host and current port.
pub fn base_endpoint(host: &str, port: u16) -> (r: String)
    ensures
        r@ == base_endpoint_text(host@, port),
{
    proof {
        reveal_strlit("opc.tcp://");
        reveal_strlit(":");
    }
    let mut r = "opc.tcp://".to_owned();
    r.append(host);
    r.append(":");
    let digits = decimal_string(port as usize);
    r.append(digits.as_str());
    assert(r@ =~= base_endpoint_text(host@, port));
    r
}

proof fn lemma_matching_choices(
    eps: Seq<EndpointEntryView>,
    requested: Seq<char>,
    url_override: Option<Seq<char>>,
    n: nat,
)
    requires
        n <= eps.len(),
    ensures
        forall|i: int|
            0 <= i < matching_choices(eps, requested, url_override, n).len() ==> {
                let c = #[trigger] matching_choices(eps, requested, url_override, n)[i];
                &&& 0 <= c.0 < n
                &&& urls_match_except_host(eps[c.0].endpoint_url, requested)
                &&& c.1 == match url_override {
                    Some(u) => u,
                    None => eps[c.0].endpoint_url,
                }
            },
    decreases n,
{
    if n > 0 {
        lemma_matching_choices(eps, requested, url_override, (n - 1) as nat);
    }
}

/// When a client asks GetEndpoints for a URL with a host, every endpoint offered serves
/// that URL (it agrees with it but for the host), and is reported under the requested
/// URL when the server mirrors it, else under its own.
pub proof fn law_offered_endpoints_serve_requested_url(
    eps: Seq<EndpointEntryView>,
    server_locales: Seq<Seq<char>>,
    default_index: Option<int>,
    requested: Seq<char>,
    profiles: Option<Seq<Seq<char>>>,
    locale_ids: Option<Seq<Seq<char>>>,
    mirror: bool,
)
    requires
        requested.len() > 0,
        url_host(requested) is Some,
    ensures
        match endpoints_for_request(eps, server_locales, default_index, requested, profiles, locale_ids, mirror) {
            Some(v) => forall|i: int|
                0 <= i < v.len() ==> {
                    let c = #[trigger] v[i];
                    &&& 0 <= c.0 < eps.len()
                    &&& urls_match_except_host(eps[c.0].endpoint_url, requested)
                    &&& c.1 == if mirror {
                        requested
                    } else {
                        eps[c.0].endpoint_url
                    }
                },
            None => true,
        },
{
    lemma_matching_choices(eps, requested, if mirror { Some(requested) } else { None }, eps.len());
}

} // verus!
