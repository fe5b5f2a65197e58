//! The registry of servers registered with this server acting as a Local Discovery Server
//! (RegisterServer, OPC UA Part 4, 5.5.5), and the application descriptions it yields.

use vstd::prelude::*;
use crate::discovery::locale::{locale_id_matches, locale_matches};
use crate::status::StatusCode;
use crate::text::string_views;

verus! {

/// The most servers the registry holds.
pub const MAX_REGISTERED_SERVERS: usize = 1000;

/// A text with its locale; a null text or locale is empty.
#[derive(Debug)]
pub struct LocalizedText {
    pub locale: String,
    pub text: String,
}

/// Mathematical view of a [`LocalizedText`].
pub struct LocalizedTextView {
    pub locale: Seq<char>,
    pub text: Seq<char>,
}

impl View for LocalizedText {
    type V = LocalizedTextView;

    open spec fn view(&self) -> LocalizedTextView {
        LocalizedTextView { locale: self.locale@, text: self.text@ }
    }
}

impl LocalizedText {
    /// The null localized text.
    pub fn null() -> (r: LocalizedText)
        ensures
            r@.locale.len() == 0,
            r@.text.len() == 0,
    {
        LocalizedText { locale: String::new(), text: String::new() }
    }

    /// A copy of the text.
    pub fn duplicate(&self) -> (r: LocalizedText)
        ensures
            r@ == self@,
    {
        LocalizedText { locale: self.locale.clone(), text: self.text.clone() }
    }
}

/// The kind of an OPC UA application.
#[derive(Debug, Clone, Copy, PartialEq, Eq, Structural)]
pub enum ApplicationType {
    Server,
    Client,
    ClientAndServer,
    DiscoveryServer,
}

/// A server registration (OPC UA Part 4, `RegisteredServer`); null strings are empty.
#[derive(Debug)]
pub struct RegisteredServer {
    pub server_uri: String,
    pub product_uri: String,
    pub server_names: Option<Vec<LocalizedText>>,
    pub server_type: ApplicationType,
    pub gateway_server_uri: String,
    pub discovery_urls: Option<Vec<String>>,
    pub semaphore_file_path: String,
    pub is_online: bool,
}

/// The views of a sequence of localized texts.
pub open spec fn text_views(v: Seq<LocalizedText>) -> Seq<LocalizedTextView> {
    v.map_values(|t: LocalizedText| t@)
}

/// The view of an optional list of localized texts.
pub open spec fn opt_text_views(v: Option<Vec<LocalizedText>>) -> Option<Seq<LocalizedTextView>> {
    match v {
        Some(x) => Some(text_views(x@)),
        None => None,
    }
}

/// The view of an optional list of strings.
pub open spec fn opt_string_views(v: Option<Vec<String>>) -> Option<Seq<Seq<char>>> {
    match v {
        Some(x) => Some(string_views(x@)),
        None => None,
    }
}

/// Mathematical view of a [`RegisteredServer`].
pub struct RegisteredServerView {
    pub server_uri: Seq<char>,
    pub product_uri: Seq<char>,
    pub server_names: Option<Seq<LocalizedTextView>>,
    pub server_type: ApplicationType,
    pub gateway_server_uri: Seq<char>,
    pub discovery_urls: Option<Seq<Seq<char>>>,
    pub semaphore_file_path: Seq<char>,
    pub is_online: bool,
}

impl View for RegisteredServer {
    type V = RegisteredServerView;

    open spec fn view(&self) -> RegisteredServerView {
        RegisteredServerView {
            server_uri: self.server_uri@,
            product_uri: self.product_uri@,
            server_names: opt_text_views(self.server_names),
            server_type: self.server_type,
            gateway_server_uri: self.gateway_server_uri@,
            discovery_urls: opt_string_views(self.discovery_urls),
            semaphore_file_path: self.semaphore_file_path@,
            is_online: self.is_online,
        }
    }
}

/// Description of an application as returned by FindServers; null strings are empty.
#[derive(Debug)]
pub struct ApplicationDescription {
    pub application_uri: String,
    pub product_uri: String,
    pub application_name: LocalizedText,
    pub application_type: ApplicationType,
    pub gateway_server_uri: String,
    pub discovery_profile_uri: String,
    pub discovery_urls: Option<Vec<String>>,
}

/// Mathematical view of an [`ApplicationDescription`].
pub struct ApplicationDescriptionView {
    pub application_uri: Seq<char>,
    pub product_uri: Seq<char>,
    pub application_name: LocalizedTextView,
    pub application_type: ApplicationType,
    pub gateway_server_uri: Seq<char>,
    pub discovery_profile_uri: Seq<char>,
    pub discovery_urls: Option<Seq<Seq<char>>>,
}

impl View for ApplicationDescription {
    type V = ApplicationDescriptionView;

    open spec fn view(&self) -> ApplicationDescriptionView {
        ApplicationDescriptionView {
            application_uri: self.application_uri@,
            product_uri: self.product_uri@,
            application_name: self.application_name@,
            application_type: self.application_type,
            gateway_server_uri: self.gateway_server_uri@,
            discovery_profile_uri: self.discovery_profile_uri@,
            discovery_urls: opt_string_views(self.discovery_urls),
        }
    }
}

/// A copy of a list of texts.
pub fn copy_strings(v: &Vec<String>) -> (r: Vec<String>)
    ensures
        string_views(r@) == string_views(v@),
{
    let mut r: Vec<String> = Vec::new();
    let mut i: usize = 0;
    while i < v.len()
        invariant
            i <= v.len(),
            r.len() == i,
            forall|j: int| 0 <= j < i ==> r@[j]@ == v@[j]@,
        decreases v.len() - i,
    {
        r.push(v[i].clone());
        i = i + 1;
    }
    assert(string_views(r@) =~= string_views(v@));
    r
}

/// A copy of an optional list of texts.
pub fn copy_opt_strings(v: &Option<Vec<String>>) -> (r: Option<Vec<String>>)
    ensures
        opt_string_views(r) == opt_string_views(*v),
{
    match v {
        Some(x) => Some(copy_strings(x)),
        None => None,
    }
}

/// The index of the first name of `names` whose locale matches `requested`, if any.
pub open spec fn first_name_for(names: Seq<LocalizedTextView>, requested: Seq<char>) -> Option<int>
    decreases names.len(),
{
    if names.len() == 0 {
        None
    } else {
        match first_name_for(names.drop_last(), requested) {
            Some(i) => Some(i),
            None => if locale_matches(names.last().locale, requested) {
                Some(names.len() - 1)
            } else {
                None
            },
        }
    }
}

/// The name chosen for the first requested locale (in request order) that some name matches.
pub open spec fn first_requested_name(names: Seq<LocalizedTextView>, requested: Seq<Seq<char>>) -> Option<
    LocalizedTextView,
>
    decreases requested.len(),
{
    if requested.len() == 0 {
        None
    } else {
        match first_name_for(names, requested[0]) {
            Some(i) => Some(names[i]),
            None => first_requested_name(names, requested.drop_first()),
        }
    }
}

/// The application name reported for a registered server: the name matching the first
/// requested locale that any name matches, else the first name, else the null text.
pub open spec fn application_name_spec(
    names: Option<Seq<LocalizedTextView>>,
    locale_ids: Option<Seq<Seq<char>>>,
) -> LocalizedTextView {
    let null_text = LocalizedTextView { locale: Seq::<char>::empty(), text: Seq::<char>::empty() };
    match names {
        None => null_text,
        Some(n) => {
            let chosen = match locale_ids {
                Some(ids) => first_requested_name(n, ids),
                None => None,
            };
            match chosen {
                Some(t) => t,
                None => if n.len() > 0 {
                    n[0]
                } else {
                    null_text
                },
            }
        },
    }
}

fn find_name_for(names: &Vec<LocalizedText>, requested: &str) -> (r: Option<usize>)
    ensures
        match r {
            Some(i) => first_name_for(text_views(names@), requested@) == Some(i as int) && i < names.len(),
            None => first_name_for(text_views(names@), requested@) is None,
        },
{
    let ghost nv = text_views(names@);
    let mut i: usize = 0;
    assert(nv.take(0) =~= Seq::<LocalizedTextView>::empty());
    while i < names.len()
        invariant
            i <= names.len(),
            nv == text_views(names@),
            first_name_for(nv.take(i as int), requested@) is None,
        decreases names.len() - i,
    {
        assert(nv.take(i + 1).drop_last() =~= nv.take(i as int));
        assert(nv.take(i + 1).last() == names@[i as int]@);
        if locale_id_matches(names[i].locale.as_str(), requested) {
            proof {
                lemma_first_name_prefix(nv, requested@, i as int + 1);
            }
            return Some(i);
        }
        i = i + 1;
    }
    assert(nv.take(names.len() as int) =~= nv);
    None
}

proof fn lemma_first_name_prefix(names: Seq<LocalizedTextView>, requested: Seq<char>, k: int)
    requires
        0 <= k <= names.len(),
        first_name_for(names.take(k), requested) is Some,
    ensures
        first_name_for(names, requested) == first_name_for(names.take(k), requested),
    decreases names.len() - k,
{
    if k < names.len() {
        assert(names.take(k + 1).drop_last() =~= names.take(k));
        lemma_first_name_prefix(names, requested, k + 1);
    } else {
        assert(names.take(k) =~= names);
    }
}

/// The application name reported for a registered server (see [`application_name_spec`]).
pub fn registered_server_application_name(
    server_names: &Option<Vec<LocalizedText>>,
    locale_ids: &Option<Vec<String>>,
) -> (r: LocalizedText)
    ensures
        r@ == application_name_spec(opt_text_views(*server_names), opt_string_views(*locale_ids)),
{
    let names = match server_names {
        Some(n) => n,
        None => {
            let r = LocalizedText::null();
            assert(r@.locale =~= Seq::<char>::empty());
            assert(r@.text =~= Seq::<char>::empty());
            return r;
        },
    };
    let ghost nv = text_views(names@);
    if let Some(ids) = locale_ids {
        let ghost iv = string_views(ids@);
        let mut k: usize = 0;
        assert(iv.subrange(0, iv.len() as int) =~= iv);
        while k < ids.len()
            invariant
                k <= ids.len(),
                nv == text_views(names@),
                iv == string_views(ids@),
                opt_string_views(*locale_ids) == Some(iv),
                opt_text_views(*server_names) == Some(nv),
                first_requested_name(nv, iv) == first_requested_name(nv, iv.subrange(k as int, iv.len() as int)),
            decreases ids.len() - k,
        {
            let ghost sub = iv.subrange(k as int, iv.len() as int);
            assert(sub[0] == ids@[k as int]@);
            assert(sub.drop_first() =~= iv.subrange(k + 1, iv.len() as int));
            if let Some(i) = find_name_for(names, ids[k].as_str()) {
                assert(nv[i as int] == names@[i as int]@);
                assert(first_name_for(nv, sub[0]) == Some(i as int));
                assert(first_requested_name(nv, sub) == Some(nv[i as int]));
                assert(opt_string_views(*locale_ids) == Some(iv));
                assert(opt_text_views(*server_names) == Some(nv));
                assert(first_requested_name(nv, iv) == Some(nv[i as int]));
                return names[i].duplicate();
            }
            k = k + 1;
        }
        assert(iv.subrange(ids.len() as int, iv.len() as int) =~= Seq::<Seq<char>>::empty());
    }
    if names.len() > 0 {
        names[0].duplicate()
    } else {
        let r = LocalizedText::null();
        assert(r@.locale =~= Seq::<char>::empty());
        assert(r@.text =~= Seq::<char>::empty());
        r
    }
}

/// Whether the server supports one of the requested locales: no request, an empty request,
/// or a request holding an empty id always does; otherwise a supported id must match one.
pub open spec fn supports_locales_spec(supported: Seq<Seq<char>>, requested: Option<Seq<Seq<char>>>) -> bool {
    match requested {
        None => true,
        Some(ids) => ids.len() == 0 || exists|i: int|
            0 <= i < ids.len() && (ids[i].len() == 0 || exists|j: int|
                0 <= j < supported.len() && locale_matches(supported[j], ids[i])),
    }
}

fn any_supported(supported: &[String], requested: &str) -> (r: bool)
    ensures
        r == exists|j: int| 0 <= j < supported@.len() && locale_matches(supported@[j]@, requested@),
{
    let mut j: usize = 0;
    while j < supported.len()
        invariant
            j <= supported.len(),
            forall|k: int| 0 <= k < j ==> !locale_matches(supported@[k]@, requested@),
        decreases supported.len() - j,
    {
        if locale_id_matches(supported[j].as_str(), requested) {
            return true;
        }
        j = j + 1;
    }
    false
}

/// Whether the server supports one of the requested locale ids.
pub fn supports_locale_ids(supported: &[String], locale_ids: &Option<Vec<String>>) -> (r: bool)
    ensures
        r == supports_locales_spec(string_views(supported@), opt_string_views(*locale_ids)),
{
    let ids = match locale_ids {
        Some(ids) => ids,
        None => {
            return true;
        },
    };
    if ids.len() == 0 {
        return true;
    }
    let ghost sv = string_views(supported@);
    let ghost iv = string_views(ids@);
    let mut i: usize = 0;
    while i < ids.len()
        invariant
            i <= ids.len(),
            sv == string_views(supported@),
            iv == string_views(ids@),
            opt_string_views(*locale_ids) == Some(iv),
            forall|k: int| 0 <= k < i ==> !(iv[k].len() == 0 || exists|j: int|
                0 <= j < sv.len() && locale_matches(sv[j], iv[k])),
        decreases ids.len() - i,
    {
        assert(iv[i as int] == ids@[i as int]@);
        let empty = ids[i].as_str().is_empty();
        if empty || any_supported(supported, ids[i].as_str()) {
            proof {
                if !empty {
                    let j = choose|j: int|
                        0 <= j < supported@.len() && locale_matches(supported@[j]@, ids@[i as int]@);
                    assert(sv[j] == supported@[j]@);
                }
                assert(iv[i as int].len() == 0 || exists|j: int|
                    0 <= j < sv.len() && locale_matches(sv[j], iv[i as int]));
                assert(supports_locales_spec(sv, Some(iv)));
                assert(opt_string_views(*locale_ids) == Some(iv));
            }
            return true;
        }
        i = i + 1;
    }
    false
}


impl ApplicationType {
    /// A copy of the value.
    pub fn copy(&self) -> (r: ApplicationType)
        ensures
            r == *self,
    {
        *self
    }
}

/// A copy of an optional list of localized texts.
pub fn copy_opt_texts(v: &Option<Vec<LocalizedText>>) -> (r: Option<Vec<LocalizedText>>)
    ensures
        opt_text_views(r) == opt_text_views(*v),
{
    match v {
        None => None,
        Some(x) => {
            let mut r: Vec<LocalizedText> = Vec::new();
            let mut i: usize = 0;
            while i < x.len()
                invariant
                    i <= x.len(),
                    r.len() == i,
                    forall|j: int| 0 <= j < i ==> r@[j]@ == x@[j]@,
                decreases x.len() - i,
            {
                r.push(x[i].duplicate());
                i = i + 1;
            }
            assert(text_views(r@) =~= text_views(x@));
            Some(r)
        },
    }
}

impl RegisteredServer {
    /// A copy of the registration.
    pub fn duplicate(&self) -> (r: RegisteredServer)
        ensures
            r@ == self@,
    {
        RegisteredServer {
            server_uri: self.server_uri.clone(),
            product_uri: self.product_uri.clone(),
            server_names: copy_opt_texts(&self.server_names),
            server_type: self.server_type,
            gateway_server_uri: self.gateway_server_uri.clone(),
            discovery_urls: copy_opt_strings(&self.discovery_urls),
            semaphore_file_path: self.semaphore_file_path.clone(),
            is_online: self.is_online,
        }
    }
}

/// The index of the first registration in `s` whose server URI is `uri`, if any.
pub open spec fn uri_index(s: Seq<RegisteredServerView>, uri: Seq<char>) -> Option<int>
    decreases s.len(),
{
    if s.len() == 0 {
        None
    } else {
        match uri_index(s.drop_last(), uri) {
            Some(i) => Some(i),
            None => if s.last().server_uri == uri {
                Some(s.len() - 1)
            } else {
                None
            },
        }
    }
}

/// No two registrations share a server URI.
pub open spec fn uris_distinct(s: Seq<RegisteredServerView>) -> bool {
    forall|i: int, j: int|
        0 <= i < s.len() && 0 <= j < s.len() && i != j ==> #[trigger] s[i].server_uri
            != #[trigger] s[j].server_uri
}

/// Whether an optional list is missing or empty.
pub open spec fn texts_missing(v: Option<Seq<LocalizedTextView>>) -> bool {
    match v {
        None => true,
        Some(x) => x.len() == 0,
    }
}

/// Whether an optional list of strings is missing or empty.
pub open spec fn strings_missing(v: Option<Seq<Seq<char>>>) -> bool {
    match v {
        None => true,
        Some(x) => x.len() == 0,
    }
}

/// The status a RegisterServer request gets from a registry holding `s`.
pub open spec fn register_status(s: Seq<RegisteredServerView>, server: RegisteredServerView) -> StatusCode {
    if server.server_uri.len() == 0 {
        StatusCode::BadServerUriInvalid
    } else if !server.is_online {
        StatusCode::Good
    } else if texts_missing(server.server_names) {
        StatusCode::BadServerNameMissing
    } else if strings_missing(server.discovery_urls) {
        StatusCode::BadDiscoveryUrlMissing
    } else if uri_index(s, server.server_uri) is None && s.len() >= MAX_REGISTERED_SERVERS {
        StatusCode::BadTooManyOperations
    } else {
        StatusCode::Good
    }
}

/// The registry after a RegisterServer request: an offline registration removes the entry
/// for its URI, an accepted online one replaces it or is appended, any other leaves it.
pub open spec fn registry_after(s: Seq<RegisteredServerView>, server: RegisteredServerView) -> Seq<
    RegisteredServerView,
> {
    if server.server_uri.len() == 0 {
        s
    } else if !server.is_online {
        match uri_index(s, server.server_uri) {
            Some(i) => s.remove(i),
            None => s,
        }
    } else if register_status(s, server) != StatusCode::Good {
        s
    } else {
        match uri_index(s, server.server_uri) {
            Some(i) => s.update(i, server),
            None => s.push(server),
        }
    }
}

/// The servers registered with this server, at most one per server URI.
pub struct ServerRegistry {
    servers: Vec<RegisteredServer>,
}

impl View for ServerRegistry {
    type V = Seq<RegisteredServerView>;

    closed spec fn view(&self) -> Seq<RegisteredServerView> {
        self.servers@.map_values(|r: RegisteredServer| r@)
    }
}

proof fn lemma_uri_index_found(s: Seq<RegisteredServerView>, uri: Seq<char>)
    ensures
        match uri_index(s, uri) {
            Some(i) => 0 <= i < s.len() && s[i].server_uri == uri && forall|j: int|
                0 <= j < i ==> s[j].server_uri != uri,
            None => forall|j: int| 0 <= j < s.len() ==> s[j].server_uri != uri,
        },
    decreases s.len(),
{
    if s.len() > 0 {
        lemma_uri_index_found(s.drop_last(), uri);
        assert forall|j: int| 0 <= j < s.len() - 1 implies s[j] == s.drop_last()[j] by {}
    }
}

impl ServerRegistry {
    /// Whether the registry is well formed: distinct server URIs, within the bound.
    pub open spec fn wf(&self) -> bool {
        &&& uris_distinct(self@)
        &&& self@.len() <= MAX_REGISTERED_SERVERS
    }

    /// An empty registry.
    pub fn new() -> (r: ServerRegistry)
        ensures
            r.wf(),
            r@.len() == 0,
    {
        let r = ServerRegistry { servers: Vec::new() };
        assert(r@ =~= Seq::<RegisteredServerView>::empty());
        r
    }

    /// The number of registered servers.
    pub fn len(&self) -> (n: usize)
        ensures
            n == self@.len(),
    {
        self.servers.len()
    }

    /// A copy of the registration at `i`.
    pub fn get(&self, i: usize) -> (r: RegisteredServer)
        requires
            i < self@.len(),
        ensures
            r@ == self@[i as int],
    {
        self.servers[i].duplicate()
    }

    /// The position of the registration for `uri`, if any.
    pub fn find(&self, uri: &str) -> (r: Option<usize>)
        ensures
            match r {
                Some(i) => uri_index(self@, uri@) == Some(i as int),
                None => uri_index(self@, uri@) is None,
            },
    {
        let ghost v = self@;
        let owned: String = uri.to_owned();
        let mut i: usize = 0;
        proof {
            lemma_uri_index_found(v, uri@);
        }
        while i < self.servers.len()
            invariant
                i <= self.servers.len(),
                v == self@,
                v.len() == self.servers.len(),
                owned@ == uri@,
                forall|j: int| 0 <= j < i ==> v[j].server_uri != uri@,
                match uri_index(v, uri@) {
                    Some(k) => 0 <= k < v.len() && v[k].server_uri == uri@ && forall|j: int|
                        0 <= j < k ==> v[j].server_uri != uri@,
                    None => forall|j: int| 0 <= j < v.len() ==> v[j].server_uri != uri@,
                },
            decreases self.servers.len() - i,
        {
            assert(v[i as int] == self.servers@[i as int]@);
            if self.servers[i].server_uri == owned {
                return Some(i);
            }
            i = i + 1;
        }
        None
    }

    /// Applies a RegisterServer request: see [`register_status`] and [`registry_after`].
    pub fn apply_register_server(&mut self, server: RegisteredServer) -> (status: StatusCode)
        requires
            old(self).wf(),
        ensures
            final(self).wf(),
            status == register_status(old(self)@, server@),
            final(self)@ == registry_after(old(self)@, server@),
    {
        let ghost s = self@;
        if server.server_uri.as_str().is_empty() {
            return StatusCode::BadServerUriInvalid;
        }
        let found = self.find(server.server_uri.as_str());
        proof {
            lemma_uri_index_found(s, server@.server_uri);
        }
        if !server.is_online {
            if let Some(i) = found {
                self.servers.remove(i);
                assert(self@ =~= s.remove(i as int));
            }
            return StatusCode::Good;
        }
        let names_missing = match &server.server_names {
            None => true,
            Some(n) => n.len() == 0,
        };
        if names_missing {
            return StatusCode::BadServerNameMissing;
        }
        let urls_missing = match &server.discovery_urls {
            None => true,
            Some(u) => u.len() == 0,
        };
        if urls_missing {
            return StatusCode::BadDiscoveryUrlMissing;
        }
        match found {
            Some(i) => {
                let ghost sv = server@;
                self.servers.set(i, server);
                assert(self@ =~= s.update(i as int, sv));
                StatusCode::Good
            },
            None => {
                if self.servers.len() >= MAX_REGISTERED_SERVERS {
                    return StatusCode::BadTooManyOperations;
                }
                let ghost sv = server@;
                self.servers.push(server);
                assert(self@ =~= s.push(sv));
                StatusCode::Good
            },
        }
    }
}


/// The application description FindServers reports for a registered server.
pub open spec fn registered_description(
    server: RegisteredServerView,
    locale_ids: Option<Seq<Seq<char>>>,
) -> ApplicationDescriptionView {
    ApplicationDescriptionView {
        application_uri: server.server_uri,
        product_uri: server.product_uri,
        application_name: application_name_spec(server.server_names, locale_ids),
        application_type: server.server_type,
        gateway_server_uri: server.gateway_server_uri,
        discovery_profile_uri: Seq::<char>::empty(),
        discovery_urls: server.discovery_urls,
    }
}

impl ServerRegistry {
    /// The registered servers as application descriptions for FindServers, in registry order.
    pub fn registered_application_descriptions(&self, locale_ids: &Option<Vec<String>>) -> (r: Vec<
        ApplicationDescription,
    >)
        ensures
            r@.len() == self@.len(),
            forall|i: int|
                0 <= i < r@.len() ==> #[trigger] r@[i]@ == registered_description(
                    self@[i],
                    opt_string_views(*locale_ids),
                ),
    {
        let mut r: Vec<ApplicationDescription> = Vec::new();
        let mut i: usize = 0;
        while i < self.servers.len()
            invariant
                i <= self.servers.len(),
                r.len() == i,
                self@.len() == self.servers.len(),
                forall|j: int|
                    0 <= j < i ==> #[trigger] r@[j]@ == registered_description(
                        self@[j],
                        opt_string_views(*locale_ids),
                    ),
            decreases self.servers.len() - i,
        {
            let server = &self.servers[i];
            assert(self@[i as int] == server@);
            let name = registered_server_application_name(&server.server_names, locale_ids);
            let d = ApplicationDescription {
                application_uri: server.server_uri.clone(),
                product_uri: server.product_uri.clone(),
                application_name: name,
                application_type: server.server_type,
                gateway_server_uri: server.gateway_server_uri.clone(),
                discovery_profile_uri: String::new(),
                discovery_urls: copy_opt_strings(&server.discovery_urls),
            };
            assert(d@.discovery_profile_uri =~= Seq::<char>::empty());
            r.push(d);
            i = i + 1;
        }
        r
    }
}

/// This server's own description for FindServers: when an endpoint URL is given it becomes
/// the only discovery URL.
pub open spec fn own_description_for(
    own: ApplicationDescriptionView,
    endpoint_url: Seq<char>,
) -> ApplicationDescriptionView {
    if endpoint_url.len() == 0 {
        own
    } else {
        ApplicationDescriptionView { discovery_urls: Some(seq![endpoint_url]), ..own }
    }
}

/// This server's application description for FindServers (see [`own_description_for`]).
pub fn find_servers_application_description(
    own: ApplicationDescription,
    endpoint_url: &str,
) -> (r: ApplicationDescription)
    ensures
        r@ == own_description_for(own@, endpoint_url@),
{
    let mut description = own;
    if !endpoint_url.is_empty() {
        let mut urls: Vec<String> = Vec::new();
        urls.push(endpoint_url.to_owned());
        assert(string_views(urls@) =~= seq![endpoint_url@]);
        description.discovery_urls = Some(urls);
    }
    description
}

/// After any RegisterServer request on a well-formed registry, the registry holds at most
/// one registration per server URI and no more than the registry bound.
pub proof fn law_registry_stays_bounded_and_unique(s: Seq<RegisteredServerView>, server: RegisteredServerView)
    requires
        uris_distinct(s),
        s.len() <= MAX_REGISTERED_SERVERS,
    ensures
        uris_distinct(registry_after(s, server)),
        registry_after(s, server).len() <= MAX_REGISTERED_SERVERS,
{
    lemma_uri_index_found(s, server.server_uri);
    let r = registry_after(s, server);
    if server.server_uri.len() != 0 && !server.is_online {
        if let Some(i) = uri_index(s, server.server_uri) {
            assert forall|a: int, b: int|
                0 <= a < r.len() && 0 <= b < r.len() && a != b implies #[trigger] r[a].server_uri
                != #[trigger] r[b].server_uri by {
                let a2 = if a < i { a } else { a + 1 };
                let b2 = if b < i { b } else { b + 1 };
                assert(r[a] == s[a2]);
                assert(r[b] == s[b2]);
            }
        }
    }
}

/// An offline registration removes every registration of its server URI.
pub proof fn law_offline_registration_unregisters(s: Seq<RegisteredServerView>, server: RegisteredServerView)
    requires
        uris_distinct(s),
        server.server_uri.len() > 0,
        !server.is_online,
    ensures
        register_status(s, server) == StatusCode::Good,
        forall|k: int|
            0 <= k < registry_after(s, server).len() ==> #[trigger] registry_after(s, server)[k].server_uri
                != server.server_uri,
{
    lemma_uri_index_found(s, server.server_uri);
    let r = registry_after(s, server);
    if let Some(i) = uri_index(s, server.server_uri) {
        assert forall|k: int| 0 <= k < r.len() implies #[trigger] r[k].server_uri != server.server_uri by {
            let k2 = if k < i { k } else { k + 1 };
            assert(r[k] == s[k2]);
            assert(s[i].server_uri == server.server_uri);
        }
    }
}

/// An accepted online registration can afterwards be found under its server URI, holding
/// exactly what was registered; a full registry still accepts updates of servers it holds.
pub proof fn law_registration_is_found(s: Seq<RegisteredServerView>, server: RegisteredServerView)
    requires
        uris_distinct(s),
        s.len() <= MAX_REGISTERED_SERVERS,
        server.server_uri.len() > 0,
        server.is_online,
        !texts_missing(server.server_names),
        !strings_missing(server.discovery_urls),
        uri_index(s, server.server_uri) is Some || s.len() < MAX_REGISTERED_SERVERS,
    ensures
        register_status(s, server) == StatusCode::Good,
        exists|k: int|
            0 <= k < registry_after(s, server).len() && #[trigger] registry_after(s, server)[k] == server,
{
    lemma_uri_index_found(s, server.server_uri);
    let r = registry_after(s, server);
    match uri_index(s, server.server_uri) {
        Some(i) => {
            assert(r[i] == server);
        },
        None => {
            assert(r[s.len() as int] == server);
        },
    }
}

} // verus!
