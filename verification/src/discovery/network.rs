//! FindServersOnNetwork (OPC UA Part 4, 5.5.3): the registered servers and the servers
//! seen through multicast discovery, as records sorted by name, filtered by record id and
//! capabilities, and bounded in number.

use vstd::prelude::*;
use crate::discovery::registry::{
    text_views, LocalizedTextView, RegisteredServerView, ServerRegistry,
};
use crate::text::{eq_ignore_ascii_case, str_eq_ignore_ascii_case, string_views};

verus! {

/// A server seen through multicast discovery.
#[derive(Debug)]
pub struct DiscoveredServer {
    /// The DNS-SD service instance name, by which records are sorted.
    pub instance_name: String,
    pub server_name: String,
    pub discovery_url: String,
    pub capabilities: Vec<String>,
}

/// A FindServersOnNetwork record.
#[derive(Debug)]
pub struct ServerOnNetwork {
    pub record_id: u32,
    pub server_name: String,
    pub discovery_url: String,
    pub server_capabilities: Option<Vec<String>>,
}

/// Mathematical view of a [`ServerOnNetwork`].
pub struct ServerOnNetworkView {
    pub record_id: u32,
    pub server_name: Seq<char>,
    pub discovery_url: Seq<char>,
    pub server_capabilities: Option<Seq<Seq<char>>>,
}

impl View for ServerOnNetwork {
    type V = ServerOnNetworkView;

    open spec fn view(&self) -> ServerOnNetworkView {
        ServerOnNetworkView {
            record_id: self.record_id,
            server_name: self.server_name@,
            discovery_url: self.discovery_url@,
            server_capabilities: match self.server_capabilities {
                Some(c) => Some(string_views(c@)),
                None => None,
            },
        }
    }
}

/// A server before numbering: its sort key, name, URL and capabilities (none known for
/// registered servers).
pub struct Candidate {
    pub sort_key: Seq<char>,
    pub server_name: Seq<char>,
    pub discovery_url: Seq<char>,
    pub caps: Option<Seq<Seq<char>>>,
}

/// The candidate of a registered server: sorted by server URI, named by its first server
/// name (else its URI), reached at its first discovery URL (else the empty text).
pub open spec fn registered_candidate(s: RegisteredServerView) -> Candidate {
    Candidate {
        sort_key: s.server_uri,
        server_name: match s.server_names {
            Some(n) => if n.len() > 0 {
                n[0].text
            } else {
                s.server_uri
            },
            None => s.server_uri,
        },
        discovery_url: match s.discovery_urls {
            Some(u) => if u.len() > 0 {
                u[0]
            } else {
                Seq::<char>::empty()
            },
            None => Seq::<char>::empty(),
        },
        caps: None,
    }
}

/// The candidate of a discovered server, sorted by its instance name.
pub open spec fn discovered_candidate(d: DiscoveredServer) -> Candidate {
    Candidate {
        sort_key: d.instance_name@,
        server_name: d.server_name@,
        discovery_url: d.discovery_url@,
        caps: Some(string_views(d.capabilities@)),
    }
}

/// Lexicographic order of texts by code point (which is the byte order of their UTF-8).
pub open spec fn text_less(a: Seq<char>, b: Seq<char>) -> bool
    decreases a.len(),
{
    if a.len() == 0 {
        b.len() > 0
    } else if b.len() == 0 {
        false
    } else if a[0] != b[0] {
        (a[0] as u32) < (b[0] as u32)
    } else {
        text_less(a.drop_first(), b.drop_first())
    }
}

/// `sorted` with `c` inserted after every candidate whose key is not greater.
pub open spec fn insert_sorted(sorted: Seq<Candidate>, c: Candidate) -> Seq<Candidate>
    decreases sorted.len(),
{
    if sorted.len() == 0 {
        seq![c]
    } else if text_less(c.sort_key, sorted.last().sort_key) {
        insert_sorted(sorted.drop_last(), c).push(sorted.last())
    } else {
        sorted.push(c)
    }
}

/// The stable sort of `cs` by key: candidates with equal keys keep their order.
pub open spec fn stable_sort(cs: Seq<Candidate>) -> Seq<Candidate>
    decreases cs.len(),
{
    if cs.len() == 0 {
        cs
    } else {
        insert_sorted(stable_sort(cs.drop_last()), cs.last())
    }
}

/// Whether the filter asks for any capability (a non-empty one).
pub open spec fn wants_caps(filter: Option<Seq<Seq<char>>>) -> bool {
    match filter {
        Some(f) => has_nonempty(f),
        None => false,
    }
}

/// Whether some text of `f` is non-empty.
pub open spec fn has_nonempty(f: Seq<Seq<char>>) -> bool {
    exists|j: int| 0 <= j < f.len() && (#[trigger] f[j]).len() > 0
}

/// Whether every non-empty text of `f` equals one of `c` up to ASCII case.
pub open spec fn all_present(c: Seq<Seq<char>>, f: Seq<Seq<char>>) -> bool {
    forall|j: int|
        0 <= j < f.len() && (#[trigger] f[j]).len() > 0 ==> exists|k: int|
            0 <= k < c.len() && eq_ignore_ascii_case(#[trigger] c[k], f[j])
}

/// Whether a candidate passes the capability filter: with no capability asked every one
/// does; otherwise it must have capabilities, among them (up to ASCII case) every
/// non-empty capability asked.
pub open spec fn caps_match(caps: Option<Seq<Seq<char>>>, filter: Option<Seq<Seq<char>>>) -> bool {
    !wants_caps(filter) || match (caps, filter) {
        (Some(c), Some(f)) => all_present(c, f),
        _ => false,
    }
}

/// The record of the candidate at position `i` of the sorted list.
pub open spec fn record_of(c: Candidate, i: int) -> ServerOnNetworkView {
    ServerOnNetworkView {
        record_id: i as u32,
        server_name: c.server_name,
        discovery_url: c.discovery_url,
        server_capabilities: c.caps,
    }
}

/// The records of the first `n` sorted candidates whose record id is at least `start` and
/// that pass the filter.
pub open spec fn selected(
    sorted: Seq<Candidate>,
    start: u32,
    filter: Option<Seq<Seq<char>>>,
    n: nat,
) -> Seq<ServerOnNetworkView>
    decreases n,
{
    if n == 0 {
        Seq::empty()
    } else {
        let p = selected(sorted, start, filter, (n - 1) as nat);
        let i = n - 1;
        if i >= start && caps_match(sorted[i].caps, filter) {
            p.push(record_of(sorted[i], i))
        } else {
            p
        }
    }
}

/// At most `max` records (all of them when `max` is 0).
pub open spec fn bounded(records: Seq<ServerOnNetworkView>, max: u32) -> Seq<ServerOnNetworkView> {
    if max == 0 || records.len() <= max {
        records
    } else {
        records.take(max as int)
    }
}

/// The FindServersOnNetwork answer over the registered servers `registered` and the
/// discovered servers `discovered`.
pub open spec fn servers_on_network(
    registered: Seq<RegisteredServerView>,
    discovered: Seq<DiscoveredServer>,
    start: u32,
    max: u32,
    filter: Option<Seq<Seq<char>>>,
) -> Seq<ServerOnNetworkView> {
    let candidates = registered.map_values(|s: RegisteredServerView| registered_candidate(s))
        + discovered.map_values(|d: DiscoveredServer| discovered_candidate(d));
    let sorted = stable_sort(candidates);
    bounded(selected(sorted, start, filter, sorted.len()), max)
}

/// An executable candidate.
struct CandidateExec {
    sort_key: String,
    server_name: String,
    discovery_url: String,
    caps: Option<Vec<String>>,
}

impl CandidateExec {
    spec fn view(&self) -> Candidate {
        Candidate {
            sort_key: self.sort_key@,
            server_name: self.server_name@,
            discovery_url: self.discovery_url@,
            caps: match self.caps {
                Some(c) => Some(string_views(c@)),
                None => None,
            },
        }
    }
}

spec fn candidate_views(v: Seq<CandidateExec>) -> Seq<Candidate> {
    v.map_values(|c: CandidateExec| c.view())
}

fn copy_string_list(v: &Vec<String>) -> (r: Vec<String>)
    ensures
        string_views(r@) == string_views(v@),
{
    let mut r: Vec<String> = Vec::new();
    let mut i: usize = 0;
    while i < v.len()
        invariant
            i <= v.len(),
            r.len() == i,
            forall|j: int| 0 <= j < i ==> r@[j]@ == v@[j]@,
        decreases v.len() - i,
    {
        r.push(v[i].clone());
        i = i + 1;
    }
    assert(string_views(r@) =~= string_views(v@));
    r
}

/// Whether `a` sorts before `b` (see [`text_less`]).
pub fn str_less(a: &str, b: &str) -> (r: bool)
    ensures
        r == text_less(a@, b@),
{
    let ca = crate::text::chars_of(a);
    let cb = crate::text::chars_of(b);
    let mut i: usize = 0;
    assert(a@.skip(0) =~= a@);
    assert(b@.skip(0) =~= b@);
    while i < ca.len() && i < cb.len()
        invariant
            ca@ == a@,
            cb@ == b@,
            i <= ca.len(),
            i <= cb.len(),
            text_less(a@, b@) == text_less(a@.skip(i as int), b@.skip(i as int)),
        decreases ca.len() - i,
    {
        assert(a@.skip(i as int)[0] == ca@[i as int]);
        assert(b@.skip(i as int)[0] == cb@[i as int]);
        if ca[i] != cb[i] {
            return (ca[i] as u32) < (cb[i] as u32);
        }
        assert(a@.skip(i as int).drop_first() =~= a@.skip(i + 1));
        assert(b@.skip(i as int).drop_first() =~= b@.skip(i + 1));
        i = i + 1;
    }
    assert(a@.skip(i as int).len() == ca.len() - i);
    assert(b@.skip(i as int).len() == cb.len() - i);
    i == ca.len() && i < cb.len()
}

proof fn lemma_insert_at(s: Seq<Candidate>, c: Candidate, p: int)
    requires
        0 <= p <= s.len(),
        forall|j: int| p <= j < s.len() ==> text_less(c.sort_key, #[trigger] s[j].sort_key),
        p == 0 || !text_less(c.sort_key, s[p - 1].sort_key),
    ensures
        insert_sorted(s, c) == s.insert(p, c),
    decreases s.len(),
{
    if s.len() == 0 {
        assert(s.insert(p, c) =~= seq![c]);
    } else if p == s.len() {
        assert(s.insert(p, c) =~= s.push(c));
    } else {
        assert(text_less(c.sort_key, s.last().sort_key));
        lemma_insert_at(s.drop_last(), c, p);
        assert(s.insert(p, c) =~= s.drop_last().insert(p, c).push(s.last()));
    }
}

fn insert_candidate(sorted: &mut Vec<CandidateExec>, c: CandidateExec)
    ensures
        candidate_views(final(sorted)@) == insert_sorted(candidate_views(old(sorted)@), c.view()),
{
    let ghost s = candidate_views(sorted@);
    let mut p: usize = sorted.len();
    while p > 0 && str_less(c.sort_key.as_str(), sorted[p - 1].sort_key.as_str())
        invariant
            p <= sorted.len(),
            sorted@ == old(sorted)@,
            s == candidate_views(sorted@),
            forall|j: int| p <= j < s.len() ==> text_less(c.view().sort_key, #[trigger] s[j].sort_key),
        decreases p,
    {
        assert(s[p - 1] == sorted@[p - 1].view());
        p = p - 1;
    }
    proof {
        if p > 0 {
            assert(s[p - 1] == sorted@[p - 1].view());
        }
        lemma_insert_at(s, c.view(), p as int);
    }
    let ghost cv = c.view();
    sorted.insert(p, c);
    assert(candidate_views(sorted@) =~= s.insert(p as int, cv));
}

fn caps_match_exec(caps: &Option<Vec<String>>, filter: &Option<Vec<String>>, wants: bool) -> (r: bool)
    requires
        wants == wants_caps(match filter {
            Some(f) => Some(string_views(f@)),
            None => None,
        }),
    ensures
        r == caps_match(
            match caps {
                Some(c) => Some(string_views(c@)),
                None => None,
            },
            match filter {
                Some(f) => Some(string_views(f@)),
                None => None,
            },
        ),
{
    let ghost cm = match caps {
        Some(c) => Some(string_views(c@)),
        None => None,
    };
    let ghost fm = match filter {
        Some(f) => Some(string_views(f@)),
        None => None,
    };
    if !wants {
        return true;
    }
    let (c, f) = match (caps, filter) {
        (Some(c), Some(f)) => (c, f),
        _ => {
            return false;
        },
    };
    let ghost cv = string_views(c@);
    let ghost fv = string_views(f@);
    assert(cm == Some(cv));
    assert(fm == Some(fv));
    let mut j: usize = 0;
    while j < f.len()
        invariant
            j <= f.len(),
            cv == string_views(c@),
            fv == string_views(f@),
            cm == Some(cv),
            fm == Some(fv),
            wants_caps(fm),
            cm == match caps {
                Some(c) => Some(string_views(c@)),
                None => None,
            },
            fm == match filter {
                Some(f) => Some(string_views(f@)),
                None => None,
            },
            forall|jj: int|
                0 <= jj < j && (#[trigger] fv[jj]).len() > 0 ==> exists|k: int|
                    0 <= k < cv.len() && eq_ignore_ascii_case(#[trigger] cv[k], fv[jj]),
        decreases f.len() - j,
    {
        assert(fv[j as int] == f@[j as int]@);
        if !f[j].as_str().is_empty() {
            let mut k: usize = 0;
            let mut found = false;
            while k < c.len()
                invariant
                    k <= c.len(),
                    cv == string_views(c@),
                    fv == string_views(f@),
                    j < f.len(),
                    found ==> exists|kk: int| 0 <= kk < cv.len() && eq_ignore_ascii_case(#[trigger] cv[kk], fv[j as int]),
                    !found ==> forall|kk: int| 0 <= kk < k ==> !eq_ignore_ascii_case(#[trigger] cv[kk], fv[j as int]),
                decreases c.len() - k,
            {
                assert(cv[k as int] == c@[k as int]@);
                if str_eq_ignore_ascii_case(c[k].as_str(), f[j].as_str()) {
                    found = true;
                }
                k = k + 1;
            }
            if !found {
                assert(fv[j as int].len() > 0);
                assert(!(exists|kk: int| 0 <= kk < cv.len() && eq_ignore_ascii_case(#[trigger] cv[kk], fv[j as int])));
                return false;
            }
        }
        j = j + 1;
    }
    assert forall|jj: int| 0 <= jj < fv.len() && (#[trigger] fv[jj]).len() > 0 implies exists|k: int|
        0 <= k < cv.len() && eq_ignore_ascii_case(#[trigger] cv[k], fv[jj]) by {}
    assert(caps_match(cm, fm));
    true
}

fn wants_caps_exec(filter: &Option<Vec<String>>) -> (r: bool)
    ensures
        r == wants_caps(match filter {
            Some(f) => Some(string_views(f@)),
            None => None,
        }),
{
    match filter {
        None => false,
        Some(f) => {
            let ghost fv = string_views(f@);
            let ghost fm = match filter {
                Some(f) => Some(string_views(f@)),
                None => None,
            };
            assert(fm == Some(fv));
            let mut j: usize = 0;
            while j < f.len()
                invariant
                    j <= f.len(),
                    fv == string_views(f@),
                    fm == Some(fv),
                    fm == match filter {
                        Some(f) => Some(string_views(f@)),
                        None => None,
                    },
                    forall|jj: int| 0 <= jj < j ==> (#[trigger] fv[jj]).len() == 0,
                decreases f.len() - j,
            {
                assert(fv[j as int] == f@[j as int]@);
                if !f[j].as_str().is_empty() {
                    assert(fv[j as int].len() > 0);
                    return true;
                }
                j = j + 1;
            }
            false
        },
    }
}

impl ServerRegistry {
    /// FindServersOnNetwork over the registered servers and `discovered` (see
    /// [`servers_on_network`]).
    pub fn find_servers_on_network(
        &self,
        discovered: &[DiscoveredServer],
        starting_record_id: u32,
        max_records_to_return: u32,
        capability_filter: &Option<Vec<String>>,
    ) -> (r: Vec<ServerOnNetwork>)
        ensures
            r@.map_values(|x: ServerOnNetwork| x@) == servers_on_network(
                self@,
                discovered@,
                starting_record_id,
                max_records_to_return,
                match capability_filter {
                    Some(f) => Some(string_views(f@)),
                    None => None,
                },
            ),
    {
        let ghost filter = match capability_filter {
            Some(f) => Some(string_views(f@)),
            None => None,
        };
        let ghost regs = self@;
        let ghost candidates = regs.map_values(|s: RegisteredServerView| registered_candidate(s))
            + discovered@.map_values(|d: DiscoveredServer| discovered_candidate(d));
        let mut sorted: Vec<CandidateExec> = Vec::new();
        let n = self.len();
        let mut i: usize = 0;
        assert(candidates.take(0) =~= Seq::<Candidate>::empty());
        while i < n
            invariant
                i <= n,
                n == regs.len(),
                regs == self@,
                candidates == regs.map_values(|s: RegisteredServerView| registered_candidate(s))
                    + discovered@.map_values(|d: DiscoveredServer| discovered_candidate(d)),
                candidate_views(sorted@) == stable_sort(candidates.take(i as int)),
            decreases n - i,
        {
            let server = self.get(i);
            let name = match &server.server_names {
                Some(names) => {
                    if names.len() > 0 {
                        names[0].text.clone()
                    } else {
                        server.server_uri.clone()
                    }
                },
                None => server.server_uri.clone(),
            };
            let url = match &server.discovery_urls {
                Some(urls) => {
                    if urls.len() > 0 {
                        urls[0].clone()
                    } else {
                        String::new()
                    }
                },
                None => String::new(),
            };
            let c = CandidateExec { sort_key: server.server_uri, server_name: name, discovery_url: url, caps: None };
            proof {
                match server@.server_names {
                    Some(nv) => {
                        if nv.len() > 0 {
                            assert(nv[0] == server.server_names->Some_0@[0]@);
                        }
                    },
                    None => {},
                }
                match server@.discovery_urls {
                    Some(uv) => {
                        if uv.len() > 0 {
                            assert(uv[0] == server.discovery_urls->Some_0@[0]@);
                        }
                    },
                    None => {},
                }
                assert(c.view().sort_key == registered_candidate(regs[i as int]).sort_key);
                assert(c.view().discovery_url =~= registered_candidate(regs[i as int]).discovery_url);
                assert(c.view() == registered_candidate(regs[i as int]));
                assert(candidates[i as int] == registered_candidate(regs[i as int]));
                assert(candidates.take(i + 1).drop_last() =~= candidates.take(i as int));
            }
            insert_candidate(&mut sorted, c);
            i = i + 1;
        }
        let mut k: usize = 0;
        while k < discovered.len()
            invariant
                k <= discovered.len(),
                n == regs.len(),
                candidates == regs.map_values(|s: RegisteredServerView| registered_candidate(s))
                    + discovered@.map_values(|d: DiscoveredServer| discovered_candidate(d)),
                candidate_views(sorted@) == stable_sort(candidates.take(n + k)),
            decreases discovered.len() - k,
        {
            let d = &discovered[k];
            let c = CandidateExec {
                sort_key: d.instance_name.clone(),
                server_name: d.server_name.clone(),
                discovery_url: d.discovery_url.clone(),
                caps: Some(copy_string_list(&d.capabilities)),
            };
            proof {
                assert(candidates[n + k] == discovered_candidate(discovered@[k as int]));
                assert(c.view() == discovered_candidate(discovered@[k as int]));
                assert(candidates.take(n + k + 1).drop_last() =~= candidates.take(n + k));
            }
            insert_candidate(&mut sorted, c);
            k = k + 1;
        }
        assert(candidates.take(n + discovered.len()) =~= candidates);
        let ghost sv = candidate_views(sorted@);
        let wants = wants_caps_exec(capability_filter);
        let mut out: Vec<ServerOnNetwork> = Vec::new();
        let mut i: usize = 0;
        while i < sorted.len()
            invariant
                i <= sorted.len(),
                sv == candidate_views(sorted@),
                sv == stable_sort(candidates),
                wants == wants_caps(filter),
                filter == match capability_filter {
                    Some(f) => Some(string_views(f@)),
                    None => None,
                },
                out@.map_values(|x: ServerOnNetwork| x@) == bounded(selected(sv, starting_record_id, filter, i as nat), max_records_to_return),
            decreases sorted.len() - i,
        {
            let ghost before = selected(sv, starting_record_id, filter, i as nat);
            let c = &sorted[i];
            assert(sv[i as int] == c.view());
            let passes = i as u64 >= starting_record_id as u64 && caps_match_exec(&c.caps, capability_filter, wants);
            if passes {
                if max_records_to_return == 0 || (out.len() as u64) < max_records_to_return as u64 {
                    let caps = match &c.caps {
                        Some(v) => Some(copy_string_list(v)),
                        None => None,
                    };
                    let rec = ServerOnNetwork {
                        record_id: i as u32,
                        server_name: c.server_name.clone(),
                        discovery_url: c.discovery_url.clone(),
                        server_capabilities: caps,
                    };
                    let ghost prev = out@.map_values(|x: ServerOnNetwork| x@);
                    out.push(rec);
                    assert(out@.map_values(|x: ServerOnNetwork| x@) =~= prev.push(record_of(sv[i as int], i as int)));
                }
                proof {
                    let after = before.push(record_of(sv[i as int], i as int));
                    if !(max_records_to_return == 0 || before.len() < max_records_to_return) {
                        assert(after.take(max_records_to_return as int) =~= before.take(max_records_to_return as int));
                    } else if max_records_to_return != 0 && after.len() > max_records_to_return {
                        assert(after.take(max_records_to_return as int) =~= after);
                    }
                }
            }
            i = i + 1;
        }
        out
    }
}

proof fn lemma_insert_sorted_len(sorted: Seq<Candidate>, c: Candidate)
    ensures
        insert_sorted(sorted, c).len() == sorted.len() + 1,
    decreases sorted.len(),
{
    if sorted.len() > 0 && text_less(c.sort_key, sorted.last().sort_key) {
        lemma_insert_sorted_len(sorted.drop_last(), c);
    }
}

proof fn lemma_stable_sort_len(cs: Seq<Candidate>)
    ensures
        stable_sort(cs).len() == cs.len(),
    decreases cs.len(),
{
    if cs.len() > 0 {
        lemma_stable_sort_len(cs.drop_last());
        lemma_insert_sorted_len(stable_sort(cs.drop_last()), cs.last());
    }
}

/// Whether `records` have record ids of at least `start`, strictly increasing, each
/// below `n`, and each passes `filter`.
spec fn records_ok(records: Seq<ServerOnNetworkView>, start: u32, filter: Option<Seq<Seq<char>>>, n: int) -> bool {
    &&& forall|i: int| 0 <= i < records.len() ==> start <= (#[trigger] records[i]).record_id < n
    &&& forall|i: int| 0 <= i < records.len() ==> caps_match((#[trigger] records[i]).server_capabilities, filter)
    &&& forall|i: int, j: int| 0 <= i < j < records.len() ==> records[i].record_id < records[j].record_id
}

proof fn lemma_selected_ok(sorted: Seq<Candidate>, start: u32, filter: Option<Seq<Seq<char>>>, n: nat)
    requires
        n <= sorted.len(),
        n <= u32::MAX + 1,
    ensures
        records_ok(selected(sorted, start, filter, n), start, filter, n as int),
    decreases n,
{
    if n > 0 {
        lemma_selected_ok(sorted, start, filter, (n - 1) as nat);
        let i = n - 1;
        assert((i as u32) as int == i);
    }
}

/// The FindServersOnNetwork answer holds no more records than asked for (when a maximum
/// is given), only records with ids from the starting record id on, in increasing order
/// of record id, each passing the capability filter. (Record ids are positions in the
/// sorted list; they fit in 32 bits when there are at most 2^32 servers.)
pub proof fn law_servers_on_network_answer(
    registered: Seq<RegisteredServerView>,
    discovered: Seq<DiscoveredServer>,
    start: u32,
    max: u32,
    filter: Option<Seq<Seq<char>>>,
)
    requires
        registered.len() + discovered.len() <= u32::MAX + 1,
    ensures
        ({
            let r = servers_on_network(registered, discovered, start, max, filter);
            &&& max > 0 ==> r.len() <= max
            &&& forall|i: int| 0 <= i < r.len() ==> start <= (#[trigger] r[i]).record_id
            &&& forall|i: int| 0 <= i < r.len() ==> caps_match((#[trigger] r[i]).server_capabilities, filter)
            &&& forall|i: int, j: int| 0 <= i < j < r.len() ==> r[i].record_id < r[j].record_id
        }),
{
    let candidates = registered.map_values(|s: RegisteredServerView| registered_candidate(s))
        + discovered.map_values(|d: DiscoveredServer| discovered_candidate(d));
    lemma_stable_sort_len(candidates);
    let sorted = stable_sort(candidates);
    lemma_selected_ok(sorted, start, filter, sorted.len());
    let sel = selected(sorted, start, filter, sorted.len());
    let r = servers_on_network(registered, discovered, start, max, filter);
    if !(max == 0 || sel.len() <= max) {
        assert(r == sel.take(max as int));
        assert forall|i: int| 0 <= i < r.len() implies start <= (#[trigger] r[i]).record_id && caps_match(
            r[i].server_capabilities,
            filter,
        ) by {
            assert(r[i] == sel[i]);
        }
        assert forall|i: int, j: int| 0 <= i < j < r.len() implies r[i].record_id < r[j].record_id by {
            assert(r[i] == sel[i]);
            assert(r[j] == sel[j]);
        }
    }
}

} // verus!
