//! The texts a server registered through RegisterServer2 is advertised with over mDNS,
//! bounded to the sizes DNS-SD allows, and the decision what to do with such a request.

use vstd::prelude::*;
use vstd::string::StrSliceExecFns;
use vstd::string::StringSliceAdditionalSpecFns;
use crate::discovery::registry::{RegisteredServer, RegisteredServerView};
use crate::status::StatusCode;
use crate::text::{chars_of, string_views};

verus! {

/// The number of bytes UTF-8 takes for `c`.
pub open spec fn utf8_width(c: char) -> nat {
    if (c as u32) <= 0x7F {
        1
    } else if (c as u32) <= 0x7FF {
        2
    } else if (c as u32) <= 0xFFFF {
        3
    } else {
        4
    }
}

/// The number of bytes of the UTF-8 encoding of `s`.
pub open spec fn utf8_len(s: Seq<char>) -> nat
    decreases s.len(),
{
    if s.len() == 0 {
        0
    } else {
        utf8_width(s[0]) + utf8_len(s.drop_first())
    }
}

/// How many leading characters of `s` fit in `budget` bytes, taken one by one until the
/// first that does not fit.
pub open spec fn fit_count(s: Seq<char>, budget: int) -> nat
    decreases s.len(),
{
    if s.len() == 0 || utf8_width(s[0]) > budget {
        0
    } else {
        1 + fit_count(s.drop_first(), budget - utf8_width(s[0]))
    }
}

/// `s` when its UTF-8 encoding fits in `max_len` bytes, else its longest prefix of whole
/// characters that does.
pub open spec fn bounded_text(s: Seq<char>, max_len: nat) -> Seq<char> {
    if utf8_len(s) <= max_len {
        s
    } else {
        s.take(fit_count(s, max_len as int) as int)
    }
}

proof fn lemma_encode_len(s: Seq<char>)
    ensures
        vstd::utf8::encode_utf8(s).len() == utf8_len(s),
    decreases s.len(),
{
    if s.len() > 0 {
        lemma_encode_len(s.drop_first());
        let c = s[0];
        vstd::utf8::char_is_scalar(c);
        assert(vstd::utf8::encode_scalar(c as u32).len() == utf8_width(c));
    }
}

proof fn lemma_utf8_len_push(a: Seq<char>, c: char)
    ensures
        utf8_len(a.push(c)) == utf8_len(a) + utf8_width(c),
    decreases a.len(),
{
    if a.len() > 0 {
        assert(a.push(c).drop_first() =~= a.drop_first().push(c));
        assert(a.push(c)[0] == a[0]);
        lemma_utf8_len_push(a.drop_first(), c);
    } else {
        assert(a.push(c).drop_first() =~= Seq::<char>::empty());
        assert(a.push(c)[0] == c);
        assert(utf8_len(Seq::<char>::empty()) == 0);
    }
}

fn char_width(c: char) -> (r: usize)
    ensures
        r == utf8_width(c),
        1 <= r <= 4,
{
    let code = c as u32;
    if code <= 0x7F {
        1
    } else if code <= 0x7FF {
        2
    } else if code <= 0xFFFF {
        3
    } else {
        4
    }
}

/// `value` bounded to `max_len` bytes of UTF-8 (see [`bounded_text`]).
pub fn bounded_mdns_string(value: &str, max_len: usize) -> (r: String)
    ensures
        r@ == bounded_text(value@, max_len as nat),
{
    proof {
        lemma_encode_len(value@);
    }
    let byte_len = value.as_bytes().len();
    assert(byte_len == vstd::utf8::encode_utf8(value@).len());
    if byte_len <= max_len {
        return value.to_owned();
    }
    let chars = chars_of(value);
    let ghost s = value@;
    let mut used: usize = 0;
    let mut k: usize = 0;
    assert(s.skip(0) =~= s);
    assert(s.take(0) =~= Seq::<char>::empty());
    while k < chars.len()
        invariant
            chars@ == s,
            k <= chars.len(),
            used <= max_len,
            used == utf8_len(s.take(k as int)),
            fit_count(s, max_len as int) >= k,
            fit_count(s, max_len as int) == k + fit_count(s.skip(k as int), max_len - used),
        ensures
            k == s.len() || (k < s.len() && utf8_width(s[k as int]) > max_len - used),
        decreases chars.len() - k,
    {
        let w = char_width(chars[k]);
        assert(s.skip(k as int)[0] == s[k as int]);
        assert(s.skip(k as int).drop_first() =~= s.skip(k + 1));
        if w > max_len - used {
            break;
        }
        proof {
            assert(s.take(k + 1) =~= s.take(k as int).push(s[k as int]));
            lemma_utf8_len_push(s.take(k as int), s[k as int]);
        }
        used = used + w;
        k = k + 1;
    }
    let r = value.substring_char(0, k);
    assert(s.subrange(0, k as int) =~= s.take(k as int));
    if k == chars.len() {
        assert(s.skip(k as int).len() == 0);
    }
    r.to_owned()
}

/// The mDNS name of a registered server: the configured mDNS server name when given,
/// else its first server name when not empty, else its server URI, bounded to `max_len`.
pub open spec fn mdns_name(server: RegisteredServerView, configured: Seq<char>, max_len: nat) -> Seq<char> {
    if configured.len() > 0 {
        bounded_text(configured, max_len)
    } else {
        let name = match server.server_names {
            Some(n) => if n.len() > 0 && n[0].text.len() > 0 {
                n[0].text
            } else {
                server.server_uri
            },
            None => server.server_uri,
        };
        bounded_text(name, max_len)
    }
}

/// The mDNS name of a registered server (see [`mdns_name`]); an empty configured name
/// stands for none.
pub fn registered_mdns_name(server: &RegisteredServer, configured_name: &str, max_len: usize) -> (r: String)
    ensures
        r@ == mdns_name(server@, configured_name@, max_len as nat),
{
    if !configured_name.is_empty() {
        return bounded_mdns_string(configured_name, max_len);
    }
    match &server.server_names {
        Some(names) => {
            if names.len() > 0 && !names[0].text.as_str().is_empty() {
                assert(server@.server_names->Some_0[0] == names@[0]@);
                return bounded_mdns_string(names[0].text.as_str(), max_len);
            }
            if names.len() > 0 {
                assert(server@.server_names->Some_0[0] == names@[0]@);
            }
            bounded_mdns_string(server.server_uri.as_str(), max_len)
        },
        None => bounded_mdns_string(server.server_uri.as_str(), max_len),
    }
}

/// The non-empty texts of `caps`, in order.
pub open spec fn non_empty(caps: Seq<Seq<char>>) -> Seq<Seq<char>>
    decreases caps.len(),
{
    if caps.len() == 0 {
        caps
    } else if caps.last().len() > 0 {
        non_empty(caps.drop_last()).push(caps.last())
    } else {
        non_empty(caps.drop_last())
    }
}

/// The mDNS capabilities of a registered server: the first `max_caps` non-empty
/// configured capabilities, each bounded to `max_cap_len`; `NA` when there are none.
pub open spec fn mdns_capabilities(configured: Seq<Seq<char>>, max_caps: nat, max_cap_len: nat) -> Seq<Seq<char>> {
    let kept = non_empty(configured);
    let taken = if kept.len() <= max_caps {
        kept
    } else {
        kept.take(max_caps as int)
    };
    if taken.len() == 0 {
        seq![seq!['N', 'A']]
    } else {
        taken.map_values(|c: Seq<char>| bounded_text(c, max_cap_len))
    }
}

/// The mDNS capabilities of a registered server (see [`mdns_capabilities`]); a null
/// capability is an empty text.
pub fn registered_mdns_capabilities(configured: &[String], max_caps: usize, max_cap_len: usize) -> (r: Vec<String>)
    ensures
        string_views(r@) == mdns_capabilities(string_views(configured@), max_caps as nat, max_cap_len as nat),
{
    let ghost cv = string_views(configured@);
    let ghost kept = non_empty(cv);
    let mut caps: Vec<String> = Vec::new();
    let mut i: usize = 0;
    assert(cv.take(0) =~= Seq::<Seq<char>>::empty());
    while i < configured.len()
        invariant
            i <= configured.len(),
            cv == string_views(configured@),
            ({
                let k = non_empty(cv.take(i as int));
                let t = if k.len() <= max_caps { k } else { k.take(max_caps as int) };
                string_views(caps@) == t.map_values(|c: Seq<char>| bounded_text(c, max_cap_len as nat))
            }),
            caps.len() <= max_caps,
        decreases configured.len() - i,
    {
        assert(cv.take(i + 1).drop_last() =~= cv.take(i as int));
        assert(cv.take(i + 1).last() == configured@[i as int]@);
        let ghost k0 = non_empty(cv.take(i as int));
        let ghost before = string_views(caps@);
        let ghost t0 = if k0.len() <= max_caps { k0 } else { k0.take(max_caps as int) };
        assert(before.len() == caps@.len());
        assert(caps@.len() == t0.len());
        proof {
            let k1 = non_empty(cv.take(i + 1));
            if configured@[i as int]@.len() > 0 {
                assert(k1 == k0.push(configured@[i as int]@));
            } else {
                assert(k1 == k0);
            }
        }
        if !configured[i].as_str().is_empty() && caps.len() < max_caps {
            caps.push(bounded_mdns_string(configured[i].as_str(), max_cap_len));
            proof {
                let k1 = non_empty(cv.take(i + 1));
                assert(k1 == k0.push(configured@[i as int]@));
                assert(k0.len() <= max_caps);
                assert(string_views(caps@) =~= before.push(bounded_text(configured@[i as int]@, max_cap_len as nat)));
                if k1.len() <= max_caps {
                    assert(k1.map_values(|c: Seq<char>| bounded_text(c, max_cap_len as nat)) =~= k0.map_values(
                        |c: Seq<char>| bounded_text(c, max_cap_len as nat),
                    ).push(bounded_text(configured@[i as int]@, max_cap_len as nat)));
                }
            }
        } else {
            proof {
                let k1 = non_empty(cv.take(i + 1));
                if configured@[i as int]@.len() > 0 {
                    assert(k1 == k0.push(configured@[i as int]@));
                    assert(k0.len() >= max_caps);
                    if k0.len() == max_caps {
                        assert(k1.take(max_caps as int) =~= k0);
                    } else {
                        assert(k1.take(max_caps as int) =~= k0.take(max_caps as int));
                    }
                }
            }
        }
        i = i + 1;
    }
    assert(cv.take(configured.len() as int) =~= cv);
    if caps.len() == 0 {
        proof {
            reveal_strlit("NA");
        }
        let na = "NA".to_owned();
        assert(na@ =~= seq!['N', 'A']);
        caps.push(na);
        assert(string_views(caps@) =~= seq![seq!['N', 'A']]);
    }
    caps
}

/// What a RegisterServer2 request with an mDNS configuration asks of the mDNS
/// advertiser.
#[derive(Debug)]
pub enum MdnsPlan {
    /// No advertiser is running: the request is not supported.
    NotSupported,
    /// The server went offline: withdraw its advertisement.
    Unregister { server_uri: String },
    /// The request is refused with this status.
    Refuse(StatusCode),
    /// Advertise the server under this name, at this URL, with these capabilities.
    Register { server_uri: String, name: String, discovery_url: String, capabilities: Vec<String> },
}

/// The first discovery URL of a registration, when it is given and not empty.
pub open spec fn first_discovery_url(server: RegisteredServerView) -> Option<Seq<char>> {
    match server.discovery_urls {
        Some(u) => if u.len() > 0 && u[0].len() > 0 {
            Some(u[0])
        } else {
            None
        },
        None => None,
    }
}

/// What to do with a RegisterServer2 request with an mDNS configuration (the
/// advertiser then reports `BadNotSupported` when it cannot register).
pub fn plan_register_server2_mdns(
    has_advertiser: bool,
    server: &RegisteredServer,
    configured_name: &str,
    configured_caps: &[String],
    max_str: usize,
    max_caps: usize,
    max_cap_len: usize,
) -> (r: MdnsPlan)
    ensures
        !has_advertiser ==> r is NotSupported,
        has_advertiser && !server.is_online ==> (r matches MdnsPlan::Unregister { server_uri } && server_uri@
            == server@.server_uri),
        has_advertiser && server.is_online ==> match first_discovery_url(server@) {
            None => r == MdnsPlan::Refuse(StatusCode::BadDiscoveryUrlMissing),
            Some(url) => if mdns_name(server@, configured_name@, max_str as nat).len() == 0 {
                r == MdnsPlan::Refuse(StatusCode::BadServerNameMissing)
            } else {
                r matches MdnsPlan::Register { server_uri, name, discovery_url, capabilities } && server_uri@
                    == server@.server_uri && name@ == mdns_name(server@, configured_name@, max_str as nat)
                    && discovery_url@ == url && string_views(capabilities@) == mdns_capabilities(
                    string_views(configured_caps@),
                    max_caps as nat,
                    max_cap_len as nat,
                )
            },
        },
{
    if !has_advertiser {
        return MdnsPlan::NotSupported;
    }
    if !server.is_online {
        return MdnsPlan::Unregister { server_uri: server.server_uri.clone() };
    }
    let url = match &server.discovery_urls {
        Some(urls) => {
            if urls.len() > 0 && !urls[0].as_str().is_empty() {
                assert(server@.discovery_urls->Some_0[0] == urls@[0]@);
                urls[0].clone()
            } else {
                if urls.len() > 0 {
                    assert(server@.discovery_urls->Some_0[0] == urls@[0]@);
                }
                return MdnsPlan::Refuse(StatusCode::BadDiscoveryUrlMissing);
            }
        },
        None => {
            return MdnsPlan::Refuse(StatusCode::BadDiscoveryUrlMissing);
        },
    };
    let name = registered_mdns_name(server, configured_name, max_str);
    if name.as_str().is_empty() {
        return MdnsPlan::Refuse(StatusCode::BadServerNameMissing);
    }
    let capabilities = registered_mdns_capabilities(configured_caps, max_caps, max_cap_len);
    MdnsPlan::Register { server_uri: server.server_uri.clone(), name, discovery_url: url, capabilities }
}

proof fn lemma_fit_count_fits(s: Seq<char>, budget: int)
    ensures
        fit_count(s, budget) <= s.len(),
        budget >= 0 ==> utf8_len(s.take(fit_count(s, budget) as int)) <= budget,
    decreases s.len(),
{
    let k = fit_count(s, budget);
    if s.len() == 0 || utf8_width(s[0]) > budget {
        assert(s.take(0) =~= Seq::<char>::empty());
    } else {
        let w = utf8_width(s[0]);
        let rest = s.drop_first();
        lemma_fit_count_fits(rest, budget - w);
        let t = s.take(k as int);
        assert(t.len() > 0);
        assert(t[0] == s[0]);
        assert(t.drop_first() =~= rest.take(fit_count(rest, budget - w) as int));
    }
}

/// What mDNS advertises of a text fits the bound and is the text or a prefix of it of
/// whole characters: its UTF-8 encoding takes at most `max_len` bytes.
pub proof fn law_bounded_text_fits(s: Seq<char>, max_len: nat)
    ensures
        utf8_len(bounded_text(s, max_len)) <= max_len,
        bounded_text(s, max_len).len() <= s.len(),
        bounded_text(s, max_len) == s.take(bounded_text(s, max_len).len() as int),
{
    lemma_fit_count_fits(s, max_len as int);
    if utf8_len(s) <= max_len {
        assert(s.take(s.len() as int) =~= s);
    } else {
        let t = s.take(fit_count(s, max_len as int) as int);
        assert(t.take(t.len() as int) =~= t);
        assert(s.take(t.len() as int) =~= t);
    }
}

} // verus!
