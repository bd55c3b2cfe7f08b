//! The WHOIS server registry and the resolver.
//!
//! A `Whois` value maps domain suffixes to optional server entries and
//! resolves a fully-qualified domain to the entry for its longest registered
//! suffix together with the registrable name to query.

use vstd::prelude::*;

use crate::suffix::{
    first_match, is_label_start, lemma_first_match_empty, lemma_first_match_reaches,
    lemma_first_match_sound, lemma_prev_start_props, lemma_prev_start_unique, matches_at,
    prev_start, root_at, suffix_at,
};
use crate::WhoisError;
use crate::WhoisErrorView;
use vstd::string::StrSliceExecFns;
use vstd::string::StringExecFns;

verus! {

/// A WHOIS server info entry.
#[derive(Debug, Clone, PartialEq, Eq)]
pub enum WhoisServerEntry {
    /// A simple entry: only the server host. The query is the bare domain.
    Simple(String),
    /// A detailed entry: the server host, a query template in which every
    /// `$addr` is replaced by the queried domain, and whether that domain
    /// stays in punycode (ASCII) form.
    Detailed { host: String, query: String, punycode: bool },
}

/// The mathematical content of a `WhoisServerEntry`.
pub enum ServerEntryView {
    Simple { host: Seq<char> },
    Detailed { host: Seq<char>, query: Seq<char>, punycode: bool },
}

impl ServerEntryView {
    /// The server host of either variant.
    pub open spec fn host(self) -> Seq<char> {
        match self {
            ServerEntryView::Simple { host } => host,
            ServerEntryView::Detailed { host, .. } => host,
        }
    }

    /// A well-formed entry names a server: its host is non-empty.
    pub open spec fn wf(self) -> bool {
        self.host().len() > 0
    }
}

impl View for WhoisServerEntry {
    type V = ServerEntryView;

    open spec fn view(&self) -> ServerEntryView {
        match self {
            WhoisServerEntry::Simple(host) => ServerEntryView::Simple { host: host@ },
            WhoisServerEntry::Detailed { host, query, punycode } => ServerEntryView::Detailed {
                host: host@,
                query: query@,
                punycode: *punycode,
            },
        }
    }
}

impl WhoisServerEntry {
    /// The server host of either variant.
    pub fn host_str(&self) -> (r: &String)
        ensures
            r@ == self@.host(),
    {
        match self {
            WhoisServerEntry::Simple(host) => host,
            WhoisServerEntry::Detailed { host, .. } => host,
        }
    }

    /// The address to connect to: the server host on the WHOIS port 43.
    pub fn connect_addr(&self) -> (r: String)
        ensures
            r@ == self@.host() + seq![':', '4', '3'],
    {
        let mut out = self.host_str().clone();
        out.append(":43");
        proof {
            reveal_strlit(":43");
            assert(":43"@ =~= seq![':', '4', '3']);
        }
        out
    }
}

/// The view of an optional entry.
pub open spec fn opt_entry_view(v: Option<WhoisServerEntry>) -> Option<ServerEntryView> {
    match v {
        Some(e) => Some(e@),
        None => None,
    }
}

/// The content of a registry: each registered suffix maps to an entry, or to
/// nothing for a known suffix with no public server.
pub type RegistryView = Map<Seq<char>, Option<ServerEntryView>>;

/// The concurrently readable map type holding the registry.
pub type ServerMap = dashmap::DashMap<
    String,
    Option<WhoisServerEntry>,
    std::collections::hash_map::RandomState,
>;

#[verifier::external_type_specification]
#[verifier::external_body]
#[verifier::reject_recursive_types(K)]
#[verifier::reject_recursive_types(V)]
#[verifier::reject_recursive_types(S)]
pub struct ExDashMap<K, V, S>(dashmap::DashMap<K, V, S>);

/// What a `ServerMap` holds, as a map from suffix text to entry content.
pub uninterp spec fn server_map_contents(m: ServerMap) -> RegistryView;

/// The registry with nothing in it.
pub open spec fn empty_registry() -> RegistryView {
    Map::empty()
}

/// Relies on `dashmap::DashMap::new`: the freshly created map is empty.
#[verifier::external_body]
pub(crate) fn server_map_new() -> (m: ServerMap)
    ensures
        server_map_contents(m) == empty_registry(),
{
    dashmap::DashMap::new()
}

/// Relies on `dashmap::DashMap::insert`: afterwards the map holds `value`
/// under `key` and is otherwise unchanged.
#[verifier::external_body]
pub(crate) fn server_map_insert(m: &mut ServerMap, key: String, value: Option<WhoisServerEntry>)
    ensures
        server_map_contents(*final(m)) == server_map_contents(*old(m)).insert(
            key@,
            opt_entry_view(value),
        ),
{
    m.insert(key, value);
}

/// Relies on `dashmap::DashMap::get` (and `Clone`): returns a copy of the
/// value stored under `key`, or nothing when the key is absent.
#[verifier::external_body]
fn server_map_get(m: &ServerMap, key: &str) -> (r: Option<Option<WhoisServerEntry>>)
    ensures
        match r {
            Some(v) => server_map_contents(*m).contains_key(key@) && opt_entry_view(v)
                == server_map_contents(*m)[key@],
            None => !server_map_contents(*m).contains_key(key@),
        },
{
    match m.get(key) {
        Some(entry) => Some(entry.value().clone()),
        None => None,
    }
}

/// What `idna::domain_to_ascii` turns a domain into: its ASCII (punycode)
/// form, or nothing when the domain has no such form. The result depends on
/// the input alone.
pub uninterp spec fn ascii_domain(d: Seq<char>) -> Option<Seq<char>>;

/// Relies on `idna::domain_to_ascii`: converts a domain to its ASCII form,
/// failing on invalid input; the result depends on the input alone.
#[verifier::external_body]
fn idna_domain_to_ascii(domain: &str) -> (r: Option<String>)
    ensures
        match r {
            Some(s) => ascii_domain(domain@) == Some(s@),
            None => ascii_domain(domain@) is None,
        },
{
    idna::domain_to_ascii(domain).ok()
}

/// What `idna::domain_to_unicode` turns a domain into: the Unicode form it
/// produces and whether conversion succeeded. The result depends on the
/// input alone.
pub uninterp spec fn unicode_domain(d: Seq<char>) -> (Seq<char>, bool);

/// Relies on `idna::domain_to_unicode`: converts a domain to its Unicode
/// form, also reporting failure; the result depends on the input alone.
#[verifier::external_body]
fn idna_domain_to_unicode(domain: &str) -> (r: (String, bool))
    ensures
        (r.0@, r.1) == unicode_domain(domain@),
{
    let (unicode, result) = idna::domain_to_unicode(domain);
    (unicode, result.is_ok())
}

/// A resolved lookup target: the server entry for the longest registered
/// suffix, and the domain — without subdomains — to query it for.
#[derive(Debug, Clone, PartialEq, Eq)]
pub struct DomainLookupInfo {
    /// The WHOIS server entry for the domain.
    pub server_info: WhoisServerEntry,
    /// The domain to query, without any subdomains.
    pub domain: String,
}

/// A WHOIS client: the registry of server entries, keyed by suffix.
#[derive(Debug)]
pub struct Whois {
    pub(crate) whois_servers: ServerMap,
}

/// Exact-match content of the registry at a suffix: the entry when the
/// suffix is registered with one, nothing otherwise.
pub open spec fn spec_lookup_server(reg: RegistryView, suffix: Seq<char>) -> Option<ServerEntryView> {
    if reg.contains_key(suffix) {
        reg[suffix]
    } else {
        None
    }
}

/// The outcome of longest-suffix resolution on an ASCII domain: the entry
/// for the longest registered suffix and the registrable root, or nothing
/// when no suffix is registered or the matched suffix has no server.
pub open spec fn spec_resolution(reg: RegistryView, s: Seq<char>) -> Option<(
    ServerEntryView,
    Seq<char>,
)> {
    match first_match(reg.dom(), s) {
        None => None,
        Some(p) => match reg[suffix_at(s, p)] {
            None => None,
            Some(e) => Some((e, root_at(s, p))),
        },
    }
}

/// The full resolution outcome for a domain as given by the caller: the
/// domain is first taken to ASCII form and resolved; a detailed entry whose
/// punycode flag is off then queries the Unicode form of the resolved
/// registrable root instead of its ASCII form.
pub open spec fn spec_resolve(reg: RegistryView, d: Seq<char>) -> Result<
    (ServerEntryView, Seq<char>),
    WhoisErrorView,
> {
    match ascii_domain(d) {
        None => Err(WhoisErrorView::IDNA),
        Some(a) => match spec_resolution(reg, a) {
            None => Err(WhoisErrorView::WhoisServer(d)),
            Some((e, root)) => match e {
                ServerEntryView::Detailed { punycode, .. } => if !punycode {
                    if unicode_domain(root).1 {
                        Ok((e, unicode_domain(root).0))
                    } else {
                        Err(WhoisErrorView::IDNA)
                    }
                } else {
                    Ok((e, root))
                },
                ServerEntryView::Simple { .. } => Ok((e, root)),
            },
        },
    }
}

impl Whois {
    /// The mathematical content of the registry.
    pub closed spec fn registry(&self) -> RegistryView {
        server_map_contents(self.whois_servers)
    }

    /// Every registered entry is well formed.
    pub open spec fn wf(&self) -> bool {
        forall|k: Seq<char>| #[trigger]
            self.registry().contains_key(k) ==> match self.registry()[k] {
                Some(e) => e.wf(),
                None => true,
            }
    }

    /// Wraps a server map as a client.
    pub(crate) fn from_map(m: ServerMap) -> (w: Whois)
        ensures
            w.registry() == server_map_contents(m),
    {
        Whois { whois_servers: m }
    }

    /// Looks up a WHOIS suffix in the table exactly, with no suffix
    /// splitting. The suffix must already be in punycode form.
    pub fn lookup_server(&self, suffix: &str) -> (r: Option<WhoisServerEntry>)
        ensures
            opt_entry_view(r) == spec_lookup_server(self.registry(), suffix@),
    {
        match server_map_get(&self.whois_servers, suffix) {
            Some(v) => v,
            None => None,
        }
    }

    /// Looks up the WHOIS server entry for a domain by probing its suffixes,
    /// longest first, and stopping at the first registered one: its entry,
    /// or nothing when that suffix has no server or no suffix is registered.
    /// The domain must already be in punycode form.
    pub fn lookup_server_domain(&self, domain: &str) -> (r: Option<WhoisServerEntry>)
        ensures
            match first_match(self.registry().dom(), domain@) {
                Some(p) => opt_entry_view(r) == self.registry()[suffix_at(domain@, p)],
                None => r is None,
            },
    {
        let n = domain.unicode_len();
        let mut p: usize = 0;
        loop
            invariant
                n == domain@.len(),
                p <= n,
                forall|q: int| 0 <= q < p ==> !matches_at(self.registry().dom(), domain@, q),
            decreases n - p,
        {
            let is_start = p == 0 || domain.get_char(p - 1) == '.';
            if is_start {
                let suffix = domain.substring_char(p, n);
                match server_map_get(&self.whois_servers, suffix) {
                    Some(v) => {
                        proof {
                            lemma_first_match_reaches(
                                self.registry().dom(),
                                domain@,
                                0,
                                p as int,
                            );
                        }
                        return v;
                    },
                    None => {},
                }
            }
            if p == n {
                proof {
                    lemma_first_match_empty(self.registry().dom(), domain@, 0);
                }
                return None;
            }
            p = p + 1;
        }
    }

    /// Resolves a punycode domain to the server entry of its longest
    /// registered suffix and the registrable root to query: the suffix plus
    /// one label to its left, or the domain itself when it is the suffix.
    pub fn lookup_domain_info(&self, domain: &str) -> (r: Option<DomainLookupInfo>)
        ensures
            match r {
                Some(info) => spec_resolution(self.registry(), domain@) == Some(
                    (info.server_info@, info.domain@),
                ),
                None => spec_resolution(self.registry(), domain@) is None,
            },
    {
        let n = domain.unicode_len();
        let mut p: usize = 0;
        let mut prev: usize = 0;
        loop
            invariant
                n == domain@.len(),
                p <= n,
                forall|q: int| 0 <= q < p ==> !matches_at(self.registry().dom(), domain@, q),
                p >= 1 ==> is_label_start(domain@, prev as int) && prev < p && forall|q: int|
                    prev < q < p ==> !is_label_start(domain@, q),
            decreases n - p,
        {
            let is_start = p == 0 || domain.get_char(p - 1) == '.';
            if is_start {
                let suffix = domain.substring_char(p, n);
                match server_map_get(&self.whois_servers, suffix) {
                    Some(found) => {
                        proof {
                            lemma_first_match_reaches(
                                self.registry().dom(),
                                domain@,
                                0,
                                p as int,
                            );
                        }
                        match found {
                            None => {
                                return None;
                            },
                            Some(server) => {
                                let root_start = if p == 0 {
                                    0
                                } else {
                                    proof {
                                        lemma_prev_start_unique(
                                            domain@,
                                            p as int,
                                            prev as int,
                                        );
                                    }
                                    prev
                                };
                                let root = domain.substring_char(root_start, n).to_owned();
                                return Some(
                                    DomainLookupInfo { server_info: server, domain: root },
                                );
                            },
                        }
                    },
                    None => {},
                }
            }
            if p == n {
                proof {
                    lemma_first_match_empty(self.registry().dom(), domain@, 0);
                }
                return None;
            }
            if is_start {
                prev = p;
            }
            p = p + 1;
        }
    }

    /// Resolves a domain as given by the caller: converts it to ASCII form,
    /// finds the server for its longest registered suffix, and — for a
    /// detailed entry that does not want punycode — converts the resolved
    /// registrable root back to Unicode as the domain to query.
    pub fn resolve(&self, domain: &str) -> (r: Result<DomainLookupInfo, WhoisError>)
        ensures
            match r {
                Ok(info) => spec_resolve(self.registry(), domain@) == Ok::<_, WhoisErrorView>(
                    (info.server_info@, info.domain@),
                ),
                Err(e) => spec_resolve(self.registry(), domain@) == Err::<
                    (ServerEntryView, Seq<char>),
                    _,
                >(e@),
            },
    {
        let ascii = match idna_domain_to_ascii(domain) {
            Some(a) => a,
            None => {
                return Err(WhoisError::IDNA);
            },
        };
        let mut info = match self.lookup_domain_info(ascii.as_str()) {
            Some(i) => i,
            None => {
                return Err(WhoisError::WhoisServer(domain.to_owned()));
            },
        };
        let needs_unicode = match &info.server_info {
            WhoisServerEntry::Detailed { punycode, .. } => !*punycode,
            WhoisServerEntry::Simple(_) => false,
        };
        if needs_unicode {
            let (unicode, ok) = idna_domain_to_unicode(info.domain.as_str());
            if !ok {
                return Err(WhoisError::IDNA);
            }
            info.domain = unicode;
        }
        Ok(info)
    }
}

/// Law: resolution ignores extra subdomain labels. Putting one more label
/// in front of a domain whose longest registered suffix already has a
/// registrable label to its left — without the longer domain itself being a
/// registered suffix — leaves the resolution outcome unchanged.
pub proof fn lemma_resolution_ignores_subdomains(reg: RegistryView, sub: Seq<char>, s: Seq<char>)
    requires
        !sub.contains('.'),
        !reg.contains_key(sub + seq!['.'] + s),
        first_match(reg.dom(), s) matches Some(p) && p >= 1,
    ensures
        spec_resolution(reg, sub + seq!['.'] + s) == spec_resolution(reg, s),
{
    let d = sub + seq!['.'] + s;
    let off = sub.len() + 1 as int;
    let p = first_match(reg.dom(), s).unwrap();
    lemma_first_match_sound(reg.dom(), s, 0, p);
    assert(d.len() == off + s.len());
    assert forall|q: int| 0 <= q <= s.len() implies #[trigger] suffix_at(d, off + q) == suffix_at(
        s,
        q,
    ) by {
        assert(suffix_at(d, off + q) =~= suffix_at(s, q));
    }
    assert forall|q: int| 0 <= q <= s.len() implies is_label_start(d, off + q) == is_label_start(
        s,
        q,
    ) by {
        if q == 0 {
            assert(d[off - 1] == '.');
        } else {
            assert(d[off + q - 1] == s[q - 1]);
        }
    }
    assert(suffix_at(d, 0) =~= d);
    assert forall|q: int| 0 < q < off implies !is_label_start(d, q) by {
        if q - 1 < sub.len() {
            assert(d[q - 1] == sub[q - 1]);
            assert(!sub.contains('.'));
            assert(sub[q - 1] != '.');
        }
    }
    assert forall|q: int| 0 <= q < off + p implies !matches_at(reg.dom(), d, q) by {
        if q == 0 {
            assert(!reg.dom().contains(suffix_at(d, 0)));
        } else if q < off {
            assert(!is_label_start(d, q));
        } else {
            assert(!matches_at(reg.dom(), s, q - off));
            assert(suffix_at(d, q) == suffix_at(s, q - off));
        }
    }
    lemma_first_match_reaches(reg.dom(), d, 0, off + p);
    assert(reg[suffix_at(d, off + p)] == reg[suffix_at(s, p)]);
    lemma_prev_start_props(s, p);
    let q0 = prev_start(s, p);
    assert forall|r: int| off + q0 < r < off + p implies !is_label_start(d, r) by {
        assert(!is_label_start(s, r - off));
    }
    lemma_prev_start_unique(d, off + p, off + q0);
    assert(root_at(d, off + p) == root_at(s, p));
}

/// Law: a domain that is exactly a registered suffix resolves to that
/// suffix itself as the queried domain, with the suffix's own entry.
pub proof fn lemma_resolution_exact_suffix(reg: RegistryView, s: Seq<char>)
    requires
        reg.contains_key(s),
    ensures
        spec_resolution(reg, s) == (match reg[s] {
            Some(e) => Some((e, s)),
            None => None,
        }),
{
    assert(suffix_at(s, 0) =~= s);
    assert(matches_at(reg.dom(), s, 0));
    lemma_first_match_reaches(reg.dom(), s, 0, 0);
}

/// Law: a domain none of whose suffixes is registered — not even its last
/// label — resolves to nothing.
pub proof fn lemma_resolution_no_registered_suffix(reg: RegistryView, s: Seq<char>)
    requires
        forall|p: int| is_label_start(s, p) ==> !reg.contains_key(#[trigger] suffix_at(s, p)),
    ensures
        spec_resolution(reg, s) is None,
{
    assert forall|q: int| 0 <= q <= s.len() implies !matches_at(reg.dom(), s, q) by {
        if is_label_start(s, q) {
            assert(!reg.contains_key(suffix_at(s, q)));
        }
    }
    lemma_first_match_empty(reg.dom(), s, 0);
}

} // verus!
