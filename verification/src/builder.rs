//! Building a `Whois` client from server-list data.
//!
//! The registry is supplied either as JSON text — an object mapping each
//! suffix to `null`, a plain host string, or an object with `host`, an
//! optional `query` template and an optional `punycode` flag — or as a
//! pre-parsed list of suffix/entry pairs. Construction is all-or-nothing:
//! malformed data, including an empty host, yields an error and no registry.

use vstd::prelude::*;

use crate::whois::{
    empty_registry, opt_entry_view, server_map_contents, server_map_insert, server_map_new,
    RegistryView, ServerEntryView, Whois, WhoisServerEntry,
};

verus! {

#[verifier::external_type_specification]
#[verifier::external_body]
pub struct ExJsonValue(serde_json::Value);

/// What `serde_json::from_str` makes of JSON text when read as an object:
/// its members in the parser's fixed (key-sorted) order, or nothing when
/// the text is not a well-formed JSON object. Depends on the text alone.
pub uninterp spec fn json_object_entries(text: Seq<char>) -> Option<
    Seq<(String, serde_json::Value)>,
>;

/// What `serde_json::Value::as_str` returns: the characters of a JSON
/// string value, or nothing for the other kinds. Depends on the value alone.
pub uninterp spec fn json_str_content(v: serde_json::Value) -> Option<Seq<char>>;

/// What `serde_json::Value::is_null` returns. Depends on the value alone.
pub uninterp spec fn json_is_null(v: serde_json::Value) -> bool;

/// What `serde_json::Value::as_bool` returns: the boolean of a JSON bool
/// value, or nothing for the other kinds. Depends on the value alone.
pub uninterp spec fn json_bool_content(v: serde_json::Value) -> Option<bool>;

/// What `serde_json::Value::get` returns for a string key: the named member
/// of a JSON object, or nothing when there is none or the value is no
/// object. Depends on the value and the key alone.
pub uninterp spec fn json_field(v: serde_json::Value, key: Seq<char>) -> Option<serde_json::Value>;

/// Relies on `serde_json::from_str`, deserializing into
/// `serde_json::Map<String, Value>`: parses a JSON object or fails; the
/// map iterates in a fixed key-sorted order, so the entry sequence depends
/// on the text alone.
#[verifier::external_body]
fn parse_json_object(text: &str) -> (r: Option<Vec<(String, serde_json::Value)>>)
    ensures
        match r {
            Some(entries) => json_object_entries(text@) == Some(entries@),
            None => json_object_entries(text@) is None,
        },
{
    match serde_json::from_str::<serde_json::Map<String, serde_json::Value>>(text) {
        Ok(object) => Some(object.into_iter().collect()),
        Err(_) => None,
    }
}

/// Relies on `serde_json::Value::as_str`: present exactly for JSON strings,
/// with their characters.
pub assume_specification<'a>[ serde_json::Value::as_str ](v: &'a serde_json::Value) -> (r: Option<
    &'a str,
>)
    ensures
        match r {
            Some(s) => json_str_content(*v) == Some(s@),
            None => json_str_content(*v) is None,
        },
;

/// Relies on `serde_json::Value::is_null`: true exactly for JSON null.
pub assume_specification[ serde_json::Value::is_null ](v: &serde_json::Value) -> (r: bool)
    ensures
        r == json_is_null(*v),
;

/// Relies on `serde_json::Value::as_bool`: present exactly for JSON
/// booleans, with their value.
pub assume_specification[ serde_json::Value::as_bool ](v: &serde_json::Value) -> (r: Option<bool>)
    ensures
        r == json_bool_content(*v),
;

/// Relies on `serde_json::Value::get`: the member of a JSON object under a
/// string key, when the value is an object holding that key.
#[verifier::external_body]
fn json_get<'a>(v: &'a serde_json::Value, key: &str) -> (r: Option<&'a serde_json::Value>)
    ensures
        match r {
            Some(f) => json_field(*v, key@) == Some(*f),
            None => json_field(*v, key@) is None,
        },
{
    v.get(key)
}

/// The registry record a JSON value stands for: `null` is a known suffix
/// without a server; a non-empty string is a simple entry; an object with a
/// non-empty `host`, an optional `query` template and an optional
/// `punycode` flag (on by default) is a detailed entry — or, without
/// `query`, a simple one. Anything else is malformed.
pub open spec fn spec_record_of(v: serde_json::Value) -> Result<Option<ServerEntryView>, ()> {
    if json_is_null(v) {
        Ok(None)
    } else {
        match json_str_content(v) {
            Some(h) => if h.len() == 0 {
                Err(())
            } else {
                Ok(Some(ServerEntryView::Simple { host: h }))
            },
            None => match json_field(v, "host"@) {
                None => Err(()),
                Some(hv) => match json_str_content(hv) {
                    None => Err(()),
                    Some(h) => if h.len() == 0 {
                        Err(())
                    } else {
                        match json_field(v, "query"@) {
                            None => Ok(Some(ServerEntryView::Simple { host: h })),
                            Some(qv) => match json_str_content(qv) {
                                None => Err(()),
                                Some(q) => match json_field(v, "punycode"@) {
                                    None => Ok(
                                        Some(
                                            ServerEntryView::Detailed {
                                                host: h,
                                                query: q,
                                                punycode: true,
                                            },
                                        ),
                                    ),
                                    Some(pv) => match json_bool_content(pv) {
                                        None => Err(()),
                                        Some(b) => Ok(
                                            Some(
                                                ServerEntryView::Detailed {
                                                    host: h,
                                                    query: q,
                                                    punycode: b,
                                                },
                                            ),
                                        ),
                                    },
                                },
                            },
                        }
                    },
                },
            },
        }
    }
}

/// Reads one registry record out of a JSON value.
fn record_from_value(v: &serde_json::Value) -> (r: Result<Option<WhoisServerEntry>, ()>)
    ensures
        match r {
            Ok(rec) => spec_record_of(*v) == Ok::<_, ()>(opt_entry_view(rec)),
            Err(_) => spec_record_of(*v) is Err,
        },
{
    if v.is_null() {
        return Ok(None);
    }
    match v.as_str() {
        Some(h) => {
            if h.is_empty() {
                return Err(());
            }
            return Ok(Some(WhoisServerEntry::Simple(h.to_owned())));
        },
        None => {},
    }
    let host = match json_get(v, "host") {
        None => {
            return Err(());
        },
        Some(hv) => match hv.as_str() {
            None => {
                return Err(());
            },
            Some(h) => {
                if h.is_empty() {
                    return Err(());
                }
                h.to_owned()
            },
        },
    };
    let qv = match json_get(v, "query") {
        None => {
            return Ok(Some(WhoisServerEntry::Simple(host)));
        },
        Some(qv) => qv,
    };
    let query = match qv.as_str() {
        None => {
            return Err(());
        },
        Some(q) => q.to_owned(),
    };
    let punycode = match json_get(v, "punycode") {
        None => true,
        Some(pv) => match pv.as_bool() {
            None => {
                return Err(());
            },
            Some(b) => b,
        },
    };
    Ok(Some(WhoisServerEntry::Detailed { host, query, punycode }))
}

/// The registry content of a sequence of parsed JSON members, first to
/// last, later entries overwriting earlier ones; malformed members spoil
/// the whole registry.
pub open spec fn spec_registry_of(entries: Seq<(String, serde_json::Value)>) -> Result<
    RegistryView,
    (),
>
    decreases entries.len(),
{
    if entries.len() == 0 {
        Ok(empty_registry())
    } else {
        match spec_registry_of(entries.drop_last()) {
            Err(e) => Err(e),
            Ok(m) => match spec_record_of(entries.last().1) {
                Err(e) => Err(e),
                Ok(rec) => Ok(m.insert(entries.last().0@, rec)),
            },
        }
    }
}

/// The registry content of a sequence of pre-parsed suffix/entry pairs;
/// an entry with an empty host spoils the whole registry.
pub open spec fn spec_registry_of_pairs(pairs: Seq<(String, Option<WhoisServerEntry>)>) -> Result<
    RegistryView,
    (),
>
    decreases pairs.len(),
{
    if pairs.len() == 0 {
        Ok(empty_registry())
    } else {
        match spec_registry_of_pairs(pairs.drop_last()) {
            Err(e) => Err(e),
            Ok(m) => {
                let rec = opt_entry_view(pairs.last().1);
                if (rec matches Some(e) && !e.wf()) {
                    Err(())
                } else {
                    Ok(m.insert(pairs.last().0@, rec))
                }
            },
        }
    }
}

/// A spoiled prefix spoils the whole sequence.
proof fn lemma_registry_of_err_prefix(entries: Seq<(String, serde_json::Value)>, i: int)
    requires
        0 <= i <= entries.len(),
        spec_registry_of(entries.subrange(0, i)) is Err,
    ensures
        spec_registry_of(entries) is Err,
    decreases entries.len() - i,
{
    if i == entries.len() {
        assert(entries.subrange(0, i) =~= entries);
    } else {
        assert(entries.subrange(0, i + 1).drop_last() =~= entries.subrange(0, i));
        lemma_registry_of_err_prefix(entries, i + 1);
    }
}

/// A spoiled prefix of pairs spoils the whole sequence.
proof fn lemma_registry_of_pairs_err_prefix(pairs: Seq<(String, Option<WhoisServerEntry>)>, i: int)
    requires
        0 <= i <= pairs.len(),
        spec_registry_of_pairs(pairs.subrange(0, i)) is Err,
    ensures
        spec_registry_of_pairs(pairs) is Err,
    decreases pairs.len() - i,
{
    if i == pairs.len() {
        assert(pairs.subrange(0, i) =~= pairs);
    } else {
        assert(pairs.subrange(0, i + 1).drop_last() =~= pairs.subrange(0, i));
        lemma_registry_of_pairs_err_prefix(pairs, i + 1);
    }
}

/// Every record a well-formed JSON member yields is well formed.
proof fn lemma_record_of_wf(v: serde_json::Value)
    ensures
        spec_record_of(v) matches Ok(rec) ==> (match rec {
            Some(e) => e.wf(),
            None => true,
        }),
{
}

/// A registry built from JSON members holds only well-formed entries.
proof fn lemma_registry_of_wf(entries: Seq<(String, serde_json::Value)>)
    ensures
        spec_registry_of(entries) matches Ok(m) ==> (forall|k: Seq<char>| #[trigger]
            m.contains_key(k) ==> (match m[k] {
                Some(e) => e.wf(),
                None => true,
            })),
    decreases entries.len(),
{
    if entries.len() > 0 {
        lemma_registry_of_wf(entries.drop_last());
        lemma_record_of_wf(entries.last().1);
    }
}

/// A registry built from accepted pairs holds only well-formed entries.
proof fn lemma_registry_of_pairs_wf(pairs: Seq<(String, Option<WhoisServerEntry>)>)
    ensures
        spec_registry_of_pairs(pairs) matches Ok(m) ==> (forall|k: Seq<char>| #[trigger]
            m.contains_key(k) ==> (match m[k] {
                Some(e) => e.wf(),
                None => true,
            })),
    decreases pairs.len(),
{
    if pairs.len() > 0 {
        lemma_registry_of_pairs_wf(pairs.drop_last());
    }
}

/// A failure to build the client.
#[derive(Debug, Clone, PartialEq, Eq)]
pub enum WhoisBuilderError {
    /// The server-list source could not be read.
    Io,
    /// The server-list data does not describe a registry.
    Malformed,
}

/// The server-list data the builder will use.
pub enum ServerListType {
    /// In-memory JSON text mapping each suffix to its record.
    Data(String),
    /// A pre-parsed list of suffix/entry pairs.
    Parsed(Vec<(String, Option<WhoisServerEntry>)>),
}

/// The expected registry content of a server list, or a malformed-data
/// failure.
pub open spec fn spec_build(list: ServerListType) -> Result<RegistryView, ()> {
    match list {
        ServerListType::Data(text) => match json_object_entries(text@) {
            None => Err(()),
            Some(entries) => spec_registry_of(entries),
        },
        ServerListType::Parsed(pairs) => spec_registry_of_pairs(pairs@),
    }
}

/// A builder for a `Whois` client.
pub struct WhoisBuilder {
    pub server_list: ServerListType,
}

/// A copy of an optional entry with the same content.
fn copy_opt_entry(v: &Option<WhoisServerEntry>) -> (r: Option<WhoisServerEntry>)
    ensures
        opt_entry_view(r) == opt_entry_view(*v),
{
    match v {
        None => None,
        Some(WhoisServerEntry::Simple(host)) => Some(WhoisServerEntry::Simple(host.clone())),
        Some(WhoisServerEntry::Detailed { host, query, punycode }) => Some(
            WhoisServerEntry::Detailed {
                host: host.clone(),
                query: query.clone(),
                punycode: *punycode,
            },
        ),
    }
}

/// Whether an entry to insert is acceptable: a present entry must name a
/// host.
fn entry_ok(v: &Option<WhoisServerEntry>) -> (r: bool)
    ensures
        r == (match opt_entry_view(*v) {
            Some(e) => e.wf(),
            None => true,
        }),
{
    match v {
        None => true,
        Some(WhoisServerEntry::Simple(host)) => !host.as_str().is_empty(),
        Some(WhoisServerEntry::Detailed { host, .. }) => !host.as_str().is_empty(),
    }
}

impl WhoisBuilder {
    /// Creates a new whois client builder over the given server list.
    pub fn new(whois_server_list: ServerListType) -> (r: WhoisBuilder)
        ensures
            r.server_list == whois_server_list,
    {
        WhoisBuilder { server_list: whois_server_list }
    }

    /// Sets the in-memory data to read the server list from.
    pub fn with_server_data(self, data: String) -> (r: WhoisBuilder)
        ensures
            r.server_list == ServerListType::Data(data),
    {
        WhoisBuilder { server_list: ServerListType::Data(data) }
    }

    /// Builds the whois client; errors if the data cannot be parsed. The
    /// registry is all-or-nothing: on an error nothing of it remains.
    pub fn build(self) -> (r: Result<Whois, WhoisBuilderError>)
        ensures
            match r {
                Ok(w) => w.wf() && spec_build(self.server_list) == Ok::<_, ()>(w.registry()),
                Err(e) => spec_build(self.server_list) is Err && e == WhoisBuilderError::Malformed,
            },
    {
        match self.server_list {
            ServerListType::Data(data) => {
                let entries = match parse_json_object(data.as_str()) {
                    None => {
                        return Err(WhoisBuilderError::Malformed);
                    },
                    Some(entries) => entries,
                };
                let ghost eseq = entries@;
                let mut m = server_map_new();
                let mut idx: usize = 0;
                while idx < entries.len()
                    invariant
                        eseq == entries@,
                        idx <= entries.len(),
                        self.server_list == ServerListType::Data(data),
                        json_object_entries(data@) == Some(eseq),
                        spec_registry_of(eseq.subrange(0, idx as int)) == Ok::<_, ()>(
                            server_map_contents(m),
                        ),
                    decreases entries.len() - idx,
                {
                    proof {
                        assert(eseq.subrange(0, idx as int + 1).drop_last() =~= eseq.subrange(
                            0,
                            idx as int,
                        ));
                        assert(eseq.subrange(0, idx as int + 1).last() == eseq[idx as int]);
                    }
                    let rec = match record_from_value(&entries[idx].1) {
                        Err(_) => {
                            proof {
                                lemma_registry_of_err_prefix(eseq, idx as int + 1);
                            }
                            return Err(WhoisBuilderError::Malformed);
                        },
                        Ok(rec) => rec,
                    };
                    let key = entries[idx].0.clone();
                    server_map_insert(&mut m, key, rec);
                    idx = idx + 1;
                }
                proof {
                    assert(eseq.subrange(0, eseq.len() as int) =~= eseq);
                    lemma_registry_of_wf(eseq);
                }
                Ok(Whois::from_map(m))
            },
            ServerListType::Parsed(pairs) => {
                let ghost pseq = pairs@;
                let mut m = server_map_new();
                let mut idx: usize = 0;
                while idx < pairs.len()
                    invariant
                        pseq == pairs@,
                        idx <= pairs.len(),
                        self.server_list == ServerListType::Parsed(pairs),
                        spec_registry_of_pairs(pseq.subrange(0, idx as int)) == Ok::<_, ()>(
                            server_map_contents(m),
                        ),
                    decreases pairs.len() - idx,
                {
                    proof {
                        assert(pseq.subrange(0, idx as int + 1).drop_last() =~= pseq.subrange(
                            0,
                            idx as int,
                        ));
                        assert(pseq.subrange(0, idx as int + 1).last() == pseq[idx as int]);
                    }
                    if !entry_ok(&pairs[idx].1) {
                        proof {
                            lemma_registry_of_pairs_err_prefix(pseq, idx as int + 1);
                        }
                        return Err(WhoisBuilderError::Malformed);
                    }
                    let key = pairs[idx].0.clone();
                    let value = copy_opt_entry(&pairs[idx].1);
                    server_map_insert(&mut m, key, value);
                    idx = idx + 1;
                }
                proof {
                    assert(pseq.subrange(0, pseq.len() as int) =~= pseq);
                    lemma_registry_of_pairs_wf(pseq);
                }
                Ok(Whois::from_map(m))
            },
        }
    }
}

} // verus!
