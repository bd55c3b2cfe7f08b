//! Normalizing raw WHOIS response text.
//!
//! The basic normalization strips carriage returns, turns tabs into
//! spaces, and trims surrounding whitespace.

use vstd::prelude::*;

use crate::parser::{Contact, DateType, ParsedDomain};
use vstd::string::StrSliceExecFns;
use vstd::string::StringExecFns;

verus! {

/// `s` without its carriage returns.
pub open spec fn spec_without_cr(s: Seq<char>) -> Seq<char>
    decreases s.len(),
{
    if s.len() == 0 {
        Seq::empty()
    } else if s[0] == '\r' {
        spec_without_cr(s.subrange(1, s.len() as int))
    } else {
        seq![s[0]] + spec_without_cr(s.subrange(1, s.len() as int))
    }
}

/// `s` with every tab turned into a space.
pub open spec fn spec_tabs_to_spaces(s: Seq<char>) -> Seq<char>
    decreases s.len(),
{
    if s.len() == 0 {
        Seq::empty()
    } else {
        seq![if s[0] == '\t' { ' ' } else { s[0] }] + spec_tabs_to_spaces(
            s.subrange(1, s.len() as int),
        )
    }
}

/// The whitespace that normalization trims at either end.
pub open spec fn spec_is_space(c: char) -> bool {
    c == ' ' || c == '\t' || c == '\r' || c == '\n'
}

/// `s` without leading whitespace.
pub open spec fn spec_trim_start(s: Seq<char>) -> Seq<char>
    decreases s.len(),
{
    if s.len() > 0 && spec_is_space(s[0]) {
        spec_trim_start(s.subrange(1, s.len() as int))
    } else {
        s
    }
}

/// `s` without trailing whitespace.
pub open spec fn spec_trim_end(s: Seq<char>) -> Seq<char>
    decreases s.len(),
{
    if s.len() > 0 && spec_is_space(s.last()) {
        spec_trim_end(s.drop_last())
    } else {
        s
    }
}

/// `s` without surrounding whitespace.
pub open spec fn spec_trim(s: Seq<char>) -> Seq<char> {
    spec_trim_end(spec_trim_start(s))
}

/// The basic normalization of a response.
pub open spec fn spec_normalized(s: Seq<char>) -> Seq<char> {
    spec_trim(spec_tabs_to_spaces(spec_without_cr(s)))
}

/// Whether normalization counts `c` as whitespace.
fn is_space_char(c: char) -> (r: bool)
    ensures
        r == spec_is_space(c),
{
    c == ' ' || c == '\t' || c == '\r' || c == '\n'
}

/// Removes every carriage return from `t`.
fn strip_cr(t: &str) -> (r: String)
    ensures
        r@ == spec_without_cr(t@),
{
    let n = t.unicode_len();
    let mut out = String::new();
    let mut i: usize = 0;
    proof {
        assert(t@.subrange(0, n as int) =~= t@);
        assert(Seq::<char>::empty() + spec_without_cr(t@) =~= spec_without_cr(t@));
    }
    while i < n
        invariant
            n == t@.len(),
            i <= n,
            spec_without_cr(t@) == out@ + spec_without_cr(t@.subrange(i as int, n as int)),
        decreases n - i,
    {
        let ghost rest = t@.subrange(i as int, n as int);
        let ghost out0 = out@;
        proof {
            assert(rest.subrange(1, rest.len() as int) =~= t@.subrange(i as int + 1, n as int));
        }
        let c = t.get_char(i);
        if c != '\r' {
            let piece = t.substring_char(i, i + 1);
            out.append(piece);
            proof {
                assert(piece@ =~= seq![rest[0]]);
                assert(out0 + (seq![rest[0]] + spec_without_cr(
                    t@.subrange(i as int + 1, n as int),
                )) =~= out@ + spec_without_cr(t@.subrange(i as int + 1, n as int)));
            }
        }
        i = i + 1;
    }
    proof {
        assert(t@.subrange(n as int, n as int) =~= Seq::<char>::empty());
        assert(out@ + Seq::<char>::empty() =~= out@);
    }
    out
}

/// Turns every tab of `t` into a space.
fn tabs_to_spaces(t: &str) -> (r: String)
    ensures
        r@ == spec_tabs_to_spaces(t@),
{
    let n = t.unicode_len();
    let mut out = String::new();
    let mut i: usize = 0;
    proof {
        assert(t@.subrange(0, n as int) =~= t@);
        assert(Seq::<char>::empty() + spec_tabs_to_spaces(t@) =~= spec_tabs_to_spaces(t@));
    }
    while i < n
        invariant
            n == t@.len(),
            i <= n,
            spec_tabs_to_spaces(t@) == out@ + spec_tabs_to_spaces(t@.subrange(i as int, n as int)),
        decreases n - i,
    {
        let ghost rest = t@.subrange(i as int, n as int);
        let ghost out0 = out@;
        proof {
            assert(rest.subrange(1, rest.len() as int) =~= t@.subrange(i as int + 1, n as int));
        }
        let c = t.get_char(i);
        if c == '\t' {
            out.append(" ");
            proof {
                reveal_strlit(" ");
                assert(" "@ =~= seq![if rest[0] == '\t' { ' ' } else { rest[0] }]);
            }
        } else {
            let piece = t.substring_char(i, i + 1);
            out.append(piece);
            proof {
                assert(piece@ =~= seq![if rest[0] == '\t' { ' ' } else { rest[0] }]);
            }
        }
        proof {
            assert(out0 + (seq![if rest[0] == '\t' { ' ' } else { rest[0] }] + spec_tabs_to_spaces(
                t@.subrange(i as int + 1, n as int),
            )) =~= out@ + spec_tabs_to_spaces(t@.subrange(i as int + 1, n as int)));
        }
        i = i + 1;
    }
    proof {
        assert(t@.subrange(n as int, n as int) =~= Seq::<char>::empty());
        assert(out@ + Seq::<char>::empty() =~= out@);
    }
    out
}

/// A stretch of leading whitespace ending at a non-space leaves the tail.
proof fn lemma_trim_start_at(s: Seq<char>, k: int)
    requires
        0 <= k <= s.len(),
        forall|j: int| 0 <= j < k ==> spec_is_space(#[trigger] s[j]),
        k < s.len() ==> !spec_is_space(s[k]),
    ensures
        spec_trim_start(s) == s.subrange(k, s.len() as int),
    decreases k,
{
    if k == 0 {
        assert(s.subrange(0, s.len() as int) =~= s);
    } else {
        assert(spec_is_space(s[0]));
        let tail = s.subrange(1, s.len() as int);
        lemma_trim_start_at(tail, k - 1);
        assert(tail.subrange(k - 1, tail.len() as int) =~= s.subrange(k, s.len() as int));
    }
}

/// A stretch of trailing whitespace starting after a non-space leaves the
/// head.
proof fn lemma_trim_end_at(s: Seq<char>, m: int)
    requires
        0 <= m <= s.len(),
        forall|j: int| m <= j < s.len() ==> spec_is_space(#[trigger] s[j]),
        m > 0 ==> !spec_is_space(s[m - 1]),
    ensures
        spec_trim_end(s) == s.subrange(0, m),
    decreases s.len(),
{
    if m == s.len() {
        if s.len() > 0 && spec_is_space(s.last()) {
            assert(!spec_is_space(s[m - 1]));
            assert(false);
        }
        assert(s.subrange(0, m) =~= s);
    } else {
        assert(spec_is_space(s.last()));
        lemma_trim_end_at(s.drop_last(), m);
        assert(s.drop_last().subrange(0, m) =~= s.subrange(0, m));
    }
}

/// Trims surrounding whitespace off `t`.
fn trim_spaces(t: &str) -> (r: String)
    ensures
        r@ == spec_trim(t@),
{
    let n = t.unicode_len();
    let mut start: usize = 0;
    while start < n && is_space_char(t.get_char(start))
        invariant
            n == t@.len(),
            start <= n,
            forall|j: int| 0 <= j < start ==> spec_is_space(#[trigger] t@[j]),
        decreases n - start,
    {
        start = start + 1;
    }
    let mut end: usize = n;
    while end > start && is_space_char(t.get_char(end - 1))
        invariant
            n == t@.len(),
            start <= end <= n,
            forall|j: int| end <= j < n ==> spec_is_space(#[trigger] t@[j]),
        decreases end,
    {
        end = end - 1;
    }
    let r = t.substring_char(start, end).to_owned();
    proof {
        lemma_trim_start_at(t@, start as int);
        let u = t@.subrange(start as int, n as int);
        lemma_trim_end_at(u, end - start as int);
        assert(u.subrange(0, end - start as int) =~= t@.subrange(start as int, end as int));
    }
    r
}

/// Applies the basic normalization used for `.edu` responses: strips
/// carriage returns, turns tabs into spaces, and trims surrounding
/// whitespace.
pub fn normalize_edu(response: String) -> (r: String)
    ensures
        r@ == spec_normalized(response@),
{
    let no_cr = strip_cr(response.as_str());
    let no_tabs = tabs_to_spaces(no_cr.as_str());
    trim_spaces(no_tabs.as_str())
}

/// Normalizes the whois output for better parsing: strips carriage
/// returns, turns tabs into spaces, and trims surrounding whitespace.
/// Returns `Ok` when a normalizer specific to the suffix exists and `Err`
/// when none does, the basic normalization applied either way. No
/// suffix-specific normalizer is provided, so the result is always `Err`.
pub fn normalize(_suffix: &str, response: String) -> (r: Result<String, String>)
    ensures
        r matches Err(t) && t@ == spec_normalized(response@),
{
    let no_cr = strip_cr(response.as_str());
    let no_tabs = tabs_to_spaces(no_cr.as_str());
    Err(trim_spaces(no_tabs.as_str()))
}

/// The normalized fields of a `.edu` whois response.
pub struct EduNormalized {
    pub registrant: Contact,
    pub administrative: Contact,
    pub technical: Contact,
    pub name_servers: Vec<String>,
    pub created: DateType,
    pub updated: DateType,
    pub expires: DateType,
}

impl EduNormalized {
    /// The parsed record holding exactly these fields and nothing else.
    pub fn into_parsed(self) -> (r: ParsedDomain)
        ensures
            r.registrant == Some(self.registrant),
            r.administrative == Some(self.administrative),
            r.technical == Some(self.technical),
            r.name_servers == Some(self.name_servers),
            r.created == Some(self.created),
            r.updated == Some(self.updated),
            r.expires == Some(self.expires),
            r.registrar is None,
            r.billing is None,
            r.dns_sec is None,
    {
        ParsedDomain {
            registrant: Some(self.registrant),
            administrative: Some(self.administrative),
            technical: Some(self.technical),
            name_servers: Some(self.name_servers),
            created: Some(self.created),
            updated: Some(self.updated),
            expires: Some(self.expires),
            registrar: None,
            billing: None,
            dns_sec: None,
        }
    }
}

} // verus!
