//! Building the wire query for a resolved target.
//!
//! A simple entry is queried with the bare domain followed by CRLF; a
//! detailed entry is queried with its template, every occurrence of the
//! `$addr` placeholder replaced by the domain.

use vstd::prelude::*;

use crate::whois::{DomainLookupInfo, ServerEntryView, WhoisServerEntry};
use vstd::string::StrSliceExecFns;
use vstd::string::StringExecFns;

verus! {

/// The placeholder token of a query template.
pub open spec fn addr_token() -> Seq<char> {
    seq!['$', 'a', 'd', 'd', 'r']
}

/// The carriage-return line-feed terminator of a simple query.
pub open spec fn crlf() -> Seq<char> {
    seq!['\r', '\n']
}

/// `t` with every occurrence of the placeholder replaced by `d`, scanning
/// left to right without overlap.
pub open spec fn replace_addr(t: Seq<char>, d: Seq<char>) -> Seq<char>
    decreases t.len(),
{
    if t.len() < 5 {
        t
    } else if t.subrange(0, 5) == addr_token() {
        d + replace_addr(t.subrange(5, t.len() as int), d)
    } else {
        t.subrange(0, 1) + replace_addr(t.subrange(1, t.len() as int), d)
    }
}

/// The exact bytes-as-text of the query for a server entry and a queried
/// domain: the bare domain plus CRLF for a simple entry, the substituted
/// template — with no extra terminator — for a detailed one.
pub open spec fn spec_query(e: ServerEntryView, d: Seq<char>) -> Seq<char> {
    match e {
        ServerEntryView::Simple { .. } => d + crlf(),
        ServerEntryView::Detailed { query, .. } => replace_addr(query, d),
    }
}

/// Replaces every `$addr` in `t` by `d`.
fn replace_addr_exec(t: &str, d: &str) -> (r: String)
    ensures
        r@ == replace_addr(t@, d@),
{
    let n = t.unicode_len();
    let mut out = String::new();
    let mut i: usize = 0;
    proof {
        assert(t@.subrange(0, n as int) =~= t@);
        assert(Seq::<char>::empty() + replace_addr(t@, d@) =~= replace_addr(t@, d@));
    }
    while i < n
        invariant
            n == t@.len(),
            i <= n,
            replace_addr(t@, d@) == out@ + replace_addr(t@.subrange(i as int, n as int), d@),
        decreases n - i,
    {
        let ghost rest = t@.subrange(i as int, n as int);
        let ghost out0 = out@;
        let token = n - i >= 5 && t.get_char(i) == '$' && t.get_char(i + 1) == 'a' && t.get_char(
            i + 2,
        ) == 'd' && t.get_char(i + 3) == 'd' && t.get_char(i + 4) == 'r';
        if token {
            out.append(d);
            proof {
                assert(rest.subrange(0, 5) =~= addr_token());
                assert(rest.subrange(5, rest.len() as int) =~= t@.subrange(
                    i as int + 5,
                    n as int,
                ));
                assert(out0 + (d@ + replace_addr(t@.subrange(i as int + 5, n as int), d@)) =~= out@
                    + replace_addr(t@.subrange(i as int + 5, n as int), d@));
            }
            i = i + 5;
        } else {
            proof {
                if rest.len() >= 5 && rest.subrange(0, 5) == addr_token() {
                    assert(rest.subrange(0, 5)[0] == t@[i as int]);
                    assert(rest.subrange(0, 5)[1] == t@[i as int + 1]);
                    assert(rest.subrange(0, 5)[2] == t@[i as int + 2]);
                    assert(rest.subrange(0, 5)[3] == t@[i as int + 3]);
                    assert(rest.subrange(0, 5)[4] == t@[i as int + 4]);
                    assert(false);
                }
            }
            let piece = t.substring_char(i, i + 1);
            out.append(piece);
            proof {
                assert(piece@ =~= rest.subrange(0, 1));
                assert(rest.subrange(1, rest.len() as int) =~= t@.subrange(
                    i as int + 1,
                    n as int,
                ));
                if rest.len() < 5 {
                    assert(replace_addr(rest, d@) == rest);
                    assert(replace_addr(t@.subrange(i as int + 1, n as int), d@) == rest.subrange(
                        1,
                        rest.len() as int,
                    ));
                    assert(out0 + rest =~= out@ + rest.subrange(1, rest.len() as int));
                } else {
                    assert(out0 + (rest.subrange(0, 1) + replace_addr(
                        t@.subrange(i as int + 1, n as int),
                        d@,
                    )) =~= out@ + replace_addr(t@.subrange(i as int + 1, n as int), d@));
                }
            }
            i = i + 1;
        }
    }
    proof {
        assert(t@.subrange(n as int, n as int) =~= Seq::<char>::empty());
        assert(out@ + Seq::<char>::empty() =~= out@);
    }
    out
}

/// Builds the exact query text to send for a resolved target.
pub fn build_query(info: &DomainLookupInfo) -> (r: String)
    ensures
        r@ == spec_query(info.server_info@, info.domain@),
{
    match &info.server_info {
        WhoisServerEntry::Simple(_) => {
            let mut out = info.domain.clone();
            out.append("\r\n");
            proof {
                reveal_strlit("\r\n");
                assert("\r\n"@ =~= crlf());
            }
            out
        },
        WhoisServerEntry::Detailed { host: _, query, punycode: _ } => {
            replace_addr_exec(query.as_str(), info.domain.as_str())
        },
    }
}

} // verus!
