//! The suffix model of a dotted domain name.
//!
//! A domain is a sequence of characters; its labels are the stretches between
//! `.` characters. A *label start* is position 0 or any position just after a
//! dot. The suffixes a resolver probes are exactly the tails of the domain
//! that begin at a label start, longest first.

use vstd::prelude::*;

verus! {

/// Position `p` begins a label of `s`: the start of the string, or the
/// position immediately after a dot.
pub open spec fn is_label_start(s: Seq<char>, p: int) -> bool {
    0 <= p <= s.len() && (p == 0 || s[p - 1] == '.')
}

/// The tail of `s` that begins at position `p`.
pub open spec fn suffix_at(s: Seq<char>, p: int) -> Seq<char> {
    s.subrange(p, s.len() as int)
}

/// Position `p` begins a label of `s` whose tail is one of `keys`.
pub open spec fn matches_at(keys: Set<Seq<char>>, s: Seq<char>, p: int) -> bool {
    is_label_start(s, p) && keys.contains(suffix_at(s, p))
}

/// The first position at or after `p` that begins a matching suffix of `s`.
/// Scanning positions upward tries longer suffixes first.
pub open spec fn first_match_from(keys: Set<Seq<char>>, s: Seq<char>, p: int) -> Option<int>
    decreases s.len() - p + 1,
{
    if p < 0 || p > s.len() {
        None
    } else if matches_at(keys, s, p) {
        Some(p)
    } else {
        first_match_from(keys, s, p + 1)
    }
}

/// The start of the longest suffix of `s` that is one of `keys`, if any.
pub open spec fn first_match(keys: Set<Seq<char>>, s: Seq<char>) -> Option<int> {
    first_match_from(keys, s, 0)
}

/// The last label start of `s` strictly before position `p` (for `p >= 1`;
/// position 0 always qualifies).
pub open spec fn prev_start(s: Seq<char>, p: int) -> int
    decreases p,
{
    if p <= 1 {
        0
    } else if is_label_start(s, p - 1) {
        p - 1
    } else {
        prev_start(s, p - 1)
    }
}

/// The registrable root for a match at `p`: the whole domain when the match
/// is the whole domain, otherwise the suffix extended by the one label
/// immediately to its left.
pub open spec fn root_at(s: Seq<char>, p: int) -> Seq<char> {
    if p == 0 {
        s
    } else {
        suffix_at(s, prev_start(s, p))
    }
}

/// A match at `p` with no match before it makes `p` the first match.
pub proof fn lemma_first_match_reaches(keys: Set<Seq<char>>, s: Seq<char>, p0: int, p: int)
    requires
        0 <= p0 <= p,
        matches_at(keys, s, p),
        forall|q: int| p0 <= q < p ==> !matches_at(keys, s, q),
    ensures
        first_match_from(keys, s, p0) == Some(p),
    decreases p - p0,
{
    if p0 < p {
        lemma_first_match_reaches(keys, s, p0 + 1, p);
    }
}

/// With no match anywhere at or after `p0`, there is no first match.
pub proof fn lemma_first_match_empty(keys: Set<Seq<char>>, s: Seq<char>, p0: int)
    requires
        0 <= p0,
        forall|q: int| p0 <= q <= s.len() ==> !matches_at(keys, s, q),
    ensures
        first_match_from(keys, s, p0) is None,
    decreases s.len() - p0 + 1,
{
    if p0 <= s.len() {
        lemma_first_match_empty(keys, s, p0 + 1);
    }
}

/// The first match is a match, and nothing before it matches.
pub proof fn lemma_first_match_sound(keys: Set<Seq<char>>, s: Seq<char>, p0: int, p: int)
    requires
        0 <= p0,
        first_match_from(keys, s, p0) == Some(p),
    ensures
        p0 <= p <= s.len(),
        matches_at(keys, s, p),
        forall|q: int| p0 <= q < p ==> !matches_at(keys, s, q),
    decreases s.len() - p0 + 1,
{
    if p0 <= s.len() && !matches_at(keys, s, p0) {
        lemma_first_match_sound(keys, s, p0 + 1, p);
    }
}

/// `prev_start` is the greatest label start strictly before `p`.
pub proof fn lemma_prev_start_props(s: Seq<char>, p: int)
    requires
        1 <= p,
    ensures
        0 <= prev_start(s, p) < p,
        is_label_start(s, prev_start(s, p)),
        forall|q: int| prev_start(s, p) < q < p ==> !is_label_start(s, q),
    decreases p,
{
    if p <= 1 || is_label_start(s, p - 1) {
    } else {
        lemma_prev_start_props(s, p - 1);
    }
}

/// A label start before `p` with no later label start before `p` is
/// `prev_start(s, p)`.
pub proof fn lemma_prev_start_unique(s: Seq<char>, p: int, q: int)
    requires
        1 <= p,
        is_label_start(s, q),
        q < p,
        forall|r: int| q < r < p ==> !is_label_start(s, r),
    ensures
        prev_start(s, p) == q,
    decreases p,
{
    if p <= 1 {
        assert(q == 0);
    } else if is_label_start(s, p - 1) {
        assert(q == p - 1);
    } else {
        lemma_prev_start_unique(s, p - 1, q);
    }
}

} // verus!
