//! Taking bearer tokens out of text.

use crate::text::{
    byte_size, char_width, chars_of, lemma_byte_size_bounds, lemma_byte_size_concat, string_of, width,
};
use vstd::prelude::*;

verus! {

/// What stands in the place of a secret.
pub const REDACTED: &'static str = "[redacted]";

/// The two markers after which a token follows.
pub const BEARER_UPPER: &'static str = "Bearer ";

pub const BEARER_LOWER: &'static str = "bearer ";

// ---------------------------------------------------------------------------------------------
// Bearer tokens
// ---------------------------------------------------------------------------------------------

/// A character that ends a token.
pub open spec fn ends_token(c: char) -> bool {
    crate::text::is_white_space(c) || c == '"' || c == '\'' || c == ',' || c == '}'
}

/// `marker` stands in `s` at `i`.
pub open spec fn occurs_at(s: Seq<char>, marker: Seq<char>, i: int) -> bool {
    0 <= i && i + marker.len() <= s.len() && s.subrange(i, i + marker.len()) == marker
}

/// Where `marker` first stands in `s`, from `i` on.
pub open spec fn next_occurrence(s: Seq<char>, marker: Seq<char>, i: int) -> Option<int>
    decreases s.len() - i,
{
    if i + marker.len() > s.len() {
        None
    } else if occurs_at(s, marker, i) {
        Some(i)
    } else if i >= s.len() {
        None
    } else {
        next_occurrence(s, marker, i + 1)
    }
}

/// Where the token that begins at `i` ends.
pub open spec fn token_end(s: Seq<char>, i: int) -> int
    decreases s.len() - i,
{
    if i >= s.len() || ends_token(s[i]) {
        i
    } else {
        token_end(s, i + 1)
    }
}

/// The position `n` bytes behind position `i` of `s`: nothing where `s` ends before it, or where
/// it falls inside a character.
pub open spec fn bytes_on(s: Seq<char>, i: int, n: int) -> Option<int>
    decreases n,
{
    if n <= 0 {
        Some(i)
    } else if i < 0 || i >= s.len() || width(s[i]) > n || width(s[i]) == 0 {
        None
    } else {
        bytes_on(s, i + 1, n - width(s[i]))
    }
}

/// `s` with the token `s[from..to]` replaced.
pub open spec fn with_token_replaced(s: Seq<char>, from: int, to: int) -> Seq<char> {
    s.take(from) + REDACTED@ + s.skip(to)
}

/// `s` with every token behind `marker` replaced, from `start` on.
///
/// Behind a replaced token the search goes on where the replacement ends. Behind a marker that no
/// token follows it goes on as many bytes further as a replacement would have taken; where `s`
/// has no such position there is no result.
pub open spec fn tokens_replaced(s: Seq<char>, marker: Seq<char>, start: int) -> Option<Seq<char>>
    decreases s.len() - start,
{
    match next_occurrence(s, marker, start) {
        None => Some(s),
        Some(at) => {
            let from = at + marker.len();
            let to = token_end(s, from);
            proof {
                lemma_scan_goes_on(s, marker, start);
            }
            if to > from {
                tokens_replaced(
                    with_token_replaced(s, from, to),
                    marker,
                    from + REDACTED@.len(),
                )
            } else {
                match bytes_on(s, from, REDACTED@.len() as int) {
                    Some(next) => tokens_replaced(s, marker, next),
                    None => None,
                }
            }
        },
    }
}

/// The text `s` with its bearer tokens replaced; nothing where one of the two searches leaves the
/// text.
pub open spec fn bearer_tokens_replaced(s: Seq<char>) -> Option<Seq<char>> {
    match tokens_replaced(s, BEARER_UPPER@, 0) {
        Some(t) => tokens_replaced(t, BEARER_LOWER@, 0),
        None => None,
    }
}

/// An occurrence found is one, and lies at `i` or behind it; before it there is none.
pub proof fn lemma_next_occurrence(s: Seq<char>, marker: Seq<char>, i: int)
    ensures
        match next_occurrence(s, marker, i) {
            Some(at) => i <= at && occurs_at(s, marker, at) && forall|k: int|
                i <= k < at ==> !#[trigger] occurs_at(s, marker, k),
            None => forall|k: int| i <= k ==> !#[trigger] occurs_at(s, marker, k),
        },
    decreases s.len() - i,
{
    if i + marker.len() <= s.len() && !occurs_at(s, marker, i) && i < s.len() {
        lemma_next_occurrence(s, marker, i + 1);
    }
}

/// A token ends in the text, not before it begins, and holds nothing that ends it.
pub proof fn lemma_token_end(s: Seq<char>, i: int)
    requires
        0 <= i <= s.len(),
    ensures
        i <= token_end(s, i) <= s.len(),
        forall|k: int| i <= k < token_end(s, i) ==> !ends_token(#[trigger] s[k]),
        token_end(s, i) < s.len() ==> ends_token(s[token_end(s, i)]),
    decreases s.len() - i,
{
    if i < s.len() && !ends_token(s[i]) {
        lemma_token_end(s, i + 1);
    }
}

/// Where some bytes lead on, they lead forward, and not out of the text.
pub proof fn lemma_bytes_on(s: Seq<char>, i: int, n: int)
    requires
        0 <= i <= s.len(),
    ensures
        bytes_on(s, i, n) matches Some(next) ==> i <= next <= s.len() && (n > 0 ==> i < next),
    decreases n,
{
    if n > 0 && i < s.len() && width(s[i]) <= n && width(s[i]) != 0 {
        lemma_bytes_on(s, i + 1, n - width(s[i]));
    }
}

/// Each step of the search leaves less of the text to look at.
pub proof fn lemma_scan_goes_on(s: Seq<char>, marker: Seq<char>, start: int)
    ensures
        next_occurrence(s, marker, start) matches Some(at) ==> {
            let from = at + marker.len();
            let to = token_end(s, from);
            &&& start <= from
            &&& 0 <= from <= to <= s.len()
            &&& to > from ==> with_token_replaced(s, from, to).len() - (from + REDACTED@.len())
                < s.len() - start
            &&& bytes_on(s, from, REDACTED@.len() as int) matches Some(next) ==> from < next
                <= s.len()
        },
{
    reveal_strlit("[redacted]");
    lemma_next_occurrence(s, marker, start);
    if let Some(at) = next_occurrence(s, marker, start) {
        let from = at + marker.len();
        lemma_token_end(s, from);
        lemma_bytes_on(s, from, REDACTED@.len() as int);
    }
}

/// The marker is one of the two after which a bearer token follows.
pub open spec fn is_bearer_marker(marker: Seq<char>) -> bool {
    marker == BEARER_UPPER@ || marker == BEARER_LOWER@
}

/// No token follows the marker of length `n` that stands at `p`.
pub open spec fn no_token(s: Seq<char>, n: nat, p: int) -> bool {
    token_end(s, p + n) == p + n
}

/// What follows the marker of length `n` that stands at `p` is the replacement and nothing else.
pub open spec fn token_replaced(s: Seq<char>, n: nat, p: int) -> bool {
    let to = token_end(s, p + n);
    p + n <= to <= s.len() && s.subrange(p + n, to) == REDACTED@
}

/// `p` lies behind a marker that no token follows, less bytes behind it than a replacement has.
pub open spec fn in_shadow(s: Seq<char>, marker: Seq<char>, p: int) -> bool {
    exists|q: int| #[trigger] shadows(s, marker, q, p)
}

pub open spec fn shadows(s: Seq<char>, marker: Seq<char>, q: int, p: int) -> bool {
    &&& occurs_at(s, marker, q)
    &&& no_token(s, marker.len(), q)
    &&& q + marker.len() <= p <= s.len()
    &&& byte_size(s.subrange(q + marker.len(), p)) < REDACTED@.len()
}

/// No token is left to see behind the marker that stands at `p`.
pub open spec fn is_covered(s: Seq<char>, marker: Seq<char>, p: int) -> bool {
    no_token(s, marker.len(), p) || token_replaced(s, marker.len(), p) || in_shadow(s, marker, p)
}

/// What the search has left behind it, up to `start`: every marker there is covered, and what
/// covers it lies before `start`.
spec fn settled(s: Seq<char>, marker: Seq<char>, start: int, p: int) -> bool {
    let n = marker.len();
    ||| token_end(s, p + n) <= start && (no_token(s, n, p) || token_replaced(s, n, p))
    ||| exists|q: int| #[trigger] shadows(s, marker, q, p) && token_end(s, q + n) <= start
}

/// How the characters of the markers and of the replacement differ.
proof fn lemma_marker_characters(marker: Seq<char>)
    requires
        is_bearer_marker(marker),
    ensures
        marker.len() == 7,
        forall|k: int| 1 <= k < 7 ==> #[trigger] marker[k] != marker[0],
        REDACTED@.len() == 10,
        forall|k: int| 0 <= k < 10 ==> #[trigger] REDACTED@[k] != marker[0],
        forall|k: int| 0 <= k < 10 ==> !ends_token(#[trigger] REDACTED@[k]),
{
    reveal_strlit("[redacted]");
    reveal_strlit("Bearer ");
    reveal_strlit("bearer ");
}

/// A token end that lies in a common beginning is common.
proof fn lemma_token_end_common(s: Seq<char>, t: Seq<char>, k: int, i: int)
    requires
        0 <= i <= token_end(s, i) < k,
        k <= s.len(),
        k <= t.len(),
        s.take(k) == t.take(k),
    ensures
        token_end(t, i) == token_end(s, i),
    decreases s.len() - i,
{
    assert(s[i] == s.take(k)[i]);
    assert(t[i] == t.take(k)[i]);
    if !ends_token(s[i]) {
        lemma_token_end(s, i + 1);
        lemma_token_end_common(s, t, k, i + 1);
    }
}

/// An occurrence that lies in a common beginning is common.
proof fn lemma_occurs_common(s: Seq<char>, t: Seq<char>, k: int, marker: Seq<char>, p: int)
    requires
        k <= s.len(),
        k <= t.len(),
        s.take(k) == t.take(k),
        p + marker.len() <= k,
    ensures
        occurs_at(s, marker, p) == occurs_at(t, marker, p),
{
    if 0 <= p {
        assert(s.subrange(p, p + marker.len()) =~= s.take(k).subrange(p, p + marker.len()));
        assert(t.subrange(p, p + marker.len()) =~= t.take(k).subrange(p, p + marker.len()));
    }
}

/// What is settled stays so when the text changes further on.
proof fn lemma_settled_common(
    s: Seq<char>,
    t: Seq<char>,
    k: int,
    marker: Seq<char>,
    start: int,
    p: int,
)
    requires
        is_bearer_marker(marker),
        0 <= p < start,
        start + 7 <= k,
        k <= s.len(),
        k <= t.len(),
        s.take(k) == t.take(k),
        settled(s, marker, start, p),
    ensures
        settled(t, marker, start, p),
{
    lemma_marker_characters(marker);
    let n = marker.len();
    if token_end(s, p + n) <= start && (no_token(s, n, p) || token_replaced(s, n, p)) {
        lemma_token_end(s, p + n);
        lemma_token_end_common(s, t, k, p + n);
        let to = token_end(s, p + n);
        assert(s.subrange(p + n, to) =~= s.take(k).subrange(p + n, to));
        assert(t.subrange(p + n, to) =~= t.take(k).subrange(p + n, to));
    } else {
        let q = choose|q: int| #[trigger]
            shadows(s, marker, q, p) && token_end(s, q + n) <= start;
        lemma_token_end_common(s, t, k, q + n);
        lemma_occurs_common(s, t, k, marker, q);
        assert(s.subrange(q + n, p) =~= s.take(k).subrange(q + n, p));
        assert(t.subrange(q + n, p) =~= t.take(k).subrange(q + n, p));
        assert(shadows(t, marker, q, p));
    }
}

/// Each position before the one that `n` bytes lead to is less than `n` bytes away.
proof fn lemma_bytes_on_distance(s: Seq<char>, i: int, n: int, p: int)
    requires
        0 <= i <= p,
        bytes_on(s, i, n) matches Some(next) && p < next <= s.len(),
    ensures
        byte_size(s.subrange(i, p)) < n,
    decreases n,
{
    if p > i {
        lemma_bytes_on_distance(s, i + 1, n - width(s[i]), p);
        assert(s.subrange(i, p) =~= seq![s[i]] + s.subrange(i + 1, p));
        lemma_byte_size_concat(seq![s[i]], s.subrange(i + 1, p));
        assert(seq![s[i]].drop_first() =~= Seq::<char>::empty());
        assert(byte_size(seq![s[i]]) == width(s[i])) by {
            reveal_with_fuel(vstd::utf8::encode_utf8, 2);
            assert(vstd::utf8::encode_utf8(seq![s[i]]) =~= vstd::utf8::encode_scalar(s[i] as u32));
        }
    } else {
        assert(s.subrange(i, p) =~= Seq::<char>::empty());
    }
}

/// From where all before `start` is settled, the search covers every marker.
proof fn lemma_search_covers(s: Seq<char>, marker: Seq<char>, start: int)
    requires
        is_bearer_marker(marker),
        0 <= start <= s.len(),
        forall|p: int|
            0 <= p < start && #[trigger] occurs_at(s, marker, p) ==> settled(s, marker, start, p),
    ensures
        tokens_replaced(s, marker, start) matches Some(t) ==> forall|p: int| #[trigger]
            occurs_at(t, marker, p) ==> is_covered(t, marker, p),
    decreases s.len() - start,
{
    lemma_marker_characters(marker);
    lemma_next_occurrence(s, marker, start);
    lemma_scan_goes_on(s, marker, start);
    match next_occurrence(s, marker, start) {
        None => {
            assert forall|p: int| #[trigger] occurs_at(s, marker, p) implies is_covered(
                s,
                marker,
                p,
            ) by {
                assert(settled(s, marker, start, p));
            }
        },
        Some(at) => {
            let from = at + 7;
            let to = token_end(s, from);
            lemma_token_end(s, from);
            if to > from {
                let t = with_token_replaced(s, from, to);
                assert(t.take(from) =~= s.take(from));
                assert(t.subrange(from, from + 10) =~= REDACTED@);
                assert(token_end(t, from) == from + 10) by {
                    lemma_replacement_ends(s, from, to, from);
                }
                assert forall|p: int| 0 <= p < from + 10 && #[trigger]
                    occurs_at(t, marker, p) implies settled(t, marker, from + 10, p) by {
                    assert(t.subrange(p, p + 7)[0] == marker[0]);
                    if p > at {
                        if p < from {
                            assert(s.subrange(at, from)[p - at] == marker[p - at]);
                            assert(t[p] == t.take(from)[p]);
                            assert(s[p] == s.take(from)[p]);
                            assert(false);
                        } else {
                            assert(t[p] == REDACTED@[p - from]);
                            assert(false);
                        }
                    } else if p < at {
                        lemma_occurs_common(s, t, from, marker, p);
                        assert(p < start);
                        lemma_settled_common(s, t, from, marker, start, p);
                        lemma_settled_later(t, marker, start, from + 10, p);
                    }
                }
                lemma_search_covers(t, marker, from + 10);
            } else {
                lemma_bytes_on(s, from, 10);
                if let Some(next) = bytes_on(s, from, 10) {
                    assert forall|p: int| 0 <= p < next && #[trigger]
                        occurs_at(s, marker, p) implies settled(s, marker, next, p) by {
                        if p < start {
                            lemma_settled_later(s, marker, start, next, p);
                        } else if p >= from {
                            lemma_bytes_on_distance(s, from, 10, p);
                            assert(shadows(s, marker, at, p));
                        } else if p > at {
                            assert(s.subrange(p, p + 7)[0] == marker[0]);
                            assert(s.subrange(at, from)[p - at] == marker[p - at]);
                        }
                    }
                    lemma_search_covers(s, marker, next);
                }
            }
        },
    }
}

/// What is settled for a position is settled for a later one.
proof fn lemma_settled_later(s: Seq<char>, marker: Seq<char>, start: int, later: int, p: int)
    requires
        settled(s, marker, start, p),
        start <= later,
    ensures
        settled(s, marker, later, p),
{
    let n = marker.len();
    if !(token_end(s, p + n) <= start && (no_token(s, n, p) || token_replaced(s, n, p))) {
        let q = choose|q: int| #[trigger]
            shadows(s, marker, q, p) && token_end(s, q + n) <= start;
        assert(shadows(s, marker, q, p) && token_end(s, q + n) <= later);
    }
}

/// A replacement is a token: it ends where it was put in.
proof fn lemma_replacement_ends(s: Seq<char>, from: int, to: int, i: int)
    requires
        0 <= from < to <= s.len(),
        to < s.len() ==> ends_token(s[to]),
        from <= i <= from + REDACTED@.len(),
        forall|k: int| 0 <= k < REDACTED@.len() ==> !ends_token(#[trigger] REDACTED@[k]),
    ensures
        token_end(with_token_replaced(s, from, to), i) == from + REDACTED@.len(),
    decreases from + REDACTED@.len() - i,
{
    let t = with_token_replaced(s, from, to);
    if i < from + REDACTED@.len() {
        assert(t[i] == REDACTED@[i - from]);
        lemma_replacement_ends(s, from, to, i + 1);
    } else if to < s.len() {
        assert(t[i] == s[to]);
    }
}

/// Behind each marker that the result of a search holds there is the replacement, or no token, or
/// it stands in the shadow of a marker that no token follows.
pub proof fn law_tokens_are_covered(s: Seq<char>, marker: Seq<char>)
    requires
        is_bearer_marker(marker),
    ensures
        tokens_replaced(s, marker, 0) matches Some(t) ==> forall|p: int| #[trigger]
            occurs_at(t, marker, p) ==> is_covered(t, marker, p),
{
    lemma_search_covers(s, marker, 0);
}

/// Behind each marker in `s` there is a token.
pub open spec fn each_marker_has_token(s: Seq<char>) -> bool {
    forall|marker: Seq<char>, p: int|
        is_bearer_marker(marker) && #[trigger] occurs_at(s, marker, p) ==> !no_token(
            s,
            marker.len(),
            p,
        )
}

/// Behind each `marker` in `s` there is the replacement.
pub open spec fn each_token_replaced(s: Seq<char>, marker: Seq<char>) -> bool {
    forall|p: int| #[trigger]
        occurs_at(s, marker, p) ==> token_replaced(s, marker.len(), p)
}

/// A token ends at the latest at a character that ends tokens.
proof fn lemma_token_end_bound(s: Seq<char>, i: int, j: int)
    requires
        0 <= i <= j < s.len(),
        ends_token(s[j]),
    ensures
        token_end(s, i) <= j,
    decreases j - i,
{
    if i < j && !ends_token(s[i]) {
        lemma_token_end_bound(s, i + 1, j);
    }
}

/// In two texts that go on alike, tokens end alike.
proof fn lemma_token_end_shift(s: Seq<char>, t: Seq<char>, i: int, j: int)
    requires
        0 <= i <= s.len(),
        0 <= j <= t.len(),
        s.skip(i) == t.skip(j),
    ensures
        token_end(t, j) - j == token_end(s, i) - i,
    decreases s.len() - i,
{
    let tail = s.skip(i);
    assert(tail.len() == s.len() - i && tail.len() == t.len() - j);
    if i < s.len() {
        assert(tail[0] == s[i] && tail[0] == t[j]);
        if !ends_token(s[i]) {
            assert(s.skip(i + 1) =~= s.skip(i).skip(1));
            assert(t.skip(j + 1) =~= t.skip(j).skip(1));
            lemma_token_end_shift(s, t, i + 1, j + 1);
        }
    }
}

/// Where the marker that stands in a text at `p` stood before the token `s[from..to]` was
/// replaced.
spec fn place_before(p: int, from: int, to: int) -> int {
    if p < from {
        p
    } else {
        p - (from + REDACTED@.len()) + to
    }
}

/// Replacing a token makes no new markers, and leaves what stands behind the other ones.
proof fn lemma_replacing_keeps_markers(
    s: Seq<char>,
    marker: Seq<char>,
    from: int,
    other: Seq<char>,
    p: int,
)
    requires
        is_bearer_marker(marker),
        is_bearer_marker(other),
        occurs_at(s, marker, from - 7),
        token_end(s, from) > from,
        occurs_at(with_token_replaced(s, from, token_end(s, from)), other, p),
    ensures
        ({
            let to = token_end(s, from);
            let t = with_token_replaced(s, from, to);
            let q = place_before(p, from, to);
            &&& occurs_at(s, other, q)
            &&& p == from - 7 ==> other == marker
            &&& p != from - 7 ==> (p + 7 < from || p >= from + 10) && no_token(t, 7, p) == no_token(
                s,
                7,
                q,
            ) && (token_replaced(s, 7, q) ==> token_replaced(t, 7, p))
        }),
{
    reveal_strlit("[redacted]");
    reveal_strlit("Bearer ");
    reveal_strlit("bearer ");
    let to = token_end(s, from);
    let t = with_token_replaced(s, from, to);
    lemma_token_end(s, from);
    lemma_marker_characters(marker);
    lemma_marker_characters(other);
    assert(t.take(from) =~= s.take(from));
    assert(t.subrange(from, from + 10) =~= REDACTED@);
    assert(t.skip(from + 10) =~= s.skip(to));
    assert(t.subrange(p, p + 7)[0] == other[0]);
    assert(t[p] == other[0]);
    if p < from {
        assert(t[p] == t.take(from)[p]);
        assert(s[p] == s.take(from)[p]);
        if p >= from - 7 {
            assert(s.subrange(from - 7, from)[p - (from - 7)] == marker[p - (from - 7)]);
            assert(p == from - 7);
            assert(s.subrange(from - 7, from) =~= t.subrange(from - 7, from)) by {
                assert(s.subrange(from - 7, from) =~= s.take(from).subrange(from - 7, from));
                assert(t.subrange(from - 7, from) =~= t.take(from).subrange(from - 7, from));
            }
        } else {
            lemma_occurs_common(s, t, from, other, p);
            assert(s.subrange(from - 7, from)[6] == marker[6]);
            assert(ends_token(s[from - 1]));
            lemma_token_end_bound(s, p + 7, from - 1);
            lemma_token_end(s, p + 7);
            lemma_token_end_common(s, t, from, p + 7);
            let end = token_end(s, p + 7);
            assert(s.subrange(p + 7, end) =~= s.take(from).subrange(p + 7, end));
            assert(t.subrange(p + 7, end) =~= t.take(from).subrange(p + 7, end));
        }
    } else {
        if p < from + 10 {
            assert(t[p] == REDACTED@[p - from]);
            assert(false);
        }
        let q = place_before(p, from, to);
        assert(t.subrange(p, p + 7) =~= t.skip(from + 10).subrange(
            p - (from + 10),
            p - (from + 10) + 7,
        ));
        assert(s.subrange(q, q + 7) =~= s.skip(to).subrange(q - to, q - to + 7));
        assert(s.skip(q + 7) =~= s.skip(to).skip(q + 7 - to));
        assert(t.skip(p + 7) =~= t.skip(from + 10).skip(p + 7 - (from + 10)));
        lemma_token_end_shift(s, t, q + 7, p + 7);
        lemma_token_end(s, q + 7);
        let end = token_end(s, q + 7);
        assert(s.subrange(q + 7, end) =~= s.skip(q + 7).subrange(0, end - (q + 7)));
        assert(t.subrange(p + 7, end - q + p) =~= t.skip(p + 7).subrange(0, end - (q + 7)));
    }
}

/// In a text in which each marker has a token, a search replaces every one behind its marker,
/// and leaves the markers with tokens and the tokens that were replaced before.
proof fn lemma_search_replaces(s: Seq<char>, marker: Seq<char>, start: int, other: Seq<char>)
    requires
        is_bearer_marker(marker),
        is_bearer_marker(other),
        0 <= start <= s.len(),
        each_marker_has_token(s),
        forall|p: int|
            0 <= p < start && #[trigger] occurs_at(s, marker, p) ==> token_replaced(s, 7, p),
    ensures
        tokens_replaced(s, marker, start) matches Some(t) && each_marker_has_token(t)
            && each_token_replaced(t, marker) && (each_token_replaced(s, other) ==> each_token_replaced(t, other)),
    decreases s.len() - start,
{
    lemma_marker_characters(marker);
    lemma_next_occurrence(s, marker, start);
    lemma_scan_goes_on(s, marker, start);
    match next_occurrence(s, marker, start) {
        None => {},
        Some(at) => {
            let from = at + 7;
            let to = token_end(s, from);
            lemma_token_end(s, from);
            assert(!no_token(s, 7, at));
            let t = with_token_replaced(s, from, to);
            assert(t.subrange(from, from + 10) =~= REDACTED@);
            lemma_replacement_ends(s, from, to, from);
            assert forall|m: Seq<char>, p: int|
                is_bearer_marker(m) && #[trigger] occurs_at(t, m, p) implies !no_token(
                t,
                m.len(),
                p,
            ) by {
                lemma_marker_characters(m);
                lemma_replacing_keeps_markers(s, marker, from, m, p);
            }
            assert forall|p: int| 0 <= p < from + 10 && #[trigger]
                occurs_at(t, marker, p) implies token_replaced(t, 7, p) by {
                lemma_replacing_keeps_markers(s, marker, from, marker, p);
            }
            if each_token_replaced(s, other) {
                lemma_marker_characters(other);
                assert forall|p: int| #[trigger] occurs_at(t, other, p) implies token_replaced(
                    t,
                    other.len(),
                    p,
                ) by {
                    lemma_replacing_keeps_markers(s, marker, from, other, p);
                }
            }
            lemma_search_replaces(t, marker, from + 10, other);
        },
    }
}

/// A text in which each marker has a token can be redacted, and of the redacted text every
/// marker, in either spelling, is followed by the replacement.
pub proof fn law_tokens_are_replaced(s: Seq<char>)
    requires
        each_marker_has_token(s),
    ensures
        bearer_tokens_replaced(s) matches Some(t) && each_token_replaced(t, BEARER_UPPER@)
            && each_token_replaced(t, BEARER_LOWER@),
{
    lemma_search_replaces(s, BEARER_UPPER@, 0, BEARER_UPPER@);
    let t = tokens_replaced(s, BEARER_UPPER@, 0).unwrap();
    lemma_search_replaces(t, BEARER_LOWER@, 0, BEARER_UPPER@);
}

/// No token stands in the shadow of a marker that no token follows.
pub open spec fn no_token_in_shadow(s: Seq<char>) -> bool {
    forall|marker: Seq<char>, p: int|
        is_bearer_marker(marker) && #[trigger] occurs_at(s, marker, p) && in_shadow(s, marker, p)
            ==> no_token(s, marker.len(), p)
}

/// Behind each `marker` in `s` there is the replacement, or no token.
pub open spec fn no_token_left(s: Seq<char>, marker: Seq<char>) -> bool {
    forall|p: int| #[trigger]
        occurs_at(s, marker, p) ==> no_token(s, marker.len(), p) || token_replaced(
            s,
            marker.len(),
            p,
        )
}

/// Replacing a token puts no other token into a shadow.
proof fn lemma_replacing_keeps_shadows(
    s: Seq<char>,
    marker: Seq<char>,
    from: int,
    other: Seq<char>,
    p: int,
)
    requires
        is_bearer_marker(marker),
        is_bearer_marker(other),
        occurs_at(s, marker, from - 7),
        token_end(s, from) > from,
        occurs_at(with_token_replaced(s, from, token_end(s, from)), other, p),
        in_shadow(with_token_replaced(s, from, token_end(s, from)), other, p),
        no_token_in_shadow(s),
    ensures
        no_token(with_token_replaced(s, from, token_end(s, from)), 7, p),
{
    let to = token_end(s, from);
    let t = with_token_replaced(s, from, to);
    lemma_token_end(s, from);
    lemma_marker_characters(marker);
    lemma_marker_characters(other);
    lemma_replacing_keeps_markers(s, marker, from, other, p);
    lemma_replacement_ends(s, from, to, from);
    let q = choose|q: int| #[trigger] shadows(t, other, q, p);
    lemma_replacing_keeps_markers(s, marker, from, other, q);
    assert(q != from - 7);
    let old_p = place_before(p, from, to);
    let old_q = place_before(q, from, to);
    assert(t.take(from) =~= s.take(from));
    assert(t.skip(from + 10) =~= s.skip(to));
    if q < from && p >= from + 10 {
        lemma_byte_size_bounds(t.subrange(q + 7, p));
        assert(false);
    } else if q < from {
        assert(t.subrange(q + 7, p) =~= t.take(from).subrange(q + 7, p));
        assert(s.subrange(q + 7, p) =~= s.take(from).subrange(q + 7, p));
    } else {
        let base = from + 10;
        assert(t.subrange(q + 7, p) =~= t.skip(base).subrange(q + 7 - base, p - base));
        assert(s.subrange(old_q + 7, old_p) =~= s.skip(to).subrange(old_q + 7 - to, old_p - to));
    }
    assert(shadows(s, other, old_q, old_p));
    assert(no_token(s, 7, old_p));
}

/// In a text in which no token stands in a shadow, a search leaves no token behind its marker, and
/// none behind another marker where none was left before.
proof fn lemma_search_clears(s: Seq<char>, marker: Seq<char>, start: int, other: Seq<char>)
    requires
        is_bearer_marker(marker),
        is_bearer_marker(other),
        0 <= start <= s.len(),
        no_token_in_shadow(s),
        forall|p: int|
            0 <= p < start && #[trigger] occurs_at(s, marker, p) ==> no_token(s, 7, p)
                || token_replaced(s, 7, p),
    ensures
        tokens_replaced(s, marker, start) matches Some(t) ==> no_token_in_shadow(t)
            && no_token_left(t, marker) && (no_token_left(s, other) ==> no_token_left(t, other)),
    decreases s.len() - start,
{
    lemma_marker_characters(marker);
    lemma_marker_characters(other);
    lemma_next_occurrence(s, marker, start);
    lemma_scan_goes_on(s, marker, start);
    match next_occurrence(s, marker, start) {
        None => {},
        Some(at) => {
            let from = at + 7;
            let to = token_end(s, from);
            lemma_token_end(s, from);
            if to > from {
                let t = with_token_replaced(s, from, to);
                assert(t.subrange(from, from + 10) =~= REDACTED@);
                lemma_replacement_ends(s, from, to, from);
                assert forall|m: Seq<char>, p: int|
                    is_bearer_marker(m) && #[trigger] occurs_at(t, m, p) && in_shadow(
                        t,
                        m,
                        p,
                    ) implies no_token(t, m.len(), p) by {
                    lemma_marker_characters(m);
                    lemma_replacing_keeps_shadows(s, marker, from, m, p);
                }
                assert forall|p: int| 0 <= p < from + 10 && #[trigger]
                    occurs_at(t, marker, p) implies no_token(t, 7, p) || token_replaced(t, 7, p) by {
                    lemma_replacing_keeps_markers(s, marker, from, marker, p);
                }
                if no_token_left(s, other) {
                    assert forall|p: int| #[trigger] occurs_at(t, other, p) implies no_token(
                        t,
                        other.len(),
                        p,
                    ) || token_replaced(t, other.len(), p) by {
                        lemma_replacing_keeps_markers(s, marker, from, other, p);
                    }
                }
                lemma_search_clears(t, marker, from + 10, other);
            } else {
                lemma_bytes_on(s, from, 10);
                if let Some(next) = bytes_on(s, from, 10) {
                    assert forall|p: int| 0 <= p < next && #[trigger]
                        occurs_at(s, marker, p) implies no_token(s, 7, p) || token_replaced(
                        s,
                        7,
                        p,
                    ) by {
                        if p >= from {
                            lemma_bytes_on_distance(s, from, 10, p);
                            assert(shadows(s, marker, at, p));
                            assert(in_shadow(s, marker, p));
                        } else if p > at {
                            assert(s.subrange(p, p + 7)[0] == marker[0]);
                            assert(s.subrange(at, from)[p - at] == marker[p - at]);
                        }
                    }
                    lemma_search_clears(s, marker, next, other);
                }
            }
        },
    }
}

/// Of a text that can be redacted, the redacted text shows no token behind a marker, in either
/// spelling. The search passes over what follows a marker without a token, as far as a replacement
/// would have reached, so no token may stand there.
pub proof fn law_no_token_is_left(s: Seq<char>)
    requires
        bearer_tokens_replaced(s) is Some,
        no_token_in_shadow(s),
    ensures
        no_token_left(bearer_tokens_replaced(s).unwrap(), BEARER_UPPER@),
        no_token_left(bearer_tokens_replaced(s).unwrap(), BEARER_LOWER@),
{
    lemma_search_clears(s, BEARER_UPPER@, 0, BEARER_UPPER@);
    let t = tokens_replaced(s, BEARER_UPPER@, 0).unwrap();
    lemma_search_clears(t, BEARER_LOWER@, 0, BEARER_UPPER@);
}

/// Whether `marker` stands in `s` at `i`.
fn marker_at(s: &Vec<char>, marker: &Vec<char>, i: usize) -> (r: bool)
    requires
        i + marker@.len() <= s@.len(),
    ensures
        r == occurs_at(s@, marker@, i as int),
{
    let total = s.len();
    let mut k: usize = 0;
    while k < marker.len()
        invariant
            k <= marker@.len(),
            total == s@.len(),
            i + marker@.len() <= s@.len(),
            forall|j: int| 0 <= j < k ==> s@[i + j] == #[trigger] marker@[j],
        decreases marker@.len() - k,
    {
        if s[i + k] != marker[k] {
            assert(s@.subrange(i as int, i + marker@.len())[k as int] != marker@[k as int]);
            return false;
        }
        k += 1;
    }
    assert(s@.subrange(i as int, i + marker@.len()) =~= marker@);
    true
}

/// The search of [`next_occurrence`].
fn find_marker(s: &Vec<char>, marker: &Vec<char>, start: usize) -> (r: Option<usize>)
    requires
        start <= s@.len(),
    ensures
        match r {
            Some(at) => next_occurrence(s@, marker@, start as int) == Some(at as int),
            None => next_occurrence(s@, marker@, start as int) is None,
        },
{
    let mut i: usize = start;
    while i < s.len() && marker.len() <= s.len() - i
        invariant
            start <= i <= s@.len(),
            next_occurrence(s@, marker@, start as int) == next_occurrence(s@, marker@, i as int),
        decreases s@.len() - i,
    {
        if marker_at(s, marker, i) {
            return Some(i);
        }
        i += 1;
    }
    if marker.len() <= s.len() - i && marker_at(s, marker, i) {
        return Some(i);
    }
    None
}

/// The search of [`token_end`].
fn find_token_end(s: &Vec<char>, from: usize) -> (r: usize)
    requires
        from <= s@.len(),
    ensures
        r == token_end(s@, from as int),
        from <= r <= s@.len(),
{
    let mut i: usize = from;
    while i < s.len() && !(s[i].is_whitespace() || s[i] == '"' || s[i] == '\'' || s[i] == ','
        || s[i] == '}')
        invariant
            from <= i <= s@.len(),
            token_end(s@, from as int) == token_end(s@, i as int),
        decreases s@.len() - i,
    {
        i += 1;
    }
    i
}

/// The position of [`bytes_on`].
fn find_bytes_on(s: &Vec<char>, from: usize, n: usize) -> (r: Option<usize>)
    requires
        from <= s@.len(),
    ensures
        match r {
            Some(next) => bytes_on(s@, from as int, n as int) == Some(next as int) && next
                <= s@.len(),
            None => bytes_on(s@, from as int, n as int) is None,
        },
{
    let mut i: usize = from;
    let mut left: usize = n;
    while left > 0
        invariant
            i <= s@.len(),
            bytes_on(s@, from as int, n as int) == bytes_on(s@, i as int, left as int),
        decreases left,
    {
        if i >= s.len() {
            return None;
        }
        let w = char_width(s[i]);
        if w > left {
            return None;
        }
        i += 1;
        left -= w;
    }
    Some(i)
}

/// `s` with the token `s[from..to]` replaced.
fn replace_token(s: &Vec<char>, from: usize, to: usize) -> (r: Vec<char>)
    requires
        from <= to <= s@.len(),
    ensures
        r@ == with_token_replaced(s@, from as int, to as int),
{
    let mut out: Vec<char> = Vec::new();
    let mut i: usize = 0;
    while i < from
        invariant
            i <= from <= s@.len(),
            out@ == s@.take(i as int),
        decreases from - i,
    {
        out.push(s[i]);
        i += 1;
    }
    let mut mark = chars_of(REDACTED);
    out.append(&mut mark);
    let mut j: usize = to;
    while j < s.len()
        invariant
            from <= to <= j <= s@.len(),
            out@ == s@.take(from as int) + REDACTED@ + s@.subrange(to as int, j as int),
        decreases s@.len() - j,
    {
        out.push(s[j]);
        j += 1;
        assert(s@.subrange(to as int, j as int) =~= s@.subrange(to as int, j - 1).push(s@[j - 1]));
    }
    assert(s@.subrange(to as int, j as int) =~= s@.skip(to as int));
    out
}

/// Replaces every token behind `marker`.
fn replace_tokens(s: Vec<char>, marker: &str) -> (r: Option<Vec<char>>)
    ensures
        match r {
            Some(t) => tokens_replaced(s@, marker@, 0) == Some(t@),
            None => tokens_replaced(s@, marker@, 0) is None,
        },
{
    let marker_chars = chars_of(marker);
    let mut text: Vec<char> = s;
    let mut start: usize = 0;
    loop
        invariant
            marker_chars@ == marker@,
            start <= text@.len(),
            tokens_replaced(s@, marker@, 0) == tokens_replaced(text@, marker@, start as int),
        decreases text@.len() - start,
    {
        proof {
            lemma_scan_goes_on(text@, marker@, start as int);
        }
        match find_marker(&text, &marker_chars, start) {
            None => {
                return Some(text);
            },
            Some(at) => {
                let total = text.len();
                assert(at + marker_chars@.len() <= total);
                let from = at + marker_chars.len();
                let to = find_token_end(&text, from);
                if to > from {
                    let next = replace_token(&text, from, to);
                    let total = next.len();
                    proof {
                        reveal_strlit("[redacted]");
                        assert(from + REDACTED@.len() <= total);
                    }
                    start = from + 10;
                    text = next;
                } else {
                    proof {
                        reveal_strlit("[redacted]");
                    }
                    match find_bytes_on(&text, from, 10) {
                        Some(next) => {
                            start = next;
                        },
                        None => {
                            return None;
                        },
                    }
                }
            },
        }
    }
}

/// The text `value` with its bearer tokens replaced; nothing where a search leaves the text.
pub fn try_redact_text(value: &str) -> (r: Option<String>)
    ensures
        match r {
            Some(t) => bearer_tokens_replaced(value@) == Some(t@),
            None => bearer_tokens_replaced(value@) is None,
        },
{
    match replace_tokens(chars_of(value), BEARER_UPPER) {
        None => None,
        Some(first) => match replace_tokens(first, BEARER_LOWER) {
            None => None,
            Some(second) => {
                assert(second@.subrange(0, second@.len() as int) =~= second@);
                Some(string_of(&second, 0, second.len()))
            },
        },
    }
}

/// The text `value` with its bearer tokens replaced.
pub fn redact_text(value: &str) -> (r: String)
    requires
        bearer_tokens_replaced(value@) is Some,
    ensures
        bearer_tokens_replaced(value@) == Some(r@),
{
    try_redact_text(value).unwrap()
}

/// A token ends at white space, at a quotation mark, at a comma and at a closing brace, and at
/// nothing else.
pub proof fn law_what_ends_a_token(c: char)
    ensures
        ends_token(c) <==> crate::text::is_white_space(c) || c == '"' || c == '\'' || c == ',' || c
            == '}',
        !ends_token('.') && !ends_token('-') && !ends_token('_') && !ends_token('=') && !ends_token(
            '/',
        ),
{
}

/// The replacement and the two markers are these words.
pub proof fn law_markers_and_replacement(marker: Seq<char>)
    ensures
        REDACTED@ == "[redacted]"@,
        is_bearer_marker(marker) <==> marker == "Bearer "@ || marker == "bearer "@,
        BEARER_UPPER@ == "Bearer "@,
        BEARER_LOWER@ == "bearer "@,
{
}

/// A text in which neither marker stands is left as it is.
pub proof fn law_text_without_markers_stays(s: Seq<char>)
    requires
        forall|i: int| 0 <= i && i + 7 <= s.len() ==> #[trigger] s.subrange(i, i + 7) != "Bearer "@,
        forall|i: int| 0 <= i && i + 7 <= s.len() ==> #[trigger] s.subrange(i, i + 7) != "bearer "@,
    ensures
        bearer_tokens_replaced(s) == Some(s),
{
    reveal_strlit("Bearer ");
    reveal_strlit("bearer ");
    lemma_next_occurrence(s, BEARER_UPPER@, 0);
    lemma_next_occurrence(s, BEARER_LOWER@, 0);
    if next_occurrence(s, BEARER_UPPER@, 0) is Some {
        let at = next_occurrence(s, BEARER_UPPER@, 0)->0;
        assert(s.subrange(at, at + 7) == "Bearer "@);
    }
    if next_occurrence(s, BEARER_LOWER@, 0) is Some {
        let at = next_occurrence(s, BEARER_LOWER@, 0)->0;
        assert(s.subrange(at, at + 7) == "bearer "@);
    }
}

/// A token that goes on until something ends it ends there.
proof fn lemma_token_end_is(s: Seq<char>, from: int, to: int)
    requires
        0 <= from <= to <= s.len(),
        forall|i: int| from <= i < to ==> !ends_token(#[trigger] s[i]),
        to < s.len() ==> ends_token(s[to]),
    ensures
        token_end(s, from) == to,
    decreases to - from,
{
    if from < to {
        lemma_token_end_is(s, from + 1, to);
    }
}

/// What stands behind the first marker, up to white space, a quotation mark, a comma or a closing
/// brace, gives way to the replacement; all before and behind it stays, and the search goes on
/// behind the replacement.
pub proof fn law_token_gives_way(s: Seq<char>, marker: Seq<char>, start: int, at: int, to: int)
    requires
        0 <= start <= at,
        at + marker.len() < to <= s.len(),
        s.subrange(at, at + marker.len()) == marker,
        forall|k: int|
            start <= k < at ==> #[trigger] s.subrange(k, k + marker.len()) != marker,
        forall|i: int|
            at + marker.len() <= i < to ==> !crate::text::is_white_space(#[trigger] s[i]) && s[i]
                != '"' && s[i] != '\'' && s[i] != ',' && s[i] != '}',
        to < s.len() ==> crate::text::is_white_space(s[to]) || s[to] == '"' || s[to] == '\''
            || s[to] == ',' || s[to] == '}',
    ensures
        ({
            let replaced = s.subrange(0, at + marker.len()) + "[redacted]"@ + s.subrange(
                to,
                s.len() as int,
            );
            tokens_replaced(s, marker, start) == tokens_replaced(
                replaced,
                marker,
                at + marker.len() + "[redacted]"@.len(),
            )
        }),
{
    let from = at + marker.len();
    lemma_next_occurrence(s, marker, start);
    assert(occurs_at(s, marker, at));
    assert(next_occurrence(s, marker, start) == Some(at)) by {
        match next_occurrence(s, marker, start) {
            Some(found) => {
                if found < at {
                    assert(s.subrange(found, found + marker.len()) != marker);
                }
                if at < found {
                    assert(!occurs_at(s, marker, at));
                }
            },
            None => {
                assert(!occurs_at(s, marker, at));
            },
        }
    }
    lemma_token_end_is(s, from, to);
    assert(s.take(from) =~= s.subrange(0, from));
    assert(s.skip(to) =~= s.subrange(to, s.len() as int));
}

/// Both markers are searched for, the one with a capital first, each from the front of the text.
pub proof fn law_both_markers_are_searched(s: Seq<char>)
    ensures
        tokens_replaced(s, "Bearer "@, 0) is None ==> bearer_tokens_replaced(s) is None,
        tokens_replaced(s, "Bearer "@, 0) is Some ==> bearer_tokens_replaced(s)
            == tokens_replaced(tokens_replaced(s, "Bearer "@, 0)->0, "bearer "@, 0),
{
}

/// The position that `n` bytes lead to is the one that is `n` bytes away.
proof fn lemma_bytes_on_exact(s: Seq<char>, i: int, n: int, p: int)
    requires
        0 <= i <= p <= s.len(),
        n >= 0,
    ensures
        bytes_on(s, i, n) == Some(p) <==> byte_size(s.subrange(i, p)) == n,
    decreases p - i,
{
    if p == i {
        assert(s.subrange(i, p) =~= Seq::<char>::empty());
        lemma_bytes_on(s, i, n);
    } else {
        let rest = s.subrange(i + 1, p);
        assert(s.subrange(i, p) =~= seq![s[i]] + rest);
        lemma_byte_size_concat(seq![s[i]], rest);
        assert(byte_size(seq![s[i]]) == width(s[i])) by {
            reveal_with_fuel(vstd::utf8::encode_utf8, 2);
            assert(seq![s[i]].drop_first() =~= Seq::<char>::empty());
            assert(vstd::utf8::encode_utf8(seq![s[i]]) =~= vstd::utf8::encode_scalar(s[i] as u32));
        }
        lemma_byte_size_bounds(seq![s[i]]);
        if n > 0 && width(s[i]) <= n {
            lemma_bytes_on_exact(s, i + 1, n - width(s[i]), p);
        }
    }
}

/// Behind the first marker that no token follows, the search goes on ten bytes further, and nothing
/// is replaced; where the text has no position ten bytes further, there is no result.
pub proof fn law_marker_without_token_is_passed(
    s: Seq<char>,
    marker: Seq<char>,
    start: int,
    at: int,
    next: int,
)
    requires
        0 <= start <= at,
        at + marker.len() <= s.len(),
        s.subrange(at, at + marker.len()) == marker,
        forall|k: int|
            start <= k < at ==> #[trigger] s.subrange(k, k + marker.len()) != marker,
        at + marker.len() < s.len() ==> ({
            let c = s[at + marker.len()];
            crate::text::is_white_space(c) || c == '"' || c == '\'' || c == ',' || c == '}'
        }),
    ensures
        at + marker.len() <= next <= s.len() && byte_size(s.subrange(at + marker.len(), next))
            == 10 ==> tokens_replaced(s, marker, start) == tokens_replaced(s, marker, next),
        (forall|p: int|
            at + marker.len() <= p <= s.len() ==> byte_size(
                #[trigger] s.subrange(at + marker.len(), p),
            ) != 10) ==> tokens_replaced(s, marker, start) is None,
{
    reveal_strlit("[redacted]");
    let from = at + marker.len();
    lemma_next_occurrence(s, marker, start);
    assert(occurs_at(s, marker, at));
    assert(next_occurrence(s, marker, start) == Some(at)) by {
        match next_occurrence(s, marker, start) {
            Some(found) => {
                if found < at {
                    assert(s.subrange(found, found + marker.len()) != marker);
                }
                if at < found {
                    assert(!occurs_at(s, marker, at));
                }
            },
            None => {
                assert(!occurs_at(s, marker, at));
            },
        }
    }
    lemma_token_end_is(s, from, from);
    lemma_bytes_on(s, from, 10);
    if from <= next <= s.len() {
        lemma_bytes_on_exact(s, from, 10, next);
    }
    match bytes_on(s, from, 10) {
        Some(p) => {
            lemma_bytes_on_exact(s, from, 10, p);
        },
        None => {},
    }
}

} // verus!
