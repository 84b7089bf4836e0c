//! Incremental text merge for streamed deltas.
//!
//! Some transports emit text fragments that are sometimes full replacements,
//! sometimes pure deltas and sometimes overlapping re-sends (for example a
//! retransmission after a reconnect). The merge below reconstructs one
//! growing, de-duplicated text out of such fragments, without requiring
//! sequence numbers from the transport.

use vstd::prelude::*;

verus! {

/// Whether the last `k` characters of `existing` equal the first `k`
/// characters of `incoming`.
pub open spec fn overlap_at(existing: Seq<char>, incoming: Seq<char>, k: int) -> bool {
    existing.skip(existing.len() - k) == incoming.take(k)
}

/// The largest `j` with `1 <= j <= k` such that the last `j` characters of
/// `existing` equal the first `j` characters of `incoming`, or `0` when there
/// is none.
pub open spec fn find_overlap(existing: Seq<char>, incoming: Seq<char>, k: int) -> int
    decreases k,
{
    if k <= 0 {
        0
    } else if overlap_at(existing, incoming, k) {
        k
    } else {
        find_overlap(existing, incoming, k - 1)
    }
}

/// The largest overlap length ever considered: a full overlap on either side
/// is already handled by the prefix rules of [`merge_spec`].
pub open spec fn max_overlap(existing: Seq<char>, incoming: Seq<char>) -> int {
    if existing.len() <= incoming.len() {
        existing.len() as int
    } else {
        incoming.len() as int
    }
}

/// What merging one incoming fragment into the existing text yields:
/// - an empty text is replaced by the fragment;
/// - a fragment extending the whole text replaces it;
/// - a fragment the text already starts with is discarded;
/// - otherwise only the part after the maximal overlap between the end of the
///   text and the start of the fragment is appended, the whole fragment when
///   no overlap exists.
pub open spec fn merge_spec(existing: Seq<char>, incoming: Seq<char>) -> Seq<char> {
    if existing.len() == 0 {
        incoming
    } else if existing.is_prefix_of(incoming) {
        incoming
    } else if incoming.is_prefix_of(existing) {
        existing
    } else {
        existing + incoming.skip(find_overlap(existing, incoming, max_overlap(existing, incoming)))
    }
}

/// Whether `prefix` is a prefix of `s`, decided over characters.
fn str_is_prefix_of(prefix: &str, s: &str) -> (r: bool)
    ensures
        r == prefix@.is_prefix_of(s@),
{
    let prefix_len = prefix.unicode_len();
    let s_len = s.unicode_len();
    if prefix_len > s_len {
        return false;
    }
    for j in 0..prefix_len
        invariant
            prefix_len == prefix@.len(),
            s_len == s@.len(),
            prefix_len <= s_len,
            forall|m: int| 0 <= m < j ==> prefix@[m] == s@[m],
    {
        if prefix.get_char(j) != s.get_char(j) {
            return false;
        }
    }
    proof {
        assert(prefix@ =~= s@.take(prefix@.len() as int));
    }
    true
}

/// Whether the last `k` characters of `existing` equal the first `k`
/// characters of `incoming`.
fn check_overlap_at(existing: &str, incoming: &str, k: usize) -> (r: bool)
    requires
        k <= existing@.len(),
        k <= incoming@.len(),
    ensures
        r == overlap_at(existing@, incoming@, k as int),
{
    let existing_len = existing.unicode_len();
    for j in 0..k
        invariant
            existing_len == existing@.len(),
            k <= existing@.len(),
            k <= incoming@.len(),
            forall|m: int| 0 <= m < j ==> existing@[existing@.len() - k + m] == incoming@[m],
    {
        if existing.get_char(existing_len - k + j) != incoming.get_char(j) {
            proof {
                assert(existing@.skip(existing@.len() - k)[j as int] != incoming@.take(k as int)[j as int]);
            }
            return false;
        }
    }
    proof {
        assert(existing@.skip(existing@.len() - k) =~= incoming@.take(k as int));
    }
    true
}

/// The maximal number of characters shared between the end of `existing` and
/// the start of `incoming`, scanning overlap lengths from longest to
/// shortest, always on character boundaries.
fn find_overlap_chars(existing: &str, incoming: &str) -> (r: usize)
    ensures
        r == find_overlap(existing@, incoming@, max_overlap(existing@, incoming@)),
{
    let existing_len = existing.unicode_len();
    let incoming_len = incoming.unicode_len();
    let max: usize = if existing_len <= incoming_len {
        existing_len
    } else {
        incoming_len
    };
    let mut k: usize = max;
    while k > 0
        invariant
            existing_len == existing@.len(),
            incoming_len == incoming@.len(),
            k <= max,
            max == max_overlap(existing@, incoming@),
            find_overlap(existing@, incoming@, max as int) == find_overlap(
                existing@,
                incoming@,
                k as int,
            ),
        decreases k,
    {
        if check_overlap_at(existing, incoming, k) {
            return k;
        }
        k = k - 1;
    }
    0
}

/// Merge one incoming streamed fragment into the text accumulated so far.
///
/// The accumulated text only ever grows: it stays a prefix of the merged
/// result, so feeding a stream of fragments through here yields a text whose
/// length never decreases.
pub fn merge_text_content(content: &mut String, incoming: &str)
    ensures
        final(content)@ == merge_spec(old(content)@, incoming@),
        old(content)@.is_prefix_of(final(content)@),
        old(content)@.len() <= final(content)@.len(),
{
    proof {
        lemma_merge_grows(old(content)@, incoming@);
    }
    if content.as_str().is_empty() {
        content.append(incoming);
        return;
    }
    if str_is_prefix_of(content.as_str(), incoming) {
        *content = incoming.to_owned();
        return;
    }
    if str_is_prefix_of(incoming, content.as_str()) {
        return;
    }
    let overlap = find_overlap_chars(content.as_str(), incoming);
    proof {
        lemma_find_overlap_bounds(content@, incoming@, max_overlap(content@, incoming@));
    }
    let tail = incoming.substring_char(overlap, incoming.unicode_len());
    content.append(tail);
}

/// The overlap found is never negative and never longer than either text.
proof fn lemma_find_overlap_bounds(existing: Seq<char>, incoming: Seq<char>, k: int)
    requires
        0 <= k <= existing.len(),
        k <= incoming.len(),
    ensures
        0 <= find_overlap(existing, incoming, k) <= k,
    decreases k,
{
    if k > 0 && !overlap_at(existing, incoming, k) {
        lemma_find_overlap_bounds(existing, incoming, k - 1);
    }
}

/// Merging never loses text: the existing text stays a prefix of the result,
/// so its length never decreases across any sequence of merges.
pub proof fn lemma_merge_grows(existing: Seq<char>, incoming: Seq<char>)
    ensures
        existing.is_prefix_of(merge_spec(existing, incoming)),
        existing.len() <= merge_spec(existing, incoming).len(),
{
    if existing.len() == 0 {
        assert(existing =~= merge_spec(existing, incoming).take(0));
    } else if existing.is_prefix_of(incoming) {
    } else if incoming.is_prefix_of(existing) {
        assert(existing =~= existing.take(existing.len() as int));
    } else {
        let k = find_overlap(existing, incoming, max_overlap(existing, incoming));
        lemma_find_overlap_bounds(existing, incoming, max_overlap(existing, incoming));
        assert(existing =~= (existing + incoming.skip(k)).take(existing.len() as int));
    }
}

/// Merging a non-empty text with itself leaves it unchanged.
pub proof fn lemma_merge_idempotent(s: Seq<char>)
    requires
        s.len() > 0,
    ensures
        merge_spec(s, s) == s,
{
    assert(s.is_prefix_of(s)) by {
        assert(s =~= s.take(s.len() as int));
    }
}

} // verus!
