//! Byte-level text primitives shared by the classifier and the wrapper:
//! whitespace trimming, line scanning, prefix and substring matching, and
//! brace counting. Snippets are byte-indexed UTF-8 text, so everything here
//! works on byte sequences.

use vstd::prelude::*;

verus! {

/// Whitespace bytes recognized when trimming a line: space, tab, line feed,
/// form feed, carriage return.
pub open spec fn is_space(b: u8) -> bool {
    b == 32u8 || b == 9u8 || b == 10u8 || b == 12u8 || b == 13u8
}

/// The sequence consists of whitespace bytes only (an empty sequence counts).
pub open spec fn ws_only(s: Seq<u8>) -> bool {
    forall|i: int| 0 <= i < s.len() ==> is_space(#[trigger] s[i])
}

/// Smallest index at or after `from` holding a non-whitespace byte, or
/// `s.len()` if every byte from `from` on is whitespace.
pub open spec fn first_non_space(s: Seq<u8>, from: int) -> int
    recommends
        0 <= from <= s.len(),
    decreases s.len() - from,
{
    if from < 0 || from >= s.len() {
        s.len() as int
    } else if !is_space(s[from]) {
        from
    } else {
        first_non_space(s, from + 1)
    }
}

pub proof fn lemma_first_non_space(s: Seq<u8>, from: int)
    requires
        0 <= from <= s.len(),
    ensures
        from <= first_non_space(s, from) <= s.len(),
        first_non_space(s, from) < s.len() ==> !is_space(s[first_non_space(s, from)]),
        forall|j: int| from <= j < first_non_space(s, from) ==> is_space(#[trigger] s[j]),
    decreases s.len() - from,
{
    if from < s.len() && is_space(s[from]) {
        lemma_first_non_space(s, from + 1);
    }
}

/// One past the largest index holding a non-whitespace byte, or 0 if the
/// sequence is whitespace only.
pub open spec fn after_last_non_space(s: Seq<u8>) -> int
    decreases s.len(),
{
    if s.len() == 0 {
        0
    } else if !is_space(s.last()) {
        s.len() as int
    } else {
        after_last_non_space(s.drop_last())
    }
}

pub proof fn lemma_after_last_non_space(s: Seq<u8>)
    ensures
        0 <= after_last_non_space(s) <= s.len(),
        after_last_non_space(s) > 0 ==> !is_space(s[after_last_non_space(s) - 1]),
        forall|j: int| after_last_non_space(s) <= j < s.len() ==> is_space(#[trigger] s[j]),
    decreases s.len(),
{
    if s.len() > 0 && is_space(s.last()) {
        lemma_after_last_non_space(s.drop_last());
        assert forall|j: int| after_last_non_space(s) <= j < s.len() implies is_space(
            #[trigger] s[j],
        ) by {
            if j < s.len() - 1 {
                assert(s.drop_last()[j] == s[j]);
            }
        }
    }
}

/// A line trimmed of leading and trailing whitespace.
pub open spec fn trimmed(s: Seq<u8>) -> Seq<u8> {
    let lo = first_non_space(s, 0);
    let hi = after_last_non_space(s);
    if lo <= hi {
        s.subrange(lo, hi)
    } else {
        Seq::empty()
    }
}

/// A whitespace-only sequence trims to nothing, and vice versa.
pub proof fn lemma_trimmed_empty_iff_ws_only(s: Seq<u8>)
    ensures
        trimmed(s).len() == 0 <==> ws_only(s),
{
    lemma_first_non_space(s, 0);
    lemma_after_last_non_space(s);
    let lo = first_non_space(s, 0);
    let hi = after_last_non_space(s);
    if ws_only(s) {
        assert(lo == s.len());
        assert(hi == 0);
    } else {
        let j = choose|j: int| 0 <= j < s.len() && !is_space(#[trigger] s[j]);
        assert(lo <= j);
        assert(j < hi);
    }
}

/// The bytes of `p` occur in `s` starting at index `i`.
pub open spec fn matches_at(s: Seq<u8>, p: Seq<u8>, i: int) -> bool {
    0 <= i && i + p.len() <= s.len() && forall|j: int|
        0 <= j < p.len() ==> s[i + j] == #[trigger] p[j]
}

/// `p` is a prefix of `s`.
pub open spec fn starts_with(s: Seq<u8>, p: Seq<u8>) -> bool {
    matches_at(s, p, 0)
}

/// The bytes of `p` occur somewhere in `s`.
pub open spec fn contains_seq(s: Seq<u8>, p: Seq<u8>) -> bool {
    exists|i: int| #[trigger] matches_at(s, p, i)
}

/// Index of the next line feed at or after `from`, or `s.len()` if the rest
/// of the text is the final, unterminated line.
pub open spec fn line_end(s: Seq<u8>, from: int) -> int
    recommends
        0 <= from <= s.len(),
    decreases s.len() - from,
{
    if from < 0 || from >= s.len() {
        s.len() as int
    } else if s[from] == 10u8 {
        from
    } else {
        line_end(s, from + 1)
    }
}

pub proof fn lemma_line_end(s: Seq<u8>, from: int)
    requires
        0 <= from <= s.len(),
    ensures
        from <= line_end(s, from) <= s.len(),
        line_end(s, from) < s.len() ==> s[line_end(s, from)] == 10u8,
        forall|j: int| from <= j < line_end(s, from) ==> s[j] != 10u8,
    decreases s.len() - from,
{
    if from < s.len() && s[from] != 10u8 {
        lemma_line_end(s, from + 1);
    }
}

/// Occurrences of the byte `b` in `s`.
pub open spec fn count_byte(s: Seq<u8>, b: u8) -> int
    decreases s.len(),
{
    if s.len() == 0 {
        0int
    } else {
        count_byte(s.drop_last(), b) + if s.last() == b {
            1int
        } else {
            0int
        }
    }
}

pub proof fn lemma_count_byte_bounds(s: Seq<u8>, b: u8)
    ensures
        0 <= count_byte(s, b) <= s.len(),
    decreases s.len(),
{
    if s.len() > 0 {
        lemma_count_byte_bounds(s.drop_last(), b);
    }
}

pub(crate) fn is_space_byte(b: u8) -> (r: bool)
    ensures
        r == is_space(b),
{
    b == 32 || b == 9 || b == 10 || b == 12 || b == 13
}

/// Indices delimiting `s` with leading and trailing whitespace removed.
pub(crate) fn trim_bounds(s: &[u8]) -> (r: (usize, usize))
    ensures
        r.0 == first_non_space(s@, 0),
        r.1 == after_last_non_space(s@),
{
    let n = s.len();
    let mut lo: usize = 0;
    while lo < n && is_space_byte(s[lo])
        invariant
            0 <= lo <= n,
            n == s@.len(),
            first_non_space(s@, 0) == first_non_space(s@, lo as int),
        decreases n - lo,
    {
        lo = lo + 1;
    }
    assert(first_non_space(s@, lo as int) == lo as int);
    let mut hi: usize = n;
    proof {
        assert(s@.take(n as int) =~= s@);
    }
    while hi > 0 && is_space_byte(s[hi - 1])
        invariant
            0 <= hi <= n,
            n == s@.len(),
            after_last_non_space(s@) == after_last_non_space(s@.take(hi as int)),
        decreases hi,
    {
        proof {
            assert(s@.take(hi as int).drop_last() =~= s@.take(hi as int - 1));
            assert(s@.take(hi as int).last() == s@[hi as int - 1]);
        }
        hi = hi - 1;
    }
    proof {
        if hi > 0 {
            assert(s@.take(hi as int).last() == s@[hi as int - 1]);
        }
        assert(after_last_non_space(s@.take(hi as int)) == hi as int);
    }
    (lo, hi)
}

/// Does `p` occur in `s` at index `i`?
pub(crate) fn matches_at_exec(s: &[u8], p: &[u8], i: usize) -> (r: bool)
    requires
        i + p@.len() <= s@.len(),
    ensures
        r == matches_at(s@, p@, i as int),
{
    let n = s.len();
    let m = p.len();
    let mut j: usize = 0;
    while j < m
        invariant
            0 <= j <= m,
            m == p@.len(),
            n == s@.len(),
            i + m <= n,
            forall|k: int| 0 <= k < j ==> s@[i + k] == #[trigger] p@[k],
        decreases m - j,
    {
        if s[i + j] != p[j] {
            return false;
        }
        j = j + 1;
    }
    true
}

/// `p` is a prefix of `s`.
pub(crate) fn starts_with_exec(s: &[u8], p: &[u8]) -> (r: bool)
    ensures
        r == starts_with(s@, p@),
{
    if p.len() > s.len() {
        return false;
    }
    matches_at_exec(s, p, 0)
}

/// `p` occurs somewhere in `s`.
pub(crate) fn contains_seq_exec(s: &[u8], p: &[u8]) -> (r: bool)
    ensures
        r == contains_seq(s@, p@),
{
    let n = s.len();
    let m = p.len();
    if m > n {
        assert(forall|i: int| !matches_at(s@, p@, i));
        return false;
    }
    let mut i: usize = 0;
    while i <= n - m
        invariant
            0 <= i <= n - m + 1,
            m <= n,
            n == s@.len(),
            m == p@.len(),
            forall|k: int| 0 <= k < i ==> !matches_at(s@, p@, k),
        decreases n - m + 1 - i,
    {
        if matches_at_exec(s, p, i) {
            return true;
        }
        i = i + 1;
    }
    assert(forall|k: int| matches_at(s@, p@, k) ==> 0 <= k <= n - m);
    false
}

/// Whether `s[lo..hi]` is whitespace only.
pub(crate) fn ws_only_range(s: &[u8], lo: usize, hi: usize) -> (r: bool)
    requires
        lo <= hi <= s@.len(),
    ensures
        r == ws_only(s@.subrange(lo as int, hi as int)),
{
    let ghost sub = s@.subrange(lo as int, hi as int);
    let mut i: usize = lo;
    while i < hi
        invariant
            lo <= i <= hi <= s@.len(),
            sub == s@.subrange(lo as int, hi as int),
            forall|k: int| 0 <= k < i - lo ==> is_space(#[trigger] sub[k]),
        decreases hi - i,
    {
        if !is_space_byte(s[i]) {
            assert(sub[i as int - lo as int] == s@[i as int]);
            return false;
        }
        i = i + 1;
    }
    true
}

/// Occurrences of the byte `b` in `s[lo..hi]`.
pub(crate) fn count_byte_range(s: &[u8], lo: usize, hi: usize, b: u8) -> (r: usize)
    requires
        lo <= hi <= s@.len(),
    ensures
        r == count_byte(s@.subrange(lo as int, hi as int), b),
        r <= hi - lo,
{
    let mut i: usize = lo;
    let mut cnt: usize = 0;
    while i < hi
        invariant
            lo <= i <= hi <= s@.len(),
            cnt <= i - lo,
            cnt == count_byte(s@.subrange(lo as int, i as int), b),
        decreases hi - i,
    {
        proof {
            assert(s@.subrange(lo as int, i as int + 1).drop_last() =~= s@.subrange(
                lo as int,
                i as int,
            ));
            assert(s@.subrange(lo as int, i as int + 1).last() == s@[i as int]);
        }
        if s[i] == b {
            cnt = cnt + 1;
        }
        i = i + 1;
    }
    cnt
}

/// Index of the next line feed at or after `from`, or the text's length.
pub(crate) fn find_line_end(s: &[u8], from: usize) -> (r: usize)
    requires
        from <= s@.len(),
    ensures
        r == line_end(s@, from as int),
        from <= r <= s@.len(),
{
    let n = s.len();
    let mut i: usize = from;
    while i < n && s[i] != 10
        invariant
            from <= i <= n,
            n == s@.len(),
            line_end(s@, from as int) == line_end(s@, i as int),
        decreases n - i,
    {
        i = i + 1;
    }
    i
}

/// Appends `src[lo..hi]` onto `dst`.
pub(crate) fn push_range(dst: &mut Vec<u8>, src: &[u8], lo: usize, hi: usize)
    requires
        lo <= hi <= src@.len(),
    ensures
        final(dst)@ == old(dst)@ + src@.subrange(lo as int, hi as int),
{
    let mut i: usize = lo;
    while i < hi
        invariant
            lo <= i <= hi <= src@.len(),
            dst@ == old(dst)@ + src@.subrange(lo as int, i as int),
        decreases hi - i,
    {
        proof {
            assert(src@.subrange(lo as int, i as int + 1) =~= src@.subrange(lo as int, i as int)
                + seq![src@[i as int]]);
        }
        dst.push(src[i]);
        i = i + 1;
    }
    proof {
        assert(dst@ =~= old(dst)@ + src@.subrange(lo as int, hi as int));
    }
}

} // verus!
