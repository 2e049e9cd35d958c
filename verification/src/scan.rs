//! Byte-level substring search: the executable scanner and the spec-level
//! notion of a first occurrence that every parsing contract is stated over.

use vstd::prelude::*;

verus! {

/// `needle` occurs in `haystack` at position `i`, ending at or before `end`.
pub open spec fn is_match_at(haystack: Seq<u8>, needle: Seq<u8>, i: int, end: int) -> bool {
    &&& 0 <= i
    &&& i + needle.len() <= end
    &&& end <= haystack.len()
    &&& haystack.subrange(i, i + needle.len() as int) == needle
}

/// Position of the first occurrence of `needle` in `haystack` that starts at
/// or after `from` and ends at or before `end`.
pub open spec fn first_match_in(haystack: Seq<u8>, needle: Seq<u8>, from: int, end: int) -> Option<
    int,
>
    decreases end - from,
{
    if end > haystack.len() || from + needle.len() > end {
        None
    } else if is_match_at(haystack, needle, from, end) {
        Some(from)
    } else if from + 1 + needle.len() <= end {
        first_match_in(haystack, needle, from + 1, end)
    } else {
        None
    }
}

/// A found position is a match, and no position before it matches; a `None`
/// answer admits no match at all.
pub proof fn lemma_first_match_in_first(haystack: Seq<u8>, needle: Seq<u8>, from: int, end: int)
    ensures
        match first_match_in(haystack, needle, from, end) {
            Some(i) => from <= i && is_match_at(haystack, needle, i, end) && (forall|j: int|
                from <= j < i ==> !is_match_at(haystack, needle, j, end)),
            None => forall|j: int| from <= j ==> !is_match_at(haystack, needle, j, end),
        },
    decreases end - from,
{
    if end > haystack.len() || from + needle.len() > end {
        assert(forall|j: int| from <= j ==> !is_match_at(haystack, needle, j, end));
    } else if is_match_at(haystack, needle, from, end) {
    } else if from + 1 + needle.len() <= end {
        lemma_first_match_in_first(haystack, needle, from + 1, end);
    } else {
        assert(forall|j: int| from <= j ==> !is_match_at(haystack, needle, j, end));
    }
}

/// A match with no earlier match is the first match.
pub proof fn lemma_first_match_in_is(
    haystack: Seq<u8>,
    needle: Seq<u8>,
    from: int,
    end: int,
    i: int,
)
    requires
        from <= i,
        is_match_at(haystack, needle, i, end),
        forall|j: int| from <= j < i ==> !is_match_at(haystack, needle, j, end),
    ensures
        first_match_in(haystack, needle, from, end) == Some(i),
    decreases i - from,
{
    if from == i {
    } else {
        lemma_first_match_in_is(haystack, needle, from + 1, end, i);
    }
}

/// If nothing at or after `from` matches, the search comes back empty.
pub proof fn lemma_first_match_in_none(haystack: Seq<u8>, needle: Seq<u8>, from: int, end: int)
    requires
        forall|j: int| from <= j ==> !is_match_at(haystack, needle, j, end),
    ensures
        first_match_in(haystack, needle, from, end) is None,
{
    lemma_first_match_in_first(haystack, needle, from, end);
    if first_match_in(haystack, needle, from, end) is Some {
        let i = first_match_in(haystack, needle, from, end)->Some_0;
        assert(!is_match_at(haystack, needle, i, end));
    }
}

/// A one-byte needle matches exactly where that byte stands.
pub proof fn lemma_single_byte_match(haystack: Seq<u8>, b: u8, i: int, end: int)
    requires
        end <= haystack.len(),
    ensures
        is_match_at(haystack, seq![b], i, end) <==> (0 <= i && i < end && haystack[i] == b),
{
    if 0 <= i && i + 1 <= end {
        if haystack[i] == b {
            assert(haystack.subrange(i, i + 1) =~= seq![b]);
        }
        if haystack.subrange(i, i + 1) == seq![b] {
            assert(haystack.subrange(i, i + 1)[0] == b);
        }
    }
}

/// Whether `needle` occurs at exactly position `i` of `haystack`.
pub fn match_at(haystack: &[u8], needle: &[u8], i: usize, end: usize) -> (r: bool)
    requires
        i + needle@.len() <= end,
        end <= haystack@.len(),
    ensures
        r == is_match_at(haystack@, needle@, i as int, end as int),
{
    let nlen = needle.len();
    let mut j: usize = 0;
    while j < nlen
        invariant
            j <= nlen,
            nlen == needle@.len(),
            i + nlen <= end,
            end <= haystack@.len(),
            forall|k: int| 0 <= k < j ==> haystack@[i + k] == needle@[k],
        decreases nlen - j,
    {
        if haystack[i + j] != needle[j] {
            proof {
                if is_match_at(haystack@, needle@, i as int, end as int) {
                    assert(haystack@.subrange(i as int, i + needle@.len())[j as int]
                        == haystack@[i + j]);
                }
            }
            return false;
        }
        j = j + 1;
    }
    proof {
        assert(haystack@.subrange(i as int, i + needle@.len()) =~= needle@);
    }
    true
}

/// First occurrence of `needle` within `haystack[from..end]`, as
/// `first_match_in` describes it.
pub fn find_in(haystack: &[u8], needle: &[u8], from: usize, end: usize) -> (r: Option<usize>)
    requires
        from <= end,
        end <= haystack@.len(),
    ensures
        match r {
            Some(i) => first_match_in(haystack@, needle@, from as int, end as int) == Some(
                i as int,
            ),
            None => first_match_in(haystack@, needle@, from as int, end as int) is None,
        },
{
    let nlen = needle.len();
    if nlen > end - from {
        return None;
    }
    if nlen == 0 {
        proof {
            assert(haystack@.subrange(from as int, from as int) =~= needle@);
        }
        return Some(from);
    }
    let mut i: usize = from;
    while i <= end - nlen
        invariant
            from <= i,
            i <= end - nlen + 1,
            1 <= nlen,
            nlen == needle@.len(),
            nlen <= end - from,
            from <= end,
            end <= haystack@.len(),
            first_match_in(haystack@, needle@, from as int, end as int) == first_match_in(
                haystack@,
                needle@,
                i as int,
                end as int,
            ),
        decreases end - i,
    {
        if match_at(haystack, needle, i, end) {
            return Some(i);
        }
        i = i + 1;
    }
    None
}

/// Copy of `src[start..end]` as a fresh vector.
pub fn copy_range(src: &[u8], start: usize, end: usize) -> (r: Vec<u8>)
    requires
        start <= end,
        end <= src@.len(),
    ensures
        r@ == src@.subrange(start as int, end as int),
{
    let mut r: Vec<u8> = Vec::new();
    proof {
        assert(r@ =~= src@.subrange(start as int, start as int));
    }
    let mut k: usize = start;
    while k < end
        invariant
            start <= k <= end,
            end <= src@.len(),
            r@ == src@.subrange(start as int, k as int),
        decreases end - k,
    {
        r.push(src[k]);
        proof {
            assert(r@ =~= src@.subrange(start as int, k + 1 as int));
        }
        k = k + 1;
    }
    r
}

} // verus!
