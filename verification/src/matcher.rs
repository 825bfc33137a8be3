//! Case-insensitive substring search.
//!
//! Two characters count as the same letter when their lowercase mappings are
//! equal as sequences of code points, so a character whose lowercase form is
//! several code points long is still compared as a single unit.  The search
//! is the linear-time prefix-function algorithm, run over that equality.

use crate::text::chars_of;
use vstd::prelude::*;

verus! {

/// The lowercase mapping of a character: the code points that
/// `char::to_lowercase` yields for it, in order.
pub uninterp spec fn lowercase_of(c: char) -> Seq<char>;

/// Calls `char::to_lowercase` and collects what the iterator yields.  The
/// mapping is unconditional: it depends on the character alone, not on context
/// or language.  Nothing is proved of this function; its contract names the
/// result.
#[verifier::external_body]
fn lowercase_chars(c: char) -> (out: Vec<char>)
    ensures
        out@ == lowercase_of(c),
{
    c.to_lowercase().collect()
}

/// Two characters are the same letter up to case.
pub open spec fn same_letter(a: char, b: char) -> bool {
    lowercase_of(a) == lowercase_of(b)
}

/// `needle` lies in `haystack` at code point offset `at`, letter for letter
/// up to case.
pub open spec fn matches_at(haystack: Seq<char>, needle: Seq<char>, at: int) -> bool {
    &&& 0 <= at
    &&& at + needle.len() <= haystack.len()
    &&& forall|j: int| 0 <= j < needle.len() ==> same_letter(#[trigger] haystack[at + j], needle[j])
}

/// `needle` occurs somewhere in `haystack` up to case.
pub open spec fn occurs_in(haystack: Seq<char>, needle: Seq<char>) -> bool {
    exists|at: int| matches_at(haystack, needle, at)
}

/// A text with every character replaced by its lowercase mapping.  Equality of
/// two entries is `same_letter` of the characters they came from.
pub open spec fn folded(s: Seq<char>) -> Seq<Seq<char>> {
    Seq::new(s.len(), |i: int| lowercase_of(s[i]))
}

/// The first `k` entries of `p` are also the last `k` of its first `q`, and
/// `k < q`: `k` is the length of a proper border of the prefix of length `q`.
pub open spec fn is_border<A>(p: Seq<A>, q: int, k: int) -> bool {
    &&& 0 <= k < q <= p.len()
    &&& forall|j: int| 0 <= j < k ==> #[trigger] p[j] == p[q - k + j]
}

/// `k` is the length of the longest proper border of the prefix of length `q`.
pub open spec fn is_longest_border<A>(p: Seq<A>, q: int, k: int) -> bool {
    &&& is_border(p, q, k)
    &&& forall|k2: int| is_border(p, q, k2) ==> k2 <= k
}

/// The first `l` entries of `p` are the `l` entries of `t` that end just
/// before position `i`.
pub open spec fn prefix_ends_at<A>(p: Seq<A>, t: Seq<A>, i: int, l: int) -> bool {
    &&& 0 <= l <= i <= t.len()
    &&& l <= p.len()
    &&& forall|j: int| 0 <= j < l ==> #[trigger] p[j] == t[i - l + j]
}

/// `table` is the prefix function of the first `filled` entries of `p`:
/// `table[q - 1]` is the longest proper border of the prefix of length `q`.
pub open spec fn is_prefix_table<A>(p: Seq<A>, table: Seq<usize>, filled: int) -> bool {
    &&& 0 <= filled <= p.len()
    &&& filled <= table.len()
    &&& forall|q: int| 1 <= q <= filled ==> is_longest_border(p, q, #[trigger] table[q - 1] as int)
}

/// A border of a border is a border.
pub proof fn lemma_border_of_border<A>(p: Seq<A>, q: int, k: int, j: int)
    requires
        is_border(p, q, k),
        is_border(p, k, j),
    ensures
        is_border(p, q, j),
{
    assert forall|i: int| 0 <= i < j implies #[trigger] p[i] == p[q - j + i] by {
        assert(p[i] == p[k - j + i]);
        assert(p[k - j + i] == p[q - k + (k - j + i)]);
    }
}

/// Of two borders of one prefix, the shorter is a border of the longer.
pub proof fn lemma_border_within<A>(p: Seq<A>, q: int, k: int, j: int)
    requires
        is_border(p, q, k),
        is_border(p, q, j),
        j < k,
    ensures
        is_border(p, k, j),
{
    assert forall|i: int| 0 <= i < j implies #[trigger] p[i] == p[k - j + i] by {
        assert(p[i] == p[q - j + i]);
        assert(p[k - j + i] == p[q - k + (k - j + i)]);
    }
}

/// A border of the prefix of length `q + 1` is a border of the prefix of
/// length `q`, extended by one entry equal to `p[q]`.
pub proof fn lemma_border_shrink<A>(p: Seq<A>, q: int, k: int)
    requires
        k >= 0,
        is_border(p, q + 1, k + 1),
    ensures
        k == 0 || is_border(p, q, k),
        0 <= k < p.len(),
        p[k] == p[q],
{
    assert(p[k] == p[(q + 1) - (k + 1) + k]);
    if k > 0 {
        assert forall|j: int| 0 <= j < k implies #[trigger] p[j] == p[q - k + j] by {
            assert(p[j] == p[(q + 1) - (k + 1) + j]);
        }
    }
}

/// The converse of `lemma_border_shrink`.
pub proof fn lemma_border_grow<A>(p: Seq<A>, q: int, k: int)
    requires
        0 <= k < q < p.len(),
        k == 0 || is_border(p, q, k),
        p[k] == p[q],
    ensures
        is_border(p, q + 1, k + 1),
{
    assert forall|j: int| 0 <= j < k + 1 implies #[trigger] p[j] == p[(q + 1) - (k + 1) + j] by {
        if j < k {
            assert(p[j] == p[q - k + j]);
        }
    }
}

/// Where a prefix of `p` ends at `i`, so does each of its borders.
pub proof fn lemma_border_ends_too<A>(p: Seq<A>, t: Seq<A>, i: int, l: int, k: int)
    requires
        prefix_ends_at(p, t, i, l),
        is_border(p, l, k),
    ensures
        prefix_ends_at(p, t, i, k),
{
    assert forall|j: int| 0 <= j < k implies #[trigger] p[j] == t[i - k + j] by {
        assert(p[j] == p[l - k + j]);
        assert(p[l - k + j] == t[i - l + (l - k + j)]);
    }
}

/// Of two prefixes of `p` that end at `i`, the shorter is a border of the
/// longer.
pub proof fn lemma_shorter_end_is_border<A>(p: Seq<A>, t: Seq<A>, i: int, l: int, k: int)
    requires
        prefix_ends_at(p, t, i, l),
        prefix_ends_at(p, t, i, k),
        k < l,
    ensures
        is_border(p, l, k),
{
    assert forall|j: int| 0 <= j < k implies #[trigger] p[j] == p[l - k + j] by {
        assert(p[j] == t[i - k + j]);
        assert(p[l - k + j] == t[i - l + (l - k + j)]);
    }
}

/// A prefix that ends at `i + 1` is one that ends at `i`, extended by `t[i]`.
pub proof fn lemma_end_shrink<A>(p: Seq<A>, t: Seq<A>, i: int, l: int)
    requires
        l >= 0,
        prefix_ends_at(p, t, i + 1, l + 1),
    ensures
        prefix_ends_at(p, t, i, l),
        p[l] == t[i],
{
    assert(p[l] == t[(i + 1) - (l + 1) + l]);
    assert forall|j: int| 0 <= j < l implies #[trigger] p[j] == t[i - l + j] by {
        assert(p[j] == t[(i + 1) - (l + 1) + j]);
    }
}

/// The converse of `lemma_end_shrink`.
pub proof fn lemma_end_grow<A>(p: Seq<A>, t: Seq<A>, i: int, l: int)
    requires
        prefix_ends_at(p, t, i, l),
        i < t.len(),
        l < p.len(),
        p[l] == t[i],
    ensures
        prefix_ends_at(p, t, i + 1, l + 1),
{
    assert forall|j: int| 0 <= j < l + 1 implies #[trigger] p[j] == t[(i + 1) - (l + 1) + j] by {
        if j < l {
            assert(p[j] == t[i - l + j]);
        }
    }
}

/// The mappings of `needle` lie in those of `haystack` at offset `at`, one
/// for one.
pub open spec fn folded_match_at(haystack: Seq<Vec<char>>, needle: Seq<Vec<char>>, at: int) -> bool {
    &&& 0 <= at
    &&& at + needle.len() <= haystack.len()
    &&& forall|j: int| 0 <= j < needle.len() ==> (#[trigger] haystack[at + j])@ == needle[j]@
}

/// The lowercase mappings that a list holds, in order.
pub open spec fn mappings(list: Seq<Vec<char>>) -> Seq<Seq<char>> {
    Seq::new(list.len(), |i: int| list[i]@)
}

/// Whether two lowercase mappings are the same sequence of code points.
fn same_mapping(a: &Vec<char>, b: &Vec<char>) -> (same: bool)
    ensures
        same == (a@ == b@),
{
    if a.len() != b.len() {
        return false;
    }
    let mut i: usize = 0;
    while i < a.len()
        invariant
            a.len() == b.len(),
            i <= a.len(),
            forall|j: int| 0 <= j < i ==> a@[j] == b@[j],
        decreases a.len() - i,
    {
        if a[i] != b[i] {
            return false;
        }
        i += 1;
    }
    assert(a@ =~= b@);
    true
}

/// Whether two characters are equal up to case: whether their lowercase
/// mappings are the same sequence of code points.
pub fn eq_case_insensitive(a: char, b: char) -> (same: bool)
    ensures
        same == same_letter(a, b),
{
    same_mapping(&lowercase_chars(a), &lowercase_chars(b))
}

/// The lowercase mapping of every character of `text`, in order.
pub fn fold(text: &Vec<char>) -> (out: Vec<Vec<char>>)
    ensures
        mappings(out@) == folded(text@),
{
    let mut out: Vec<Vec<char>> = Vec::new();
    let mut i: usize = 0;
    while i < text.len()
        invariant
            i <= text.len(),
            out.len() == i,
            forall|j: int| 0 <= j < i ==> (#[trigger] out@[j])@ == lowercase_of(text@[j]),
        decreases text.len() - i,
    {
        out.push(lowercase_chars(text[i]));
        i += 1;
    }
    assert(mappings(out@) =~= folded(text@));
    out
}

/// The prefix function of a needle that is given by the lowercase mappings
/// of its characters.
fn prefix_table(needle: &Vec<Vec<char>>) -> (table: Vec<usize>)
    requires
        needle.len() > 0,
    ensures
        table.len() == needle.len(),
        is_prefix_table(mappings(needle@), table@, needle.len() as int),
{
    let m = needle.len();
    let ghost p = mappings(needle@);
    let mut table: Vec<usize> = Vec::new();
    table.push(0);
    let mut k: usize = 0;
    let mut q: usize = 1;
    proof {
        assert(is_border(p, 1, 0));
        assert(is_longest_border(p, 1, 0));
    }
    while q < m
        invariant
            m == needle.len(),
            p == mappings(needle@),
            1 <= q <= m,
            table.len() == q,
            k == table@[q - 1],
            forall|r: int| 1 <= r <= q ==> is_longest_border(p, r, #[trigger] table@[r - 1] as int),
        decreases m - q,
    {
        let ghost q1: int = q + 1;
        proof {
            assert(is_longest_border(p, q as int, table@[q - 1] as int));
            assert forall|k2: int| k2 >= 1 && is_border(p, q1, k2) implies k2 - 1 <= k by {
                lemma_border_shrink(p, q as int, k2 - 1);
            }
        }
        while k > 0 && !same_mapping(&needle[k], &needle[q])
            invariant
                m == needle.len(),
                p == mappings(needle@),
                1 <= q < m,
                q1 == q + 1,
                table.len() == q,
                0 <= k < q,
                k == 0 || is_border(p, q as int, k as int),
                forall|r: int| 1 <= r <= q ==> is_longest_border(p, r, #[trigger] table@[r - 1] as int),
                forall|k2: int| k2 >= 1 && is_border(p, q1, k2) ==> k2 - 1 <= k,
            decreases k,
        {
            let next = table[k - 1];
            proof {
                assert(is_longest_border(p, k as int, table@[k - 1] as int));
                lemma_border_of_border(p, q as int, k as int, next as int);
                assert forall|k2: int| k2 >= 1 && is_border(p, q1, k2) implies k2 - 1
                    <= next by {
                    lemma_border_shrink(p, q as int, k2 - 1);
                    if k2 - 1 > 0 && k2 - 1 < k {
                        lemma_border_within(p, q as int, k as int, k2 - 1);
                    }
                }
            }
            k = next;
        }
        if same_mapping(&needle[k], &needle[q]) {
            proof {
                lemma_border_grow(p, q as int, k as int);
            }
            k += 1;
        } else {
            proof {
                assert(is_border(p, q1, 0));
                assert forall|k2: int| is_border(p, q1, k2) implies k2 <= 0 by {
                    if k2 >= 1 {
                        lemma_border_shrink(p, q as int, k2 - 1);
                    }
                }
            }
        }
        table.push(k);
        q += 1;
    }
    table
}

/// Whether the mappings of `needle` occur in those of `haystack` as a
/// contiguous run, mapping for mapping.  No needle at all occurs in every
/// haystack.
///
/// The prefix function of the needle is built once; the haystack is read
/// from left to right, every mapping once.
pub fn contains_folded(haystack: &Vec<Vec<char>>, needle: &Vec<Vec<char>>) -> (found: bool)
    ensures
        found == exists|at: int| folded_match_at(haystack@, needle@, at),
{
    let m = needle.len();
    if m == 0 {
        assert(folded_match_at(haystack@, needle@, 0));
        return true;
    }
    let table = prefix_table(needle);
    let ghost p = mappings(needle@);
    let ghost t = mappings(haystack@);
    let mut q: usize = 0;
    let mut i: usize = 0;
    while i < haystack.len()
        invariant
            m == needle.len(),
            m > 0,
            p == mappings(needle@),
            t == mappings(haystack@),
            table.len() == m,
            is_prefix_table(p, table@, m as int),
            i <= haystack.len(),
            q < m,
            prefix_ends_at(p, t, i as int, q as int),
            forall|l: int| prefix_ends_at(p, t, i as int, l) ==> l <= q,
            forall|e: int| 0 <= e <= i ==> !prefix_ends_at(p, t, e, m as int),
        decreases haystack.len() - i,
    {
        let ghost i0: int = i as int;
        let ghost i1: int = i + 1;
        proof {
            assert forall|l: int| l >= 1 && prefix_ends_at(p, t, i1, l) implies l - 1 <= q by {
                lemma_end_shrink(p, t, i0, l - 1);
            }
        }
        while q > 0 && !same_mapping(&needle[q], &haystack[i])
            invariant
                m == needle.len(),
                p == mappings(needle@),
                t == mappings(haystack@),
                table.len() == m,
                is_prefix_table(p, table@, m as int),
                i < haystack.len(),
                i0 == i,
                i1 == i + 1,
                q < m,
                prefix_ends_at(p, t, i0, q as int),
                forall|l: int| l >= 1 && prefix_ends_at(p, t, i1, l) ==> l - 1 <= q,
            decreases q,
        {
            let next = table[q - 1];
            proof {
                assert(p[q as int] == needle@[q as int]@);
                assert(t[i0] == haystack@[i0]@);
                assert(is_longest_border(p, q as int, table@[q - 1] as int));
                lemma_border_ends_too(p, t, i0, q as int, next as int);
                assert forall|l: int| l >= 1 && prefix_ends_at(p, t, i1, l) implies l - 1
                    <= next by {
                    lemma_end_shrink(p, t, i0, l - 1);
                    if l - 1 < q {
                        lemma_shorter_end_is_border(p, t, i0, q as int, l - 1);
                    }
                }
            }
            q = next;
        }
        assert(p[q as int] == needle@[q as int]@);
        assert(t[i0] == haystack@[i0]@);
        if same_mapping(&needle[q], &haystack[i]) {
            proof {
                lemma_end_grow(p, t, i0, q as int);
            }
            q += 1;
        } else {
            proof {
                assert(prefix_ends_at(p, t, i1, 0));
                assert forall|l: int| prefix_ends_at(p, t, i1, l) implies l <= 0 by {
                    if l >= 1 {
                        lemma_end_shrink(p, t, i0, l - 1);
                    }
                }
            }
        }
        if q == m {
            proof {
                let at = i1 - m;
                assert forall|j: int| 0 <= j < m implies (#[trigger] haystack@[at + j])@
                    == needle@[j]@ by {
                    assert(p[j] == t[i1 - m + j]);
                }
                assert(folded_match_at(haystack@, needle@, at));
            }
            return true;
        }
        i += 1;
    }
    proof {
        assert forall|at: int| !folded_match_at(haystack@, needle@, at) by {
            if folded_match_at(haystack@, needle@, at) {
                assert forall|j: int| 0 <= j < m implies #[trigger] p[j] == t[at + m - m + j] by {
                    assert(haystack@[at + j]@ == needle@[j]@);
                }
                assert(prefix_ends_at(p, t, at + m, m as int));
            }
        }
    }
    false
}

/// Whether `needle` occurs in `haystack` as a contiguous run of code points,
/// each compared up to case.  The empty needle occurs in every text.
///
/// Both texts are mapped to lowercase character by character, once; the
/// search is then that of `contains_folded`.
pub fn contains_case_insensitive(haystack: &str, needle: &str) -> (found: bool)
    ensures
        found == occurs_in(haystack@, needle@),
{
    let h = fold(&chars_of(haystack));
    let n = fold(&chars_of(needle));
    let found = contains_folded(&h, &n);
    proof {
        assert(mappings(h@).len() == haystack@.len());
        assert(mappings(n@).len() == needle@.len());
        assert forall|at: int|
            folded_match_at(h@, n@, at) <==> matches_at(haystack@, needle@, at) by {
            if folded_match_at(h@, n@, at) {
                assert forall|j: int| 0 <= j < needle@.len() implies same_letter(
                    #[trigger] haystack@[at + j],
                    needle@[j],
                ) by {
                    assert(h@[at + j]@ == n@[j]@);
                    assert(mappings(h@)[at + j] == folded(haystack@)[at + j]);
                    assert(mappings(n@)[j] == folded(needle@)[j]);
                }
            }
            if matches_at(haystack@, needle@, at) {
                assert forall|j: int| 0 <= j < n@.len() implies (#[trigger] h@[at + j])@
                    == n@[j]@ by {
                    assert(same_letter(haystack@[at + j], needle@[j]));
                    assert(mappings(h@)[at + j] == folded(haystack@)[at + j]);
                    assert(mappings(n@)[j] == folded(needle@)[j]);
                }
            }
        }
    }
    found
}

} // verus!
