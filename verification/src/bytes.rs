//! Byte-sequence helpers: equality, prefix tests, substring search, copying,
//! and trailing-whitespace trimming, each proved against a spec-level
//! definition over `Seq<u8>`.

use vstd::prelude::*;

verus! {

/// True when `p` is a prefix of `s`.
pub open spec fn is_prefix(p: Seq<u8>, s: Seq<u8>) -> bool {
    p.len() <= s.len() && s.subrange(0, p.len() as int) == p
}

/// Compares two byte slices for equality.
pub fn bytes_eq(a: &[u8], b: &[u8]) -> (r: bool)
    ensures
        r <==> a@ == b@,
{
    if a.len() != b.len() {
        proof {
            assert(a@ != b@);
        }
        return false;
    }
    let mut i: usize = 0;
    while i < a.len()
        invariant
            i <= a@.len(),
            a@.len() == b@.len(),
            forall|j: int| 0 <= j < i ==> a@[j] == b@[j],
        decreases a@.len() - i,
    {
        if a[i] != b[i] {
            proof {
                assert(a@ != b@);
            }
            return false;
        }
        i = i + 1;
    }
    proof {
        assert(a@ =~= b@);
    }
    true
}

/// True when the slice `s` starts with `p`.
pub fn starts_with(s: &[u8], p: &[u8]) -> (r: bool)
    ensures
        r <==> is_prefix(p@, s@),
{
    if p.len() > s.len() {
        return false;
    }
    let head = vstd::slice::slice_subrange(s, 0, p.len());
    bytes_eq(head, p)
}

/// Copies `s[i..j]` into a fresh vector.
pub fn copy_range(s: &[u8], i: usize, j: usize) -> (out: Vec<u8>)
    requires
        i <= j <= s@.len(),
    ensures
        out@ == s@.subrange(i as int, j as int),
{
    vstd::slice::slice_to_vec(vstd::slice::slice_subrange(s, i, j))
}

/// Appends all of `s` to the end of `out`.
pub fn append_bytes(out: &mut Vec<u8>, s: &[u8])
    ensures
        final(out)@ == old(out)@ + s@,
{
    let mut i: usize = 0;
    while i < s.len()
        invariant
            i <= s@.len(),
            out@ == old(out)@ + s@.take(i as int),
        decreases s@.len() - i,
    {
        out.push(s[i]);
        proof {
            assert(old(out)@ + s@.take(i + 1) =~= (old(out)@ + s@.take(i as int)).push(s@[i as int]));
        }
        i = i + 1;
    }
    proof {
        assert(s@.take(s@.len() as int) =~= s@);
    }
}

/// Index of the first occurrence of `pat` at or after position `from` in `s`.
pub open spec fn find_at(s: Seq<u8>, pat: Seq<u8>, from: int) -> Option<int>
    decreases s.len() - from when 0 <= from
{
    if from + pat.len() > s.len() {
        None
    } else if s.subrange(from, from + pat.len()) == pat {
        Some(from)
    } else if from < s.len() {
        find_at(s, pat, from + 1)
    } else {
        None
    }
}

/// Finds the first occurrence of `pat` in `s` at or after `from`.
pub fn find(s: &[u8], pat: &[u8], from: usize) -> (r: Option<usize>)
    ensures
        r matches Some(i) ==> from <= i && i + pat@.len() <= s@.len()
            && s@.subrange(i as int, i + pat@.len()) == pat@
            && find_at(s@, pat@, from as int) == Some(i as int),
        r is None ==> find_at(s@, pat@, from as int) is None,
{
    let mut j: usize = from;
    loop
        invariant
            from <= j,
            find_at(s@, pat@, from as int) == find_at(s@, pat@, j as int),
        decreases s@.len() + 1 - j,
    {
        if j > s.len() || pat.len() > s.len() - j {
            assert(find_at(s@, pat@, j as int) is None);
            return None;
        }
        let w = vstd::slice::slice_subrange(s, j, j + pat.len());
        if bytes_eq(w, pat) {
            return Some(j);
        }
        proof {
            if pat@.len() == 0 {
                assert(w@ =~= pat@);
            }
        }
        j = j + 1;
    }
}

/// Where `pat` occurs at `k` and nowhere earlier, the search finds `k`.
pub proof fn lemma_find_at_first(s: Seq<u8>, pat: Seq<u8>, from: int, k: int)
    requires
        0 <= from <= k,
        k + pat.len() <= s.len(),
        s.subrange(k, k + pat.len()) == pat,
        forall|j: int| from <= j < k ==> (#[trigger] s.subrange(j, j + pat.len())) != pat,
    ensures
        find_at(s, pat, from) == Some(k),
    decreases k - from,
{
    if from < k {
        lemma_find_at_first(s, pat, from + 1, k);
    }
}

/// True of the four ASCII whitespace bytes: space, tab, CR, LF.
pub open spec fn is_space(b: u8) -> bool {
    b == (' ' as u8) || b == 9 || b == 13 || b == 10
}

/// Decides `is_space` on a byte.
pub fn space(b: u8) -> (r: bool)
    ensures
        r == is_space(b),
{
    b == (' ' as u8) || b == 9 || b == 13 || b == 10
}

/// `s` with every trailing whitespace byte removed.
pub open spec fn trim_end(s: Seq<u8>) -> Seq<u8>
    decreases s.len(),
{
    if s.len() > 0 && is_space(s.last()) {
        trim_end(s.drop_last())
    } else {
        s
    }
}

/// Copies `s` without its trailing whitespace bytes.
pub fn trim_trailing(s: &[u8]) -> (out: Vec<u8>)
    ensures
        out@ == trim_end(s@),
{
    let mut end: usize = s.len();
    proof {
        assert(s@.take(s@.len() as int) =~= s@);
    }
    while end > 0 && space(s[end - 1])
        invariant
            end <= s@.len(),
            trim_end(s@) == trim_end(s@.take(end as int)),
        decreases end,
    {
        proof {
            assert(s@.take(end as int).drop_last() =~= s@.take(end - 1));
        }
        end = end - 1;
    }
    proof {
        assert(trim_end(s@.take(end as int)) == s@.take(end as int));
        assert(s@.take(end as int) =~= s@.subrange(0, end as int));
    }
    copy_range(s, 0, end)
}

} // verus!
