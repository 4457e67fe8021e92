//! Verified text helpers: character-wise equality and substring search.

use vstd::prelude::*;

verus! {

/// `pat` occurs in `text` starting at position `i`.
pub open spec fn spec_match_at(text: Seq<char>, pat: Seq<char>, i: int) -> bool {
    0 <= i && i + pat.len() <= text.len() && forall|k: int|
        0 <= k < pat.len() ==> text[i + k] == pat[k]
}

/// `pat` occurs somewhere in `text` as a contiguous substring.
pub open spec fn spec_contains(text: Seq<char>, pat: Seq<char>) -> bool {
    exists|i: int| spec_match_at(text, pat, i)
}

/// Character-for-character equality of two string slices.
pub fn str_eq(a: &str, b: &str) -> (r: bool)
    ensures
        r == (a@ == b@),
{
    let na: usize = a.unicode_len();
    let nb: usize = b.unicode_len();
    if na != nb {
        return false;
    }
    let mut i: usize = 0;
    while i < na
        invariant
            na == a@.len(),
            nb == b@.len(),
            na == nb,
            0 <= i <= na,
            forall|k: int| 0 <= k < i ==> a@[k] == b@[k],
        decreases na - i,
    {
        let ca: char = a.get_char(i);
        let cb: char = b.get_char(i);
        if ca != cb {
            proof {
                assert(a@[i as int] != b@[i as int]);
            }
            return false;
        }
        i += 1;
    }
    proof {
        assert(a@ =~= b@);
    }
    true
}

/// Whether `pat` occurs as a contiguous substring of `text`, as
/// `str::contains` decides it for plain text.
pub fn contains_sub(text: &str, pat: &str) -> (r: bool)
    ensures
        r == spec_contains(text@, pat@),
{
    let nt: usize = text.unicode_len();
    let np: usize = pat.unicode_len();
    if np > nt {
        proof {
            assert forall|s: int| !spec_match_at(text@, pat@, s) by {}
        }
        return false;
    }
    let mut i: usize = 0;
    while i <= nt - np
        invariant
            nt == text@.len(),
            np == pat@.len(),
            np <= nt,
            0 <= i <= nt - np + 1,
            forall|s: int| 0 <= s < i ==> !spec_match_at(text@, pat@, s),
        decreases nt - np - i + 1,
    {
        let mut k: usize = 0;
        let mut ok: bool = true;
        while k < np && ok
            invariant
                nt == text@.len(),
                np == pat@.len(),
                np <= nt,
                0 <= i <= nt - np,
                0 <= k <= np,
                ok ==> forall|k2: int| 0 <= k2 < k ==> text@[i + k2] == pat@[k2],
                !ok ==> !spec_match_at(text@, pat@, i as int),
            decreases np - k + (if ok { 1int } else { 0int }),
        {
            let ct: char = text.get_char(i + k);
            let cp: char = pat.get_char(k);
            if ct != cp {
                proof {
                    assert(text@[i + k] != pat@[k as int]);
                }
                ok = false;
            } else {
                k += 1;
            }
        }
        if ok {
            proof {
                assert(spec_match_at(text@, pat@, i as int));
            }
            return true;
        }
        i += 1;
    }
    proof {
        assert forall|s: int| !spec_match_at(text@, pat@, s) by {
            if 0 <= s <= nt - np {
                assert(!spec_match_at(text@, pat@, s));
            }
        }
    }
    false
}

} // verus!
