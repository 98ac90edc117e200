//! Verified text helpers: lexicographic comparison and substring search over
//! the character sequences that string views denote. The sort engine orders
//! subject kinds with `lex_le`; the filter engine matches kinds with
//! `is_substring`.

use vstd::prelude::*;

verus! {

/// Lexicographic "less or equal" on character sequences, by code point.
pub open spec fn lex_le(a: Seq<char>, b: Seq<char>) -> bool
    decreases a.len(),
{
    if a.len() == 0 {
        true
    } else if b.len() == 0 {
        false
    } else if a[0] != b[0] {
        (a[0] as u32) < (b[0] as u32)
    } else {
        lex_le(a.drop_first(), b.drop_first())
    }
}

/// Distinct characters have distinct code points.
proof fn lemma_char_cast_injective(a: char, b: char)
    requires
        a != b,
    ensures
        (a as u32) != (b as u32),
{
    broadcast use vstd::utf8::char_u32_cast;

    assert(((a as u32) as char) == a);
    assert(((b as u32) as char) == b);
}

/// Any two character sequences are comparable under `lex_le`.
pub proof fn lemma_lex_le_total(a: Seq<char>, b: Seq<char>)
    ensures
        lex_le(a, b) || lex_le(b, a),
    decreases a.len(),
{
    if a.len() == 0 || b.len() == 0 {
    } else if a[0] != b[0] {
        lemma_char_cast_injective(a[0], b[0]);
    } else {
        lemma_lex_le_total(a.drop_first(), b.drop_first());
    }
}

/// `lex_le` is transitive.
pub proof fn lemma_lex_le_trans(a: Seq<char>, b: Seq<char>, c: Seq<char>)
    requires
        lex_le(a, b),
        lex_le(b, c),
    ensures
        lex_le(a, c),
    decreases a.len(),
{
    if a.len() == 0 {
    } else {
        // lex_le(a, b) with a non-empty forces b non-empty; likewise for c.
        if a[0] == b[0] && b[0] == c[0] {
            lemma_lex_le_trans(a.drop_first(), b.drop_first(), c.drop_first());
        }
    }
}

/// Skipping an equal prefix does not change the comparison.
proof fn lemma_lex_le_skip(a: Seq<char>, b: Seq<char>, i: int)
    requires
        0 <= i <= a.len(),
        i <= b.len(),
        forall|j: int| 0 <= j < i ==> a[j] == b[j],
    ensures
        lex_le(a, b) == lex_le(a.skip(i), b.skip(i)),
    decreases i,
{
    if i > 0 {
        assert(a.len() > 0 && b.len() > 0 && a[0] == b[0]);
        assert(a.drop_first().skip(i - 1) =~= a.skip(i));
        assert(b.drop_first().skip(i - 1) =~= b.skip(i));
        lemma_lex_le_skip(a.drop_first(), b.drop_first(), i - 1);
    } else {
        assert(a.skip(0) =~= a);
        assert(b.skip(0) =~= b);
    }
}

/// Compares two strings lexicographically by code point; this is the order
/// `lex_le` denotes.
pub fn str_le(a: &String, b: &String) -> (r: bool)
    ensures
        r == lex_le(a@, b@),
{
    let la = a.as_str().unicode_len();
    let lb = b.as_str().unicode_len();
    let mut i: usize = 0;
    loop
        invariant
            i <= la,
            i <= lb,
            la == a@.len(),
            lb == b@.len(),
            forall|j: int| 0 <= j < i ==> a@[j] == b@[j],
        decreases la - i,
    {
        if i == la {
            proof {
                lemma_lex_le_skip(a@, b@, i as int);
                assert(a@.skip(i as int).len() == 0);
            }
            return true;
        }
        if i == lb {
            proof {
                lemma_lex_le_skip(b@, a@, i as int);
                assert(b@.skip(i as int).len() == 0);
                assert(a@.skip(i as int).len() > 0);
                assert(!lex_le(a@, b@)) by {
                    lemma_lex_le_skip(a@, b@, i as int);
                }
            }
            return false;
        }
        let ca = a.as_str().get_char(i);
        let cb = b.as_str().get_char(i);
        if ca != cb {
            proof {
                lemma_lex_le_skip(a@, b@, i as int);
                assert(a@.skip(i as int)[0] == a@[i as int]);
                assert(b@.skip(i as int)[0] == b@[i as int]);
            }
            return (ca as u32) < (cb as u32);
        }
        i = i + 1;
    }
}

/// `needle` occurs in `hay` starting at position `k`.
pub open spec fn matches_at(needle: Seq<char>, hay: Seq<char>, k: int) -> bool {
    &&& 0 <= k
    &&& k + needle.len() <= hay.len()
    &&& forall|j: int| 0 <= j < needle.len() ==> hay[k + j] == needle[j]
}

/// `needle` occurs somewhere in `hay`. The empty sequence occurs everywhere.
pub open spec fn is_substring(needle: Seq<char>, hay: Seq<char>) -> bool {
    exists|k: int| matches_at(needle, hay, k)
}

/// Substring search; decides `is_substring` on the views.
pub fn str_contains(hay: &String, needle: &String) -> (r: bool)
    ensures
        r == is_substring(needle@, hay@),
{
    let lh = hay.as_str().unicode_len();
    let ln = needle.as_str().unicode_len();
    if ln > lh {
        proof {
            assert forall|k: int| !matches_at(needle@, hay@, k) by {}
        }
        return false;
    }
    let mut k: usize = 0;
    while k <= lh - ln
        invariant
            lh == hay@.len(),
            ln == needle@.len(),
            ln <= lh,
            k <= lh - ln + 1,
            forall|k0: int| 0 <= k0 < k ==> !matches_at(needle@, hay@, k0),
        decreases lh - ln - k + 1,
    {
        let mut j: usize = 0;
        let mut hit = true;
        while j < ln
            invariant
                lh == hay@.len(),
                ln == needle@.len(),
                k + ln <= lh,
                j <= ln,
                hit ==> forall|j0: int| 0 <= j0 < j ==> hay@[k + j0] == needle@[j0],
                !hit ==> !matches_at(needle@, hay@, k as int),
            decreases ln - j,
        {
            if hit {
                let ch = hay.as_str().get_char(k + j);
                let cn = needle.as_str().get_char(j);
                if ch != cn {
                    hit = false;
                }
            }
            j = j + 1;
        }
        if hit {
            assert(matches_at(needle@, hay@, k as int));
            return true;
        }
        k = k + 1;
    }
    proof {
        assert forall|k0: int| !matches_at(needle@, hay@, k0) by {
            if 0 <= k0 <= hay@.len() - needle@.len() {
                assert(k0 < k);
            }
        }
    }
    false
}

} // verus!
