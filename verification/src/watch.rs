//! The fingerprint of the forms directory, which the hot reload compares to
//! notice added, removed or modified form files.

use vstd::prelude::*;
use crate::num::decimal;
use crate::text::join;

verus! {

broadcast use vstd::seq_lib::group_to_multiset_ensures, vstd::multiset::group_multiset_axioms;

/// Lexicographic order of texts by code point (which is the byte order of
/// their UTF-8 encodings, as `String`'s `Ord` compares them).
pub open spec fn text_lt(a: Seq<char>, b: Seq<char>) -> bool
    decreases a.len(),
{
    if a.len() == 0 {
        b.len() > 0
    } else if b.len() == 0 {
        false
    } else if a[0] != b[0] {
        (a[0] as u32) < (b[0] as u32)
    } else {
        text_lt(a.drop_first(), b.drop_first())
    }
}

/// Texts in ascending order.
pub open spec fn sorted_texts(s: Seq<Seq<char>>) -> bool {
    forall|i: int, j: int| 0 <= i < j < s.len() ==> !text_lt(#[trigger] s[j], #[trigger] s[i])
}

/// One file's line of the fingerprint: `<path>:<modification time in
/// nanoseconds since the epoch>`.
pub open spec fn signature_line_text(path: Seq<char>, nanos: nat) -> Seq<char> {
    path + seq![':'] + decimal(nanos)
}

/// The fingerprint of a directory whose form files give these lines: the
/// lines in ascending order, one per line.
pub open spec fn is_signature(lines: Seq<Seq<char>>, sig: Seq<char>) -> bool {
    exists|s: Seq<Seq<char>>|
        s.to_multiset() == lines.to_multiset() && sorted_texts(s) && sig == join(s, "\n"@)
}

pub proof fn lemma_text_lt_irreflexive(a: Seq<char>)
    ensures
        !text_lt(a, a),
    decreases a.len(),
{
    if a.len() > 0 {
        lemma_text_lt_irreflexive(a.drop_first());
    }
}

pub proof fn lemma_text_lt_transitive(a: Seq<char>, b: Seq<char>, c: Seq<char>)
    requires
        text_lt(a, b),
        text_lt(b, c),
    ensures
        text_lt(a, c),
    decreases a.len(),
{
    if a.len() > 0 && b.len() > 0 && c.len() > 0 && a[0] == b[0] && b[0] == c[0] {
        lemma_text_lt_transitive(a.drop_first(), b.drop_first(), c.drop_first());
    }
}

/// Whether `a` sorts before `b`.
pub fn text_less(a: &str, b: &str) -> (r: bool)
    ensures
        r == text_lt(a@, b@),
{
    let va = crate::text::chars_of(a);
    let vb = crate::text::chars_of(b);
    let mut i: usize = 0;
    assert(a@.skip(0) =~= a@);
    assert(b@.skip(0) =~= b@);
    while i < va.len() && i < vb.len() && va[i] == vb[i]
        invariant
            va@ == a@,
            vb@ == b@,
            i <= va@.len(),
            i <= vb@.len(),
            text_lt(a@, b@) == text_lt(a@.skip(i as int), b@.skip(i as int)),
        decreases va@.len() - i,
    {
        assert(a@.skip(i as int).drop_first() =~= a@.skip(i + 1));
        assert(b@.skip(i as int).drop_first() =~= b@.skip(i + 1));
        i = i + 1;
    }
    if i == va.len() {
        i < vb.len()
    } else if i == vb.len() {
        false
    } else {
        (va[i] as u32) < (vb[i] as u32)
    }
}

/// One file's line of the fingerprint: `<path>:<nanos>`.
pub fn signature_line(path: &str, modified_nanos: u128) -> (r: String)
    ensures
        r@ == signature_line_text(path@, modified_nanos as nat),
{
    proof {
        reveal_strlit(":");
    }
    let n = crate::num::u128_to_string(modified_nanos);
    crate::text::concat3(path, ":", n.as_str())
}

proof fn lemma_insert_sorted(s: Seq<Seq<char>>, k: int, x: Seq<char>)
    requires
        sorted_texts(s),
        0 <= k <= s.len(),
        forall|i: int| 0 <= i < k ==> !text_lt(x, #[trigger] s[i]),
        k < s.len() ==> text_lt(x, s[k]),
    ensures
        sorted_texts(s.insert(k, x)),
{
    let t = s.insert(k, x);
    assert forall|i: int, j: int| 0 <= i < j < t.len() implies !text_lt(#[trigger] t[j], #[trigger] t[i]) by {
        if j < k {
            assert(t[i] == s[i] && t[j] == s[j]);
        } else if j == k {
            assert(t[j] == x && t[i] == s[i]);
        } else if i < k {
            assert(t[i] == s[i] && t[j] == s[j - 1]);
        } else if i == k {
            assert(t[i] == x && t[j] == s[j - 1]);
            if text_lt(s[j - 1], x) {
                lemma_text_lt_transitive(s[j - 1], x, s[k]);
                if j - 1 == k {
                    lemma_text_lt_irreflexive(s[k]);
                } else {
                    assert(!text_lt(s[j - 1], s[k]));
                }
            }
        } else {
            assert(t[i] == s[i - 1] && t[j] == s[j - 1]);
        }
    }
}

/// The lines in ascending order.
pub fn sort_lines(lines: &Vec<String>) -> (r: Vec<String>)
    ensures
        r.deep_view().to_multiset() == lines.deep_view().to_multiset(),
        sorted_texts(r.deep_view()),
{
    let ghost lv = lines.deep_view();
    let mut out: Vec<String> = Vec::new();
    let mut i: usize = 0;
    assert(lv.take(0) =~= Seq::<Seq<char>>::empty());
    while i < lines.len()
        invariant
            i <= lines@.len(),
            lv == lines.deep_view(),
            out.deep_view().to_multiset() == lv.take(i as int).to_multiset(),
            sorted_texts(out.deep_view()),
        decreases lines@.len() - i,
    {
        let x = lines[i].clone();
        let ghost ov = out.deep_view();
        let mut k: usize = 0;
        while k < out.len() && !text_less(x.as_str(), out[k].as_str())
            invariant
                k <= out@.len(),
                ov == out.deep_view(),
                forall|j: int| 0 <= j < k ==> !text_lt(x@, #[trigger] ov[j]),
            decreases out@.len() - k,
        {
            k = k + 1;
        }
        proof {
            lemma_insert_sorted(ov, k as int, x@);
        }
        out.insert(k, x);
        assert(out.deep_view() =~= ov.insert(k as int, lines@[i as int]@));
        proof {
            let nv = ov.insert(k as int, lv[i as int]);
            assert(nv.remove(k as int) =~= ov);
            assert(nv[k as int] == lv[i as int]);
            assert(lv.take(i + 1) =~= lv.take(i as int).push(lv[i as int]));
            assert(nv.to_multiset().count(lv[i as int]) > 0) by {
                assert(nv.contains(lv[i as int]));
            }
            assert(nv.to_multiset() =~= ov.to_multiset().insert(lv[i as int]));
        }
        i = i + 1;
    }
    assert(lv.take(lines@.len() as int) =~= lv);
    out
}

/// A cheap fingerprint of the forms directory from its `*.json` files' lines
/// (see [`signature_line`]): the lines in ascending order, joined by
/// newlines.
pub fn dir_signature(lines: &Vec<String>) -> (r: String)
    ensures
        is_signature(lines.deep_view(), r@),
{
    let sorted = sort_lines(lines);
    proof {
        reveal_strlit("\n");
    }
    let r = crate::text::join_strings(&sorted, "\n");
    assert(sorted.deep_view().to_multiset() == lines.deep_view().to_multiset() && sorted_texts(
        sorted.deep_view(),
    ) && r@ == join(sorted.deep_view(), "\n"@));
    r
}

/// One tick of the forms watcher: remember the directory's latest signature
/// and say whether the forms must be reloaded, which is when it differs from
/// the one seen before.
pub fn note_signature(last: &mut String, sig: String) -> (reload: bool)
    ensures
        reload == (sig@ != old(last)@),
        final(last)@ == sig@,
{
    let reload = !crate::text::str_eq(last.as_str(), sig.as_str());
    if reload {
        *last = sig;
    }
    reload
}

} // verus!
