//! Lexicographic order of strings and the newest-first order of image
//! listings.

use vstd::prelude::*;

use crate::models::ImageMetadata;
use crate::text::chars_of;

verus! {

broadcast use vstd::string::group_string_axioms;

/// `a` comes strictly before `b` in lexicographic order of code points,
/// which is also the byte order of their UTF-8 encodings.
pub open spec fn lex_lt(a: Seq<char>, b: Seq<char>) -> bool
    decreases a.len(),
{
    if a.len() == 0 {
        b.len() > 0
    } else if b.len() == 0 {
        false
    } else if a[0] != b[0] {
        a[0] < b[0]
    } else {
        lex_lt(a.drop_first(), b.drop_first())
    }
}

/// Lexicographic order has no two strings before each other, and no string
/// before itself.
pub proof fn lemma_lex_lt_asymmetric(a: Seq<char>, b: Seq<char>)
    ensures
        !(lex_lt(a, b) && lex_lt(b, a)),
        !lex_lt(a, a),
    decreases a.len(),
{
    if a.len() > 0 && b.len() > 0 && a[0] == b[0] {
        lemma_lex_lt_asymmetric(a.drop_first(), b.drop_first());
    }
    if a.len() > 0 {
        lemma_lex_lt_asymmetric(a.drop_first(), a.drop_first());
    }
}

/// Of two different strings, one comes before the other.
pub proof fn lemma_lex_lt_total(a: Seq<char>, b: Seq<char>)
    ensures
        a != b ==> lex_lt(a, b) || lex_lt(b, a),
    decreases a.len(),
{
    if a.len() > 0 && b.len() > 0 && a[0] == b[0] {
        lemma_lex_lt_total(a.drop_first(), b.drop_first());
        if a.drop_first() == b.drop_first() {
            assert(a =~= seq![a[0]] + a.drop_first());
            assert(b =~= seq![b[0]] + b.drop_first());
        }
    }
    if a.len() == 0 && b.len() == 0 {
        assert(a =~= b);
    }
}

/// Lexicographic order is transitive.
pub proof fn lemma_lex_lt_transitive(a: Seq<char>, b: Seq<char>, c: Seq<char>)
    requires
        lex_lt(a, b),
        lex_lt(b, c),
    ensures
        lex_lt(a, c),
    decreases a.len(),
{
    if a.len() > 0 && b.len() > 0 && c.len() > 0 && a[0] == b[0] && b[0] == c[0] {
        lemma_lex_lt_transitive(a.drop_first(), b.drop_first(), c.drop_first());
    }
}

proof fn lemma_lex_lt_skip(a: Seq<char>, b: Seq<char>, k: int)
    requires
        0 <= k < a.len(),
        k < b.len(),
        a[k] == b[k],
    ensures
        lex_lt(a.skip(k), b.skip(k)) == lex_lt(a.skip(k + 1), b.skip(k + 1)),
{
    assert(a.skip(k).drop_first() =~= a.skip(k + 1));
    assert(b.skip(k).drop_first() =~= b.skip(k + 1));
}

/// Whether `a` comes strictly before `b` in lexicographic order.
pub fn str_lex_lt(a: &str, b: &str) -> (r: bool)
    ensures
        r == lex_lt(a@, b@),
{
    let av = chars_of(a);
    let bv = chars_of(b);
    let mut k: usize = 0;
    assert(a@.skip(0) =~= a@);
    assert(b@.skip(0) =~= b@);
    while k < av.len() && k < bv.len()
        invariant
            av@ == a@,
            bv@ == b@,
            k <= av@.len(),
            k <= bv@.len(),
            lex_lt(a@, b@) == lex_lt(a@.skip(k as int), b@.skip(k as int)),
        decreases av@.len() - k,
    {
        if av[k] != bv[k] {
            let r = av[k] < bv[k];
            assert(a@.skip(k as int)[0] == av@[k as int]);
            assert(b@.skip(k as int)[0] == bv@[k as int]);
            return r;
        }
        proof {
            lemma_lex_lt_skip(a@, b@, k as int);
        }
        k = k + 1;
    }
    k == av.len() && k < bv.len()
}

/// The creation time of an image, the key of listing order.
pub open spec fn created_key(m: ImageMetadata) -> Seq<char> {
    m.created_at@
}

/// `r` lists the items of `v` newest first, and items created at the same
/// time in their original order: `p` tells where each item of `r` stood in
/// `v`.
pub open spec fn is_newest_first_of(r: Seq<ImageMetadata>, v: Seq<ImageMetadata>, p: Seq<int>) -> bool {
    &&& r.len() == v.len()
    &&& p.len() == v.len()
    &&& forall|k: int| 0 <= k < r.len() ==> 0 <= #[trigger] p[k] < v.len() && r[k] == v[p[k]]
    &&& forall|k: int, l: int| 0 <= k < l < r.len() ==> #[trigger] p[k] != #[trigger] p[l]
    &&& forall|k: int, l: int|
        0 <= k < l < r.len() ==> !lex_lt(created_key(#[trigger] r[k]), created_key(#[trigger] r[l]))
    &&& forall|k: int, l: int|
        0 <= k < l < r.len() && created_key(#[trigger] r[k]) == created_key(#[trigger] r[l])
            ==> p[k] < p[l]
}

/// Sort image metadata by creation time, newest first; the sort is stable.
pub fn sort_newest_first(v: Vec<ImageMetadata>) -> (r: Vec<ImageMetadata>)
    ensures
        exists|p: Seq<int>| is_newest_first_of(r@, v@, p),
{
    let ghost orig = v@;
    let mut rest = v;
    let mut r: Vec<ImageMetadata> = Vec::new();
    let ghost mut p: Seq<int> = Seq::empty();
    let n = rest.len();
    let mut i: usize = 0;
    while i < n
        invariant
            n == orig.len(),
            i <= n,
            rest@ == orig.skip(i as int),
            r@.len() == i,
            p.len() == i,
            forall|k: int| 0 <= k < i ==> 0 <= #[trigger] p[k] < i && r@[k] == orig[p[k]],
            forall|k: int, l: int| 0 <= k < l < i ==> #[trigger] p[k] != #[trigger] p[l],
            forall|k: int, l: int|
                0 <= k < l < i ==> !lex_lt(created_key(#[trigger] r@[k]), created_key(#[trigger] r@[l])),
            forall|k: int, l: int|
                0 <= k < l < i && created_key(#[trigger] r@[k]) == created_key(#[trigger] r@[l])
                    ==> p[k] < p[l],
        decreases n - i,
    {
        let x = rest.remove(0);
        assert(x == orig[i as int]);
        assert(rest@ =~= orig.skip(i + 1));
        // Find the first item created strictly before `x`.
        let mut pos: usize = 0;
        while pos < r.len() && !str_lex_lt(r[pos].created_at.as_str(), x.created_at.as_str())
            invariant
                pos <= r@.len(),
                forall|k: int| 0 <= k < pos ==> !lex_lt(created_key(#[trigger] r@[k]), created_key(x)),
            decreases r@.len() - pos,
        {
            pos = pos + 1;
        }
        let ghost old_r = r@;
        let ghost old_p = p;
        r.insert(pos, x);
        proof {
            p = old_p.take(pos as int).push(i as int) + old_p.skip(pos as int);
            assert(r@ =~= old_r.take(pos as int).push(x) + old_r.skip(pos as int));
            assert forall|k: int| 0 <= k < i + 1 implies 0 <= #[trigger] p[k] < i + 1 && r@[k]
                == orig[p[k]] by {
                if k < pos {
                    assert(p[k] == old_p[k]);
                    assert(r@[k] == old_r[k]);
                } else if k > pos {
                    assert(p[k] == old_p[k - 1]);
                    assert(r@[k] == old_r[k - 1]);
                }
            }
            assert forall|k: int, l: int| 0 <= k < l < i + 1 implies #[trigger] p[k]
                != #[trigger] p[l] by {
                if k < pos && l < pos {
                    assert(p[k] == old_p[k] && p[l] == old_p[l]);
                } else if k < pos && l > pos {
                    assert(p[k] == old_p[k] && p[l] == old_p[l - 1]);
                } else if k > pos && l > pos {
                    assert(p[k] == old_p[k - 1] && p[l] == old_p[l - 1]);
                } else if k == pos {
                    assert(p[l] == old_p[l - 1]);
                } else {
                    assert(p[k] == old_p[k]);
                }
            }
            // Items after `pos` were created strictly before `x`.
            assert forall|k: int| pos <= k < old_r.len() implies lex_lt(
                created_key(#[trigger] old_r[k]),
                created_key(x),
            ) by {
                assert(lex_lt(created_key(old_r[pos as int]), created_key(x)));
                if k > pos {
                    lemma_lex_lt_asymmetric(created_key(old_r[pos as int]), created_key(old_r[k]));
                    lemma_lex_lt_total(created_key(old_r[pos as int]), created_key(old_r[k]));
                    if created_key(old_r[pos as int]) != created_key(old_r[k]) {
                        lemma_lex_lt_transitive(
                            created_key(old_r[k]),
                            created_key(old_r[pos as int]),
                            created_key(x),
                        );
                    }
                }
            }
            assert forall|k: int, l: int| 0 <= k < l < i + 1 implies !lex_lt(
                created_key(#[trigger] r@[k]),
                created_key(#[trigger] r@[l]),
            ) by {
                if k < pos && l < pos {
                    assert(r@[k] == old_r[k] && r@[l] == old_r[l]);
                } else if k < pos && l == pos {
                    assert(r@[k] == old_r[k]);
                } else if k < pos && l > pos {
                    assert(r@[k] == old_r[k] && r@[l] == old_r[l - 1]);
                } else if k == pos {
                    assert(r@[l] == old_r[l - 1]);
                    lemma_lex_lt_asymmetric(created_key(old_r[l - 1]), created_key(x));
                } else {
                    assert(r@[k] == old_r[k - 1] && r@[l] == old_r[l - 1]);
                }
            }
            assert forall|k: int, l: int|
                0 <= k < l < i + 1 && created_key(#[trigger] r@[k]) == created_key(
                    #[trigger] r@[l],
                ) implies p[k] < p[l] by {
                if k < pos && l < pos {
                    assert(r@[k] == old_r[k] && r@[l] == old_r[l]);
                    assert(p[k] == old_p[k] && p[l] == old_p[l]);
                } else if k < pos && l == pos {
                    assert(p[k] == old_p[k]);
                } else if k < pos && l > pos {
                    assert(r@[k] == old_r[k] && r@[l] == old_r[l - 1]);
                    assert(p[k] == old_p[k] && p[l] == old_p[l - 1]);
                } else if k == pos {
                    assert(r@[l] == old_r[l - 1]);
                    lemma_lex_lt_asymmetric(created_key(old_r[l - 1]), created_key(x));
                } else {
                    assert(r@[k] == old_r[k - 1] && r@[l] == old_r[l - 1]);
                    assert(p[k] == old_p[k - 1] && p[l] == old_p[l - 1]);
                }
            }
        }
        i = i + 1;
    }
    assert(is_newest_first_of(r@, orig, p));
    r
}

} // verus!
