//! Ordering of file names: the order of `String`'s `Ord` (code point by
//! code point, which UTF-8 bytes also follow), and a sort by it.
use vstd::prelude::*;

use crate::vm::ssh::views;

verus! {

/// `a` comes before `b`: at the first position where they differ, `a` has
/// the smaller code point, or `a` is a proper prefix of `b`.
pub open spec fn lex_lt(a: Seq<char>, b: Seq<char>) -> bool
    decreases a.len(),
{
    if a.len() == 0 {
        b.len() > 0
    } else if b.len() == 0 {
        false
    } else if a[0] != b[0] {
        (a[0] as u32) < (b[0] as u32)
    } else {
        lex_lt(a.drop_first(), b.drop_first())
    }
}

/// `a` does not come after `b`.
pub open spec fn lex_le(a: Seq<char>, b: Seq<char>) -> bool {
    !lex_lt(b, a)
}

/// The order is transitive.
pub proof fn lemma_lex_lt_trans(a: Seq<char>, b: Seq<char>, c: Seq<char>)
    requires
        lex_lt(a, b),
        lex_lt(b, c),
    ensures
        lex_lt(a, c),
    decreases a.len(),
{
    if a.len() > 0 && b.len() > 0 && c.len() > 0 && a[0] == b[0] && b[0] == c[0] {
        lemma_lex_lt_trans(a.drop_first(), b.drop_first(), c.drop_first());
    }
}

/// The order is irreflexive.
pub proof fn lemma_lex_lt_irrefl(a: Seq<char>)
    ensures
        !lex_lt(a, a),
    decreases a.len(),
{
    if a.len() > 0 {
        lemma_lex_lt_irrefl(a.drop_first());
    }
}

/// Compares two texts by [`lex_lt`].
pub fn text_lt(a: &str, b: &str) -> (r: bool)
    ensures
        r == lex_lt(a@, b@),
{
    let x = crate::text::chars_of(a);
    let y = crate::text::chars_of(b);
    let mut i: usize = 0;
    assert(x@.skip(0) =~= x@);
    assert(y@.skip(0) =~= y@);
    while i < x.len() && i < y.len() && x[i] == y[i]
        invariant
            i <= x.len(),
            i <= y.len(),
            x@ == a@,
            y@ == b@,
            lex_lt(x@.skip(i as int), y@.skip(i as int)) == lex_lt(a@, b@),
        decreases x.len() - i,
    {
        assert(x@.skip(i as int).drop_first() =~= x@.skip(i + 1));
        assert(y@.skip(i as int).drop_first() =~= y@.skip(i + 1));
        i += 1;
    }
    assert(x@.skip(i as int).len() == x.len() - i);
    if i < x.len() && i < y.len() {
        assert(x@.skip(i as int)[0] == x@[i as int]);
        assert(y@.skip(i as int)[0] == y@[i as int]);
        (x[i] as u32) < (y[i] as u32)
    } else {
        i == x.len() && i < y.len()
    }
}

/// Texts in order.
pub open spec fn sorted(s: Seq<Seq<char>>) -> bool {
    forall|i: int, j: int| 0 <= i < j < s.len() ==> lex_le(#[trigger] s[i], #[trigger] s[j])
}

/// Sorts texts in the order of [`lex_lt`] (as `sort` does on strings):
/// the result is in order and holds the same texts, as often.
pub fn sort_names(v: Vec<String>) -> (r: Vec<String>)
    ensures
        sorted(views(r@)),
        views(r@).to_multiset() == views(v@).to_multiset(),
{
    let ghost input = views(v@);
    let mut out: Vec<String> = Vec::new();
    let mut k: usize = 0;
    assert(views(out@) =~= input.take(0));
    while k < v.len()
        invariant
            k <= v@.len(),
            input == views(v@),
            sorted(views(out@)),
            views(out@).to_multiset() == input.take(k as int).to_multiset(),
        decreases v@.len() - k,
    {
        let x = &v[k];
        let ghost o = views(out@);
        let mut p: usize = 0;
        while p < out.len() && !text_lt(x.as_str(), out[p].as_str())
            invariant
                p <= out@.len(),
                o == views(out@),
                forall|q: int| 0 <= q < p ==> !lex_lt(x@, #[trigger] o[q]),
            decreases out@.len() - p,
        {
            assert(o[p as int] == out@[p as int]@);
            p += 1;
        }
        proof {
            if p < out@.len() {
                assert(o[p as int] == out@[p as int]@);
            }
        }
        out.insert(p, x.clone());
        let ghost n = views(out@);
        assert(n =~= o.insert(p as int, x@));
        proof {
            assert forall|i: int, j: int| 0 <= i < j < n.len() implies lex_le(#[trigger] n[i], #[trigger] n[j]) by {
                if j < p {
                    assert(n[i] == o[i] && n[j] == o[j]);
                } else if j == p {
                    assert(n[i] == o[i]);
                    assert(!lex_lt(x@, o[i]));
                } else if i == p {
                    assert(n[j] == o[j - 1]);
                    assert(lex_lt(x@, o[p as int]));
                    if lex_lt(o[j - 1], x@) {
                        lemma_lex_lt_trans(o[j - 1], x@, o[p as int]);
                        if j - 1 > p {
                            assert(lex_le(o[p as int], o[j - 1]));
                        } else {
                            lemma_lex_lt_irrefl(o[p as int]);
                        }
                    }
                } else if i < p {
                    assert(n[i] == o[i] && n[j] == o[j - 1]);
                } else {
                    assert(n[i] == o[i - 1] && n[j] == o[j - 1]);
                }
            }
            let left = o.take(p as int);
            let right = o.skip(p as int);
            assert(n =~= left + seq![x@] + right);
            assert(o =~= left + right);
            vstd::seq_lib::lemma_multiset_commutative(left + seq![x@], right);
            vstd::seq_lib::lemma_multiset_commutative(left, seq![x@]);
            vstd::seq_lib::lemma_multiset_commutative(left, right);
            assert(seq![x@].to_multiset() =~= vstd::multiset::Multiset::empty().insert(x@)) by {
                broadcast use vstd::seq_lib::group_to_multiset_ensures;
                assert(seq![x@] =~= Seq::<Seq<char>>::empty().push(x@));
            }
            assert(input.take(k + 1) =~= input.take(k as int).push(x@));
            broadcast use vstd::seq_lib::group_to_multiset_ensures;
            assert(n.to_multiset() =~= o.to_multiset().insert(x@));
        }
        k += 1;
    }
    assert(input.take(v@.len() as int) =~= input);
    out
}

} // verus!
