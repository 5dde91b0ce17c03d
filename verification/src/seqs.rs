//! Small general lemmas about filtered sequences, used by the list
//! views of the repositories.

use vstd::prelude::*;

verus! {

/// Filtering a pushed element appends it exactly when it passes.
pub proof fn lemma_filter_push<A>(s: Seq<A>, x: A, p: spec_fn(A) -> bool)
    ensures
        p(x) ==> s.push(x).filter(p) == s.filter(p).push(x),
        !p(x) ==> s.push(x).filter(p) == s.filter(p),
{
    reveal(Seq::filter);
    assert(s.push(x).drop_last() =~= s);
    assert(s.push(x).last() == x);
}

/// Every element of a filtered sequence sits somewhere in the original.
pub proof fn lemma_filter_elem<A>(s: Seq<A>, p: spec_fn(A) -> bool, i: int)
    requires
        0 <= i < s.filter(p).len(),
    ensures
        exists|w: int| 0 <= w < s.len() && s[w] == s.filter(p)[i],
    decreases s.len(),
{
    reveal(Seq::filter);
    if s.len() > 0 {
        if p(s.last()) && i == s.filter(p).len() - 1 {
            assert(s[s.len() - 1] == s.filter(p)[i]);
        } else {
            lemma_filter_elem(s.drop_last(), p, i);
            let w = choose|w: int| 0 <= w < s.drop_last().len() && s.drop_last()[w]
                == s.drop_last().filter(p)[i];
            assert(s[w] == s.filter(p)[i]);
        }
    }
}

/// A filtered sequence keeps the pairwise order of the original.
pub proof fn lemma_filter_sorted<A>(s: Seq<A>, p: spec_fn(A) -> bool, le: spec_fn(A, A) -> bool)
    requires
        forall|i: int, j: int| 0 <= i < j < s.len() ==> #[trigger] le(s[i], s[j]),
    ensures
        forall|i: int, j: int| 0 <= i < j < s.filter(p).len() ==> #[trigger] le(
            s.filter(p)[i],
            s.filter(p)[j],
        ),
    decreases s.len(),
{
    reveal(Seq::filter);
    if s.len() > 0 {
        let head = s.drop_last();
        assert forall|i: int, j: int| 0 <= i < j < head.len() implies #[trigger] le(
            head[i],
            head[j],
        ) by {
            assert(head[i] == s[i] && head[j] == s[j]);
        }
        lemma_filter_sorted(head, p, le);
        assert forall|i: int, j: int| 0 <= i < j < s.filter(p).len() implies #[trigger] le(
            s.filter(p)[i],
            s.filter(p)[j],
        ) by {
            if p(s.last()) && j == s.filter(p).len() - 1 {
                assert(s.filter(p)[i] == head.filter(p)[i]);
                lemma_filter_elem(head, p, i);
                let w = choose|w: int| 0 <= w < head.len() && head[w] == head.filter(p)[i];
                assert(head[w] == s[w]);
                assert(le(s[w], s[s.len() - 1]));
                assert(s.filter(p)[j] == s.last());
            } else {
                assert(s.filter(p)[i] == head.filter(p)[i]);
                assert(s.filter(p)[j] == head.filter(p)[j]);
            }
        }
    }
}

/// Elements that pass the predicate appear in the filtered sequence.
pub proof fn lemma_filter_keeps<A>(s: Seq<A>, p: spec_fn(A) -> bool, w: int)
    requires
        0 <= w < s.len(),
        p(s[w]),
    ensures
        s.filter(p).contains(s[w]),
    decreases s.len(),
{
    reveal(Seq::filter);
    if s.len() > 0 {
        if w == s.len() - 1 {
            assert(s.filter(p).last() == s[w]);
        } else {
            lemma_filter_keeps(s.drop_last(), p, w);
            let f = s.drop_last().filter(p);
            let i = choose|i: int| 0 <= i < f.len() && f[i] == s[w];
            assert(s.filter(p)[i] == s[w]);
        }
    }
}

/// A filter that keeps every element changes nothing.
pub proof fn lemma_filter_all_generic<A>(s: Seq<A>, p: spec_fn(A) -> bool)
    requires
        forall|i: int| 0 <= i < s.len() ==> p(#[trigger] s[i]),
    ensures
        s.filter(p) == s,
    decreases s.len(),
{
    reveal(Seq::filter);
    if s.len() > 0 {
        assert forall|i: int| 0 <= i < s.drop_last().len() implies p(
            #[trigger] s.drop_last()[i]) by {
            assert(s.drop_last()[i] == s[i]);
        }
        lemma_filter_all_generic(s.drop_last(), p);
        assert(p(s.last()));
        assert(s.filter(p) =~= s);
    }
}

} // verus!
