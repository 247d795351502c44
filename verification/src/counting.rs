//! Counting and selecting the items of a sequence that meet a condition.
use vstd::prelude::*;

verus! {

/// How many items of `s` meet `p`.
pub open spec fn count_if<A>(s: Seq<A>, p: spec_fn(A) -> bool) -> nat
    decreases s.len(),
{
    if s.len() == 0 {
        0
    } else {
        count_if(s.drop_last(), p) + if p(s.last()) {
            1nat
        } else {
            0nat
        }
    }
}

/// One more item.
pub(crate) proof fn lemma_count_take<A>(s: Seq<A>, p: spec_fn(A) -> bool, i: int)
    requires
        0 <= i < s.len(),
    ensures
        count_if(s.take(i + 1), p) == count_if(s.take(i), p) + if p(s[i]) {
            1nat
        } else {
            0nat
        },
{
    assert(s.take(i + 1).drop_last() =~= s.take(i));
    assert(s.take(i + 1).last() == s[i]);
}

/// No more items are counted than there are.
pub(crate) proof fn lemma_count_bound<A>(s: Seq<A>, p: spec_fn(A) -> bool)
    ensures
        count_if(s, p) <= s.len(),
    decreases s.len(),
{
    if s.len() > 0 {
        lemma_count_bound(s.drop_last(), p);
    }
}

/// Replacing one item changes the count by that item alone.
pub(crate) proof fn lemma_count_update<A>(s: Seq<A>, p: spec_fn(A) -> bool, i: int, x: A)
    requires
        0 <= i < s.len(),
    ensures
        count_if(s.update(i, x), p) + (if p(s[i]) {
            1nat
        } else {
            0nat
        }) == count_if(s, p) + (if p(x) {
            1nat
        } else {
            0nat
        }),
    decreases s.len(),
{
    if i == s.len() - 1 {
        assert(s.update(i, x).drop_last() =~= s.drop_last());
    } else {
        lemma_count_update(s.drop_last(), p, i, x);
        assert(s.update(i, x).drop_last() =~= s.drop_last().update(i, x));
        assert(s.update(i, x).last() == s.last());
    }
}

/// Two conditions that no item meets at once do not count more than all items.
pub(crate) proof fn lemma_count_disjoint<A>(s: Seq<A>, p: spec_fn(A) -> bool, q: spec_fn(A) -> bool)
    requires
        forall|i: int| 0 <= i < s.len() ==> !(#[trigger] p(s[i]) && q(s[i])),
    ensures
        count_if(s, p) + count_if(s, q) <= s.len(),
    decreases s.len(),
{
    if s.len() > 0 {
        let n = s.len() - 1;
        assert(!(p(s[n]) && q(s[n])));
        assert forall|i: int| 0 <= i < s.drop_last().len() implies !(#[trigger] p(s.drop_last()[i])
            && q(s.drop_last()[i])) by {
            assert(!(p(s[i]) && q(s[i])));
        }
        lemma_count_disjoint(s.drop_last(), p, q);
    }
}

/// A condition that every item meets selects all of them.
pub(crate) proof fn lemma_filter_all<A>(s: Seq<A>, p: spec_fn(A) -> bool)
    requires
        forall|i: int| 0 <= i < s.len() ==> #[trigger] p(s[i]),
    ensures
        s.filter(p) == s,
    decreases s.len(),
{
    reveal(Seq::filter);
    if s.len() > 0 {
        let n = s.len() - 1;
        assert(p(s[n]));
        assert forall|i: int| 0 <= i < s.drop_last().len() implies #[trigger] p(
            s.drop_last()[i],
        ) by {
            assert(p(s[i]));
        }
        lemma_filter_all(s.drop_last(), p);
        assert(s.drop_last().push(s.last()) =~= s);
    }
}

/// What `f` makes of the items of `s` that meet `p`, in order.
pub open spec fn select<A, B>(
    s: Seq<A>,
    p: spec_fn(A) -> bool,
    f: spec_fn(A) -> B,
) -> Seq<B> {
    s.filter(p).map_values(f)
}

/// No item selects nothing.
pub(crate) proof fn lemma_select_none<A, B>(s: Seq<A>, p: spec_fn(A) -> bool, f: spec_fn(A) -> B)
    ensures
        select(s.take(0), p, f) == Seq::<B>::empty(),
{
    reveal(Seq::filter);
    assert(s.take(0) =~= Seq::<A>::empty());
    assert(select(s.take(0), p, f) =~= Seq::<B>::empty());
}

/// One more item.
pub(crate) proof fn lemma_select_take<A, B>(
    s: Seq<A>,
    p: spec_fn(A) -> bool,
    f: spec_fn(A) -> B,
    i: int,
)
    requires
        0 <= i < s.len(),
    ensures
        select(s.take(i + 1), p, f) == if p(s[i]) {
            select(s.take(i), p, f).push(f(s[i]))
        } else {
            select(s.take(i), p, f)
        },
{
    reveal(Seq::filter);
    assert(s.take(i + 1).drop_last() =~= s.take(i));
    assert(s.take(i + 1).last() == s[i]);
    assert(select(s.take(i + 1), p, f) =~= if p(s[i]) {
        select(s.take(i), p, f).push(f(s[i]))
    } else {
        select(s.take(i), p, f)
    });
}

/// One item added at the end.
pub(crate) proof fn lemma_select_push<A, B>(
    s: Seq<A>,
    x: A,
    p: spec_fn(A) -> bool,
    f: spec_fn(A) -> B,
)
    ensures
        select(s.push(x), p, f) == if p(x) {
            select(s, p, f).push(f(x))
        } else {
            select(s, p, f)
        },
{
    lemma_select_take(s.push(x), p, f, s.len() as int);
    assert(s.push(x).take(s.len() as int) =~= s);
    assert(s.push(x).take(s.len() as int + 1) =~= s.push(x));
}

} // verus!
