//! Sorting a list by a total preorder, as the editor's listings need.
use vstd::prelude::*;
use vstd::multiset::Multiset;

verus! {

/// `le` is a total preorder: any two items compare, and it is transitive.
pub open spec fn is_total_preorder<T>(le: spec_fn(T, T) -> bool) -> bool {
    &&& forall|a: T, b: T| #[trigger] le(a, b) || le(b, a)
    &&& forall|a: T, b: T, c: T| #[trigger] le(a, b) && #[trigger] le(b, c) ==> le(a, c)
}

pub open spec fn sorted_by<T>(s: Seq<T>, le: spec_fn(T, T) -> bool) -> bool {
    forall|i: int, j: int| 0 <= i < j < s.len() ==> le(#[trigger] s[i], #[trigger] s[j])
}

/// The items of `s` that `le` ranks the same as `x` (each comes before the
/// other), in the order they stand in `s`.
pub open spec fn same_rank<T>(s: Seq<T>, x: T, le: spec_fn(T, T) -> bool) -> Seq<T>
    decreases s.len(),
{
    if s.len() == 0 {
        seq![]
    } else if le(s.last(), x) && le(x, s.last()) {
        same_rank(s.drop_last(), x, le).push(s.last())
    } else {
        same_rank(s.drop_last(), x, le)
    }
}

proof fn lemma_same_rank_concat<T>(a: Seq<T>, b: Seq<T>, x: T, le: spec_fn(T, T) -> bool)
    ensures
        same_rank(a + b, x, le) == same_rank(a, x, le) + same_rank(b, x, le),
    decreases b.len(),
{
    if b.len() == 0 {
        assert(a + b =~= a);
        assert(same_rank(a, x, le) + seq![] =~= same_rank(a, x, le));
    } else {
        lemma_same_rank_concat(a, b.drop_last(), x, le);
        assert((a + b).drop_last() =~= a + b.drop_last());
        assert((a + b).last() == b.last());
        assert(same_rank(a, x, le) + same_rank(b.drop_last(), x, le).push(b.last()) =~= (same_rank(a, x, le)
            + same_rank(b.drop_last(), x, le)).push(b.last()));
    }
}

proof fn lemma_same_rank_none<T>(b: Seq<T>, x: T, le: spec_fn(T, T) -> bool)
    requires
        forall|k: int| 0 <= k < b.len() ==> !(le(#[trigger] b[k], x) && le(x, b[k])),
    ensures
        same_rank(b, x, le) == Seq::<T>::empty(),
    decreases b.len(),
{
    if b.len() > 0 {
        lemma_same_rank_none(b.drop_last(), x, le);
        assert(b.last() == b[b.len() - 1]);
    }
}

/// The items of `items` in the order `le` gives (`comes_first` computes `le`),
/// each item placed after those it does not come before.
pub(crate) fn insertion_sort<T, F: Fn(&T, &T) -> bool>(items: Vec<T>, comes_first: F, Ghost(le): Ghost<spec_fn(T, T) -> bool>) -> (r: Vec<T>)
    requires
        is_total_preorder(le),
        forall|a: &T, b: &T| #[trigger] comes_first.requires((a, b)),
        forall|a: &T, b: &T, x: bool| comes_first.ensures((a, b), x) ==> x == le(*a, *b),
    ensures
        sorted_by(r@, le),
        r@.to_multiset() == items@.to_multiset(),
        forall|x: T| #[trigger] same_rank(r@, x, le) == same_rank(items@, x, le),
{
    broadcast use vstd::seq_lib::to_multiset_remove, vstd::seq_lib::to_multiset_insert;

    let ghost input = items@;
    let mut rest = items;
    let mut out: Vec<T> = Vec::new();
    let ghost mut done: int = 0;
    assert(input.skip(0) =~= input);
    assert(out@.to_multiset() =~= Multiset::empty()) by {
        broadcast use vstd::seq_lib::group_to_multiset_ensures, vstd::multiset::group_multiset_properties;
    }
    assert(out@.to_multiset().add(rest@.to_multiset()) =~= input.to_multiset());
    while rest.len() > 0
        invariant
            is_total_preorder(le),
            forall|a: &T, b: &T| #[trigger] comes_first.requires((a, b)),
            forall|a: &T, b: &T, x: bool| comes_first.ensures((a, b), x) ==> x == le(*a, *b),
            sorted_by(out@, le),
            out@.to_multiset().add(rest@.to_multiset()) == input.to_multiset(),
            0 <= done <= input.len(),
            rest@ == input.skip(done),
            forall|y: T| #[trigger] same_rank(out@, y, le) == same_rank(input.take(done), y, le),
        decreases rest.len(),
    {
        let ghost before_rest = rest@;
        let x = rest.remove(0);
        assert(x == input[done]);
        let mut p: usize = 0;
        while p < out.len() && comes_first(&out[p], &x)
            invariant
                is_total_preorder(le),
                forall|a: &T, b: &T| #[trigger] comes_first.requires((a, b)),
                forall|a: &T, b: &T, x: bool| comes_first.ensures((a, b), x) ==> x == le(*a, *b),
                p <= out.len(),
                sorted_by(out@, le),
                forall|k: int| 0 <= k < p ==> le(#[trigger] out@[k], x),
            decreases out.len() - p,
        {
            p += 1;
        }
        let ghost before_out = out@;
        proof {
            if p < out.len() {
                assert(le(before_out[p as int], x) || le(x, before_out[p as int]));
            }
        }
        out.insert(p, x);
        assert forall|i: int, j: int| 0 <= i < j < out@.len() implies le(#[trigger] out@[i], #[trigger] out@[j]) by {
            if j < p {
                assert(out@[i] == before_out[i] && out@[j] == before_out[j]);
            } else if j == p {
                assert(out@[i] == before_out[i]);
            } else if i < p {
                assert(out@[i] == before_out[i] && out@[j] == before_out[j - 1]);
                assert(le(x, before_out[p as int]));
                if j - 1 > p {
                    assert(le(before_out[p as int], before_out[j - 1]));
                    assert(le(x, before_out[j - 1]));
                }
                assert(le(before_out[i], x));
            } else if i == p {
                assert(out@[j] == before_out[j - 1]);
                if j - 1 > p {
                    assert(le(before_out[p as int], before_out[j - 1]));
                }
            } else {
                assert(out@[i] == before_out[i - 1] && out@[j] == before_out[j - 1]);
            }
        }
        proof {
            assert forall|k: int| p <= k < before_out.len() implies !le(#[trigger] before_out[k], x) by {
                if k > p && le(before_out[k], x) {
                    assert(le(before_out[p as int], before_out[k]));
                }
            }
            assert forall|y: T| #[trigger] same_rank(out@, y, le) == same_rank(input.take(done + 1), y, le) by {
                let head = before_out.take(p as int);
                let tail = before_out.skip(p as int);
                assert(before_out =~= head + tail);
                assert(out@ =~= head + seq![x] + tail);
                lemma_same_rank_concat(head, tail, y, le);
                lemma_same_rank_concat(head + seq![x], tail, y, le);
                lemma_same_rank_concat(head, seq![x], y, le);
                assert(seq![x].drop_last() =~= Seq::<T>::empty());
                assert(input.take(done + 1).drop_last() =~= input.take(done));
                assert(input.take(done + 1).last() == x);
                assert(same_rank(before_out, y, le) == same_rank(input.take(done), y, le));
                assert(seq![x].last() == x);
                assert(same_rank(seq![x].drop_last(), y, le) == Seq::<T>::empty());
                assert(Seq::<T>::empty().push(x) =~= seq![x]);
                assert(same_rank(seq![x], y, le) == (if le(x, y) && le(y, x) {
                    seq![x]
                } else {
                    Seq::<T>::empty()
                }));
                if le(x, y) && le(y, x) {
                    assert forall|k: int| 0 <= k < tail.len() implies !(le(#[trigger] tail[k], y) && le(y, tail[k])) by {
                        assert(tail[k] == before_out[p + k]);
                        if le(tail[k], y) {
                            assert(le(tail[k], x));
                        }
                    }
                    lemma_same_rank_none(tail, y, le);
                    assert(same_rank(head, y, le) + Seq::<T>::empty() =~= same_rank(head, y, le));
                    assert(same_rank(head, y, le) + seq![x] =~= same_rank(head, y, le).push(x));
                } else {
                    assert(same_rank(head, y, le) + Seq::<T>::empty() =~= same_rank(head, y, le));
                }
            }
            assert(rest@ =~= input.skip(done + 1));
            done = done + 1;
        }
        assert(out@.to_multiset().add(rest@.to_multiset()) =~= input.to_multiset()) by {
            broadcast use vstd::seq_lib::group_to_multiset_ensures, vstd::multiset::group_multiset_axioms;

            let a = before_out.to_multiset();
            let b = before_rest.to_multiset();
            assert(before_rest[0] == x);
            assert(out@.to_multiset() == a.insert(x));
            assert(rest@.to_multiset() == b.remove(x));
            assert(before_rest.contains(x));
            assert(b.count(x) > 0);
        }
    }
    assert(rest@.to_multiset() =~= Multiset::empty()) by {
        broadcast use vstd::seq_lib::group_to_multiset_ensures, vstd::multiset::group_multiset_properties;
    }
    assert(out@.to_multiset() =~= input.to_multiset());
    assert(input.take(done) =~= input);
    out
}

/// A list sorted by a total preorder, with the items of another list and
/// the items of each rank in that list's order, is determined: two such
/// lists are equal. So the contract of [`insertion_sort`] pins its result.
pub proof fn law_stable_sort_is_unique<T>(a: Seq<T>, b: Seq<T>, le: spec_fn(T, T) -> bool)
    requires
        is_total_preorder(le),
        sorted_by(a, le),
        sorted_by(b, le),
        a.to_multiset() == b.to_multiset(),
        forall|x: T| #[trigger] same_rank(a, x, le) == same_rank(b, x, le),
    ensures
        a == b,
    decreases a.len(),
{
    broadcast use vstd::seq_lib::group_to_multiset_ensures, vstd::multiset::group_multiset_axioms;

    assert(a.len() == a.to_multiset().len());
    assert(b.len() == b.to_multiset().len());
    if a.len() == 0 {
        assert(a =~= b);
    } else {
        let n = a.len() as int;
        let x = a.last();
        let y = b.last();
        assert(a.contains(x)) by {
            assert(a[n - 1] == x);
        }
        assert(b.to_multiset().count(x) > 0);
        assert(b.contains(x));
        assert(b.contains(y)) by {
            assert(b[n - 1] == y);
        }
        assert(a.to_multiset().count(y) > 0);
        assert(a.contains(y));
        let i = choose|i: int| 0 <= i < b.len() && b[i] == x;
        let j = choose|j: int| 0 <= j < a.len() && a[j] == y;
        assert(le(x, y)) by {
            if i < n - 1 {
                assert(le(b[i], b[n - 1]));
            } else {
                assert(le(x, y) || le(y, x));
            }
        }
        assert(le(y, x)) by {
            if j < n - 1 {
                assert(le(a[j], a[n - 1]));
            } else {
                assert(le(x, y) || le(y, x));
            }
        }
        assert(le(x, x)) by {
            assert(le(x, x) || le(x, x));
        }
        assert(same_rank(a, x, le) == same_rank(a.drop_last(), x, le).push(x));
        assert(same_rank(b, x, le) == same_rank(b.drop_last(), x, le).push(y));
        assert(same_rank(a, x, le).last() == x);
        assert(same_rank(b, x, le).last() == y);
        assert(x == y);
        let a2 = a.drop_last();
        let b2 = b.drop_last();
        assert(a.remove(n - 1) =~= a2);
        assert(b.remove(n - 1) =~= b2);
        assert(a2.to_multiset() == a.to_multiset().remove(x));
        assert(b2.to_multiset() == b.to_multiset().remove(y));
        assert forall|z: T| #[trigger] same_rank(a2, z, le) == same_rank(b2, z, le) by {
            assert(same_rank(a, z, le) == same_rank(b, z, le));
            if le(x, z) && le(z, x) {
                assert(same_rank(a, z, le) == same_rank(a2, z, le).push(x));
                assert(same_rank(b, z, le) == same_rank(b2, z, le).push(y));
                assert(same_rank(a2, z, le) =~= same_rank(a, z, le).drop_last());
                assert(same_rank(b2, z, le) =~= same_rank(b, z, le).drop_last());
            }
        }
        assert(sorted_by(a2, le)) by {
            assert forall|p: int, q: int| 0 <= p < q < a2.len() implies le(#[trigger] a2[p], #[trigger] a2[q]) by {
                assert(a2[p] == a[p] && a2[q] == a[q]);
            }
        }
        assert(sorted_by(b2, le)) by {
            assert forall|p: int, q: int| 0 <= p < q < b2.len() implies le(#[trigger] b2[p], #[trigger] b2[q]) by {
                assert(b2[p] == b[p] && b2[q] == b[q]);
            }
        }
        law_stable_sort_is_unique(a2, b2, le);
        assert(a =~= a2.push(x));
        assert(b =~= b2.push(y));
    }
}

} // verus!
