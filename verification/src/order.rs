//! Stable sorting, as a specification: what it is to put a sequence in
//! order, and what follows from it.
use vstd::prelude::*;

verus! {

/// The relation is total and transitive.
pub open spec fn total_preorder<T>(le: spec_fn(T, T) -> bool) -> bool {
    &&& forall|a: T, b: T| #[trigger] le(a, b) || le(b, a)
    &&& forall|a: T, b: T, c: T| #[trigger] le(a, b) && #[trigger] le(b, c) ==> le(a, c)
}

/// The sequence `sorted` with `x` put behind the last element that does not
/// come after `x`.
pub open spec fn insert_le<T>(sorted: Seq<T>, x: T, le: spec_fn(T, T) -> bool) -> Seq<T>
    decreases sorted.len(),
{
    if sorted.len() == 0 {
        seq![x]
    } else if le(sorted.last(), x) {
        sorted.push(x)
    } else {
        insert_le(sorted.drop_last(), x, le).push(sorted.last())
    }
}

/// The elements of `s` in the order of `le`; elements that `le` does not
/// tell apart keep the order that they have in `s`.
pub open spec fn sort_le<T>(s: Seq<T>, le: spec_fn(T, T) -> bool) -> Seq<T>
    decreases s.len(),
{
    if s.len() == 0 {
        s
    } else {
        insert_le(sort_le(s.drop_last(), le), s.last(), le)
    }
}

/// No element of `s` comes after a later one.
pub open spec fn ascending_le<T>(s: Seq<T>, le: spec_fn(T, T) -> bool) -> bool {
    forall|i: int, j: int| 0 <= i < j < s.len() ==> le(s[i], s[j])
}

/// Where the elements from `k` on come after `x` and the one before `k` does
/// not, `x` is put at position `k`.
pub proof fn lemma_insert_le_position<T>(s: Seq<T>, x: T, le: spec_fn(T, T) -> bool, k: int)
    requires
        0 <= k <= s.len(),
        forall|j: int| k <= j < s.len() ==> !le(s[j], x),
        k > 0 ==> le(s[k - 1], x),
    ensures
        insert_le(s, x, le) == s.insert(k, x),
    decreases s.len() - k,
{
    if k == s.len() {
        assert(s.insert(k, x) =~= s.push(x));
        assert(seq![x] =~= Seq::<T>::empty().push(x));
    } else {
        lemma_insert_le_position(s.drop_last(), x, le, k);
        assert(s.drop_last().insert(k, x).push(s.last()) =~= s.insert(k, x));
    }
}

/// Putting an element into a sequence adds the element and loses none; and
/// where the sequence is in the order of a total and transitive relation, so
/// is the result.
pub proof fn lemma_insert_le<T>(s: Seq<T>, x: T, le: spec_fn(T, T) -> bool)
    ensures
        insert_le(s, x, le).to_multiset() == s.to_multiset().insert(x),
        insert_le(s, x, le).len() == s.len() + 1,
        total_preorder(le) && ascending_le(s, le) ==> ascending_le(insert_le(s, x, le), le),
    decreases s.len(),
{
    broadcast use vstd::seq_lib::group_to_multiset_ensures;

    if s.len() == 0 {
        assert(seq![x] =~= s.push(x));
    } else if le(s.last(), x) {
        if total_preorder(le) && ascending_le(s, le) {
            let r = s.push(x);
            assert forall|i: int, j: int| 0 <= i < j < r.len() implies le(r[i], r[j]) by {
                if j == s.len() && i < s.len() - 1 {
                    assert(le(s[i], s[s.len() - 1]));
                }
            }
        }
    } else {
        let head = s.drop_last();
        lemma_insert_le(head, x, le);
        let t = insert_le(head, x, le);
        assert(s =~= head.push(s.last()));
        assert(t.push(s.last()).to_multiset() =~= s.to_multiset().insert(x));
        if total_preorder(le) && ascending_le(s, le) {
            assert(ascending_le(head, le)) by {
                assert forall|i: int, j: int| 0 <= i < j < head.len() implies le(
                    head[i],
                    head[j],
                ) by {
                    assert(head[i] == s[i] && head[j] == s[j]);
                }
            }
            let r = t.push(s.last());
            assert forall|i: int, j: int| 0 <= i < j < r.len() implies le(r[i], r[j]) by {
                if j == t.len() {
                    assert(t.to_multiset().count(t[i]) > 0);
                    if t[i] != x {
                        assert(head.to_multiset().count(t[i]) > 0);
                        let w = choose|w: int| 0 <= w < head.len() && head[w] == t[i];
                        assert(le(s[w], s[s.len() - 1]));
                    } else {
                        assert(le(s.last(), x) || le(x, s.last()));
                    }
                } else {
                    assert(le(t[i], t[j]));
                }
            }
        }
    }
}

/// What [`sort_le`] returns holds exactly the elements of its argument, each
/// as often as the argument does; and it is in the order of the relation
/// where that is total and transitive.
pub proof fn lemma_sort_le<T>(s: Seq<T>, le: spec_fn(T, T) -> bool)
    ensures
        sort_le(s, le).to_multiset() == s.to_multiset(),
        sort_le(s, le).len() == s.len(),
        total_preorder(le) ==> ascending_le(sort_le(s, le), le),
    decreases s.len(),
{
    broadcast use vstd::seq_lib::group_to_multiset_ensures;

    if s.len() > 0 {
        lemma_sort_le(s.drop_last(), le);
        lemma_insert_le(sort_le(s.drop_last(), le), s.last(), le);
        assert(s =~= s.drop_last().push(s.last()));
    }
}

/// The order of a cost: what costs less comes first.
pub open spec fn by_cost<T>(cost: spec_fn(T) -> int) -> spec_fn(T, T) -> bool {
    |a: T, b: T| cost(a) <= cost(b)
}

/// The sequence `sorted` with `x` put behind the last element that costs no
/// more than `x`.
pub open spec fn insert_by<T>(sorted: Seq<T>, x: T, cost: spec_fn(T) -> int) -> Seq<T> {
    insert_le(sorted, x, by_cost(cost))
}

/// The elements of `s` in ascending order of cost; elements of equal cost
/// keep the order that they have in `s`.
pub open spec fn sort_by<T>(s: Seq<T>, cost: spec_fn(T) -> int) -> Seq<T> {
    sort_le(s, by_cost(cost))
}

/// The costs along `s` never fall.
pub open spec fn ascending<T>(s: Seq<T>, cost: spec_fn(T) -> int) -> bool {
    forall|i: int, j: int| 0 <= i <= j < s.len() ==> cost(s[i]) <= cost(s[j])
}

/// Where the elements from `k` on cost more than `x` and the one before `k`
/// does not, `x` is put at position `k`.
pub proof fn lemma_insert_position<T>(s: Seq<T>, x: T, cost: spec_fn(T) -> int, k: int)
    requires
        0 <= k <= s.len(),
        forall|j: int| k <= j < s.len() ==> cost(s[j]) > cost(x),
        k > 0 ==> cost(s[k - 1]) <= cost(x),
    ensures
        insert_by(s, x, cost) == s.insert(k, x),
{
    lemma_insert_le_position(s, x, by_cost(cost), k);
}

/// What [`sort_by`] returns is in ascending order of cost and holds exactly
/// the elements of its argument, each as often as the argument does.
pub proof fn lemma_sort_by<T>(s: Seq<T>, cost: spec_fn(T) -> int)
    ensures
        ascending(sort_by(s, cost), cost),
        sort_by(s, cost).to_multiset() == s.to_multiset(),
        sort_by(s, cost).len() == s.len(),
{
    let le = by_cost(cost);
    assert(total_preorder(le));
    lemma_sort_le(s, le);
    let r = sort_by(s, cost);
    assert forall|i: int, j: int| 0 <= i <= j < r.len() implies cost(r[i]) <= cost(r[j]) by {
        if i < j {
            assert(le(r[i], r[j]));
        }
    }
}

/// Sorting a sequence that is extended by one element puts that element
/// into the sorted sequence.
pub proof fn lemma_sort_by_push<T>(s: Seq<T>, x: T, cost: spec_fn(T) -> int)
    ensures
        sort_by(s.push(x), cost) == insert_by(sort_by(s, cost), x, cost),
{
    assert(s.push(x).drop_last() =~= s);
}

} // verus!
