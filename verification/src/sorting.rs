//! Stable sorting by a key of two numbers, as the batch application needs it:
//! the items are taken out one by one, each time the first of those with the
//! least key.

use vstd::prelude::*;

verus! {

/// A key to sort by: transaction index, then log index.
pub type SortKey = (u64, u64);

/// The order of sort keys.
pub open spec fn key_le(a: SortKey, b: SortKey) -> bool {
    a.0 < b.0 || (a.0 == b.0 && a.1 <= b.1)
}

/// The strict order of sort keys.
pub open spec fn key_lt(a: SortKey, b: SortKey) -> bool {
    a.0 < b.0 || (a.0 == b.0 && a.1 < b.1)
}

/// A type whose values have a sort key.
pub trait SortKeyed: Sized {
    spec fn spec_sort_key(&self) -> SortKey;

    fn sort_key(&self) -> (key: SortKey)
        ensures
            key == self.spec_sort_key(),
    ;
}

/// The index of the first item with the least sort key.
pub open spec fn first_min_index<T: SortKeyed>(items: Seq<T>) -> int
    decreases items.len(),
{
    if items.len() <= 1 {
        0
    } else {
        let j = first_min_index(items.drop_last());
        if key_lt(items.last().spec_sort_key(), items[j].spec_sort_key()) {
            items.len() - 1
        } else {
            j
        }
    }
}

/// The items in the order of their sort keys, items with equal keys in
/// the order in which they came.
pub open spec fn sorted<T: SortKeyed>(items: Seq<T>) -> Seq<T>
    decreases items.len(),
{
    if items.len() == 0 {
        Seq::empty()
    } else {
        let i = first_min_index(items);
        proof {
            lemma_first_min_index(items);
        }
        seq![items[i]] + sorted(items.remove(i))
    }
}

/// The first least item is an item of the list, no item has a smaller
/// key, and every item before it has a greater one.
pub proof fn lemma_first_min_index<T: SortKeyed>(items: Seq<T>)
    requires
        items.len() > 0,
    ensures
        0 <= first_min_index(items) < items.len(),
        forall|k: int|
            0 <= k < items.len() ==> key_le(
                items[first_min_index(items)].spec_sort_key(),
                #[trigger] items[k].spec_sort_key(),
            ),
        forall|k: int|
            0 <= k < first_min_index(items) ==> key_lt(
                items[first_min_index(items)].spec_sort_key(),
                #[trigger] items[k].spec_sort_key(),
            ),
    decreases items.len(),
{
    if items.len() > 1 {
        let front = items.drop_last();
        lemma_first_min_index(front);
        let j = first_min_index(front);
        assert(front[j] == items[j]);
        assert forall|k: int| 0 <= k < items.len() implies key_le(
            items[first_min_index(items)].spec_sort_key(),
            #[trigger] items[k].spec_sort_key(),
        ) by {
            if k < items.len() - 1 {
                assert(front[k] == items[k]);
            }
        }
        assert forall|k: int| 0 <= k < first_min_index(items) implies key_lt(
            items[first_min_index(items)].spec_sort_key(),
            #[trigger] items[k].spec_sort_key(),
        ) by {
            if k < items.len() - 1 {
                assert(front[k] == items[k]);
            }
        }
    }
}

/// A list of one item is sorted as it stands.
pub proof fn lemma_sorted_single<T: SortKeyed>(item: T)
    ensures
        sorted(seq![item]) == seq![item],
{
    let items = seq![item];
    assert(first_min_index(items) == 0);
    assert(items.remove(0) =~= Seq::<T>::empty());
    assert(sorted(items.remove(0)) =~= Seq::<T>::empty());
    assert(sorted(items) =~= seq![items[0]] + sorted(items.remove(0)));
    assert(sorted(items) =~= items);
}

/// True when no two items of a list have the same sort key.
pub open spec fn distinct_sort_keys<T: SortKeyed>(items: Seq<T>) -> bool {
    forall|i: int, j: int|
        0 <= i < items.len() && 0 <= j < items.len() && i != j ==> items[i].spec_sort_key()
            != items[j].spec_sort_key()
}

/// Sorting rearranges: the sorted list holds the items of the batch, each
/// as often as the batch does.
pub proof fn lemma_sorted_is_permutation<T: SortKeyed>(items: Seq<T>)
    ensures
        sorted(items).to_multiset() == items.to_multiset(),
        sorted(items).len() == items.len(),
    decreases items.len(),
{
    broadcast use vstd::multiset::group_multiset_axioms;

    if items.len() == 0 {
        assert(sorted(items) =~= items);
    } else {
        lemma_first_min_index(items);
        let i = first_min_index(items);
        let rest = sorted(items.remove(i));
        lemma_sorted_is_permutation(items.remove(i));
        vstd::seq_lib::to_multiset_remove(items, i);
        vstd::seq_lib::to_multiset_insert(rest, 0, items[i]);
        assert(rest.insert(0, items[i]) =~= seq![items[i]] + rest);
        vstd::seq_lib::to_multiset_contains(items, items[i]);
        assert(items.contains(items[i]));
        assert(items.to_multiset().remove(items[i]).insert(items[i])
            =~= items.to_multiset());
    }
}

/// Every item of the sorted list is an item of the batch.
pub proof fn lemma_sorted_members<T: SortKeyed>(items: Seq<T>, j: int)
    requires
        0 <= j < sorted(items).len(),
    ensures
        items.contains(sorted(items)[j]),
{
    let all = sorted(items);
    lemma_sorted_is_permutation(items);
    vstd::seq_lib::to_multiset_contains(all, all[j]);
    vstd::seq_lib::to_multiset_contains(items, all[j]);
    assert(all.contains(all[j]));
}

/// The sorted list is in the order of the sort keys: the events of a block
/// come in the order of the chain, and every other item after them.
pub proof fn lemma_sorted_is_ordered<T: SortKeyed>(items: Seq<T>, i: int, j: int)
    requires
        0 <= i <= j < sorted(items).len(),
    ensures
        key_le(
            sorted(items)[i].spec_sort_key(),
            sorted(items)[j].spec_sort_key(),
        ),
    decreases items.len(),
{
    lemma_sorted_is_permutation(items);
    if items.len() > 0 && i < j {
        lemma_first_min_index(items);
        let m = first_min_index(items);
        let rest = items.remove(m);
        let all = sorted(items);
        assert(all[j] == sorted(rest)[j - 1]);
        if i == 0 {
            lemma_sorted_is_permutation(rest);
            lemma_sorted_members(rest, j - 1);
            let k = choose|k: int| 0 <= k < rest.len() && rest[k] == sorted(rest)[j - 1];
            assert(rest[k] == items[if k < m {
                k
            } else {
                k + 1
            }]);
        } else {
            assert(all[i] == sorted(rest)[i - 1]);
            lemma_sorted_is_ordered(rest, i - 1, j - 1);
        }
    }
}

/// A batch whose sort keys differ has one sorted order, whatever the order in
/// which its items came.
pub proof fn lemma_sorted_of_permutation<T: SortKeyed>(
    a: Seq<T>,
    b: Seq<T>,
)
    requires
        a.to_multiset() == b.to_multiset(),
        distinct_sort_keys(a),
    ensures
        sorted(a) == sorted(b),
    decreases a.len(),
{
    vstd::seq_lib::to_multiset_len(a);
    vstd::seq_lib::to_multiset_len(b);
    if a.len() > 0 {
        lemma_first_min_index(a);
        lemma_first_min_index(b);
        let ia = first_min_index(a);
        let ib = first_min_index(b);
        vstd::seq_lib::to_multiset_contains(b, b[ib]);
        vstd::seq_lib::to_multiset_contains(a, b[ib]);
        assert(b.contains(b[ib]));
        let k = choose|k: int| 0 <= k < a.len() && a[k] == b[ib];
        vstd::seq_lib::to_multiset_contains(a, a[ia]);
        vstd::seq_lib::to_multiset_contains(b, a[ia]);
        assert(a.contains(a[ia]));
        let k2 = choose|k2: int| 0 <= k2 < b.len() && b[k2] == a[ia];
        assert(key_le(a[ia].spec_sort_key(), a[k].spec_sort_key()));
        assert(key_le(b[ib].spec_sort_key(), b[k2].spec_sort_key()));
        assert(a[k].spec_sort_key() == a[ia].spec_sort_key());
        assert(k == ia);
        assert(a[ia] == b[ib]);
        vstd::seq_lib::to_multiset_remove(a, ia);
        vstd::seq_lib::to_multiset_remove(b, ib);
        let ra = a.remove(ia);
        assert forall|i: int, j: int|
            0 <= i < ra.len() && 0 <= j < ra.len() && i != j implies ra[i].spec_sort_key()
            != ra[j].spec_sort_key() by {
            let si = if i < ia {
                i
            } else {
                i + 1
            };
            let sj = if j < ia {
                j
            } else {
                j + 1
            };
            assert(ra[i] == a[si] && ra[j] == a[sj]);
        }
        lemma_sorted_of_permutation(ra, b.remove(ib));
    } else {
        assert(b.len() == 0);
    }
}

/// The index of the first item with the least sort key.
pub fn index_of_first_min<T: SortKeyed>(items: &Vec<T>) -> (r: usize)
    requires
        items.len() > 0,
    ensures
        r == first_min_index(items@),
        r < items.len(),
{
    let mut best: usize = 0;
    let mut best_key: SortKey = items[0].sort_key();
    let mut i: usize = 1;
    proof {
        assert(items@.take(1).len() == 1);
    }
    while i < items.len()
        invariant
            1 <= i <= items.len(),
            best < i,
            best == first_min_index(items@.take(i as int)),
            best_key == items@[best as int].spec_sort_key(),
        decreases items.len() - i,
    {
        let key: SortKey = items[i].sort_key();
        proof {
            let next = items@.take(i + 1);
            assert(next.drop_last() =~= items@.take(i as int));
            assert(next.last() == items@[i as int]);
            assert(next[best as int] == items@[best as int]);
        }
        if key.0 < best_key.0 || (key.0 == best_key.0 && key.1 < best_key.1) {
            best = i;
            best_key = key;
        }
        i = i + 1;
    }
    proof {
        assert(items@.take(items.len() as int) =~= items@);
    }
    best
}


/// Sorts a list by the sort keys of its items, keeping the order of items
/// with equal keys.
pub fn stable_sort<T: SortKeyed>(items: Vec<T>) -> (out: Vec<T>)
    ensures
        out@ == sorted(items@),
{
    let mut rest: Vec<T> = items;
    let mut out: Vec<T> = Vec::new();
    proof {
        assert(out@ + sorted(rest@) =~= sorted(items@));
    }
    while rest.len() > 0
        invariant
            sorted(items@) == out@ + sorted(rest@),
        decreases rest.len(),
    {
        let i: usize = index_of_first_min(&rest);
        let ghost before = rest@;
        let ghost sorted_before = out@;
        let item: T = rest.remove(i);
        out.push(item);
        proof {
            assert(sorted(before) == seq![item] + sorted(rest@));
            assert(sorted_before + (seq![item] + sorted(rest@)) =~= out@
                + sorted(rest@));
        }
    }
    proof {
        assert(sorted(rest@) =~= Seq::<T>::empty());
        assert(out@ + Seq::<T>::empty() =~= out@);
    }
    out
}

} // verus!
