//! Stable sorting and removal of adjacent repetitions, for any item with an order.

use crate::text::{bytes_order_is_total, bytes_order_is_transitive, not_after, same, text_at_most};
use vstd::prelude::*;
use vstd::utf8::encode_utf8;

verus! {

/// Items that can be put in order. The order is a total preorder on what the items
/// hold; items that rank alike need not be equal.
pub trait Ranked: DeepView + Sized {
    spec fn leq(left: Self::V, right: Self::V) -> bool;

    proof fn leq_total(left: Self::V, right: Self::V)
        ensures
            Self::leq(left, right) || Self::leq(right, left),
    ;

    proof fn leq_transitive(a: Self::V, b: Self::V, c: Self::V)
        requires
            Self::leq(a, b),
            Self::leq(b, c),
        ensures
            Self::leq(a, c),
    ;

    fn ranks_at_most(&self, other: &Self) -> (result: bool)
        ensures
            result == Self::leq(self.deep_view(), other.deep_view()),
    ;
}

/// Items whose contents can be compared for equality.
pub trait Comparable: DeepView + Sized {
    fn holds_same(&self, other: &Self) -> (result: bool)
        ensures
            result == (self.deep_view() == other.deep_view()),
    ;
}

/// Words that a machine can compare.
pub trait Plain: Copy {
    fn is_same(self, other: Self) -> (result: bool)
        ensures
            result == (self == other),
    ;
}

/// Whether a word is on a list.
pub(crate) fn lists_plain<T: Plain>(words: &[T], wanted: T) -> (found: bool)
    ensures
        found == words@.contains(wanted),
{
    let mut i: usize = 0;
    while i < words.len()
        invariant
            i <= words.len(),
            forall|k: int| 0 <= k < i ==> words@[k] != wanted,
        decreases words.len() - i,
    {
        if words[i].is_same(wanted) {
            return true;
        }
        i += 1;
    }
    false
}

/// Whether two lists hold the same words.
pub(crate) fn same_plain<T: Plain>(left: &[T], right: &[T]) -> (equal: bool)
    ensures
        equal == (left@ == right@),
{
    if left.len() != right.len() {
        return false;
    }
    let mut i: usize = 0;
    while i < left.len()
        invariant
            i <= left.len(),
            left.len() == right.len(),
            forall|k: int| 0 <= k < i ==> left@[k] == right@[k],
        decreases left.len() - i,
    {
        if !left[i].is_same(right[i]) {
            assert(left@[i as int] != right@[i as int]);
            return false;
        }
        i += 1;
    }
    assert(left@ == right@);
    true
}

/// Whether a text is on a list.
pub(crate) fn lists_text(list: &Vec<String>, text: &str) -> (found: bool)
    ensures
        found == list.deep_view().contains(text@),
{
    let ghost all = list.deep_view();
    let mut i: usize = 0;
    while i < list.len()
        invariant
            i <= list.len(),
            all == list.deep_view(),
            forall|k: int| 0 <= k < i ==> all[k] != text@,
        decreases list.len() - i,
    {
        assert(all[i as int] == list@[i as int]@);
        if same(list[i].as_str(), text) {
            return true;
        }
        i += 1;
    }
    false
}

impl Ranked for String {
    open spec fn leq(left: Seq<char>, right: Seq<char>) -> bool {
        text_at_most(left, right)
    }

    proof fn leq_total(left: Seq<char>, right: Seq<char>) {
        bytes_order_is_total(encode_utf8(left), encode_utf8(right));
    }

    proof fn leq_transitive(a: Seq<char>, b: Seq<char>, c: Seq<char>) {
        bytes_order_is_transitive(encode_utf8(a), encode_utf8(b), encode_utf8(c));
    }

    fn ranks_at_most(&self, other: &Self) -> (result: bool) {
        not_after(self.as_str(), other.as_str())
    }
}

impl Comparable for String {
    fn holds_same(&self, other: &Self) -> (result: bool) {
        same(self.as_str(), other.as_str())
    }
}

/// The order of optional text: nothing comes first.
pub open spec fn option_at_most(left: Option<Seq<char>>, right: Option<Seq<char>>) -> bool {
    match (left, right) {
        (None, _) => true,
        (Some(_), None) => false,
        (Some(a), Some(b)) => text_at_most(a, b),
    }
}

pub(crate) fn option_not_after(left: &Option<String>, right: &Option<String>) -> (result: bool)
    ensures
        result == option_at_most(left.deep_view(), right.deep_view()),
{
    match (left, right) {
        (None, _) => true,
        (Some(_), None) => false,
        (Some(a), Some(b)) => not_after(a.as_str(), b.as_str()),
    }
}

pub(crate) proof fn text_total(left: Seq<char>, right: Seq<char>)
    ensures
        text_at_most(left, right) || text_at_most(right, left),
{
    bytes_order_is_total(encode_utf8(left), encode_utf8(right));
}

pub(crate) proof fn text_transitive(a: Seq<char>, b: Seq<char>, c: Seq<char>)
    requires
        text_at_most(a, b),
        text_at_most(b, c),
    ensures
        text_at_most(a, c),
{
    bytes_order_is_transitive(encode_utf8(a), encode_utf8(b), encode_utf8(c));
}

pub(crate) proof fn option_total(left: Option<Seq<char>>, right: Option<Seq<char>>)
    ensures
        option_at_most(left, right) || option_at_most(right, left),
{
    if left is Some && right is Some {
        text_total(left->0, right->0);
    }
}

pub(crate) proof fn option_transitive(
    a: Option<Seq<char>>,
    b: Option<Seq<char>>,
    c: Option<Seq<char>>,
)
    requires
        option_at_most(a, b),
        option_at_most(b, c),
    ensures
        option_at_most(a, c),
{
    if a is Some {
        text_transitive(a->0, b->0, c->0);
    }
}

/// `sorted` with `item` put behind everything that ranks at most as high.
pub open spec fn insert_ranked<T: Ranked>(sorted: Seq<T::V>, item: T::V) -> Seq<T::V>
    decreases sorted.len(),
{
    if sorted.len() == 0 || T::leq(sorted.last(), item) {
        sorted.push(item)
    } else {
        insert_ranked::<T>(sorted.drop_last(), item).push(sorted.last())
    }
}

/// The items in order, those that rank alike in the order they came in.
pub open spec fn stable_sort<T: Ranked>(items: Seq<T::V>) -> Seq<T::V>
    decreases items.len(),
{
    if items.len() == 0 {
        Seq::empty()
    } else {
        insert_ranked::<T>(stable_sort::<T>(items.drop_last()), items.last())
    }
}

/// The items without those that equal the one just before them.
pub open spec fn dedup<V>(items: Seq<V>) -> Seq<V>
    decreases items.len(),
{
    if items.len() < 2 {
        items
    } else if items.last() == items[items.len() - 2] {
        dedup(items.drop_last())
    } else {
        dedup(items.drop_last()).push(items.last())
    }
}

/// No item ranks above a later one.
pub open spec fn is_ordered<T: Ranked>(items: Seq<T::V>) -> bool {
    forall|i: int, j: int| 0 <= i <= j < items.len() ==> #[trigger] T::leq(items[i], items[j])
}

proof fn insert_ranked_splits<T: Ranked>(sorted: Seq<T::V>, item: T::V, at: int)
    requires
        0 <= at <= sorted.len(),
        at == 0 || T::leq(sorted[at - 1], item),
        forall|k: int| at <= k < sorted.len() ==> !#[trigger] T::leq(sorted[k], item),
    ensures
        insert_ranked::<T>(sorted, item) == sorted.insert(at, item),
    decreases sorted.len(),
{
    if at == sorted.len() {
        assert(sorted.insert(at, item) == sorted.push(item));
    } else {
        insert_ranked_splits::<T>(sorted.drop_last(), item, at);
        assert(sorted.insert(at, item) == sorted.drop_last().insert(at, item).push(sorted.last()));
    }
}

pub(crate) fn sort<T: Ranked>(items: Vec<T>) -> (sorted: Vec<T>)
    ensures
        sorted.deep_view() == stable_sort::<T>(items.deep_view()),
{
    let ghost all = items.deep_view();
    let mut rest = items;
    let mut reversed: Vec<T> = Vec::new();
    reversed_of(&mut rest, &mut reversed);
    let mut sorted: Vec<T> = Vec::new();
    let ghost mut done: int = 0;
    while reversed.len() > 0
        invariant
            0 <= done <= all.len(),
            reversed.deep_view().reverse() == all.skip(done),
            sorted.deep_view() == stable_sort::<T>(all.take(done)),
        decreases reversed.len(),
    {
        let ghost held = reversed.deep_view();
        match reversed.pop() {
            Some(item) => {
                proof {
                    assert(held.reverse()[0] == item.deep_view());
                    assert(reversed.deep_view().reverse() == held.reverse().skip(1));
                    assert(all.skip(done).skip(1) == all.skip(done + 1));
                    assert(all.take(done + 1).drop_last() == all.take(done));
                }
                insert(&mut sorted, item);
                proof {
                    done = done + 1;
                }
            },
            None => {},
        }
    }
    assert(all.take(done) == all);
    sorted
}

fn insert<T: Ranked>(sorted: &mut Vec<T>, item: T)
    ensures
        final(sorted).deep_view() == insert_ranked::<T>(old(sorted).deep_view(), item.deep_view()),
{
    let mut at: usize = sorted.len();
    let ghost views = sorted.deep_view();
    while at > 0 && !sorted[at - 1].ranks_at_most(&item)
        invariant
            at <= sorted.len(),
            views == sorted.deep_view(),
            forall|k: int|
                at <= k < sorted.len() ==> !#[trigger] T::leq(views[k], item.deep_view()),
        decreases at,
    {
        at -= 1;
    }
    proof {
        insert_ranked_splits::<T>(views, item.deep_view(), at as int);
    }
    sorted.insert(at, item);
    assert(sorted.deep_view() == views.insert(at as int, item.deep_view()));
}

pub(crate) fn remove_repeats<T: Comparable>(items: Vec<T>) -> (kept: Vec<T>)
    ensures
        kept.deep_view() == dedup(items.deep_view()),
{
    let ghost all = items.deep_view();
    let mut rest = items;
    let mut kept: Vec<T> = Vec::new();
    let mut reversed: Vec<T> = Vec::new();
    reversed_of(&mut rest, &mut reversed);
    let ghost mut done: int = 0;
    while reversed.len() > 0
        invariant
            0 <= done <= all.len(),
            reversed.deep_view().reverse() == all.skip(done),
            kept.deep_view() == dedup(all.take(done)),
            done > 0 ==> kept.len() > 0 && kept.deep_view().last() == all[done - 1],
            done == 0 ==> kept.len() == 0,
        decreases reversed.len(),
    {
        let ghost held = reversed.deep_view();
        match reversed.pop() {
            Some(item) => {
                proof {
                    assert(held.reverse()[0] == item.deep_view());
                    assert(reversed.deep_view().reverse() == held.reverse().skip(1));
                    assert(all.skip(done).skip(1) == all.skip(done + 1));
                    assert(all.take(done + 1).drop_last() == all.take(done));
                }
                let repeated = kept.len() > 0 && kept[kept.len() - 1].holds_same(&item);
                if !repeated {
                    let ghost earlier = kept.deep_view();
                    kept.push(item);
                    assert(kept.deep_view() == earlier.push(item.deep_view()));
                }
                proof {
                    done = done + 1;
                }
            },
            None => {},
        }
    }
    assert(all.take(done) == all);
    kept
}

pub(crate) fn reversed_of<T: DeepView>(items: &mut Vec<T>, reversed: &mut Vec<T>)
    requires
        old(reversed).len() == 0,
    ensures
        final(reversed).deep_view().reverse() == old(items).deep_view(),
{
    let ghost all = items.deep_view();
    assert(items.deep_view() + reversed.deep_view().reverse() == all);
    while items.len() > 0
        invariant
            items.deep_view() + reversed.deep_view().reverse() == all,
        decreases items.len(),
    {
        let ghost before = items.deep_view();
        let ghost held = reversed.deep_view();
        match items.pop() {
            Some(item) => {
                reversed.push(item);
                assert(before == items.deep_view().push(item.deep_view()));
                assert(reversed.deep_view() == held.push(item.deep_view()));
                assert(reversed.deep_view().reverse() == seq![item.deep_view()] + held.reverse());
                assert(items.deep_view() + reversed.deep_view().reverse() == before + held.reverse());
            },
            None => {},
        }
    }
    assert(reversed.deep_view().reverse() == all);
}

proof fn insert_ranked_keeps_items<T: Ranked>(sorted: Seq<T::V>, item: T::V)
    ensures
        insert_ranked::<T>(sorted, item).to_multiset() == sorted.to_multiset().insert(item),
        insert_ranked::<T>(sorted, item).len() == sorted.len() + 1,
    decreases sorted.len(),
{
    broadcast use vstd::seq_lib::group_to_multiset_ensures;

    if sorted.len() > 0 && !T::leq(sorted.last(), item) {
        insert_ranked_keeps_items::<T>(sorted.drop_last(), item);
        assert(sorted == sorted.drop_last().push(sorted.last()));
        assert(sorted.to_multiset() == sorted.drop_last().to_multiset().insert(sorted.last()));
        assert(insert_ranked::<T>(sorted, item).to_multiset() == sorted.to_multiset().insert(item));
    }
}

/// Sorting keeps every item and adds none.
pub proof fn sorting_keeps_items<T: Ranked>(items: Seq<T::V>)
    ensures
        stable_sort::<T>(items).to_multiset() == items.to_multiset(),
        stable_sort::<T>(items).len() == items.len(),
    decreases items.len(),
{
    broadcast use vstd::seq_lib::group_to_multiset_ensures;

    if items.len() > 0 {
        sorting_keeps_items::<T>(items.drop_last());
        insert_ranked_keeps_items::<T>(stable_sort::<T>(items.drop_last()), items.last());
        assert(items == items.drop_last().push(items.last()));
    }
}

proof fn insert_ranked_is_ordered<T: Ranked>(sorted: Seq<T::V>, item: T::V)
    requires
        is_ordered::<T>(sorted),
    ensures
        is_ordered::<T>(insert_ranked::<T>(sorted, item)),
        forall|k: int|
            0 <= k < insert_ranked::<T>(sorted, item).len() ==> {
                let x = #[trigger] insert_ranked::<T>(sorted, item)[k];
                x == item || (exists|m: int| 0 <= m < sorted.len() && x == #[trigger] sorted[m])
            },
    decreases sorted.len(),
{
    let result = insert_ranked::<T>(sorted, item);
    if sorted.len() == 0 || T::leq(sorted.last(), item) {
        assert forall|i: int, j: int| 0 <= i <= j < result.len() implies #[trigger] T::leq(
            result[i],
            result[j],
        ) by {
            if j == sorted.len() {
                T::leq_total(item, item);
                if i < sorted.len() {
                    assert(T::leq(sorted[i], sorted[sorted.len() - 1]));
                    T::leq_transitive(sorted[i], sorted.last(), item);
                }
            } else {
                assert(T::leq(sorted[i], sorted[j]));
            }
        }
    } else {
        let front = sorted.drop_last();
        let inner = insert_ranked::<T>(front, item);
        assert forall|i: int, j: int| 0 <= i <= j < front.len() implies #[trigger] T::leq(
            front[i],
            front[j],
        ) by {
            assert(T::leq(sorted[i], sorted[j]));
        }
        insert_ranked_is_ordered::<T>(front, item);
        T::leq_total(item, sorted.last());
        T::leq_total(sorted.last(), sorted.last());
        assert forall|i: int, j: int| 0 <= i <= j < result.len() implies #[trigger] T::leq(
            result[i],
            result[j],
        ) by {
            if j < inner.len() {
                assert(T::leq(inner[i], inner[j]));
            } else if i < inner.len() {
                let x = inner[i];
                if x != item {
                    let m = choose|m: int| 0 <= m < front.len() && x == #[trigger] front[m];
                    assert(T::leq(sorted[m], sorted[sorted.len() - 1]));
                }
            }
        }
        assert forall|k: int| 0 <= k < result.len() implies {
            let x = #[trigger] result[k];
            x == item || (exists|m: int| 0 <= m < sorted.len() && x == #[trigger] sorted[m])
        } by {
            let x = result[k];
            if k < inner.len() {
                assert(x == inner[k]);
                if x != item {
                    let m = choose|m: int| 0 <= m < front.len() && x == #[trigger] front[m];
                    assert(x == sorted[m]);
                }
            } else {
                assert(x == sorted[sorted.len() - 1]);
            }
        }
    }
}

/// After sorting no item ranks above a later one.
pub proof fn sorting_orders<T: Ranked>(items: Seq<T::V>)
    ensures
        is_ordered::<T>(stable_sort::<T>(items)),
    decreases items.len(),
{
    if items.len() > 0 {
        sorting_orders::<T>(items.drop_last());
        insert_ranked_is_ordered::<T>(stable_sort::<T>(items.drop_last()), items.last());
    }
}

/// Sorting what is already in order changes nothing.
pub proof fn sorting_keeps_order<T: Ranked>(items: Seq<T::V>)
    requires
        is_ordered::<T>(items),
    ensures
        stable_sort::<T>(items) == items,
    decreases items.len(),
{
    if items.len() > 0 {
        let front = items.drop_last();
        assert forall|i: int, j: int| 0 <= i <= j < front.len() implies #[trigger] T::leq(
            front[i],
            front[j],
        ) by {
            assert(T::leq(items[i], items[j]));
        }
        sorting_keeps_order::<T>(front);
        if front.len() > 0 {
            assert(T::leq(items[items.len() - 2], items[items.len() - 1]));
            assert(front.last() == items[items.len() - 2]);
        }
        assert(front.push(items.last()) == items);
    }
}

/// Sorting a second time changes nothing.
pub proof fn sorting_is_idempotent<T: Ranked>(items: Seq<T::V>)
    ensures
        stable_sort::<T>(stable_sort::<T>(items)) == stable_sort::<T>(items),
{
    sorting_orders::<T>(items);
    sorting_keeps_order::<T>(stable_sort::<T>(items));
}

proof fn insert_ranked_maps<D: Ranked, T: Ranked>(
    sorted: Seq<D::V>,
    item: D::V,
    f: spec_fn(D::V) -> T::V,
)
    requires
        forall|a: D::V, b: D::V| #[trigger] D::leq(a, b) == T::leq(f(a), f(b)),
    ensures
        insert_ranked::<T>(sorted.map_values(f), f(item)) == insert_ranked::<D>(
            sorted,
            item,
        ).map_values(f),
    decreases sorted.len(),
{
    if sorted.len() == 0 || D::leq(sorted.last(), item) {
        assert(sorted.map_values(f).push(f(item)) == sorted.push(item).map_values(f));
        if sorted.len() > 0 {
            assert(sorted.map_values(f).last() == f(sorted.last()));
        }
    } else {
        let front = sorted.drop_last();
        insert_ranked_maps::<D, T>(front, item, f);
        assert(sorted.map_values(f).last() == f(sorted.last()));
        assert(sorted.map_values(f).drop_last() == front.map_values(f));
        let inner = insert_ranked::<D>(front, item);
        assert(inner.push(sorted.last()).map_values(f) == inner.map_values(f).push(
            f(sorted.last()),
        ));
    }
}

/// What is told of items and ranks as they do is sorted as they are.
pub proof fn sorting_follows_the_items<D: Ranked, T: Ranked>(
    items: Seq<D::V>,
    f: spec_fn(D::V) -> T::V,
)
    requires
        forall|a: D::V, b: D::V| #[trigger] D::leq(a, b) == T::leq(f(a), f(b)),
    ensures
        stable_sort::<T>(items.map_values(f)) == stable_sort::<D>(items).map_values(f),
    decreases items.len(),
{
    if items.len() > 0 {
        let front = items.drop_last();
        sorting_follows_the_items::<D, T>(front, f);
        insert_ranked_maps::<D, T>(stable_sort::<D>(front), items.last(), f);
        assert(items.map_values(f).drop_last() == front.map_values(f));
        assert(items.map_values(f).last() == f(items.last()));
    } else {
        assert(items.map_values(f) == Seq::<T::V>::empty());
        assert(stable_sort::<D>(items).map_values(f) == Seq::<T::V>::empty());
    }
}

proof fn insert_ranked_filters<T: Ranked>(
    sorted: Seq<T::V>,
    item: T::V,
    keep: spec_fn(T::V) -> bool,
)
    requires
        is_ordered::<T>(sorted),
    ensures
        insert_ranked::<T>(sorted, item).filter(keep) == (if keep(item) {
            insert_ranked::<T>(sorted.filter(keep), item)
        } else {
            sorted.filter(keep)
        }),
    decreases sorted.len(),
{
    let kept = sorted.filter(keep);
    if sorted.len() == 0 || T::leq(sorted.last(), item) {
        sorted.lemma_filter_push(item, keep);
        if kept.len() > 0 {
            assert(kept.contains(kept.last()));
            sorted.lemma_filter_contains_rev(keep, kept.last());
            let k = choose|k: int| 0 <= k < sorted.len() && sorted[k] == kept.last();
            assert(T::leq(sorted[k], sorted[sorted.len() - 1]));
            T::leq_transitive(kept.last(), sorted.last(), item);
        }
    } else {
        let front = sorted.drop_last();
        assert forall|i: int, j: int| 0 <= i <= j < front.len() implies #[trigger] T::leq(
            front[i],
            front[j],
        ) by {
            assert(T::leq(sorted[i], sorted[j]));
        }
        insert_ranked_filters::<T>(front, item, keep);
        assert(sorted == front.push(sorted.last()));
        front.lemma_filter_push(sorted.last(), keep);
        insert_ranked::<T>(front, item).lemma_filter_push(sorted.last(), keep);
        if keep(sorted.last()) {
            assert(kept.drop_last() == front.filter(keep));
        }
    }
}

/// Some of the items are sorted as they stand among all of them.
pub proof fn sorting_keeps_parts_in_order<T: Ranked>(
    items: Seq<T::V>,
    keep: spec_fn(T::V) -> bool,
)
    ensures
        stable_sort::<T>(items.filter(keep)) == stable_sort::<T>(items).filter(keep),
    decreases items.len(),
{
    if items.len() > 0 {
        let front = items.drop_last();
        sorting_keeps_parts_in_order::<T>(front, keep);
        sorting_orders::<T>(front);
        insert_ranked_filters::<T>(stable_sort::<T>(front), items.last(), keep);
        assert(items == front.push(items.last()));
        front.lemma_filter_push(items.last(), keep);
        if keep(items.last()) {
            assert(items.filter(keep).drop_last() == front.filter(keep));
        }
    } else {
        reveal(Seq::filter);
    }
}

/// Removing adjacent repetitions leaves no two equal neighbours.
pub proof fn dedup_leaves_no_repetition<V>(items: Seq<V>)
    ensures
        dedup(items).len() <= items.len(),
        items.len() > 0 ==> dedup(items).len() > 0 && dedup(items).last() == items.last(),
        forall|i: int| 0 < i < dedup(items).len() ==> dedup(items)[i - 1] != #[trigger] dedup(items)[i],
    decreases items.len(),
{
    if items.len() >= 2 {
        dedup_leaves_no_repetition(items.drop_last());
        assert(items.drop_last().last() == items[items.len() - 2]);
    }
}

/// Taking repetitions out loses no item and adds none.
pub proof fn dedup_keeps_items<V>(items: Seq<V>, item: V)
    ensures
        dedup(items).contains(item) <==> items.contains(item),
    decreases items.len(),
{
    if items.len() >= 2 {
        let front = items.drop_last();
        let last = items.last();
        let all = dedup(front).push(last);
        dedup_keeps_items(front, item);
        assert(items =~= front.push(last));
        assert(front.last() == items[items.len() - 2]);
        in_longer(front, last, item);
        in_longer(dedup(front), last, item);
        if last == front.last() {
            assert(front[front.len() - 1] == last);
        }
    }
}

proof fn in_longer<V>(items: Seq<V>, last: V, item: V)
    ensures
        items.push(last).contains(item) <==> items.contains(item) || item == last,
{
    let all = items.push(last);
    if all.contains(item) {
        let k = choose|k: int| 0 <= k < all.len() && all[k] == item;
        if k < items.len() {
            assert(items[k] == item);
        }
    }
    if items.contains(item) {
        let k = choose|k: int| 0 <= k < items.len() && items[k] == item;
        assert(all[k] == item);
    }
    assert(all[items.len() as int] == last);
}

} // verus!
