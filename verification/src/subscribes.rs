//! Who is subscribed to what: the same relation between addresses and keys,
//! indexed by address or by key.

use vstd::prelude::*;
use crate::key::{Key, KeyView};

verus! {

/// The pairs that an index relates: each entry's label with each item of
/// the entry's list, entry after entry, in the order of the lists.
pub open spec fn pairs<A, B>(index: Seq<(A, Seq<B>)>) -> Seq<(A, B)>
    decreases index.len(),
{
    if index.len() == 0 {
        Seq::empty()
    } else {
        pairs(index.drop_last()) + index.last().1.map_values(|b: B| (index.last().0, b))
    }
}

/// The items of a list without repetition, each where it is seen first.
pub open spec fn first_seen<B>(items: Seq<B>) -> Seq<B>
    decreases items.len(),
{
    if items.len() == 0 {
        Seq::empty()
    } else if first_seen(items.drop_last()).contains(items.last()) {
        first_seen(items.drop_last())
    } else {
        first_seen(items.drop_last()).push(items.last())
    }
}

/// The left sides of the pairs whose right side is `b`, in their order.
pub open spec fn under<A, B>(ps: Seq<(A, B)>, b: B) -> Seq<A>
    decreases ps.len(),
{
    if ps.len() == 0 {
        Seq::empty()
    } else if ps.last().1 == b {
        under(ps.drop_last(), b).push(ps.last().0)
    } else {
        under(ps.drop_last(), b)
    }
}

/// The right sides of a list of pairs.
pub open spec fn rights<A, B>(ps: Seq<(A, B)>) -> Seq<B> {
    ps.map_values(|p: (A, B)| p.1)
}

/// The index by right side of a list of pairs: each right side once, where
/// it is seen first, with the left sides it is paired with, in their order.
pub open spec fn collected<A, B>(ps: Seq<(A, B)>) -> Seq<(B, Seq<A>)> {
    first_seen(rights(ps)).map_values(|b: B| (b, under(ps, b)))
}

/// The index turned round: what was an item of a list labels an entry, and
/// the entry lists the labels under which the item stood.
pub open spec fn inverted<A, B>(index: Seq<(A, Seq<B>)>) -> Seq<(B, Seq<A>)> {
    collected(pairs(index))
}

/// The labels of an index.
pub open spec fn labels<A, B>(index: Seq<(A, Seq<B>)>) -> Seq<A> {
    index.map_values(|e: (A, Seq<B>)| e.0)
}

/// What `first_seen` holds is what the list holds, and it holds nothing
/// twice.
pub proof fn lemma_first_seen<B>(items: Seq<B>)
    ensures
        first_seen(items).no_duplicates(),
        forall|b: B| first_seen(items).contains(b) <==> items.contains(b),
    decreases items.len(),
{
    if items.len() > 0 {
        let rest = items.drop_last();
        lemma_first_seen(rest);
        assert forall|b: B| first_seen(items).contains(b) <==> items.contains(b) by {
            if items.contains(b) {
                let i = choose|i: int| 0 <= i < items.len() && items[i] == b;
                if i < rest.len() {
                    assert(rest[i] == b);
                    assert(rest.contains(b));
                    let j = choose|j: int|
                        0 <= j < first_seen(rest).len() && first_seen(rest)[j] == b;
                    assert(first_seen(items)[j] == b);
                } else {
                    if !first_seen(rest).contains(b) {
                        assert(first_seen(items)[first_seen(rest).len() as int] == b);
                    }
                }
            }
            if first_seen(items).contains(b) {
                let j = choose|j: int| 0 <= j < first_seen(items).len() && first_seen(items)[j] == b;
                if j < first_seen(rest).len() {
                    assert(rest.contains(b));
                }
            }
        }
    }
}

/// A left side stands under `b` exactly where the pair of both is in the
/// list.
pub proof fn lemma_under<A, B>(ps: Seq<(A, B)>, a: A, b: B)
    ensures
        under(ps, b).contains(a) <==> ps.contains((a, b)),
    decreases ps.len(),
{
    if ps.len() > 0 {
        let rest = ps.drop_last();
        lemma_under(rest, a, b);
        if ps.contains((a, b)) {
            let i = choose|i: int| 0 <= i < ps.len() && ps[i] == (a, b);
            if i < rest.len() {
                assert(rest[i] == (a, b));
                let j = choose|j: int| 0 <= j < under(rest, b).len() && under(rest, b)[j] == a;
                assert(under(ps, b)[j] == a);
            } else {
                assert(under(ps, b)[under(rest, b).len() as int] == a);
            }
        }
    }
}

/// Nothing stands under a right side that no pair has.
proof fn lemma_under_absent<A, B>(ps: Seq<(A, B)>, b: B)
    requires
        !rights(ps).contains(b),
    ensures
        under(ps, b) == Seq::<A>::empty(),
    decreases ps.len(),
{
    if ps.len() > 0 {
        let rest = ps.drop_last();
        assert(rights(ps)[ps.len() - 1] == ps.last().1);
        assert forall|i: int| 0 <= i < rest.len() implies rights(rest)[i] != b by {
            assert(rights(ps)[i] == rights(rest)[i]);
        }
        lemma_under_absent(rest, b);
    }
}

/// A pair is related by an index exactly where an entry has its left side
/// as label and its right side in the list.
pub proof fn lemma_pairs<A, B>(index: Seq<(A, Seq<B>)>, a: A, b: B)
    ensures
        pairs(index).contains((a, b)) <==> exists|i: int|
            0 <= i < index.len() && (#[trigger] index[i]).0 == a && index[i].1.contains(b),
    decreases index.len(),
{
    if index.len() > 0 {
        let rest = index.drop_last();
        lemma_pairs(rest, a, b);
        if exists|i: int|
            0 <= i < index.len() && (#[trigger] index[i]).0 == a && index[i].1.contains(b) {
            let i = choose|i: int|
                0 <= i < index.len() && (#[trigger] index[i]).0 == a && index[i].1.contains(b);
            if i < rest.len() {
                assert(rest[i] == index[i]);
                let k = choose|k: int| 0 <= k < pairs(rest).len() && pairs(rest)[k] == (a, b);
                assert(pairs(index)[k] == (a, b));
            } else {
                let j = choose|j: int| 0 <= j < index[i].1.len() && index[i].1[j] == b;
                assert(pairs(index)[pairs(rest).len() + j] == (a, b));
            }
        }
    }
}

/// Turning an index round relates the same pairs, each the other way
/// round: what the order of its lists is does not matter to that.
pub proof fn lemma_inverted_relates_the_same<A, B>(index: Seq<(A, Seq<B>)>, a: A, b: B)
    ensures
        pairs(inverted(index)).contains((b, a)) <==> pairs(index).contains((a, b)),
        labels(inverted(index)).no_duplicates(),
{
    let ps = pairs(index);
    let keys = first_seen(rights(ps));
    let inv = inverted(index);
    lemma_first_seen(rights(ps));
    lemma_under(ps, a, b);
    lemma_pairs(inv, b, a);
    assert(labels(inv) =~= keys);
    if ps.contains((a, b)) {
        let k = choose|k: int| 0 <= k < ps.len() && ps[k] == (a, b);
        assert(rights(ps)[k] == b);
        assert(rights(ps).contains(b));
    }
}

/// Turning an index round twice relates the pairs that the index relates:
/// the index by address and the index by key are two views of one relation.
/// The order of the entries and of each list may differ, and a label with
/// an empty list is gone.
pub proof fn lemma_inverted_twice<A, B>(index: Seq<(A, Seq<B>)>, a: A, b: B)
    ensures
        pairs(inverted(inverted(index))).contains((a, b)) <==> pairs(index).contains((a, b)),
{
    lemma_inverted_relates_the_same(index, a, b);
    lemma_inverted_relates_the_same(inverted(index), b, a);
}

/// Whether an index holds each label once and, in each list, each item
/// once: what a map from labels to sets holds.
pub open spec fn is_index<A, B>(index: Seq<(A, Seq<B>)>) -> bool {
    &&& labels(index).no_duplicates()
    &&& forall|i: int| 0 <= i < index.len() ==> (#[trigger] index[i]).1.no_duplicates()
}

/// Under a right side, no left side stands twice, where no pair stands
/// twice in the list.
pub proof fn lemma_under_no_duplicates<A, B>(ps: Seq<(A, B)>, b: B)
    requires
        ps.no_duplicates(),
    ensures
        under(ps, b).no_duplicates(),
    decreases ps.len(),
{
    if ps.len() > 0 {
        let rest = ps.drop_last();
        lemma_under_no_duplicates(rest, b);
        if ps.last().1 == b {
            lemma_under(rest, ps.last().0, b);
            if rest.contains(ps.last()) {
                let i = choose|i: int| 0 <= i < rest.len() && rest[i] == ps.last();
                assert(ps[i] == ps[ps.len() - 1]);
            }
        }
    }
}

/// An index that holds each label once and each item of a list once
/// relates no pair twice.
pub proof fn lemma_pairs_no_duplicates<A, B>(index: Seq<(A, Seq<B>)>)
    requires
        is_index(index),
    ensures
        pairs(index).no_duplicates(),
    decreases index.len(),
{
    if index.len() > 0 {
        let rest = index.drop_last();
        let last = index.last();
        let tail = last.1.map_values(|b: B| (last.0, b));
        assert(is_index(rest)) by {
            assert forall|i: int, j: int|
                0 <= i < rest.len() && 0 <= j < rest.len() && i != j implies labels(rest)[i]
                != labels(rest)[j] by {
                assert(labels(index)[i] == labels(rest)[i]);
                assert(labels(index)[j] == labels(rest)[j]);
            }
            assert forall|i: int| 0 <= i < rest.len() implies (#[trigger] rest[i]).1.no_duplicates() by {
                assert(rest[i] == index[i]);
            }
        }
        lemma_pairs_no_duplicates(rest);
        let before = pairs(rest);
        assert forall|i: int, j: int|
            0 <= i < pairs(index).len() && 0 <= j < pairs(index).len() && i != j implies pairs(
            index,
        )[i] != pairs(index)[j] by {
            if i < before.len() && j >= before.len() {
                lemma_pairs(rest, before[i].0, before[i].1);
                assert(before.contains(before[i]));
                let k = choose|k: int|
                    0 <= k < rest.len() && (#[trigger] rest[k]).0 == before[i].0
                        && rest[k].1.contains(before[i].1);
                assert(labels(index)[k] == rest[k].0);
                assert(labels(index)[index.len() - 1] == last.0);
                assert(tail[j - before.len()].0 == last.0);
            } else if j < before.len() && i >= before.len() {
                lemma_pairs(rest, before[j].0, before[j].1);
                assert(before.contains(before[j]));
                let k = choose|k: int|
                    0 <= k < rest.len() && (#[trigger] rest[k]).0 == before[j].0
                        && rest[k].1.contains(before[j].1);
                assert(labels(index)[k] == rest[k].0);
                assert(labels(index)[index.len() - 1] == last.0);
                assert(tail[i - before.len()].0 == last.0);
            } else if i >= before.len() && j >= before.len() {
                assert(tail[i - before.len()].1 == last.1[i - before.len()]);
                assert(tail[j - before.len()].1 == last.1[j - before.len()]);
            }
        }
    }
}

/// Turning round an index that holds each label once and each item of a
/// list once gives such an index: no key stands twice, and under no key an
/// address twice.
pub proof fn lemma_inverted_is_index<A, B>(index: Seq<(A, Seq<B>)>)
    requires
        is_index(index),
    ensures
        is_index(inverted(index)),
{
    let ps = pairs(index);
    let inv = inverted(index);
    lemma_first_seen(rights(ps));
    lemma_pairs_no_duplicates(index);
    assert(labels(inv) =~= first_seen(rights(ps)));
    assert forall|i: int| 0 <= i < inv.len() implies (#[trigger] inv[i]).1.no_duplicates() by {
        lemma_under_no_duplicates(ps, first_seen(rights(ps))[i]);
    }
}

/// How often `x` stands in `s`.
pub open spec fn count<T>(s: Seq<T>, x: T) -> nat
    decreases s.len(),
{
    if s.len() == 0 {
        0
    } else {
        count(s.drop_last(), x) + if s.last() == x {
            1nat
        } else {
            0nat
        }
    }
}

/// How often an index relates `a` to `b`: how often `b` stands in the lists
/// of the entries that `a` labels.
pub open spec fn related<A, B>(index: Seq<(A, Seq<B>)>, a: A, b: B) -> nat
    decreases index.len(),
{
    if index.len() == 0 {
        0
    } else {
        related(index.drop_last(), a, b) + if index.last().0 == a {
            count(index.last().1, b)
        } else {
            0nat
        }
    }
}

/// What stands in two lists, one after the other, stands there as often as
/// in both together.
proof fn lemma_count_concat<T>(s: Seq<T>, t: Seq<T>, x: T)
    ensures
        count(s + t, x) == count(s, x) + count(t, x),
    decreases t.len(),
{
    if t.len() == 0 {
        assert(s + t == s);
    } else {
        assert((s + t).drop_last() == s + t.drop_last());
        lemma_count_concat(s, t.drop_last(), x);
    }
}

/// A pair stands among the pairs of one label as often as its right side
/// stands in the list, where its left side is the label, and else not at
/// all.
proof fn lemma_count_labelled<A, B>(label: A, list: Seq<B>, a: A, b: B)
    ensures
        count(list.map_values(|x: B| (label, x)), (a, b)) == if label == a {
            count(list, b)
        } else {
            0nat
        },
    decreases list.len(),
{
    if list.len() > 0 {
        lemma_count_labelled(label, list.drop_last(), a, b);
        assert(list.map_values(|x: B| (label, x)).drop_last() == list.drop_last().map_values(
            |x: B| (label, x),
        ));
    }
}

/// A pair stands among the pairs of an index as often as the index relates
/// its sides.
proof fn lemma_count_pairs<A, B>(index: Seq<(A, Seq<B>)>, a: A, b: B)
    ensures
        count(pairs(index), (a, b)) == related(index, a, b),
    decreases index.len(),
{
    if index.len() > 0 {
        let rest = index.drop_last();
        lemma_count_pairs(rest, a, b);
        lemma_count_labelled(index.last().0, index.last().1, a, b);
        lemma_count_concat(
            pairs(rest),
            index.last().1.map_values(|x: B| (index.last().0, x)),
            (a, b),
        );
    }
}

/// A left side stands under `b` as often as the pair of both stands in the
/// list.
proof fn lemma_count_under<A, B>(ps: Seq<(A, B)>, a: A, b: B)
    ensures
        count(under(ps, b), a) == count(ps, (a, b)),
    decreases ps.len(),
{
    if ps.len() > 0 {
        lemma_count_under(ps.drop_last(), a, b);
        if ps.last().1 == b {
            assert(under(ps, b).drop_last() == under(ps.drop_last(), b));
        }
    }
}

/// Where no label stands twice, an index relates a label to an item as
/// often as the item stands in the list of that label, and relates nothing
/// to what is no label.
proof fn lemma_related_distinct<A, B>(index: Seq<(A, Seq<B>)>, a: A, b: B)
    requires
        labels(index).no_duplicates(),
    ensures
        forall|i: int|
            0 <= i < index.len() && (#[trigger] index[i]).0 == a ==> related(index, a, b) == count(
                index[i].1,
                b,
            ),
        !labels(index).contains(a) ==> related(index, a, b) == 0,
    decreases index.len(),
{
    if index.len() > 0 {
        let rest = index.drop_last();
        let n = index.len() - 1;
        assert forall|i: int, j: int|
            0 <= i < rest.len() && 0 <= j < rest.len() && i != j implies labels(rest)[i] != labels(
            rest,
        )[j] by {
            assert(labels(index)[i] == labels(rest)[i]);
            assert(labels(index)[j] == labels(rest)[j]);
        }
        lemma_related_distinct(rest, a, b);
        assert(labels(index)[n] == index[n].0);
        if index[n].0 == a {
            assert(!labels(rest).contains(a)) by {
                if labels(rest).contains(a) {
                    let k = choose|k: int| 0 <= k < rest.len() && labels(rest)[k] == a;
                    assert(labels(index)[k] == labels(rest)[k]);
                }
            }
            assert forall|i: int| 0 <= i < index.len() && (#[trigger] index[i]).0 == a implies i
                == n by {
                assert(labels(index)[i] == index[i].0);
            }
        } else {
            assert forall|i: int| 0 <= i < index.len() && (#[trigger] index[i]).0 == a implies related(
                index,
                a,
                b,
            ) == count(index[i].1, b) by {
                assert(rest[i] == index[i]);
            }
            if !labels(index).contains(a) {
                assert(!labels(rest).contains(a)) by {
                    if labels(rest).contains(a) {
                        let k = choose|k: int| 0 <= k < rest.len() && labels(rest)[k] == a;
                        assert(labels(index)[k] == a);
                    }
                }
            }
        }
    }
}

/// Turning an index round keeps how often each pair is related: the index
/// by key lists an address under a key as often as the index by address
/// lists the key for the address. The two differ in the order of their
/// entries and lists alone.
pub proof fn lemma_inverted_relates_as_often<A, B>(index: Seq<(A, Seq<B>)>, a: A, b: B)
    ensures
        related(inverted(index), b, a) == related(index, a, b),
        related(inverted(inverted(index)), a, b) == related(index, a, b),
{
    lemma_inverted_counts(index, a, b);
    lemma_inverted_counts(inverted(index), b, a);
}

/// Turning an index round once keeps how often each pair is related.
proof fn lemma_inverted_counts<A, B>(index: Seq<(A, Seq<B>)>, a: A, b: B)
    ensures
        related(inverted(index), b, a) == related(index, a, b),
{
    let ps = pairs(index);
    let keys = first_seen(rights(ps));
    let inv = inverted(index);
    lemma_first_seen(rights(ps));
    assert(labels(inv) =~= keys);
    lemma_related_distinct(inv, b, a);
    lemma_count_pairs(index, a, b);
    lemma_count_under(ps, a, b);
    if keys.contains(b) {
        let i = choose|i: int| 0 <= i < keys.len() && keys[i] == b;
        assert(inv[i].0 == b);
        assert(inv[i].1 == under(ps, b));
    } else {
        lemma_under_absent(ps, b);
    }
}

/// Reading one more pair either lengthens the list of its right side or,
/// where that right side is new, opens a list for it at the end.
proof fn lemma_collected_push<A, B>(ps: Seq<(A, B)>, a: A, b: B)
    ensures
        labels(collected(ps)) == first_seen(rights(ps)),
        labels(collected(ps)).no_duplicates(),
        labels(collected(ps)).contains(b) ==> collected(ps.push((a, b))) == collected(ps).update(
            labels(collected(ps)).index_of(b),
            (b, under(ps, b).push(a)),
        ),
        !labels(collected(ps)).contains(b) ==> collected(ps.push((a, b))) == collected(ps).push(
            (b, seq![a]),
        ),
{
    let more = ps.push((a, b));
    let keys = first_seen(rights(ps));
    lemma_first_seen(rights(ps));
    assert(more.drop_last() == ps);
    assert(rights(more).drop_last() == rights(ps));
    assert forall|k: B| k != b implies under(more, k) == under(ps, k) by {}
    if keys.contains(b) {
        let i = keys.index_of(b);
        assert forall|j: int| 0 <= j < keys.len() implies collected(more)[j] == collected(
            ps,
        ).update(i, (b, under(ps, b).push(a)))[j] by {}
    } else {
        lemma_under_absent(ps, b);
    }
}

/// The models of a list of keys.
pub open spec fn key_views(keys: Seq<Key>) -> Seq<KeyView> {
    keys.map_values(|k: Key| k@)
}

/// The models of a list of addresses.
pub open spec fn addr_views(addrs: Seq<String>) -> Seq<Seq<char>> {
    addrs.map_values(|a: String| a@)
}

/// The model of an index by address.
pub open spec fn by_addr_view(index: Seq<(String, Vec<Key>)>) -> Seq<(Seq<char>, Seq<KeyView>)> {
    index.map_values(|e: (String, Vec<Key>)| (e.0@, key_views(e.1@)))
}

/// The model of an index by key.
pub open spec fn by_key_view(index: Seq<(Key, Vec<String>)>) -> Seq<(KeyView, Seq<Seq<char>>)> {
    index.map_values(|e: (Key, Vec<String>)| (e.0@, addr_views(e.1@)))
}

/// Subscriptions to events, to rpc requests and to rpc responses, in this
/// order, indexed by address or by key.
///
/// Each index is a list of entries that is searched by comparing labels.
/// The standard hash map has a specification only for keys whose hashing is
/// known to agree with their equality, which strings and keys are not, so
/// that nothing could be stated of a map by address or by key. What such a
/// map adds, that no label stands twice, is [`Subscribes::wf`].
#[derive(Debug, Clone)]
pub enum Subscribes {
    /// For each address the keys it is subscribed to.
    ByAddr(Vec<(String, Vec<Key>)>, Vec<(String, Vec<Key>)>, Vec<(String, Vec<Key>)>),
    /// For each key the addresses subscribed to it.
    ByKey(Vec<(Key, Vec<String>)>, Vec<(Key, Vec<String>)>, Vec<(Key, Vec<String>)>),
}

/// Where the entry of `key` stands, if there is one.
fn find_key(index: &Vec<(Key, Vec<String>)>, key: &Key) -> (r: Option<usize>)
    ensures
        r is Some ==> r->0 < index.len() && index[r->0 as int].0@ == key@,
        r is None ==> !labels(by_key_view(index@)).contains(key@),
{
    let mut i: usize = 0;
    while i < index.len()
        invariant
            i <= index.len(),
            forall|j: int| 0 <= j < i ==> index[j].0@ != key@,
        decreases index.len() - i,
    {
        if index[i].0 == *key {
            return Some(i);
        }
        i = i + 1;
    }
    proof {
        let all = labels(by_key_view(index@));
        assert forall|j: int| 0 <= j < all.len() implies all[j] != key@ by {}
    }
    None
}

/// Records in an index by key that `addr` is subscribed to `key`.
fn record(index: &mut Vec<(Key, Vec<String>)>, addr: &String, key: &Key, Ghost(ps): Ghost<
    Seq<(Seq<char>, KeyView)>,
>)
    requires
        by_key_view(old(index)@) == collected(ps),
    ensures
        by_key_view(final(index)@) == collected(ps.push((addr@, key@))),
{
    proof {
        lemma_collected_push(ps, addr@, key@);
    }
    let ghost before = index@;
    match find_key(index, key) {
        Some(i) => {
            proof {
                let all = labels(by_key_view(before));
                assert(all[i as int] == key@);
            }
            index[i].1.push(addr.clone());
            proof {
                let after = index@;
                assert(addr_views(after[i as int].1@) =~= addr_views(before[i as int].1@).push(
                    addr@,
                ));
                assert forall|j: int| 0 <= j < after.len() && j != i implies after[j]
                    == before[j] by {}
            }
        },
        None => {
            let mut addrs: Vec<String> = Vec::new();
            addrs.push(addr.clone());
            index.push((key.duplicate(), addrs));
            proof {
                let after = index@;
                assert(addr_views(after[before.len() as int].1@) =~= seq![addr@]);
            }
        },
    }
}

/// The pairs of the first `i` entries of an index and of the first `j`
/// items of the next entry.
spec fn pairs_upto<A, B>(index: Seq<(A, Seq<B>)>, i: int, j: int) -> Seq<(A, B)> {
    pairs(index.take(i)) + index[i].1.take(j).map_values(|b: B| (index[i].0, b))
}

/// An index by address turned round: for each key, where it is seen first,
/// the addresses subscribed to it, in the order of the index.
pub fn invert(index: &Vec<(String, Vec<Key>)>) -> (res: Vec<(Key, Vec<String>)>)
    ensures
        by_key_view(res@) == inverted(by_addr_view(index@)),
        labels(by_key_view(res@)).no_duplicates(),
        is_index(by_addr_view(index@)) ==> is_index(by_key_view(res@)),
{
    let mut res: Vec<(Key, Vec<String>)> = Vec::new();
    let ghost all = by_addr_view(index@);
    let mut i: usize = 0;
    while i < index.len()
        invariant
            i <= index.len(),
            all == by_addr_view(index@),
            by_key_view(res@) == collected(pairs(all.take(i as int))),
        decreases index.len() - i,
    {
        let addr = &index[i].0;
        let keys = &index[i].1;
        let mut j: usize = 0;
        while j < keys.len()
            invariant
                i < index.len(),
                j <= keys.len(),
                all == by_addr_view(index@),
                all[i as int] == (addr@, key_views(keys@)),
                by_key_view(res@) == collected(pairs_upto(all, i as int, j as int)),
            decreases keys.len() - j,
        {
            let ghost ps = pairs_upto(all, i as int, j as int);
            record(&mut res, addr, &keys[j], Ghost(ps));
            proof {
                assert(pairs_upto(all, i as int, j + 1) =~= ps.push((addr@, keys[j as int]@)));
            }
            j = j + 1;
        }
        proof {
            assert(all.take(i + 1).drop_last() == all.take(i as int));
            assert(all[i as int].1.take(j as int) == all[i as int].1);
        }
        i = i + 1;
    }
    proof {
        assert(all.take(i as int) == all);
        lemma_first_seen(rights(pairs(all)));
        assert(labels(inverted(all)) =~= first_seen(rights(pairs(all))));
        if is_index(all) {
            lemma_inverted_is_index(all);
        }
    }
    res
}

/// The model of what [`Subscribes::traverse_to_keys`] returns.
pub open spec fn keyed_views(
    r: (Vec<(Key, Vec<String>)>, Vec<(Key, Vec<String>)>, Vec<(Key, Vec<String>)>),
) -> (
    Seq<(KeyView, Seq<Seq<char>>)>,
    Seq<(KeyView, Seq<Seq<char>>)>,
    Seq<(KeyView, Seq<Seq<char>>)>,
) {
    (by_key_view(r.0@), by_key_view(r.1@), by_key_view(r.2@))
}

impl Subscribes {
    /// Whether each of the three indexes holds each label once and, in each
    /// list, each item once: whether the subscriptions are what a map from
    /// addresses to sets of keys, or from keys to sets of addresses, holds.
    pub open spec fn wf(&self) -> bool {
        match *self {
            Subscribes::ByAddr(events, rpc_requests, rpc_responses) => {
                &&& is_index(by_addr_view(events@))
                &&& is_index(by_addr_view(rpc_requests@))
                &&& is_index(by_addr_view(rpc_responses@))
            },
            Subscribes::ByKey(events, rpc_requests, rpc_responses) => {
                &&& is_index(by_key_view(events@))
                &&& is_index(by_key_view(rpc_requests@))
                &&& is_index(by_key_view(rpc_responses@))
            },
        }
    }

    /// The subscriptions indexed by key. An index by address is turned
    /// round; an index by key is handed out as it is.
    pub fn traverse_to_keys(self) -> (r: (
        Vec<(Key, Vec<String>)>,
        Vec<(Key, Vec<String>)>,
        Vec<(Key, Vec<String>)>,
    ))
        ensures
            match self {
                Subscribes::ByAddr(events, rpc_requests, rpc_responses) => {
                    &&& by_key_view(r.0@) == inverted(by_addr_view(events@))
                    &&& by_key_view(r.1@) == inverted(by_addr_view(rpc_requests@))
                    &&& by_key_view(r.2@) == inverted(by_addr_view(rpc_responses@))
                },
                Subscribes::ByKey(events, rpc_requests, rpc_responses) => r == (
                    events,
                    rpc_requests,
                    rpc_responses,
                ),
            },
            self.wf() ==> is_index(keyed_views(r).0) && is_index(keyed_views(r).1) && is_index(
                keyed_views(r).2,
            ),
    {
        match self {
            Subscribes::ByAddr(events, rpc_requests, rpc_responses) => {
                (invert(&events), invert(&rpc_requests), invert(&rpc_responses))
            },
            Subscribes::ByKey(events, rpc_requests, rpc_responses) => {
                (events, rpc_requests, rpc_responses)
            },
        }
    }
}

} // verus!
