//! The order of things by a key, where things with the same key keep their order.

use vstd::prelude::*;

verus! {

/// `order` with the index `i`, behind the indices whose key is not greater.
pub open spec fn order_insert(keys: Seq<int>, order: Seq<int>, i: int) -> Seq<int>
    decreases order.len(),
{
    if order.len() == 0 || keys[order.last()] <= keys[i] {
        order.push(i)
    } else {
        order_insert(keys, order.drop_last(), i).push(order.last())
    }
}

/// The order of the first `n` indices.
pub open spec fn order_upto(keys: Seq<int>, n: nat) -> Seq<int>
    decreases n,
{
    if n == 0 {
        Seq::empty()
    } else {
        order_insert(keys, order_upto(keys, (n - 1) as nat), n - 1)
    }
}

/// The indices of `keys` by ascending key. Indices with the same key ascend.
pub open spec fn stable_order(keys: Seq<int>) -> Seq<int> {
    order_upto(keys, keys.len())
}

/// Whether the index `a` comes before the index `b`.
pub open spec fn comes_before(keys: Seq<int>, a: int, b: int) -> bool {
    keys[a] < keys[b] || (keys[a] == keys[b] && a < b)
}

/// The things behind some indices.
pub open spec fn picked<A>(things: Seq<A>, order: Seq<int>) -> Seq<A> {
    order.map_values(|i: int| things[i])
}

/// The numbers as integers.
pub open spec fn key_views(keys: Seq<i128>) -> Seq<int> {
    keys.map_values(|k: i128| k as int)
}

/// The indices as integers.
pub open spec fn index_views(order: Seq<usize>) -> Seq<int> {
    order.map_values(|i: usize| i as int)
}

proof fn lemma_order_insert(keys: Seq<int>, order: Seq<int>, i: int, k: int)
    requires
        0 <= k <= order.len(),
        forall|j: int| k <= j < order.len() ==> keys[#[trigger] order[j]] > keys[i],
        k > 0 ==> keys[order[k - 1]] <= keys[i],
    ensures
        order_insert(keys, order, i) == order.insert(k, i),
    decreases order.len(),
{
    if k < order.len() {
        assert(keys[order[order.len() - 1]] > keys[i]);
        lemma_order_insert(keys, order.drop_last(), i, k);
        assert(order.drop_last().insert(k, i).push(order.last()) == order.insert(k, i));
    } else {
        assert(order.insert(k, i) == order.push(i));
    }
}

/// Where `order_insert` puts the index.
proof fn lemma_order_insert_place(keys: Seq<int>, order: Seq<int>, i: int) -> (k: int)
    requires
        forall|a: int, b: int|
            0 <= a < b < order.len() ==> comes_before(
                keys,
                #[trigger] order[a],
                #[trigger] order[b],
            ),
    ensures
        0 <= k <= order.len(),
        order_insert(keys, order, i) == order.insert(k, i),
        forall|j: int| k <= j < order.len() ==> keys[#[trigger] order[j]] > keys[i],
        forall|j: int| 0 <= j < k ==> keys[#[trigger] order[j]] <= keys[i],
    decreases order.len(),
{
    if order.len() == 0 || keys[order.last()] <= keys[i] {
        let k = order.len() as int;
        assert(order.insert(k, i) == order.push(i));
        assert forall|j: int| 0 <= j < k implies keys[#[trigger] order[j]] <= keys[i] by {
            if j < k - 1 {
                assert(comes_before(keys, order[j], order[k - 1]));
            }
        }
        k
    } else {
        let k = lemma_order_insert_place(keys, order.drop_last(), i);
        assert(order.drop_last().insert(k, i).push(order.last()) == order.insert(k, i));
        assert forall|j: int| k <= j < order.len() implies keys[#[trigger] order[j]] > keys[i] by {
            if j < order.len() - 1 {
                assert(order.drop_last()[j] == order[j]);
            }
        }
        assert forall|j: int| 0 <= j < k implies keys[#[trigger] order[j]] <= keys[i] by {
            assert(order.drop_last()[j] == order[j]);
        }
        k
    }
}

proof fn lemma_order_upto(keys: Seq<int>, n: nat)
    requires
        n <= keys.len(),
    ensures
        order_upto(keys, n).len() == n,
        forall|j: int| 0 <= j < n ==> 0 <= #[trigger] order_upto(keys, n)[j] < n,
        forall|a: int, b: int|
            0 <= a < b < n ==> comes_before(
                keys,
                #[trigger] order_upto(keys, n)[a],
                #[trigger] order_upto(keys, n)[b],
            ),
        forall|i: int| 0 <= i < n ==> order_upto(keys, n).contains(i),
    decreases n,
{
    if n > 0 {
        let m = (n - 1) as nat;
        let before = order_upto(keys, m);
        let after = order_upto(keys, n);
        lemma_order_upto(keys, m);
        let k = lemma_order_insert_place(keys, before, m as int);
        assert(after == before.insert(k, m as int));
        assert forall|j: int| 0 <= j < n implies 0 <= #[trigger] after[j] < n by {
            if j < k {
                assert(after[j] == before[j]);
            } else if j > k {
                assert(after[j] == before[j - 1]);
            }
        }
        assert forall|a: int, b: int| 0 <= a < b < n implies comes_before(
            keys,
            #[trigger] after[a],
            #[trigger] after[b],
        ) by {
            let x = if a < k {
                before[a]
            } else if a > k {
                before[a - 1]
            } else {
                m as int
            };
            let y = if b < k {
                before[b]
            } else if b > k {
                before[b - 1]
            } else {
                m as int
            };
            assert(after[a] == x);
            assert(after[b] == y);
        }
        assert forall|i: int| 0 <= i < n implies after.contains(i) by {
            if i < m {
                assert(before.contains(i));
                let j = choose|j: int| 0 <= j < before.len() && before[j] == i;
                if j < k {
                    assert(after[j] == i);
                } else {
                    assert(after[j + 1] == i);
                }
            } else {
                assert(after[k] == i);
            }
        }
    }
}

/// The order holds every index once, keys ascend along it, and indices with the
/// same key keep their order.
pub proof fn law_stable_order(keys: Seq<int>)
    ensures
        stable_order(keys).len() == keys.len(),
        stable_order(keys).no_duplicates(),
        forall|j: int| 0 <= j < keys.len() ==> 0 <= #[trigger] stable_order(keys)[j] < keys.len(),
        forall|i: int| 0 <= i < keys.len() ==> stable_order(keys).contains(i),
        forall|a: int, b: int|
            0 <= a < b < keys.len() ==> comes_before(
                keys,
                #[trigger] stable_order(keys)[a],
                #[trigger] stable_order(keys)[b],
            ),
{
    lemma_order_upto(keys, keys.len());
}

/// The indices of `keys` by ascending key.
pub fn stable_order_of(keys: &Vec<i128>) -> (r: Vec<usize>)
    ensures
        index_views(r@) == stable_order(key_views(keys@)),
        r@.len() == keys@.len(),
        forall|j: int| 0 <= j < r@.len() ==> #[trigger] r@[j] < keys@.len(),
{
    let ghost ks = key_views(keys@);
    let mut order: Vec<usize> = Vec::new();
    assert(index_views(order@) == order_upto(ks, 0));
    let mut i: usize = 0;
    while i < keys.len()
        invariant
            i <= keys@.len(),
            ks == key_views(keys@),
            index_views(order@) == order_upto(ks, i as nat),
            order@.len() == i,
            forall|j: int| 0 <= j < i ==> #[trigger] order@[j] < keys@.len(),
        decreases keys@.len() - i,
    {
        let ghost before = order@;
        let mut k: usize = order.len();
        while k > 0 && keys[order[k - 1]] > keys[i]
            invariant
                k <= order@.len(),
                i < keys@.len(),
                order@.len() == i,
                ks == key_views(keys@),
                forall|j: int| 0 <= j < i ==> #[trigger] order@[j] < keys@.len(),
                forall|j: int|
                    k <= j < order@.len() ==> ks[#[trigger] index_views(order@)[j]] > ks[i as int],
            decreases k,
        {
            k = k - 1;
        }
        order.insert(k, i);
        proof {
            if k > 0 {
                assert(index_views(before)[k - 1] == before[k - 1] as int);
            }
            lemma_order_insert(ks, index_views(before), i as int, k as int);
            assert(index_views(order@) == index_views(before).insert(k as int, i as int));
            assert forall|j: int| 0 <= j < i + 1 implies #[trigger] order@[j] < keys@.len() by {
                if j < k {
                    assert(order@[j] == before[j]);
                } else if j > k {
                    assert(order@[j] == before[j - 1]);
                }
            }
        }
        i = i + 1;
    }
    order
}

} // verus!
