//! Putting things in order by a number or by a text, those alike left as they came.
use vstd::prelude::*;

use crate::hud::ints;
use crate::words::{before, is_before, order_carries_over, texts, texts_are_ordered};

verus! {

/// Whether the thing at one place comes before the one at another: by its number, and of two alike
/// the one that came first.
pub open spec fn precedes(keys: Seq<u64>, a: int, b: int) -> bool {
    keys[a] < keys[b] || (keys[a] == keys[b] && a < b)
}

/// Whether `order` has the first `n` places each once and in order.
pub open spec fn in_order(keys: Seq<u64>, order: Seq<int>, n: int) -> bool {
    &&& order.len() == n
    &&& forall|i: int| #[trigger] order.contains(i) <==> 0 <= i < n
    &&& forall|a: int, b: int|
        0 <= a < b < order.len() ==> precedes(keys, #[trigger] order[a], #[trigger] order[b])
}

/// The places in order.
pub open spec fn order_of(keys: Seq<u64>) -> Seq<int> {
    choose|order: Seq<int>| in_order(keys, order, keys.len() as int)
}

/// There is one order only.
pub proof fn one_order_only(keys: Seq<u64>, a: Seq<int>, b: Seq<int>)
    requires
        in_order(keys, a, keys.len() as int),
        in_order(keys, b, keys.len() as int),
    ensures
        a == b,
{
    alike_so_far(keys, a, b, keys.len() as int);
    assert(a =~= b);
}

proof fn alike_so_far(keys: Seq<u64>, a: Seq<int>, b: Seq<int>, n: int)
    requires
        0 <= n <= keys.len(),
        in_order(keys, a, keys.len() as int),
        in_order(keys, b, keys.len() as int),
    ensures
        forall|k: int| 0 <= k < n ==> a[k] == b[k],
    decreases n,
{
    if n > 0 {
        alike_so_far(keys, a, b, n - 1);
        let x = a[n - 1];
        let y = b[n - 1];
        assert(a.contains(x));
        assert(b.contains(y));
        assert(b.contains(x));
        assert(a.contains(y));
        let i = choose|i: int| 0 <= i < b.len() && b[i] == x;
        let j = choose|j: int| 0 <= j < a.len() && a[j] == y;
        if i < n - 1 {
            assert(a[i] == b[i]);
            assert(precedes(keys, a[i], a[n - 1]));
        }
        if j < n - 1 {
            assert(a[j] == b[j]);
            assert(precedes(keys, b[j], b[n - 1]));
        }
        if x != y {
            assert(i > n - 1);
            assert(j > n - 1);
            assert(precedes(keys, b[n - 1], b[i]));
            assert(precedes(keys, a[n - 1], a[j]));
        }
    }
}

proof fn put_in(keys: Seq<u64>, order: Seq<int>, i: int, p: int)
    requires
        in_order(keys, order, i),
        0 <= i < keys.len(),
        0 <= p <= order.len(),
        forall|k: int| 0 <= k < p ==> keys[#[trigger] order[k]] <= keys[i],
        p < order.len() ==> keys[i] < keys[order[p]],
    ensures
        in_order(keys, order.insert(p, i), i + 1),
{
    let next = order.insert(p, i);
    assert forall|k: int| #[trigger] next.contains(k) <==> 0 <= k < i + 1 by {
        if next.contains(k) {
            let at = choose|at: int| 0 <= at < next.len() && next[at] == k;
            if at < p {
                assert(order[at] == k);
                assert(order.contains(k));
            } else if at > p {
                assert(order[at - 1] == k);
                assert(order.contains(k));
            }
        }
        if 0 <= k < i {
            assert(order.contains(k));
            let at = choose|at: int| 0 <= at < order.len() && order[at] == k;
            if at < p {
                assert(next[at] == k);
            } else {
                assert(next[at + 1] == k);
            }
        }
        if k == i {
            assert(next[p] == i);
        }
    }
    assert forall|a: int, b: int| 0 <= a < b < next.len() implies precedes(
        keys,
        #[trigger] next[a],
        #[trigger] next[b],
    ) by {
        if a < p && b < p {
            assert(next[a] == order[a] && next[b] == order[b]);
        } else if a < p && b == p {
            assert(next[a] == order[a]);
            assert(order.contains(order[a]));
        } else if a < p {
            assert(next[a] == order[a] && next[b] == order[b - 1]);
        } else if a == p {
            assert(next[b] == order[b - 1]);
            if b - 1 > p {
                assert(precedes(keys, order[p], order[b - 1]));
            }
        } else {
            assert(next[a] == order[a - 1] && next[b] == order[b - 1]);
        }
    }
}

/// The places of things in the order of their numbers.
pub fn order_by(keys: &Vec<u64>) -> (order: Vec<usize>)
    ensures
        ints(order@) == order_of(keys@),
        in_order(keys@, ints(order@), keys@.len() as int),
{
    let mut order: Vec<usize> = Vec::new();
    let mut i: usize = 0;
    while i < keys.len()
        invariant
            i <= keys@.len(),
            in_order(keys@, ints(order@), i as int),
            forall|k: int| 0 <= k < order@.len() ==> (#[trigger] order@[k]) < i,
        decreases keys@.len() - i,
    {
        let mut p: usize = 0;
        while p < order.len() && keys[order[p]] <= keys[i]
            invariant
                p <= order@.len(),
                i < keys@.len(),
                forall|k: int| 0 <= k < order@.len() ==> (#[trigger] order@[k]) < i,
                forall|k: int| 0 <= k < p ==> keys@[#[trigger] order@[k] as int] <= keys@[i as int],
            decreases order@.len() - p,
        {
            p += 1;
        }
        let ghost before = ints(order@);
        proof {
            put_in(keys@, before, i as int, p as int);
        }
        order.insert(p, i);
        proof {
            assert(ints(order@) =~= before.insert(p as int, i as int));
        }
        i += 1;
    }
    proof {
        one_order_only(keys@, ints(order@), order_of(keys@));
    }
    order
}

/// Whether the thing at one place comes before the one at another: by its text, and of two alike the
/// one that came first.
pub open spec fn reads_before(keys: Seq<Seq<char>>, a: int, b: int) -> bool {
    before(keys[a], keys[b]) || (keys[a] == keys[b] && a < b)
}

/// Whether `order` has the first `n` places each once and in the order of their texts.
pub open spec fn in_text_order(keys: Seq<Seq<char>>, order: Seq<int>, n: int) -> bool {
    &&& order.len() == n
    &&& forall|i: int| #[trigger] order.contains(i) <==> 0 <= i < n
    &&& forall|a: int, b: int|
        0 <= a < b < order.len() ==> reads_before(keys, #[trigger] order[a], #[trigger] order[b])
}

/// The places in the order of their texts.
pub open spec fn text_order_of(keys: Seq<Seq<char>>) -> Seq<int> {
    choose|order: Seq<int>| in_text_order(keys, order, keys.len() as int)
}

/// There is one order of texts only.
pub proof fn one_text_order_only(keys: Seq<Seq<char>>, a: Seq<int>, b: Seq<int>)
    requires
        in_text_order(keys, a, keys.len() as int),
        in_text_order(keys, b, keys.len() as int),
    ensures
        a == b,
{
    texts_alike_so_far(keys, a, b, keys.len() as int);
    assert(a =~= b);
}

proof fn texts_alike_so_far(keys: Seq<Seq<char>>, a: Seq<int>, b: Seq<int>, n: int)
    requires
        0 <= n <= keys.len(),
        in_text_order(keys, a, keys.len() as int),
        in_text_order(keys, b, keys.len() as int),
    ensures
        forall|k: int| 0 <= k < n ==> a[k] == b[k],
    decreases n,
{
    if n > 0 {
        texts_alike_so_far(keys, a, b, n - 1);
        let x = a[n - 1];
        let y = b[n - 1];
        assert(a.contains(x));
        assert(b.contains(y));
        assert(b.contains(x));
        assert(a.contains(y));
        let i = choose|i: int| 0 <= i < b.len() && b[i] == x;
        let j = choose|j: int| 0 <= j < a.len() && a[j] == y;
        texts_are_ordered(keys[x], keys[y]);
        texts_are_ordered(keys[x], keys[x]);
        texts_are_ordered(keys[y], keys[y]);
        if i < n - 1 {
            assert(a[i] == b[i]);
            assert(reads_before(keys, a[i], a[n - 1]));
        }
        if j < n - 1 {
            assert(a[j] == b[j]);
            assert(reads_before(keys, b[j], b[n - 1]));
        }
        if x != y {
            assert(i > n - 1);
            assert(j > n - 1);
            assert(reads_before(keys, b[n - 1], b[i]));
            assert(reads_before(keys, a[n - 1], a[j]));
        }
    }
}

proof fn put_text_in(keys: Seq<Seq<char>>, order: Seq<int>, i: int, p: int)
    requires
        in_text_order(keys, order, i),
        0 <= i < keys.len(),
        0 <= p <= order.len(),
        forall|k: int| 0 <= k < p ==> !before(keys[i], keys[#[trigger] order[k]]),
        p < order.len() ==> before(keys[i], keys[order[p]]),
    ensures
        in_text_order(keys, order.insert(p, i), i + 1),
{
    let next = order.insert(p, i);
    assert forall|k: int| #[trigger] next.contains(k) <==> 0 <= k < i + 1 by {
        if next.contains(k) {
            let at = choose|at: int| 0 <= at < next.len() && next[at] == k;
            if at < p {
                assert(order[at] == k);
                assert(order.contains(k));
            } else if at > p {
                assert(order[at - 1] == k);
                assert(order.contains(k));
            }
        }
        if 0 <= k < i {
            assert(order.contains(k));
            let at = choose|at: int| 0 <= at < order.len() && order[at] == k;
            if at < p {
                assert(next[at] == k);
            } else {
                assert(next[at + 1] == k);
            }
        }
        if k == i {
            assert(next[p] == i);
        }
    }
    assert forall|a: int, b: int| 0 <= a < b < next.len() implies reads_before(
        keys,
        #[trigger] next[a],
        #[trigger] next[b],
    ) by {
        if a < p && b < p {
            assert(next[a] == order[a] && next[b] == order[b]);
        } else if a < p && b == p {
            assert(next[a] == order[a]);
            assert(order.contains(order[a]));
            texts_are_ordered(keys[order[a]], keys[i]);
        } else if a < p {
            assert(next[a] == order[a] && next[b] == order[b - 1]);
        } else if a == p {
            assert(next[b] == order[b - 1]);
            let first = keys[order[p]];
            let other = keys[order[b - 1]];
            texts_are_ordered(keys[i], first);
            texts_are_ordered(first, other);
            texts_are_ordered(keys[i], other);
            if b - 1 > p {
                assert(reads_before(keys, order[p], order[b - 1]));
            }
            order_carries_over(keys[i], first, other);
            if keys[i] == other {
                order_carries_over(first, other, keys[i]);
            }
        } else {
            assert(next[a] == order[a - 1] && next[b] == order[b - 1]);
        }
    }
}

/// The places of things in the order of their texts.
pub fn order_by_text(keys: &Vec<String>) -> (order: Vec<usize>)
    ensures
        ints(order@) == text_order_of(texts(keys@)),
        in_text_order(texts(keys@), ints(order@), keys@.len() as int),
{
    let ghost all = texts(keys@);
    let mut order: Vec<usize> = Vec::new();
    let mut i: usize = 0;
    while i < keys.len()
        invariant
            i <= keys@.len(),
            all == texts(keys@),
            in_text_order(all, ints(order@), i as int),
            forall|k: int| 0 <= k < order@.len() ==> (#[trigger] order@[k]) < i,
        decreases keys@.len() - i,
    {
        let mut p: usize = 0;
        while p < order.len() && !is_before(keys[i].as_str(), keys[order[p]].as_str())
            invariant
                p <= order@.len(),
                i < keys@.len(),
                all == texts(keys@),
                forall|k: int| 0 <= k < order@.len() ==> (#[trigger] order@[k]) < i,
                forall|k: int|
                    0 <= k < p ==> !before(all[i as int], all[#[trigger] order@[k] as int]),
            decreases order@.len() - p,
        {
            p += 1;
        }
        let ghost earlier = ints(order@);
        proof {
            put_text_in(all, earlier, i as int, p as int);
        }
        order.insert(p, i);
        proof {
            assert(ints(order@) =~= earlier.insert(p as int, i as int));
        }
        i += 1;
    }
    proof {
        one_text_order_only(all, ints(order@), text_order_of(all));
    }
    order
}

/// What comes first has the smaller key, and of two with the same key the one that was first.
pub proof fn the_smaller_key_comes_first(keys: Seq<u64>, order: Seq<int>, a: int, b: int)
    requires
        in_order(keys, order, keys.len() as int),
        0 <= a < b < order.len(),
    ensures
        keys[order[a]] <= keys[order[b]],
        keys[order[a]] == keys[order[b]] ==> order[a] < order[b],
        order.len() == keys.len(),
        order.contains(a),
{
    assert(precedes(keys, order[a], order[b]));
}

/// What comes first reads first, and of two that read the same the one that was first.
pub proof fn the_earlier_text_comes_first(keys: Seq<Seq<char>>, order: Seq<int>, a: int, b: int)
    requires
        in_text_order(keys, order, keys.len() as int),
        0 <= a < b < order.len(),
    ensures
        keys[order[a]] == keys[order[b]] || before(keys[order[a]], keys[order[b]]),
        keys[order[a]] == keys[order[b]] ==> order[a] < order[b],
        order.len() == keys.len(),
        order.contains(a),
{
    assert(reads_before(keys, order[a], order[b]));
    crate::words::texts_are_ordered(keys[order[a]], keys[order[b]]);
}

} // verus!
