//! The order in which rows are listed.

use crate::text::{comes_before, lemma_precedes_total, lemma_precedes_transitive, precedes};
use vstd::prelude::*;

verus! {

/// Whether a row with key `a` is listed before a row with key `b`, whatever their positions.
pub open spec fn goes_before(a: Seq<char>, b: Seq<char>, descending: bool) -> bool {
    if descending {
        precedes(b, a)
    } else {
        precedes(a, b)
    }
}

/// The positions in `order` with `k` added where its key belongs, behind equal keys.
pub open spec fn placed(
    order: Seq<int>,
    keys: Seq<Seq<char>>,
    k: int,
    descending: bool,
) -> Seq<int>
    decreases order.len(),
{
    if order.len() == 0 || !goes_before(keys[k], keys[order.last()], descending) {
        order.push(k)
    } else {
        placed(order.drop_last(), keys, k, descending).push(order.last())
    }
}

/// The first `n` positions of `keys` in the order of their keys; equal keys stay in place.
pub open spec fn arranged(keys: Seq<Seq<char>>, n: nat, descending: bool) -> Seq<int>
    decreases n,
{
    if n == 0 {
        Seq::empty()
    } else {
        placed(arranged(keys, (n - 1) as nat, descending), keys, n - 1, descending)
    }
}

/// The positions of `keys` from the smallest key to the largest.
pub open spec fn ascending(keys: Seq<Seq<char>>) -> Seq<int> {
    arranged(keys, keys.len(), false)
}

/// The positions of `keys` from the largest key to the smallest.
pub open spec fn descending(keys: Seq<Seq<char>>) -> Seq<int> {
    arranged(keys, keys.len(), true)
}

/// Whether a row at position `i` with its key is listed before a row at position `j` with its
/// key: by the keys and, where they are equal, by the positions.
pub open spec fn listed_before(
    keys: Seq<Seq<char>>,
    i: int,
    j: int,
    descending: bool,
) -> bool {
    goes_before(keys[i], keys[j], descending) || (keys[i] == keys[j] && i < j)
}

/// Whether `order` holds each of the first `n` positions once, in the order of their keys.
pub open spec fn is_arrangement(
    order: Seq<int>,
    keys: Seq<Seq<char>>,
    n: int,
    descending: bool,
) -> bool {
    &&& order.len() == n
    &&& forall|p: int| 0 <= p < n ==> 0 <= #[trigger] order[p] < n
    &&& forall|k: int| 0 <= k < n ==> order.contains(k)
    &&& forall|p: int, q: int|
        0 <= p < q < n ==> listed_before(
            keys,
            #[trigger] order[p],
            #[trigger] order[q],
            descending,
        )
}

/// Placing the next position keeps an arrangement.
proof fn lemma_placed(order: Seq<int>, keys: Seq<Seq<char>>, k: int, descending: bool)
    requires
        0 <= k < keys.len(),
        forall|p: int| 0 <= p < order.len() ==> 0 <= #[trigger] order[p] < k,
        forall|p: int, q: int|
            0 <= p < q < order.len() ==> listed_before(
                keys,
                #[trigger] order[p],
                #[trigger] order[q],
                descending,
            ),
    ensures
        placed(order, keys, k, descending).len() == order.len() + 1,
        forall|p: int|
            0 <= p <= order.len() ==> 0 <= #[trigger] placed(order, keys, k, descending)[p] <= k,
        placed(order, keys, k, descending).contains(k),
        forall|x: int| order.contains(x) ==> #[trigger] placed(
            order,
            keys,
            k,
            descending,
        ).contains(x),
        forall|x: int| #[trigger]
            placed(order, keys, k, descending).contains(x) ==> x == k || order.contains(x),
        forall|p: int, q: int|
            0 <= p < q <= order.len() ==> listed_before(
                keys,
                #[trigger] placed(order, keys, k, descending)[p],
                #[trigger] placed(order, keys, k, descending)[q],
                descending,
            ),
    decreases order.len(),
{
    let after = placed(order, keys, k, descending);
    if order.len() == 0 || !goes_before(keys[k], keys[order.last()], descending) {
        assert(after == order.push(k));
        assert(after[order.len() as int] == k);
        assert forall|x: int| order.contains(x) implies #[trigger] after.contains(x) by {
            let p = choose|p: int| 0 <= p < order.len() && order[p] == x;
            assert(after[p] == x);
        }
        assert forall|x: int| #[trigger] after.contains(x) implies x == k || order.contains(x) by {
            let p = choose|p: int| 0 <= p < after.len() && after[p] == x;
            if p < order.len() {
                assert(order[p] == x);
            }
        }
        assert forall|p: int, q: int| 0 <= p < q <= order.len() implies listed_before(
            keys,
            #[trigger] after[p],
            #[trigger] after[q],
            descending,
        ) by {
            if q < order.len() {
                assert(listed_before(keys, order[p], order[q], descending));
            } else {
                let last = order.last();
                lemma_precedes_total(keys[k], keys[last]);
                if p < order.len() - 1 {
                    assert(listed_before(keys, order[p], order[order.len() - 1], descending));
                    lemma_listed_transitive(keys, order[p], last, k, descending);
                }
            }
        }
    } else {
        let rest = order.drop_last();
        let last = order.last();
        assert forall|p: int, q: int| 0 <= p < q < rest.len() implies listed_before(
            keys,
            #[trigger] rest[p],
            #[trigger] rest[q],
            descending,
        ) by {
            assert(listed_before(keys, order[p], order[q], descending));
        }
        lemma_placed(rest, keys, k, descending);
        let before = placed(rest, keys, k, descending);
        assert(after == before.push(last));
        assert forall|p: int| 0 <= p <= order.len() implies 0 <= #[trigger] after[p] <= k by {
            if p < order.len() {
                assert(0 <= before[p] <= k);
            } else {
                assert(0 <= order[order.len() - 1] < k);
            }
        }
        assert(after.contains(k)) by {
            let p = choose|p: int| 0 <= p < before.len() && before[p] == k;
            assert(after[p] == k);
        }
        assert forall|x: int| order.contains(x) implies #[trigger] after.contains(x) by {
            let p = choose|p: int| 0 <= p < order.len() && order[p] == x;
            if p < rest.len() {
                assert(rest[p] == x);
                assert(rest.contains(x));
                assert(before.contains(x));
                let q = choose|q: int| 0 <= q < before.len() && before[q] == x;
                assert(after[q] == x);
            } else {
                assert(after[order.len() as int] == x);
            }
        }
        assert forall|x: int| #[trigger] after.contains(x) implies x == k || order.contains(x) by {
            let p = choose|p: int| 0 <= p < after.len() && after[p] == x;
            if p < before.len() {
                assert(before[p] == x);
                assert(before.contains(x));
                if x != k {
                    let q = choose|q: int| 0 <= q < rest.len() && rest[q] == x;
                    assert(order[q] == x);
                }
            } else {
                assert(order[order.len() - 1] == x);
            }
        }
        assert forall|p: int, q: int| 0 <= p < q <= order.len() implies listed_before(
            keys,
            #[trigger] after[p],
            #[trigger] after[q],
            descending,
        ) by {
            if q < order.len() {
                assert(listed_before(keys, before[p], before[q], descending));
            } else {
                assert(before.contains(before[p]));
                if before[p] != k {
                    let r = choose|r: int| 0 <= r < rest.len() && rest[r] == before[p];
                    assert(listed_before(keys, order[r], order[order.len() - 1], descending));
                }
            }
        }
    }
}

/// The listing order is transitive.
proof fn lemma_listed_transitive(keys: Seq<Seq<char>>, a: int, b: int, c: int, descending: bool)
    requires
        listed_before(keys, a, b, descending),
        keys[b] == keys[c] || goes_before(keys[b], keys[c], descending),
        b < c || goes_before(keys[b], keys[c], descending),
    ensures
        listed_before(keys, a, c, descending),
{
    if goes_before(keys[a], keys[b], descending) && goes_before(keys[b], keys[c], descending) {
        if descending {
            lemma_precedes_transitive(keys[c], keys[b], keys[a]);
        } else {
            lemma_precedes_transitive(keys[a], keys[b], keys[c]);
        }
    }
}

/// Rows are listed in the order of their keys, each once, and rows with equal keys in the order
/// in which they were stored.
pub proof fn law_listing_order(keys: Seq<Seq<char>>, n: nat, descending: bool)
    requires
        n <= keys.len(),
    ensures
        is_arrangement(arranged(keys, n, descending), keys, n as int, descending),
    decreases n,
{
    if n > 0 {
        let m = (n - 1) as nat;
        law_listing_order(keys, m, descending);
        let before = arranged(keys, m, descending);
        let after = arranged(keys, n, descending);
        lemma_placed(before, keys, m as int, descending);
        assert(after == placed(before, keys, m as int, descending));
        assert forall|p: int| 0 <= p < n implies 0 <= #[trigger] after[p] < n by {
            assert(0 <= placed(before, keys, m as int, descending)[p] <= m);
        }
        assert forall|k: int| 0 <= k < n implies after.contains(k) by {
            if k < m {
                assert(before.contains(k));
            }
        }
    }
}

/// Whether a row with key `a` is listed before a row with key `b`.
fn comes_first(a: &str, b: &str, descending: bool) -> (r: bool)
    ensures
        r == goes_before(a@, b@, descending),
{
    if descending {
        comes_before(b, a)
    } else {
        comes_before(a, b)
    }
}

/// The positions of the keys in the order of the keys.
pub fn arrange(keys: &Vec<String>, descending: bool) -> (r: Vec<usize>)
    ensures
        r@.len() == keys@.len(),
        forall|p: int| 0 <= p < r@.len() ==> (#[trigger] r@[p]) < keys@.len(),
        r@.map_values(|p: usize| p as int) == arranged(
            keys.deep_view(),
            keys@.len(),
            descending,
        ),
{
    let ghost texts = keys.deep_view();
    let mut order: Vec<usize> = Vec::new();
    let mut k: usize = 0;
    assert(order@.map_values(|p: usize| p as int) =~= arranged(texts, 0, descending));
    while k < keys.len()
        invariant
            k <= keys.len(),
            texts == keys.deep_view(),
            order@.map_values(|p: usize| p as int) == arranged(texts, k as nat, descending),
        decreases keys.len() - k,
    {
        proof {
            law_listing_order(texts, k as nat, descending);
        }
        let ghost old_order = order@.map_values(|p: usize| p as int);
        assert(forall|p: int| 0 <= p < order@.len() ==> #[trigger] order@[p] == old_order[p]);
        let mut at: usize = order.len();
        assert(old_order.take(at as int) =~= old_order);
        assert(old_order.skip(at as int) =~= Seq::empty());
        assert(placed(old_order.take(at as int), texts, k as int, descending) + old_order.skip(
            at as int,
        ) =~= placed(old_order, texts, k as int, descending));
        while at > 0 && comes_first(
            keys[k].as_str(),
            keys[order[at - 1]].as_str(),
            descending,
        )
            invariant
                k < keys.len(),
                texts == keys.deep_view(),
                at <= order@.len(),
                old_order.len() == order@.len(),
                forall|p: int| 0 <= p < order@.len() ==> #[trigger] order@[p] == old_order[p],
                forall|p: int| 0 <= p < order@.len() ==> 0 <= #[trigger] old_order[p] < k,
                placed(old_order.take(at as int), texts, k as int, descending) + old_order.skip(
                    at as int,
                ) == placed(old_order, texts, k as int, descending),
            decreases at,
        {
            let ghost head = old_order.take(at as int);
            assert(head.drop_last() =~= old_order.take(at - 1));
            assert(head.last() == old_order[at - 1]);
            assert(seq![head.last()] + old_order.skip(at as int) =~= old_order.skip(at - 1));
            assert(placed(head, texts, k as int, descending) + old_order.skip(at as int)
                =~= placed(head.drop_last(), texts, k as int, descending) + (seq![head.last()]
                + old_order.skip(at as int)));
            at -= 1;
        }
        let ghost head = old_order.take(at as int);
        assert(placed(head, texts, k as int, descending) == head.push(k as int)) by {
            if at > 0 {
                assert(head.last() == old_order[at - 1]);
            }
        }
        order.insert(at, k);
        assert(order@.map_values(|p: usize| p as int) =~= head.push(k as int) + old_order.skip(
            at as int,
        ));
        k += 1;
    }
    proof {
        law_listing_order(texts, keys@.len(), descending);
        let image = order@.map_values(|p: usize| p as int);
        assert forall|p: int| 0 <= p < order@.len() implies (#[trigger] order@[p]) < keys@.len() by {
            assert(0 <= image[p] < keys@.len());
        }
    }
    order
}

} // verus!
