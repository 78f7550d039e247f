//! Counting rows: what is counted does not depend on the order in which rows are listed.

use crate::db::order::{arranged, is_arrangement, placed};
use crate::db::shared::picked;
use crate::text::{lemma_precedes_irreflexive, lemma_precedes_transitive, precedes};
use vstd::prelude::*;

verus! {

/// Adding an item adds one to the count where the item counts.
pub proof fn lemma_count_push<T>(s: Seq<T>, x: T, p: spec_fn(T) -> bool)
    ensures
        s.push(x).filter(p).len() == s.filter(p).len() + if p(x) {
            1nat
        } else {
            0nat
        },
{
    reveal(Seq::filter);
    assert(s.push(x).drop_last() =~= s);
}

/// Items that count alike are equally many.
pub proof fn lemma_count_alike<S, T>(
    s: Seq<S>,
    p: spec_fn(S) -> bool,
    r: Seq<T>,
    q: spec_fn(T) -> bool,
)
    requires
        s.len() == r.len(),
        forall|i: int| 0 <= i < s.len() ==> p(#[trigger] s[i]) == q(r[i]),
    ensures
        s.filter(p).len() == r.filter(q).len(),
    decreases s.len(),
{
    reveal(Seq::filter);
    if s.len() > 0 {
        assert forall|i: int| 0 <= i < s.drop_last().len() implies p(#[trigger] s.drop_last()[i])
            == q(r.drop_last()[i]) by {
            assert(s[i] == s.drop_last()[i]);
        }
        lemma_count_alike(s.drop_last(), p, r.drop_last(), q);
        assert(p(s[s.len() - 1]) == q(r[s.len() - 1]));
    }
}

/// Counting among the items that were asked for is counting with both questions.
pub proof fn lemma_count_both<T>(
    s: Seq<T>,
    p: spec_fn(T) -> bool,
    q: spec_fn(T) -> bool,
    both: spec_fn(T) -> bool,
)
    requires
        forall|x: T| #[trigger] both(x) == (p(x) && q(x)),
    ensures
        s.filter(p).filter(q).len() == s.filter(both).len(),
    decreases s.len(),
{
    reveal(Seq::filter);
    if s.len() > 0 {
        lemma_count_both(s.drop_last(), p, q, both);
        let rest = s.drop_last().filter(p);
        assert(both(s.last()) == (p(s.last()) && q(s.last())));
        if p(s.last()) {
            lemma_count_push(rest, s.last(), q);
        }
    }
}

/// As many as count are there at most.
pub proof fn lemma_count_bound<T>(s: Seq<T>, p: spec_fn(T) -> bool)
    ensures
        s.filter(p).len() <= s.len(),
    decreases s.len(),
{
    reveal(Seq::filter);
    if s.len() > 0 {
        lemma_count_bound(s.drop_last(), p);
    }
}

/// Nothing is counted exactly where nothing counts.
pub proof fn lemma_count_none<T>(s: Seq<T>, p: spec_fn(T) -> bool)
    ensures
        s.filter(p).len() == 0 <==> forall|i: int| 0 <= i < s.len() ==> !p(#[trigger] s[i]),
    decreases s.len(),
{
    reveal(Seq::filter);
    if s.len() > 0 {
        let rest = s.drop_last();
        lemma_count_none(rest, p);
        if s.filter(p).len() == 0 {
            assert forall|i: int| 0 <= i < s.len() implies !p(#[trigger] s[i]) by {
                if i < rest.len() {
                    assert(rest[i] == s[i]);
                }
            }
        }
        if forall|i: int| 0 <= i < s.len() ==> !p(#[trigger] s[i]) {
            assert forall|i: int| 0 <= i < rest.len() implies !p(#[trigger] rest[i]) by {
                assert(s[i] == rest[i]);
            }
            assert(!p(s[s.len() - 1]));
        }
    }
}

/// Where one row changes from not counting to counting and the others count as before, one more
/// is counted.
pub proof fn lemma_count_one_more<T>(s: Seq<T>, r: Seq<T>, p: spec_fn(T) -> bool, at: int)
    requires
        s.len() == r.len(),
        0 <= at < s.len(),
        !p(s[at]),
        p(r[at]),
        forall|i: int| 0 <= i < s.len() && i != at ==> p(#[trigger] s[i]) == p(r[i]),
    ensures
        r.filter(p).len() == s.filter(p).len() + 1,
    decreases s.len(),
{
    reveal(Seq::filter);
    let rest = s.drop_last();
    let other = r.drop_last();
    assert forall|i: int| 0 <= i < rest.len() && i != at implies p(#[trigger] rest[i]) == p(
        other[i],
    ) by {
        assert(s[i] == rest[i]);
    }
    if at < rest.len() {
        lemma_count_one_more(rest, other, p, at);
        assert(p(s[s.len() - 1]) == p(r[s.len() - 1]));
    } else {
        assert forall|i: int| 0 <= i < rest.len() implies p(#[trigger] rest[i]) == p(other[i]) by {
            assert(i != at);
        }
        lemma_count_alike(rest, p, other, p);
    }
}

/// Whether an item that counts has this name.
pub open spec fn counts_named<T>(
    s: Seq<T>,
    p: spec_fn(T) -> bool,
    name: spec_fn(T) -> Seq<char>,
    text: Seq<char>,
) -> bool {
    exists|i: int| 0 <= i < s.len() && p(#[trigger] s[i]) && name(s[i]) == text
}

/// A text that is there is counted, and of different texts each is: as many count as are named.
pub proof fn lemma_count_named<T>(
    s: Seq<T>,
    p: spec_fn(T) -> bool,
    name: spec_fn(T) -> Seq<char>,
    names: Seq<Seq<char>>,
)
    requires
        names.no_duplicates(),
        forall|k: int|
            0 <= k < names.len() ==> counts_named(s, p, name, #[trigger] names[k]),
    ensures
        names.len() <= s.filter(p).len(),
    decreases names.len(),
{
    if names.len() > 0 {
        let last = names.last();
        let rest = names.drop_last();
        let q = |x: T| p(x) && name(x) != last;
        assert forall|k: int| 0 <= k < rest.len() implies counts_named(
            s,
            q,
            name,
            #[trigger] rest[k],
        ) by {
            assert(counts_named(s, p, name, names[k]));
            let i = choose|i: int|
                0 <= i < s.len() && p(#[trigger] s[i]) && name(s[i]) == names[k];
            assert(names[k] != names[names.len() - 1]);
            assert(q(s[i]));
        }
        lemma_count_named(s, q, name, rest);
        assert(counts_named(s, p, name, names[names.len() - 1]));
        let at = choose|i: int|
            0 <= i < s.len() && p(#[trigger] s[i]) && name(s[i]) == names[names.len() - 1];
        lemma_count_fewer(s, q, p, at);
    }
}

/// Where less counts, and one item less at least, fewer are counted.
pub proof fn lemma_count_fewer<T>(s: Seq<T>, q: spec_fn(T) -> bool, p: spec_fn(T) -> bool, at: int)
    requires
        forall|x: T| #[trigger] q(x) ==> p(x),
        0 <= at < s.len(),
        p(s[at]),
        !q(s[at]),
    ensures
        s.filter(q).len() < s.filter(p).len(),
    decreases s.len(),
{
    reveal(Seq::filter);
    let rest = s.drop_last();
    if at < rest.len() {
        lemma_count_fewer(rest, q, p, at);
    } else {
        lemma_count_less(rest, q, p);
    }
    assert(q(s.last()) ==> p(s.last()));
}

proof fn lemma_count_less<T>(s: Seq<T>, q: spec_fn(T) -> bool, p: spec_fn(T) -> bool)
    requires
        forall|x: T| #[trigger] q(x) ==> p(x),
    ensures
        s.filter(q).len() <= s.filter(p).len(),
    decreases s.len(),
{
    reveal(Seq::filter);
    if s.len() > 0 {
        lemma_count_less(s.drop_last(), q, p);
        assert(q(s.last()) ==> p(s.last()));
    }
}

proof fn lemma_placed_count<T>(
    items: Seq<T>,
    order: Seq<int>,
    keys: Seq<Seq<char>>,
    k: int,
    descending: bool,
    p: spec_fn(T) -> bool,
)
    ensures
        picked(items, placed(order, keys, k, descending)).filter(p).len() == picked(
            items,
            order,
        ).filter(p).len() + if p(items[k]) {
            1nat
        } else {
            0nat
        },
    decreases order.len(),
{
    let after = placed(order, keys, k, descending);
    if order.len() == 0 || !crate::db::order::goes_before(
        keys[k],
        keys[order.last()],
        descending,
    ) {
        assert(picked(items, after) =~= picked(items, order).push(items[k]));
        lemma_count_push(picked(items, order), items[k], p);
    } else {
        let rest = order.drop_last();
        lemma_placed_count(items, rest, keys, k, descending, p);
        let before = placed(rest, keys, k, descending);
        assert(picked(items, after) =~= picked(items, before).push(items[order.last()]));
        lemma_count_push(picked(items, before), items[order.last()], p);
        assert(picked(items, order) =~= picked(items, rest).push(items[order.last()]));
        lemma_count_push(picked(items, rest), items[order.last()], p);
    }
}

/// Listed in any order of their keys, as many items count as in the order of storage.
pub proof fn lemma_listed_count<T>(
    items: Seq<T>,
    keys: Seq<Seq<char>>,
    n: nat,
    descending: bool,
    p: spec_fn(T) -> bool,
)
    requires
        n <= items.len(),
    ensures
        picked(items, arranged(keys, n, descending)).filter(p).len() == items.take(
            n as int,
        ).filter(p).len(),
    decreases n,
{
    if n > 0 {
        let m = (n - 1) as nat;
        lemma_listed_count(items, keys, m, descending, p);
        lemma_placed_count(items, arranged(keys, m, descending), keys, m as int, descending, p);
        assert(items.take(n as int) =~= items.take(m as int).push(items[m as int]));
        lemma_count_push(items.take(m as int), items[m as int], p);
    } else {
        assert(picked(items, arranged(keys, n, descending)) =~= items.take(0));
    }
}

/// In a listing in strict order, as many texts come before the one at a position as stand before
/// it.
pub proof fn lemma_count_before(sorted: Seq<Seq<char>>, at: int, upto: int)
    requires
        forall|p: int, q: int|
            0 <= p < q < sorted.len() ==> precedes(#[trigger] sorted[p], #[trigger] sorted[q]),
        0 <= at < sorted.len(),
        0 <= upto <= sorted.len(),
    ensures
        sorted.take(upto).filter(|x: Seq<char>| precedes(x, sorted[at])).len() == if upto <= at {
            upto
        } else {
            at
        },
    decreases upto,
{
    let before = |x: Seq<char>| precedes(x, sorted[at]);
    if upto > 0 {
        lemma_count_before(sorted, at, upto - 1);
        assert(sorted.take(upto) =~= sorted.take(upto - 1).push(sorted[upto - 1]));
        lemma_count_push(sorted.take(upto - 1), sorted[upto - 1], before);
        lemma_precedes_irreflexive(sorted[at]);
        if upto - 1 > at {
            assert(precedes(sorted[at], sorted[upto - 1]));
            if precedes(sorted[upto - 1], sorted[at]) {
                lemma_precedes_transitive(sorted[at], sorted[upto - 1], sorted[at]);
            }
        } else if upto - 1 < at {
            assert(precedes(sorted[upto - 1], sorted[at]));
        }
    } else {
        assert(sorted.take(0) =~= Seq::empty());
        reveal(Seq::filter);
    }
}

/// Of texts that all differ, one is among the first of their listing exactly where fewer than so
/// many come before it.
pub proof fn lemma_among_first(texts: Seq<Seq<char>>, text: Seq<char>, n: nat)
    requires
        texts.no_duplicates(),
        texts.contains(text),
    ensures
        ({
            let sorted = picked(texts, crate::db::order::ascending(texts));
            let first = if n <= sorted.len() {
                sorted.take(n as int)
            } else {
                sorted
            };
            first.contains(text) <==> texts.filter(|x: Seq<char>| precedes(x, text)).len() < n
        }),
{
    let order = crate::db::order::ascending(texts);
    let sorted = picked(texts, order);
    let before = |x: Seq<char>| precedes(x, text);
    crate::db::order::law_listing_order(texts, texts.len(), false);
    assert(is_arrangement(order, texts, texts.len() as int, false));
    assert forall|p: int, q: int| 0 <= p < q < sorted.len() implies precedes(
        #[trigger] sorted[p],
        #[trigger] sorted[q],
    ) by {
        assert(crate::db::order::listed_before(texts, order[p], order[q], false));
        if order[p] == order[q] {
            lemma_precedes_irreflexive(texts[order[p]]);
        }
        assert(texts[order[p]] != texts[order[q]]);
    }
    let i = choose|i: int| 0 <= i < texts.len() && texts[i] == text;
    assert(order.contains(i));
    let at = choose|k: int| 0 <= k < order.len() && order[k] == i;
    assert(sorted[at] == text);
    lemma_count_before(sorted, at, sorted.len() as int);
    assert(sorted.take(sorted.len() as int) =~= sorted);
    lemma_listed_count(texts, texts, texts.len(), false, before);
    assert(texts.take(texts.len() as int) =~= texts);
    let first = if n <= sorted.len() {
        sorted.take(n as int)
    } else {
        sorted
    };
    if at < n {
        assert(first[at] == text);
    }
    if first.contains(text) {
        let k = choose|k: int| 0 <= k < first.len() && first[k] == text;
        assert(sorted[k] == text);
        lemma_precedes_irreflexive(text);
        if k != at {
            if k < at {
                assert(precedes(sorted[k], sorted[at]));
            } else {
                assert(precedes(sorted[at], sorted[k]));
            }
        }
    }
}

} // verus!
