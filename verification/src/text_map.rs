//! A map from text to text that keeps its keys in order.

use crate::text::{
    comes_before, lemma_precedes_irreflexive, lemma_precedes_total, lemma_precedes_transitive,
    precedes, same,
};
use vstd::prelude::*;

verus! {

/// A map from text to text. Each key occurs once, and the keys are kept in code point order.
#[derive(Debug)]
pub struct TextMap {
    entries: Vec<(String, String)>,
}

/// Whether the keys of the pairs stand in strict order.
pub open spec fn keys_ascend(pairs: Seq<(Seq<char>, Seq<char>)>) -> bool {
    forall|i: int, j: int|
        0 <= i < j < pairs.len() ==> precedes(#[trigger] pairs[i].0, #[trigger] pairs[j].0)
}

/// The map that holds the given pairs; of two pairs with one key, the later.
pub open spec fn map_of(pairs: Seq<(Seq<char>, Seq<char>)>) -> Map<Seq<char>, Seq<char>>
    decreases pairs.len(),
{
    if pairs.len() == 0 {
        Map::empty()
    } else {
        map_of(pairs.drop_last()).insert(pairs.last().0, pairs.last().1)
    }
}

/// The keys of `map_of` are the keys of its pairs, and each pair with a key of its own is kept.
pub proof fn lemma_map_of(pairs: Seq<(Seq<char>, Seq<char>)>)
    requires
        keys_ascend(pairs),
    ensures
        forall|i: int|
            0 <= i < pairs.len() ==> map_of(pairs).dom().contains(#[trigger] pairs[i].0)
                && map_of(pairs)[pairs[i].0] == pairs[i].1,
        forall|k: Seq<char>| #[trigger]
            map_of(pairs).dom().contains(k) ==> exists|i: int|
                0 <= i < pairs.len() && #[trigger] pairs[i].0 == k,
    decreases pairs.len(),
{
    if pairs.len() > 0 {
        let rest = pairs.drop_last();
        lemma_map_of(rest);
        assert forall|i: int| 0 <= i < pairs.len() implies map_of(pairs).dom().contains(
            #[trigger] pairs[i].0,
        ) && map_of(pairs)[pairs[i].0] == pairs[i].1 by {
            if i < rest.len() {
                assert(rest[i] == pairs[i]);
                assert(precedes(pairs[i].0, pairs[pairs.len() - 1].0));
                lemma_precedes_irreflexive(pairs[i].0);
            }
        }
        assert forall|k: Seq<char>| #[trigger] map_of(pairs).dom().contains(k) implies exists|i: int|
            0 <= i < pairs.len() && #[trigger] pairs[i].0 == k by {
            if k == pairs.last().0 {
                assert(pairs[pairs.len() - 1].0 == k);
            } else {
                assert(map_of(rest).dom().contains(k));
                let i = choose|i: int| 0 <= i < rest.len() && #[trigger] rest[i].0 == k;
                assert(rest[i] == pairs[i]);
            }
        }
    }
}

impl TextMap {
    /// The pairs of the map in the order of their keys.
    pub closed spec fn pairs(&self) -> Seq<(Seq<char>, Seq<char>)> {
        self.entries.deep_view()
    }

    #[verifier::type_invariant]
    spec fn in_order(&self) -> bool {
        keys_ascend(self.pairs())
    }

    /// A map without pairs.
    pub fn new() -> (r: TextMap)
        ensures
            r@ == Map::<Seq<char>, Seq<char>>::empty(),
            r.pairs() == Seq::<(Seq<char>, Seq<char>)>::empty(),
    {
        let r = TextMap { entries: Vec::new() };
        assert(r.pairs() =~= Seq::empty());
        r
    }

    /// How many pairs the map holds.
    pub fn len(&self) -> (r: usize)
        ensures
            r == self.pairs().len(),
            keys_ascend(self.pairs()),
    {
        proof {
            use_type_invariant(self);
        }
        self.entries.len()
    }

    /// The key of the pair at a position.
    pub fn key_at(&self, i: usize) -> (r: &String)
        requires
            i < self.pairs().len(),
        ensures
            r@ == self.pairs()[i as int].0,
    {
        &self.entries[i].0
    }

    /// The value of the pair at a position.
    pub fn value_at(&self, i: usize) -> (r: &String)
        requires
            i < self.pairs().len(),
        ensures
            r@ == self.pairs()[i as int].1,
    {
        &self.entries[i].1
    }

    /// The value of a key, if the map holds the key.
    pub fn get(&self, key: &str) -> (r: Option<&String>)
        ensures
            match r {
                Some(v) => self@.dom().contains(key@) && v@ == self@[key@],
                None => !self@.dom().contains(key@),
            },
    {
        proof {
            use_type_invariant(self);
        }
        let mut i: usize = 0;
        while i < self.entries.len()
            invariant
                i <= self.entries.len(),
                keys_ascend(self.pairs()),
                forall|k: int| 0 <= k < i ==> #[trigger] self.pairs()[k].0 != key@,
            decreases self.entries.len() - i,
        {
            if same(self.entries[i].0.as_str(), key) {
                proof {
                    lemma_map_of(self.pairs());
                    assert(self.pairs()[i as int].0 == key@);
                }
                return Some(&self.entries[i].1);
            }
            i += 1;
        }
        proof {
            lemma_map_of(self.pairs());
        }
        None
    }

    /// Sets the value of a key.
    pub fn insert(&mut self, key: String, value: String)
        ensures
            final(self)@ == old(self)@.insert(key@, value@),
    {
        proof {
            use_type_invariant(&*self);
        }
        let ghost before = self.pairs();
        let mut entries: Vec<(String, String)> = Vec::new();
        std::mem::swap(&mut self.entries, &mut entries);
        let mut at: usize = 0;
        while at < entries.len() && comes_before(entries[at].0.as_str(), key.as_str())
            invariant
                at <= entries.len(),
                entries.deep_view() == before,
                forall|k: int| 0 <= k < at ==> precedes(#[trigger] before[k].0, key@),
            decreases entries.len() - at,
        {
            at += 1;
        }
        let ghost pair = (key@, value@);
        if at < entries.len() && same(entries[at].0.as_str(), key.as_str()) {
            entries[at] = (key, value);
            proof {
                assert(entries.deep_view() =~= before.update(at as int, pair));
                lemma_replace(before, at as int, pair);
            }
        } else {
            entries.insert(at, (key, value));
            proof {
                assert(entries.deep_view() =~= before.insert(at as int, pair));
                if at < before.len() {
                    lemma_precedes_total(before[at as int].0, key@);
                }
                lemma_insert(before, at as int, pair);
            }
        }
        self.entries = entries;
    }
}

impl Clone for TextMap {
    fn clone(&self) -> (r: Self)
        ensures
            r@ == self@,
            r.pairs() == self.pairs(),
    {
        proof {
            use_type_invariant(self);
        }
        let mut entries: Vec<(String, String)> = Vec::new();
        let mut i: usize = 0;
        while i < self.entries.len()
            invariant
                i <= self.entries.len(),
                entries.deep_view() == self.entries.deep_view().take(i as int),
            decreases self.entries.len() - i,
        {
            let ghost done = entries.deep_view();
            entries.push((self.entries[i].0.clone(), self.entries[i].1.clone()));
            assert(entries.deep_view() =~= done.push(self.entries.deep_view()[i as int]));
            assert(self.entries.deep_view().take(i + 1) =~= done.push(
                self.entries.deep_view()[i as int],
            ));
            i += 1;
        }
        assert(entries.deep_view() =~= self.entries.deep_view());
        TextMap { entries }
    }
}

impl View for TextMap {
    type V = Map<Seq<char>, Seq<char>>;

    open spec fn view(&self) -> Map<Seq<char>, Seq<char>> {
        map_of(self.pairs())
    }
}

/// Two maps with ordered pairs hold the same pairs exactly if each holds the pairs of the other.
proof fn lemma_same_map(
    pairs: Seq<(Seq<char>, Seq<char>)>,
    other: Map<Seq<char>, Seq<char>>,
)
    requires
        keys_ascend(pairs),
        forall|i: int|
            0 <= i < pairs.len() ==> other.dom().contains(#[trigger] pairs[i].0)
                && other[pairs[i].0] == pairs[i].1,
        forall|k: Seq<char>| #[trigger]
            other.dom().contains(k) ==> exists|i: int|
                0 <= i < pairs.len() && #[trigger] pairs[i].0 == k,
    ensures
        map_of(pairs) == other,
{
    lemma_map_of(pairs);
    assert(map_of(pairs) =~= other) by {
        assert forall|k: Seq<char>| map_of(pairs).dom().contains(k) == other.dom().contains(k) by {
            if map_of(pairs).dom().contains(k) {
                let i = choose|i: int| 0 <= i < pairs.len() && #[trigger] pairs[i].0 == k;
                assert(other.dom().contains(pairs[i].0));
            }
            if other.dom().contains(k) {
                let i = choose|i: int| 0 <= i < pairs.len() && #[trigger] pairs[i].0 == k;
                assert(map_of(pairs).dom().contains(pairs[i].0));
            }
        }
        assert forall|k: Seq<char>| map_of(pairs).dom().contains(k) implies map_of(pairs)[k]
            == other[k] by {
            let i = choose|i: int| 0 <= i < pairs.len() && #[trigger] pairs[i].0 == k;
            assert(map_of(pairs)[pairs[i].0] == pairs[i].1);
        }
    }
}

/// Replacing the value beside a key sets the value of that key.
proof fn lemma_replace(
    before: Seq<(Seq<char>, Seq<char>)>,
    at: int,
    pair: (Seq<char>, Seq<char>),
)
    requires
        keys_ascend(before),
        0 <= at < before.len(),
        before[at].0 == pair.0,
    ensures
        keys_ascend(before.update(at, pair)),
        map_of(before.update(at, pair)) == map_of(before).insert(pair.0, pair.1),
{
    let after = before.update(at, pair);
    let want = map_of(before).insert(pair.0, pair.1);
    lemma_map_of(before);
    assert forall|i: int, j: int| 0 <= i < j < after.len() implies precedes(
        #[trigger] after[i].0,
        #[trigger] after[j].0,
    ) by {
        assert(precedes(before[i].0, before[j].0));
    }
    assert forall|i: int| 0 <= i < after.len() implies want.dom().contains(#[trigger] after[i].0)
        && want[after[i].0] == after[i].1 by {
        if i != at {
            assert(before[i] == after[i]);
            if i < at {
                assert(precedes(before[i].0, before[at].0));
            } else {
                assert(precedes(before[at].0, before[i].0));
            }
            lemma_precedes_irreflexive(before[i].0);
        }
    }
    assert forall|k: Seq<char>| #[trigger] want.dom().contains(k) implies exists|i: int|
        0 <= i < after.len() && #[trigger] after[i].0 == k by {
        if k == pair.0 {
            assert(after[at].0 == k);
        } else {
            let i = choose|i: int| 0 <= i < before.len() && #[trigger] before[i].0 == k;
            assert(after[i].0 == k);
        }
    }
    lemma_same_map(after, want);
}

/// Inserting a pair where its key belongs sets the value of that key.
proof fn lemma_insert(
    before: Seq<(Seq<char>, Seq<char>)>,
    at: int,
    pair: (Seq<char>, Seq<char>),
)
    requires
        keys_ascend(before),
        0 <= at <= before.len(),
        forall|k: int| 0 <= k < at ==> precedes(#[trigger] before[k].0, pair.0),
        at < before.len() ==> precedes(pair.0, before[at].0),
    ensures
        keys_ascend(before.insert(at, pair)),
        map_of(before.insert(at, pair)) == map_of(before).insert(pair.0, pair.1),
{
    let after = before.insert(at, pair);
    let want = map_of(before).insert(pair.0, pair.1);
    lemma_map_of(before);
    assert forall|k: int| at <= k < before.len() implies precedes(
        pair.0,
        #[trigger] before[k].0,
    ) by {
        if k > at {
            assert(precedes(before[at].0, before[k].0));
            lemma_precedes_transitive(pair.0, before[at].0, before[k].0);
        }
    }
    assert forall|i: int, j: int| 0 <= i < j < after.len() implies precedes(
        #[trigger] after[i].0,
        #[trigger] after[j].0,
    ) by {
        let bi = if i < at { i } else { i - 1 };
        let bj = if j < at { j } else { j - 1 };
        if i != at && j != at {
            assert(precedes(before[bi].0, before[bj].0));
        } else if i == at {
            assert(precedes(pair.0, before[bj].0));
        } else {
            assert(precedes(before[bi].0, pair.0));
        }
    }
    assert forall|i: int| 0 <= i < after.len() implies want.dom().contains(#[trigger] after[i].0)
        && want[after[i].0] == after[i].1 by {
        if i != at {
            let b = if i < at { i } else { i - 1 };
            assert(after[i] == before[b]);
            assert(map_of(before).dom().contains(before[b].0));
            if i < at {
                assert(precedes(before[b].0, pair.0));
            } else {
                assert(precedes(pair.0, before[b].0));
            }
            lemma_precedes_irreflexive(pair.0);
        }
    }
    assert forall|k: Seq<char>| #[trigger] want.dom().contains(k) implies exists|i: int|
        0 <= i < after.len() && #[trigger] after[i].0 == k by {
        if k == pair.0 {
            assert(after[at].0 == k);
        } else {
            let b = choose|b: int| 0 <= b < before.len() && #[trigger] before[b].0 == k;
            let i = if b < at { b } else { b + 1 };
            assert(after[i].0 == k);
        }
    }
    lemma_same_map(after, want);
}

} // verus!
