//! What the operations on the records share.

use crate::clock::{instant_named, parse_rfc3339, Timestamp};
use crate::db::error::{DbError, DbErrorView};
use crate::db::order::{arrange, ascending, law_listing_order};
use crate::db::tables::{AssetLabelRow, AssetLabelRowView};
use crate::text::same;
use vstd::prelude::*;

verus! {

/// The value of an answer.
pub open spec fn viewed<T: View>(r: Result<T, DbError>) -> Result<T::V, DbErrorView> {
    match r {
        Ok(x) => Ok(x@),
        Err(e) => Err(e@),
    }
}

/// The value of an answer that is a list.
pub open spec fn viewed_list<T: DeepView>(r: Result<Vec<T>, DbError>) -> Result<
    Seq<T::V>,
    DbErrorView,
> {
    match r {
        Ok(x) => Ok(x.deep_view()),
        Err(e) => Err(e@),
    }
}

/// A reading, with a failure as an error of the database.
pub open spec fn readable<T>(r: Result<T, Seq<char>>) -> Result<T, DbErrorView> {
    match r {
        Ok(x) => Ok(x),
        Err(reason) => Err(DbErrorView::Conversion(reason)),
    }
}

/// All items, or the reason of the first that cannot be read.
pub open spec fn collected<T>(items: Seq<Result<T, Seq<char>>>) -> Result<Seq<T>, Seq<char>>
    decreases items.len(),
{
    if items.len() == 0 {
        Ok(Seq::empty())
    } else {
        match collected(items.drop_last()) {
            Err(reason) => Err(reason),
            Ok(before) => match items.last() {
                Err(reason) => Err(reason),
                Ok(x) => Ok(before.push(x)),
            },
        }
    }
}

/// What keeps the first items from being collected keeps all of them from it.
pub proof fn lemma_collected_stops<T>(items: Seq<Result<T, Seq<char>>>, k: int)
    requires
        0 <= k <= items.len(),
        collected(items.take(k)) is Err,
    ensures
        collected(items) == collected(items.take(k)),
    decreases items.len(),
{
    if k == items.len() {
        assert(items.take(k) =~= items);
    } else {
        assert(items.drop_last().take(k) =~= items.take(k));
        lemma_collected_stops(items.drop_last(), k);
    }
}

/// Where all items can be collected, each of them can be read.
pub proof fn lemma_collected_items<T>(items: Seq<Result<T, Seq<char>>>)
    requires
        collected(items) is Ok,
    ensures
        collected(items)->Ok_0.len() == items.len(),
        forall|k: int|
            0 <= k < items.len() ==> #[trigger] items[k] == Ok::<T, Seq<char>>(
                collected(items)->Ok_0[k],
            ),
    decreases items.len(),
{
    if items.len() > 0 {
        lemma_collected_items(items.drop_last());
        assert forall|k: int| 0 <= k < items.len() implies #[trigger] items[k] == Ok::<
            T,
            Seq<char>,
        >(collected(items)->Ok_0[k]) by {
            if k < items.len() - 1 {
                assert(items.drop_last()[k] == items[k]);
            }
        }
    }
}

/// Items that can all be read can be collected.
pub proof fn lemma_collected_reads<T>(items: Seq<Result<T, Seq<char>>>)
    requires
        forall|k: int| 0 <= k < items.len() ==> (#[trigger] items[k]) is Ok,
    ensures
        collected(items) is Ok,
    decreases items.len(),
{
    if items.len() > 0 {
        assert forall|k: int| 0 <= k < items.drop_last().len() implies (
        #[trigger] items.drop_last()[k]) is Ok by {
            assert(items[k] is Ok);
        }
        lemma_collected_reads(items.drop_last());
        assert(items[items.len() - 1] is Ok);
    }
}

/// The items at the given positions.
pub open spec fn picked<T>(items: Seq<T>, order: Seq<int>) -> Seq<T> {
    Seq::new(order.len(), |k: int| items[order[k]])
}

/// The labels of an asset in the order of storage.
pub open spec fn stored_labels(rows: Seq<AssetLabelRowView>, asset_id: Seq<char>) -> Seq<
    Seq<char>,
> {
    rows.filter(|row: AssetLabelRowView| row.asset_id == asset_id).map_values(
        |row: AssetLabelRowView| row.label,
    )
}

/// The labels of an asset in their own order.
pub open spec fn labels_of(rows: Seq<AssetLabelRowView>, asset_id: Seq<char>) -> Seq<Seq<char>> {
    let stored = stored_labels(rows, asset_id);
    picked(stored, ascending(stored))
}

/// The labels of an asset in their own order.
pub fn get_asset_labels(rows: &Vec<AssetLabelRow>, asset_id: &str) -> (r: Vec<String>)
    ensures
        r.deep_view() == labels_of(rows.deep_view(), asset_id@),
{
    let ghost view = rows.deep_view();
    let ghost mine = |row: AssetLabelRowView| row.asset_id == asset_id@;
    let ghost label = |row: AssetLabelRowView| row.label;
    let mut stored: Vec<String> = Vec::new();
    let mut i: usize = 0;
    assert(stored.deep_view() =~= view.take(0).filter(mine).map_values(label)) by {
        reveal(Seq::filter);
    }
    while i < rows.len()
        invariant
            i <= rows.len(),
            view == rows.deep_view(),
            mine == (|row: AssetLabelRowView| row.asset_id == asset_id@),
            label == (|row: AssetLabelRowView| row.label),
            stored.deep_view() == view.take(i as int).filter(mine).map_values(label),
        decreases rows.len() - i,
    {
        let ghost before = stored.deep_view();
        assert(view.take(i + 1).drop_last() =~= view.take(i as int));
        assert(view.take(i + 1).last() == view[i as int]);
        if same(rows[i].asset_id.as_str(), asset_id) {
            stored.push(rows[i].label.clone());
            assert(stored.deep_view() =~= before.push(view[i as int].label));
        }
        assert(stored.deep_view() =~= view.take(i + 1).filter(mine).map_values(label)) by {
            reveal(Seq::filter);
        }
        i += 1;
    }
    assert(view.take(i as int) =~= view);
    let order = arrange(&stored, false);
    let ghost positions = ascending(stored.deep_view());
    let mut r: Vec<String> = Vec::new();
    let mut k: usize = 0;
    assert(order@.map_values(|p: usize| p as int) == positions);
    while k < order.len()
        invariant
            k <= order.len(),
            order@.len() == stored@.len(),
            forall|p: int| 0 <= p < order@.len() ==> (#[trigger] order@[p]) < stored@.len(),
            order@.map_values(|p: usize| p as int) == positions,
            r.deep_view() == picked(stored.deep_view(), positions).take(k as int),
        decreases order.len() - k,
    {
        let ghost before = r.deep_view();
        assert(positions[k as int] == order@[k as int]);
        r.push(stored[order[k]].clone());
        assert(r.deep_view() =~= before.push(stored.deep_view()[positions[k as int]]));
        assert(r.deep_view() =~= picked(stored.deep_view(), positions).take(k + 1));
        k += 1;
    }
    assert(picked(stored.deep_view(), positions).take(k as int) =~= picked(
        stored.deep_view(),
        positions,
    ));
    r
}

/// The value of a time that was read.
pub open spec fn time_read(r: Result<Timestamp, String>) -> Result<Timestamp, Seq<char>> {
    match r {
        Ok(t) => Ok(t),
        Err(reason) => Err(reason@),
    }
}

/// The instant that a stored text names.
pub fn parse_ts(raw: &str) -> (r: Result<Timestamp, String>)
    ensures
        time_read(r) == instant_named(raw@),
{
    parse_rfc3339(raw)
}

/// The labels of an asset are listed once each, and are all the labels stored for it.
pub proof fn law_labels_listed(rows: Seq<AssetLabelRowView>, asset_id: Seq<char>, label: Seq<char>)
    ensures
        labels_of(rows, asset_id).len() == stored_labels(rows, asset_id).len(),
        labels_of(rows, asset_id).contains(label) <==> stored_labels(rows, asset_id).contains(
            label,
        ),
{
    let stored = stored_labels(rows, asset_id);
    let order = ascending(stored);
    law_listing_order(stored, stored.len(), false);
    let listed = labels_of(rows, asset_id);
    if listed.contains(label) {
        let k = choose|k: int| 0 <= k < listed.len() && listed[k] == label;
        assert(0 <= order[k] < stored.len());
        assert(stored[order[k]] == label);
    }
    if stored.contains(label) {
        let j = choose|j: int| 0 <= j < stored.len() && stored[j] == label;
        assert(order.contains(j));
        let k = choose|k: int| 0 <= k < order.len() && order[k] == j;
        assert(listed[k] == label);
    }
}

} // verus!
