//! The assets that the control plane knows.

use crate::clock::{instant_named, reads_back, rfc3339_text, to_rfc3339, utc_now, Timestamp};
use crate::db::error::{DbError, DbErrorView};
use crate::db::order::{arrange, descending};
use crate::db::shared::{
    collected, get_asset_labels, labels_of, lemma_collected_stops, parse_ts, picked, readable,
    time_read, viewed, viewed_list,
};
use crate::db::tables::{
    asset_row, find_asset, AssetLabelRow, AssetLabelRowView, AssetRow, AssetRowView, TablesView,
};
use crate::db::writes::{
    lemma_performed_push, lemma_performed_stops, performed, AssetCheckin, AssetCheckinView,
    Database, Write, WriteView,
};
use crate::types::records::{
    AgentCheckinRequest, AgentCheckinRequestView, AssetRecord, AssetRecordView,
};
use crate::types::status::{AssetStatus, StatusKind};
use vstd::prelude::*;

verus! {

/// The asset that a row holds with its labels and this time, or why it cannot be read.
pub open spec fn asset_given(
    row: AssetRowView,
    labels: Seq<AssetLabelRowView>,
    last_seen: Result<Timestamp, Seq<char>>,
) -> Result<AssetRecordView, Seq<char>> {
    match AssetStatus::named(row.status) {
        None => Err(StatusKind::Asset.complaint() + row.status),
        Some(status) => match last_seen {
            Err(reason) => Err(reason),
            Ok(last_seen) => Ok(
                AssetRecordView {
                    asset_id: row.asset_id,
                    asset_type: row.asset_type,
                    mission_state: row.mission_state,
                    current_version: row.current_version,
                    desired_version: row.desired_version,
                    active_slot: row.active_slot,
                    status,
                    last_seen,
                    labels: labels_of(labels, row.asset_id),
                },
            ),
        },
    }
}

/// The asset that a row holds with its labels, or why it cannot be read.
pub open spec fn asset_in(row: AssetRowView, labels: Seq<AssetLabelRowView>) -> Result<
    AssetRecordView,
    Seq<char>,
> {
    asset_given(row, labels, instant_named(row.last_seen))
}

/// The texts by which assets are ordered.
pub open spec fn asset_keys(rows: Seq<AssetRowView>) -> Seq<Seq<char>> {
    rows.map_values(|row: AssetRowView| row.last_seen)
}

/// The assets as they are read one after the other, the one seen last first.
pub open spec fn assets_read(rows: Seq<AssetRowView>, labels: Seq<AssetLabelRowView>) -> Seq<
    Result<AssetRecordView, Seq<char>>,
> {
    picked(rows, descending(asset_keys(rows))).map_values(
        |row: AssetRowView| asset_in(row, labels),
    )
}

/// All assets, the one seen last first.
pub open spec fn asset_list(t: TablesView) -> Result<Seq<AssetRecordView>, DbErrorView> {
    readable(collected(assets_read(t.assets, t.labels)))
}

/// The asset with an identifier.
pub open spec fn asset_of(t: TablesView, id: Seq<char>) -> Result<AssetRecordView, DbErrorView> {
    match asset_row(t.assets, id) {
        None => Err(DbErrorView::AssetNotFound(id)),
        Some(row) => match asset_in(row, t.labels) {
            Ok(asset) => Ok(asset),
            Err(_) => Err(DbErrorView::AssetNotFound(id)),
        },
    }
}

/// The state that an asset has after it has checked in.
pub open spec fn reported_status(req: AgentCheckinRequestView) -> AssetStatus {
    match req.status {
        Some(status) => status,
        None => AssetStatus::Online,
    }
}

/// The statements that store the labels of an asset.
pub open spec fn label_writes(asset_id: Seq<char>, labels: Seq<Seq<char>>) -> Seq<WriteView> {
    labels.map_values(
        |label: Seq<char>|
            WriteView::InsertAssetLabel(AssetLabelRowView { asset_id, label }),
    )
}

/// The statements that an asset's checking in amounts to: its row is stored or updated, and its
/// labels are replaced.
pub open spec fn checkin_writes(req: AgentCheckinRequestView, now: Timestamp) -> Seq<WriteView> {
    seq![
        WriteView::UpsertAsset(
            AssetCheckinView {
                asset_id: req.asset_id,
                asset_type: req.asset_type,
                mission_state: req.mission_state,
                current_version: req.current_version,
                active_slot: req.active_slot,
                status: reported_status(req).name(),
                last_seen: rfc3339_text(now.secs, now.nanos),
            },
        ),
        WriteView::ClearAssetLabels(req.asset_id),
    ] + label_writes(req.asset_id, req.labels)
}

/// What becomes of the rows when an asset checks in at a given time, and the answer.
pub open spec fn asset_upserted(
    t: TablesView,
    req: AgentCheckinRequestView,
    now: Timestamp,
) -> (TablesView, Result<AssetRecordView, DbErrorView>) {
    let (after, outcome) = performed(t, checkin_writes(req, now));
    match outcome {
        Err(e) => (after, Err(e)),
        Ok(_) => (after, asset_of(after, req.asset_id)),
    }
}

/// The asset that a row holds with its labels and this time, or why it cannot be read.
pub fn map_asset(
    row: &AssetRow,
    labels: &Vec<AssetLabelRow>,
    last_seen: Result<Timestamp, String>,
) -> (r: Result<AssetRecord, String>)
    ensures
        match r {
            Ok(asset) => asset_given(row@, labels.deep_view(), time_read(last_seen)) == Ok::<
                AssetRecordView,
                Seq<char>,
            >(asset@),
            Err(reason) => asset_given(row@, labels.deep_view(), time_read(last_seen)) == Err::<
                AssetRecordView,
                Seq<char>,
            >(reason@),
        },
{
    let labels = get_asset_labels(labels, row.asset_id.as_str());
    let status = match AssetStatus::parse(row.status.as_str()) {
        Ok(status) => status,
        Err(unknown) => {
            return Err(unknown.message());
        },
    };
    let last_seen = last_seen?;
    Ok(
        AssetRecord {
            asset_id: row.asset_id.clone(),
            asset_type: row.asset_type.clone(),
            mission_state: row.mission_state.clone(),
            current_version: row.current_version.clone(),
            desired_version: row.desired_version.clone(),
            active_slot: row.active_slot.clone(),
            status,
            last_seen,
            labels,
        },
    )
}

/// All assets, the one seen last first.
pub fn list_assets(db: &Database) -> (r: Result<Vec<AssetRecord>, DbError>)
    ensures
        viewed_list(r) == asset_list(db@),
{
    let rows = &db.tables().assets;
    let labels = &db.tables().labels;
    let ghost view = rows.deep_view();
    let mut keys: Vec<String> = Vec::new();
    let mut i: usize = 0;
    assert(keys.deep_view() =~= asset_keys(view).take(0));
    while i < rows.len()
        invariant
            i <= rows.len(),
            view == rows.deep_view(),
            keys.deep_view() == asset_keys(view).take(i as int),
        decreases rows.len() - i,
    {
        let ghost before = keys.deep_view();
        keys.push(rows[i].last_seen.clone());
        assert(keys.deep_view() =~= before.push(view[i as int].last_seen));
        assert(keys.deep_view() =~= asset_keys(view).take(i + 1));
        i += 1;
    }
    assert(keys.deep_view() =~= asset_keys(view));
    let order = arrange(&keys, true);
    let ghost positions = descending(asset_keys(view));
    let ghost items = assets_read(view, labels.deep_view());
    let mut list: Vec<AssetRecord> = Vec::new();
    let mut k: usize = 0;
    assert(order@.map_values(|p: usize| p as int) == positions);
    assert(list.deep_view() =~= Seq::<AssetRecordView>::empty());
    assert(items.take(0) =~= Seq::empty());
    while k < order.len()
        invariant
            k <= order.len(),
            view == rows.deep_view(),
            view == db@.assets,
            labels.deep_view() == db@.labels,
            order@.len() == view.len(),
            items == assets_read(view, labels.deep_view()),
            positions == descending(asset_keys(view)),
            forall|p: int| 0 <= p < order@.len() ==> (#[trigger] order@[p]) < view.len(),
            order@.map_values(|p: usize| p as int) == positions,
            collected(items.take(k as int)) == Ok::<Seq<AssetRecordView>, Seq<char>>(
                list.deep_view(),
            ),
        decreases order.len() - k,
    {
        assert(positions[k as int] == order@[k as int]);
        assert(items[k as int] == asset_in(view[positions[k as int]], labels.deep_view()));
        assert(items.take(k + 1).drop_last() =~= items.take(k as int));
        assert(items.take(k + 1).last() == items[k as int]);
        let row = &rows[order[k]];
        match map_asset(row, labels, parse_ts(row.last_seen.as_str())) {
            Ok(asset) => {
                let ghost before = list.deep_view();
                list.push(asset);
                assert(list.deep_view() =~= before.push(asset@));
            },
            Err(reason) => {
                proof {
                    lemma_collected_stops(items, k + 1);
                }
                return Err(DbError::Conversion(reason));
            },
        }
        k += 1;
    }
    assert(items.take(k as int) =~= items);
    Ok(list)
}

/// The asset with an identifier.
pub fn get_asset(db: &Database, id: &str) -> (r: Result<AssetRecord, DbError>)
    ensures
        viewed(r) == asset_of(db@, id@),
{
    let rows = &db.tables().assets;
    match find_asset(rows, id) {
        None => Err(DbError::AssetNotFound(id.to_string())),
        Some(i) => match map_asset(
            &rows[i],
            &db.tables().labels,
            parse_ts(rows[i].last_seen.as_str()),
        ) {
            Ok(asset) => Ok(asset),
            Err(_) => Err(DbError::AssetNotFound(id.to_string())),
        },
    }
}

/// Stores what an asset says of itself at a given time, and replaces its labels.
pub fn upsert_asset_as(db: &mut Database, req: AgentCheckinRequest, now: Timestamp) -> (r: Result<
    AssetRecord,
    DbError,
>)
    requires
        now.in_calendar(),
    ensures
        (final(db)@, viewed(r)) == asset_upserted(old(db)@, req@, now),
        final(db).continues(old(db)),
        now.has_four_digit_year() ==> reads_back(now),
{
    let ghost start = db@;
    let ghost all = checkin_writes(req@, now);
    let status = match req.status {
        Some(status) => status,
        None => AssetStatus::Online,
    };
    let ghost mut done: Seq<WriteView> = Seq::empty();
    let checkin = Write::UpsertAsset(
        AssetCheckin {
            asset_id: req.asset_id.clone(),
            asset_type: req.asset_type.clone(),
            mission_state: req.mission_state.clone(),
            current_version: req.current_version.clone(),
            active_slot: req.active_slot.clone(),
            status: status.as_str().to_string(),
            last_seen: to_rfc3339(now),
        },
    );
    assert(checkin@ == all[0]);
    proof {
        assert(performed(start, done) == (start, Ok::<(), DbErrorView>(())));
        lemma_performed_push(start, done, all[0]);
        done = done.push(all[0]);
    }
    db.execute(checkin)?;
    proof {
        lemma_performed_push(start, done, all[1]);
        done = done.push(all[1]);
    }
    db.execute(Write::ClearAssetLabels(req.asset_id.clone()))?;
    let mut i: usize = 0;
    assert(done =~= all.take(2));
    while i < req.labels.len()
        invariant
            i <= req.labels.len(),
            all == checkin_writes(req@, now),
            done == all.take(i + 2),
            performed(start, done) == (db@, Ok::<(), DbErrorView>(())),
            start == old(db)@,
            db.continues(old(db)),
            now.has_four_digit_year() ==> reads_back(now),
        decreases req.labels.len() - i,
    {
        let insert = Write::InsertAssetLabel(
            AssetLabelRow { asset_id: req.asset_id.clone(), label: req.labels[i].clone() },
        );
        proof {
            assert(insert@ == all[i + 2]);
            lemma_performed_push(start, done, all[i + 2]);
            done = done.push(all[i + 2]);
            assert(done =~= all.take(i + 3));
        }
        match db.execute(insert) {
            Ok(_) => {},
            Err(e) => {
                proof {
                    lemma_performed_stops(start, all, i + 3);
                }
                return Err(e);
            },
        }
        i += 1;
    }
    assert(done =~= all);
    get_asset(db, req.asset_id.as_str())
}

/// Stores what an asset says of itself, and replaces its labels.
pub fn upsert_asset(db: &mut Database, req: AgentCheckinRequest) -> (r: Result<
    AssetRecord,
    DbError,
>)
    ensures
        exists|now: Timestamp|
            now.in_calendar() && (final(db)@, viewed(r)) == #[trigger] asset_upserted(
                old(db)@,
                req@,
                now,
            ),
        final(db).continues(old(db)),
{
    let now = utc_now();
    upsert_asset_as(db, req, now)
}

} // verus!
