//! The releases that the control plane knows.

use crate::clock::{instant_named, reads_back, rfc3339_text, to_rfc3339, utc_now, Timestamp};
use crate::db::error::{DbError, DbErrorView};
use crate::db::order::{arrange, descending};
use crate::db::shared::{
    collected, lemma_collected_stops, parse_ts, picked, readable, time_read, viewed,
    viewed_list,
};
use crate::db::tables::{find_release, release_row, ReleaseRow, ReleaseRowView, TablesView};
use crate::db::writes::{step, Database, NewRelease, NewReleaseView, Write, WriteView};
use crate::ids::{fresh_id, is_random_uuid};
use crate::types::manifest::{CreateReleaseRequest, CreateReleaseRequestView};
use crate::types::records::{ReleaseRecord, ReleaseRecordView};
use vstd::prelude::*;

verus! {

/// The release that a row holds with this time, or why it cannot be read.
pub open spec fn release_given(
    row: ReleaseRowView,
    created_at: Result<Timestamp, Seq<char>>,
) -> Result<ReleaseRecordView, Seq<char>> {
    match row.manifest {
        Err(reason) => Err(reason),
        Ok(manifest) => match created_at {
            Err(reason) => Err(reason),
            Ok(created_at) => Ok(
                ReleaseRecordView {
                    id: row.id,
                    version: row.version,
                    target_type: row.target_type,
                    manifest,
                    created_at,
                },
            ),
        },
    }
}

/// The release that a row holds, or why it cannot be read.
pub open spec fn release_in(row: ReleaseRowView) -> Result<ReleaseRecordView, Seq<char>> {
    release_given(row, instant_named(row.created_at))
}

/// The texts by which releases are ordered.
pub open spec fn release_keys(rows: Seq<ReleaseRowView>) -> Seq<Seq<char>> {
    rows.map_values(|row: ReleaseRowView| row.created_at)
}

/// The releases as they are read one after the other, the newest first.
pub open spec fn releases_read(rows: Seq<ReleaseRowView>) -> Seq<
    Result<ReleaseRecordView, Seq<char>>,
> {
    picked(rows, descending(release_keys(rows))).map_values(
        |row: ReleaseRowView| release_in(row),
    )
}

/// All releases, the newest first.
pub open spec fn release_list(t: TablesView) -> Result<Seq<ReleaseRecordView>, DbErrorView> {
    readable(collected(releases_read(t.releases)))
}

/// The release with an identifier.
pub open spec fn release_of(t: TablesView, id: Seq<char>) -> Result<
    ReleaseRecordView,
    DbErrorView,
> {
    match release_row(t.releases, id) {
        None => Err(DbErrorView::ReleaseNotFound(id)),
        Some(row) => match release_in(row) {
            Ok(release) => Ok(release),
            Err(_) => Err(DbErrorView::ReleaseNotFound(id)),
        },
    }
}

/// The statement that stores a release.
pub open spec fn release_write(
    req: CreateReleaseRequestView,
    id: Seq<char>,
    now: Timestamp,
) -> WriteView {
    WriteView::InsertRelease(
        NewReleaseView {
            id,
            version: req.version,
            target_type: req.manifest.target_type,
            manifest: req.manifest,
            created_at: rfc3339_text(now.secs, now.nanos),
        },
    )
}

/// What becomes of the rows when a release is stored under a given identifier at a given time,
/// and the answer.
pub open spec fn release_inserted(
    t: TablesView,
    req: CreateReleaseRequestView,
    id: Seq<char>,
    now: Timestamp,
) -> (TablesView, Result<ReleaseRecordView, DbErrorView>) {
    match step(t, release_write(req, id, now)) {
        Err(e) => (t, Err(e)),
        Ok(after) => (
            after,
            Ok(
                ReleaseRecordView {
                    id,
                    version: req.version,
                    target_type: req.manifest.target_type,
                    manifest: req.manifest,
                    created_at: now,
                },
            ),
        ),
    }
}

/// The release that a row holds with this time, or why it cannot be read.
pub fn map_release(row: &ReleaseRow, created_at: Result<Timestamp, String>) -> (r: Result<
    ReleaseRecord,
    String,
>)
    ensures
        match r {
            Ok(release) => release_given(row@, time_read(created_at)) == Ok::<
                ReleaseRecordView,
                Seq<char>,
            >(release@),
            Err(reason) => release_given(row@, time_read(created_at)) == Err::<
                ReleaseRecordView,
                Seq<char>,
            >(reason@),
        },
{
    let manifest = match &row.manifest {
        Ok(manifest) => manifest.clone(),
        Err(reason) => {
            return Err(reason.clone());
        },
    };
    let created_at = created_at?;
    Ok(
        ReleaseRecord {
            id: row.id.clone(),
            version: row.version.clone(),
            target_type: row.target_type.clone(),
            manifest,
            created_at,
        },
    )
}

/// All releases, the newest first.
pub fn list_releases(db: &Database) -> (r: Result<Vec<ReleaseRecord>, DbError>)
    ensures
        viewed_list(r) == release_list(db@),
{
    let rows = &db.tables().releases;
    let ghost view = rows.deep_view();
    let mut keys: Vec<String> = Vec::new();
    let mut i: usize = 0;
    assert(keys.deep_view() =~= release_keys(view).take(0));
    while i < rows.len()
        invariant
            i <= rows.len(),
            view == rows.deep_view(),
            keys.deep_view() == release_keys(view).take(i as int),
        decreases rows.len() - i,
    {
        let ghost before = keys.deep_view();
        keys.push(rows[i].created_at.clone());
        assert(keys.deep_view() =~= before.push(view[i as int].created_at));
        assert(keys.deep_view() =~= release_keys(view).take(i + 1));
        i += 1;
    }
    assert(keys.deep_view() =~= release_keys(view));
    let order = arrange(&keys, true);
    let ghost positions = descending(release_keys(view));
    let ghost items = releases_read(view);
    let mut list: Vec<ReleaseRecord> = Vec::new();
    let mut k: usize = 0;
    assert(order@.map_values(|p: usize| p as int) == positions);
    assert(list.deep_view() =~= Seq::<ReleaseRecordView>::empty());
    assert(items.take(0) =~= Seq::empty());
    while k < order.len()
        invariant
            k <= order.len(),
            view == rows.deep_view(),
            view == db@.releases,
            order@.len() == view.len(),
            items == releases_read(view),
            positions == descending(release_keys(view)),
            forall|p: int| 0 <= p < order@.len() ==> (#[trigger] order@[p]) < view.len(),
            order@.map_values(|p: usize| p as int) == positions,
            collected(items.take(k as int)) == Ok::<Seq<ReleaseRecordView>, Seq<char>>(
                list.deep_view(),
            ),
        decreases order.len() - k,
    {
        assert(positions[k as int] == order@[k as int]);
        assert(items[k as int] == release_in(view[positions[k as int]]));
        assert(items.take(k + 1).drop_last() =~= items.take(k as int));
        assert(items.take(k + 1).last() == items[k as int]);
        let row = &rows[order[k]];
        match map_release(row, parse_ts(row.created_at.as_str())) {
            Ok(release) => {
                let ghost before = list.deep_view();
                list.push(release);
                assert(list.deep_view() =~= before.push(release@));
            },
            Err(reason) => {
                proof {
                    lemma_collected_stops(items, k + 1);
                }
                return Err(DbError::Conversion(reason));
            },
        }
        k += 1;
    }
    assert(items.take(k as int) =~= items);
    Ok(list)
}

/// The release with an identifier.
pub fn get_release(db: &Database, id: &str) -> (r: Result<ReleaseRecord, DbError>)
    ensures
        viewed(r) == release_of(db@, id@),
{
    let rows = &db.tables().releases;
    match find_release(rows, id) {
        None => Err(DbError::ReleaseNotFound(id.to_string())),
        Some(i) => match map_release(&rows[i], parse_ts(rows[i].created_at.as_str())) {
            Ok(release) => Ok(release),
            Err(_) => Err(DbError::ReleaseNotFound(id.to_string())),
        },
    }
}

/// Stores a release under a given identifier at a given time.
pub fn insert_release_as(
    db: &mut Database,
    req: CreateReleaseRequest,
    id: String,
    now: Timestamp,
) -> (r: Result<ReleaseRecord, DbError>)
    requires
        now.in_calendar(),
    ensures
        (final(db)@, viewed(r)) == release_inserted(old(db)@, req@, id@, now),
        final(db).continues(old(db)),
        now.has_four_digit_year() ==> reads_back(now),
{
    db.execute(
        Write::InsertRelease(
            NewRelease {
                id: id.clone(),
                version: req.version.clone(),
                target_type: req.manifest.target_type.clone(),
                manifest: req.manifest.clone(),
                created_at: to_rfc3339(now),
            },
        ),
    )?;
    Ok(
        ReleaseRecord {
            id,
            version: req.version,
            target_type: req.manifest.target_type.clone(),
            manifest: req.manifest,
            created_at: now,
        },
    )
}

/// Stores a release under a new identifier.
pub fn insert_release(db: &mut Database, req: CreateReleaseRequest) -> (r: Result<
    ReleaseRecord,
    DbError,
>)
    ensures
        exists|id: Seq<char>, now: Timestamp|
            is_random_uuid(id) && now.in_calendar() && (final(db)@, viewed(r))
                == #[trigger] release_inserted(old(db)@, req@, id, now),
        final(db).continues(old(db)),
{
    let id = fresh_id();
    let now = utc_now();
    insert_release_as(db, req, id, now)
}

} // verus!
