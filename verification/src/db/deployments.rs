//! The deployments that the control plane knows.

use crate::clock::{instant_named, reads_back, rfc3339_text, to_rfc3339, utc_now, Timestamp};
use crate::db::assets::{asset_list, list_assets};
use crate::db::effects::law_stats_by_rows;
use crate::db::error::{DbError, DbErrorView};
use crate::db::order::{arrange, descending};
use crate::db::releases::{get_release, release_of};
use crate::db::shared::{
    collected, lemma_collected_stops, parse_ts, picked, readable, time_read, viewed,
    viewed_list,
};
use crate::db::tables::{
    deployment_row, find_deployment, DeploymentRow, DeploymentRowView, TablesView, TargetRow,
    TargetRowView,
};
use crate::db::writes::{
    changed, lemma_performed_push, lemma_performed_stops, performed, step, Database,
    DeploymentChange, DeploymentChangeView, DesiredVersion, DesiredVersionView, NewDeployment,
    NewDeploymentView, Write, WriteView,
};
use crate::ids::{fresh_id, is_random_uuid};
use crate::text::{concat, is_among, same};
use crate::text_map::{lemma_map_of, TextMap};
use crate::types::records::{
    AssetRecord, AssetRecordView, CreateDeploymentRequest, CreateDeploymentRequestView,
    DeploymentRecord, DeploymentRecordView, DeploymentTargetRecord, DeploymentTargetRecordView,
    Selector, SelectorView,
};
use crate::types::status::{DeploymentStatus, DeploymentTargetState, StatusKind};
use vstd::prelude::*;

verus! {

/// The deployment that a row holds, or why it cannot be read.
pub open spec fn deployment_in(row: DeploymentRowView) -> Result<DeploymentRecordView, Seq<char>> {
    deployment_given(row, instant_named(row.created_at))
}

/// The deployment that a row holds with this time, or why it cannot be read.
pub open spec fn deployment_given(
    row: DeploymentRowView,
    created_at: Result<Timestamp, Seq<char>>,
) -> Result<DeploymentRecordView, Seq<char>> {
    match DeploymentStatus::named(row.status) {
        None => Err(StatusKind::Deployment.complaint() + row.status),
        Some(status) => match (row.selector, row.strategy, created_at) {
            (Err(reason), _, _) => Err(reason),
            (_, Err(reason), _) => Err(reason),
            (_, _, Err(reason)) => Err(reason),
            (Ok(selector), Ok(strategy), Ok(created_at)) => Ok(
                DeploymentRecordView {
                    id: row.id,
                    release_id: row.release_id,
                    rollout_name: row.rollout_name,
                    status,
                    selector,
                    strategy,
                    created_at,
                },
            ),
        },
    }
}

/// The texts by which deployments are ordered.
pub open spec fn deployment_keys(rows: Seq<DeploymentRowView>) -> Seq<Seq<char>> {
    rows.map_values(|row: DeploymentRowView| row.created_at)
}

/// The deployments as they are read one after the other, the newest first.
pub open spec fn deployments_read(rows: Seq<DeploymentRowView>) -> Seq<
    Result<DeploymentRecordView, Seq<char>>,
> {
    picked(rows, descending(deployment_keys(rows))).map_values(
        |row: DeploymentRowView| deployment_in(row),
    )
}

/// All deployments, the newest first.
pub open spec fn deployment_list(t: TablesView) -> Result<Seq<DeploymentRecordView>, DbErrorView> {
    readable(collected(deployments_read(t.deployments)))
}

/// The deployment with an identifier.
pub open spec fn deployment_of(t: TablesView, id: Seq<char>) -> Result<
    DeploymentRecordView,
    DbErrorView,
> {
    match deployment_row(t.deployments, id) {
        None => Err(DbErrorView::DeploymentNotFound(id)),
        Some(row) => match deployment_in(row) {
            Ok(deployment) => Ok(deployment),
            Err(_) => Err(DbErrorView::DeploymentNotFound(id)),
        },
    }
}

/// The state of the target that a row holds, or why it cannot be read.
pub open spec fn state_in(row: TargetRowView) -> Result<DeploymentTargetState, Seq<char>> {
    match DeploymentTargetState::named(row.state) {
        None => Err(StatusKind::DeploymentTarget.complaint() + row.state),
        Some(state) => Ok(state),
    }
}

/// The target that a row holds, or why it cannot be read.
pub open spec fn target_in(row: TargetRowView) -> Result<DeploymentTargetRecordView, Seq<char>> {
    target_given(row, instant_named(row.updated_at))
}

/// The target that a row holds with this time, or why it cannot be read.
pub open spec fn target_given(
    row: TargetRowView,
    updated_at: Result<Timestamp, Seq<char>>,
) -> Result<DeploymentTargetRecordView, Seq<char>> {
    match (state_in(row), updated_at) {
        (Err(reason), _) => Err(reason),
        (_, Err(reason)) => Err(reason),
        (Ok(state), Ok(updated_at)) => Ok(
            DeploymentTargetRecordView {
                deployment_id: row.deployment_id,
                asset_id: row.asset_id,
                state,
                last_error: row.last_error,
                current_command_id: row.current_command_id,
                updated_at,
            },
        ),
    }
}

/// The rows of the targets of a deployment in the order of storage.
pub open spec fn targets_of(rows: Seq<TargetRowView>, deployment_id: Seq<char>) -> Seq<
    TargetRowView,
> {
    rows.filter(|row: TargetRowView| row.deployment_id == deployment_id)
}

/// The texts by which targets are ordered.
pub open spec fn target_keys(rows: Seq<TargetRowView>) -> Seq<Seq<char>> {
    rows.map_values(|row: TargetRowView| row.updated_at)
}

/// Targets as they are read one after the other, the one that changed last first.
pub open spec fn targets_read(rows: Seq<TargetRowView>) -> Seq<
    Result<DeploymentTargetRecordView, Seq<char>>,
> {
    picked(rows, descending(target_keys(rows))).map_values(|row: TargetRowView| target_in(row))
}

/// The targets of a deployment, the one that changed last first.
pub open spec fn target_list(t: TablesView, deployment_id: Seq<char>) -> Result<
    Seq<DeploymentTargetRecordView>,
    DbErrorView,
> {
    readable(collected(targets_read(targets_of(t.targets, deployment_id))))
}

/// The states of the targets of a deployment as they are read one after the other.
pub open spec fn states_read(rows: Seq<TargetRowView>) -> Seq<
    Result<DeploymentTargetState, Seq<char>>,
> {
    rows.map_values(|row: TargetRowView| state_in(row))
}

/// Whether a target in this state counts as a failure.
pub open spec fn is_failure(state: DeploymentTargetState) -> bool {
    state is Failed || state is RolledBack
}

/// How many targets of a deployment there are, and how many of them have failed.
#[derive(Debug, Clone, Copy, PartialEq, Eq, Structural)]
pub struct DeploymentStats {
    pub failed: usize,
    pub total: usize,
}

/// How many targets of a deployment have failed, and how many there are.
pub open spec fn stats_of(t: TablesView, deployment_id: Seq<char>) -> Result<
    (nat, nat),
    DbErrorView,
> {
    match collected(states_read(targets_of(t.targets, deployment_id))) {
        Err(reason) => Err(DbErrorView::Conversion(reason)),
        Ok(states) => Ok(
            (states.filter(|state: DeploymentTargetState| is_failure(state)).len(), states.len()),
        ),
    }
}

/// A selector's label as an asset carries it.
pub open spec fn label_text(key: Seq<char>, value: Seq<char>) -> Seq<char> {
    key + "="@ + value
}

/// Whether a deployment with this selector is for this asset.
pub open spec fn selects(
    selector: SelectorView,
    require_idle: bool,
    asset: AssetRecordView,
) -> bool {
    &&& asset.asset_type == selector.target_type
    &&& forall|key: Seq<char>| #[trigger]
        selector.labels.dom().contains(key) ==> asset.labels.contains(
            label_text(key, selector.labels[key]),
        )
    &&& selector.mission_states.len() == 0 || selector.mission_states.contains(asset.mission_state)
    &&& require_idle ==> asset.mission_state == "idle"@
}

/// The assets that a deployment is for, the one seen last first.
pub open spec fn selected(t: TablesView, selector: SelectorView, require_idle: bool) -> Result<
    Seq<AssetRecordView>,
    DbErrorView,
> {
    match asset_list(t) {
        Err(e) => Err(e),
        Ok(list) => Ok(list.filter(|asset: AssetRecordView| selects(selector, require_idle, asset))),
    }
}

/// The statement that stores a deployment.
pub open spec fn deployment_write(
    req: CreateDeploymentRequestView,
    id: Seq<char>,
    now: Timestamp,
) -> WriteView {
    WriteView::InsertDeployment(
        NewDeploymentView {
            id,
            release_id: req.release_id,
            rollout_name: req.rollout_name,
            status: DeploymentStatus::Active.name(),
            selector: req.selector,
            strategy: req.strategy,
            created_at: rfc3339_text(now.secs, now.nanos),
        },
    )
}

/// The row of a new target.
pub open spec fn pending_target(
    deployment_id: Seq<char>,
    asset_id: Seq<char>,
    now: Timestamp,
) -> TargetRowView {
    TargetRowView {
        deployment_id,
        asset_id,
        state: DeploymentTargetState::Pending.name(),
        last_error: None,
        current_command_id: None,
        updated_at: rfc3339_text(now.secs, now.nanos),
    }
}

/// The statements that make assets targets of a deployment, two for each: it is told which
/// version to run, and the target is stored.
pub open spec fn target_writes(
    assets: Seq<AssetRecordView>,
    version: Seq<char>,
    deployment_id: Seq<char>,
    now: Timestamp,
) -> Seq<WriteView> {
    Seq::new(
        2 * assets.len(),
        |k: int|
            if k % 2 == 0 {
                WriteView::SetDesiredVersion(
                    DesiredVersionView { asset_id: assets[k / 2].asset_id, version },
                )
            } else {
                WriteView::InsertTarget(
                    pending_target(deployment_id, assets[k / 2].asset_id, now),
                )
            },
    )
}

/// What becomes of the rows when a deployment is created under a given identifier at a given
/// time, and the answer.
pub open spec fn deployment_created(
    t: TablesView,
    req: CreateDeploymentRequestView,
    id: Seq<char>,
    now: Timestamp,
) -> (TablesView, Result<DeploymentRecordView, DbErrorView>) {
    match release_of(t, req.release_id) {
        Err(e) => (t, Err(e)),
        Ok(release) => if release.target_type != req.selector.target_type {
            (t, Err(DbErrorView::TargetTypeMismatch))
        } else {
            match step(t, deployment_write(req, id, now)) {
                Err(e) => (t, Err(e)),
                Ok(stored) => match selected(stored, req.selector, req.strategy.require_idle) {
                    Err(e) => (stored, Err(e)),
                    Ok(assets) => {
                        let (after, outcome) = performed(
                            stored,
                            target_writes(assets, release.version, id, now),
                        );
                        match outcome {
                            Err(e) => (after, Err(e)),
                            Ok(_) => (after, deployment_of(after, id)),
                        }
                    },
                },
            }
        },
    }
}

/// The state of a deployment that is paused or not.
pub open spec fn paused_status(paused: bool) -> DeploymentStatus {
    if paused {
        DeploymentStatus::Paused
    } else {
        DeploymentStatus::Active
    }
}

/// The rows after a deployment has got a new state. An unknown deployment changes nothing.
pub open spec fn with_status(t: TablesView, id: Seq<char>, status: DeploymentStatus) -> TablesView {
    TablesView {
        deployments: changed(t.deployments, DeploymentChangeView { id, status: status.name() }),
        ..t
    }
}

/// The deployment that a row holds with this time, or why it cannot be read.
pub fn map_deployment(row: &DeploymentRow, created_at: Result<Timestamp, String>) -> (r: Result<
    DeploymentRecord,
    String,
>)
    ensures
        match r {
            Ok(d) => deployment_given(row@, time_read(created_at)) == Ok::<
                DeploymentRecordView,
                Seq<char>,
            >(d@),
            Err(reason) => deployment_given(row@, time_read(created_at)) == Err::<
                DeploymentRecordView,
                Seq<char>,
            >(reason@),
        },
{
    let status = match DeploymentStatus::parse(row.status.as_str()) {
        Ok(status) => status,
        Err(unknown) => {
            return Err(unknown.message());
        },
    };
    let selector = match &row.selector {
        Ok(selector) => selector.clone(),
        Err(reason) => {
            return Err(reason.clone());
        },
    };
    let strategy = match &row.strategy {
        Ok(strategy) => *strategy,
        Err(reason) => {
            return Err(reason.clone());
        },
    };
    let created_at = created_at?;
    Ok(
        DeploymentRecord {
            id: row.id.clone(),
            release_id: row.release_id.clone(),
            rollout_name: row.rollout_name.clone(),
            status,
            selector,
            strategy,
            created_at,
        },
    )
}

/// The target that a row holds with this time, or why it cannot be read.
pub fn map_target(row: &TargetRow, updated_at: Result<Timestamp, String>) -> (r: Result<
    DeploymentTargetRecord,
    String,
>)
    ensures
        match r {
            Ok(target) => target_given(row@, time_read(updated_at)) == Ok::<
                DeploymentTargetRecordView,
                Seq<char>,
            >(target@),
            Err(reason) => target_given(row@, time_read(updated_at)) == Err::<
                DeploymentTargetRecordView,
                Seq<char>,
            >(reason@),
        },
{
    let state = match DeploymentTargetState::parse(row.state.as_str()) {
        Ok(state) => state,
        Err(unknown) => {
            return Err(unknown.message());
        },
    };
    let updated_at = updated_at?;
    Ok(
        DeploymentTargetRecord {
            deployment_id: row.deployment_id.clone(),
            asset_id: row.asset_id.clone(),
            state,
            last_error: row.last_error.clone(),
            current_command_id: row.current_command_id.clone(),
            updated_at,
        },
    )
}

/// All deployments, the newest first.
pub fn list_deployments(db: &Database) -> (r: Result<Vec<DeploymentRecord>, DbError>)
    ensures
        viewed_list(r) == deployment_list(db@),
{
    let rows = &db.tables().deployments;
    let ghost view = rows.deep_view();
    let mut keys: Vec<String> = Vec::new();
    let mut i: usize = 0;
    assert(keys.deep_view() =~= deployment_keys(view).take(0));
    while i < rows.len()
        invariant
            i <= rows.len(),
            view == rows.deep_view(),
            keys.deep_view() == deployment_keys(view).take(i as int),
        decreases rows.len() - i,
    {
        let ghost before = keys.deep_view();
        keys.push(rows[i].created_at.clone());
        assert(keys.deep_view() =~= before.push(view[i as int].created_at));
        assert(keys.deep_view() =~= deployment_keys(view).take(i + 1));
        i += 1;
    }
    assert(keys.deep_view() =~= deployment_keys(view));
    let order = arrange(&keys, true);
    let ghost positions = descending(deployment_keys(view));
    let ghost items = deployments_read(view);
    let mut list: Vec<DeploymentRecord> = Vec::new();
    let mut k: usize = 0;
    assert(order@.map_values(|p: usize| p as int) == positions);
    assert(list.deep_view() =~= Seq::<DeploymentRecordView>::empty());
    assert(items.take(0) =~= Seq::empty());
    while k < order.len()
        invariant
            k <= order.len(),
            view == rows.deep_view(),
            view == db@.deployments,
            order@.len() == view.len(),
            items == deployments_read(view),
            positions == descending(deployment_keys(view)),
            forall|p: int| 0 <= p < order@.len() ==> (#[trigger] order@[p]) < view.len(),
            order@.map_values(|p: usize| p as int) == positions,
            collected(items.take(k as int)) == Ok::<Seq<DeploymentRecordView>, Seq<char>>(
                list.deep_view(),
            ),
        decreases order.len() - k,
    {
        assert(positions[k as int] == order@[k as int]);
        assert(items[k as int] == deployment_in(view[positions[k as int]]));
        assert(items.take(k + 1).drop_last() =~= items.take(k as int));
        assert(items.take(k + 1).last() == items[k as int]);
        let row = &rows[order[k]];
        match map_deployment(row, parse_ts(row.created_at.as_str())) {
            Ok(deployment) => {
                let ghost before = list.deep_view();
                list.push(deployment);
                assert(list.deep_view() =~= before.push(deployment@));
            },
            Err(reason) => {
                proof {
                    lemma_collected_stops(items, k + 1);
                }
                return Err(DbError::Conversion(reason));
            },
        }
        k += 1;
    }
    assert(items.take(k as int) =~= items);
    Ok(list)
}

/// The deployment with an identifier.
pub fn get_deployment(db: &Database, id: &str) -> (r: Result<DeploymentRecord, DbError>)
    ensures
        viewed(r) == deployment_of(db@, id@),
{
    let rows = &db.tables().deployments;
    match find_deployment(rows, id) {
        None => Err(DbError::DeploymentNotFound(id.to_string())),
        Some(i) => match map_deployment(&rows[i], parse_ts(rows[i].created_at.as_str())) {
            Ok(deployment) => Ok(deployment),
            Err(_) => Err(DbError::DeploymentNotFound(id.to_string())),
        },
    }
}

/// The rows of the targets of a deployment in the order of storage.
fn stored_targets(rows: &Vec<TargetRow>, deployment_id: &str) -> (r: Vec<TargetRow>)
    ensures
        r.deep_view() == targets_of(rows.deep_view(), deployment_id@),
{
    let ghost view = rows.deep_view();
    let ghost mine = |row: TargetRowView| row.deployment_id == deployment_id@;
    let mut kept: Vec<TargetRow> = Vec::new();
    let mut i: usize = 0;
    assert(kept.deep_view() =~= view.take(0).filter(mine)) by {
        reveal(Seq::filter);
    }
    while i < rows.len()
        invariant
            i <= rows.len(),
            view == rows.deep_view(),
            mine == (|row: TargetRowView| row.deployment_id == deployment_id@),
            kept.deep_view() == view.take(i as int).filter(mine),
        decreases rows.len() - i,
    {
        let ghost before = kept.deep_view();
        assert(view.take(i + 1).drop_last() =~= view.take(i as int));
        if same(rows[i].deployment_id.as_str(), deployment_id) {
            kept.push(rows[i].clone());
            assert(kept.deep_view() =~= before.push(view[i as int]));
        }
        assert(kept.deep_view() == view.take(i + 1).filter(mine)) by {
            reveal(Seq::filter);
        }
        i += 1;
    }
    assert(view.take(i as int) =~= view);
    kept
}

/// The targets of a deployment, the one that changed last first.
pub fn list_deployment_targets(db: &Database, deployment_id: &str) -> (r: Result<
    Vec<DeploymentTargetRecord>,
    DbError,
>)
    ensures
        viewed_list(r) == target_list(db@, deployment_id@),
{
    let rows = stored_targets(&db.tables().targets, deployment_id);
    let ghost view = rows.deep_view();
    let mut keys: Vec<String> = Vec::new();
    let mut i: usize = 0;
    assert(keys.deep_view() =~= target_keys(view).take(0));
    while i < rows.len()
        invariant
            i <= rows.len(),
            view == rows.deep_view(),
            keys.deep_view() == target_keys(view).take(i as int),
        decreases rows.len() - i,
    {
        let ghost before = keys.deep_view();
        keys.push(rows[i].updated_at.clone());
        assert(keys.deep_view() =~= before.push(view[i as int].updated_at));
        assert(keys.deep_view() =~= target_keys(view).take(i + 1));
        i += 1;
    }
    assert(keys.deep_view() =~= target_keys(view));
    let order = arrange(&keys, true);
    let ghost positions = descending(target_keys(view));
    let ghost items = targets_read(view);
    let mut list: Vec<DeploymentTargetRecord> = Vec::new();
    let mut k: usize = 0;
    assert(order@.map_values(|p: usize| p as int) == positions);
    assert(list.deep_view() =~= Seq::<DeploymentTargetRecordView>::empty());
    assert(items.take(0) =~= Seq::empty());
    while k < order.len()
        invariant
            k <= order.len(),
            view == rows.deep_view(),
            view == targets_of(db@.targets, deployment_id@),
            order@.len() == view.len(),
            items == targets_read(view),
            positions == descending(target_keys(view)),
            forall|p: int| 0 <= p < order@.len() ==> (#[trigger] order@[p]) < view.len(),
            order@.map_values(|p: usize| p as int) == positions,
            collected(items.take(k as int)) == Ok::<Seq<DeploymentTargetRecordView>, Seq<char>>(
                list.deep_view(),
            ),
        decreases order.len() - k,
    {
        assert(positions[k as int] == order@[k as int]);
        assert(items[k as int] == target_in(view[positions[k as int]]));
        assert(items.take(k + 1).drop_last() =~= items.take(k as int));
        assert(items.take(k + 1).last() == items[k as int]);
        let row = &rows[order[k]];
        match map_target(row, parse_ts(row.updated_at.as_str())) {
            Ok(target) => {
                let ghost before = list.deep_view();
                list.push(target);
                assert(list.deep_view() =~= before.push(target@));
            },
            Err(reason) => {
                proof {
                    lemma_collected_stops(items, k + 1);
                }
                return Err(DbError::Conversion(reason));
            },
        }
        k += 1;
    }
    assert(items.take(k as int) =~= items);
    Ok(list)
}

/// How many targets of a deployment there are, and how many of them have failed.
pub fn deployment_stats(db: &Database, deployment_id: &str) -> (r: Result<
    DeploymentStats,
    DbError,
>)
    ensures
        match r {
            Ok(stats) => stats_of(db@, deployment_id@) == Ok::<(nat, nat), DbErrorView>(
                (stats.failed as nat, stats.total as nat),
            ),
            Err(e) => stats_of(db@, deployment_id@) == Err::<(nat, nat), DbErrorView>(e@),
        },
        r matches Ok(stats) ==> {
            &&& stats.failed == db@.targets.filter(
                |row: TargetRowView|
                    row.deployment_id == deployment_id@ && (row.state == "failed"@ || row.state
                        == "rolled_back"@),
            ).len()
            &&& stats.total == db@.targets.filter(
                |row: TargetRowView| row.deployment_id == deployment_id@,
            ).len()
        },
{
    proof {
        law_stats_by_rows(db@, deployment_id@);
    }
    let rows = stored_targets(&db.tables().targets, deployment_id);
    let ghost view = rows.deep_view();
    let ghost items = states_read(view);
    let ghost failing = |state: DeploymentTargetState| is_failure(state);
    let ghost mut states: Seq<DeploymentTargetState> = Seq::empty();
    let mut failed: usize = 0;
    let mut i: usize = 0;
    assert(items.take(0) =~= Seq::empty());
    assert(states.filter(failing).len() == 0) by {
        reveal(Seq::filter);
    }
    while i < rows.len()
        invariant
            i <= rows.len(),
            failed <= i,
            view == rows.deep_view(),
            view == targets_of(db@.targets, deployment_id@),
            items == states_read(view),
            failing == (|state: DeploymentTargetState| is_failure(state)),
            collected(items.take(i as int)) == Ok::<Seq<DeploymentTargetState>, Seq<char>>(states),
            states.len() == i,
            failed == states.filter(failing).len(),
        decreases rows.len() - i,
    {
        assert(items[i as int] == state_in(view[i as int]));
        assert(items.take(i + 1).drop_last() =~= items.take(i as int));
        assert(items.take(i + 1).last() == items[i as int]);
        match DeploymentTargetState::parse(rows[i].state.as_str()) {
            Ok(state) => {
                proof {
                    assert(states.push(state).drop_last() =~= states);
                    reveal(Seq::filter);
                    states = states.push(state);
                }
                match state {
                    DeploymentTargetState::Failed | DeploymentTargetState::RolledBack => {
                        failed += 1;
                    },
                    _ => {},
                }
            },
            Err(unknown) => {
                proof {
                    lemma_collected_stops(items, i + 1);
                }
                return Err(DbError::Conversion(unknown.message()));
            },
        }
        i += 1;
    }
    assert(items.take(i as int) =~= items);
    Ok(DeploymentStats { failed, total: rows.len() })
}

/// Whether an asset carries all labels of a selector.
fn carries(labels: &Vec<String>, wanted: &TextMap) -> (r: bool)
    ensures
        r == (forall|key: Seq<char>| #[trigger]
            wanted@.dom().contains(key) ==> labels.deep_view().contains(
                label_text(key, wanted@[key]),
            )),
{
    let ghost have = labels.deep_view();
    let n = wanted.len();
    let mut i: usize = 0;
    while i < n
        invariant
            i <= n,
            n == wanted.pairs().len(),
            crate::text_map::keys_ascend(wanted.pairs()),
            have == labels.deep_view(),
            forall|k: int|
                0 <= k < i ==> have.contains(
                    label_text((#[trigger] wanted.pairs()[k]).0, wanted.pairs()[k].1),
                ),
        decreases n - i,
    {
        let start = concat(wanted.key_at(i).as_str(), "=");
        let label = concat(start.as_str(), wanted.value_at(i).as_str());
        if !is_among(labels, label.as_str()) {
            proof {
                lemma_map_of(wanted.pairs());
                let pair = wanted.pairs()[i as int];
                assert(wanted@.dom().contains(pair.0));
                assert(wanted@[pair.0] == pair.1);
            }
            return false;
        }
        i += 1;
    }
    proof {
        lemma_map_of(wanted.pairs());
    }
    true
}

/// Whether a deployment with this selector is for this asset.
fn is_selected(selector: &Selector, require_idle: bool, asset: &AssetRecord) -> (r: bool)
    ensures
        r == selects(selector@, require_idle, asset@),
{
    if !same(asset.asset_type.as_str(), selector.target_type.as_str()) {
        return false;
    }
    assert(selector@.labels == selector.labels@);
    if !carries(&asset.labels, &selector.labels) {
        assert(exists|key: Seq<char>| #[trigger]
            selector@.labels.dom().contains(key) && !asset@.labels.contains(
                label_text(key, selector@.labels[key]),
            ));
        return false;
    }
    if selector.mission_states.len() > 0 && !is_among(
        &selector.mission_states,
        asset.mission_state.as_str(),
    ) {
        return false;
    }
    !require_idle || same(asset.mission_state.as_str(), "idle")
}

/// The assets that a deployment is for, the one seen last first.
pub fn select_assets_for_deployment(
    db: &Database,
    selector: &Selector,
    require_idle: bool,
) -> (r: Result<Vec<AssetRecord>, DbError>)
    ensures
        viewed_list(r) == selected(db@, selector@, require_idle),
{
    let assets = list_assets(db)?;
    let ghost view = assets.deep_view();
    let ghost wanted = |asset: AssetRecordView| selects(selector@, require_idle, asset);
    let mut chosen: Vec<AssetRecord> = Vec::new();
    let mut i: usize = 0;
    assert(chosen.deep_view() =~= view.take(0).filter(wanted)) by {
        reveal(Seq::filter);
    }
    while i < assets.len()
        invariant
            i <= assets.len(),
            view == assets.deep_view(),
            wanted == (|asset: AssetRecordView| selects(selector@, require_idle, asset)),
            chosen.deep_view() == view.take(i as int).filter(wanted),
        decreases assets.len() - i,
    {
        let ghost before = chosen.deep_view();
        let asset = &assets[i];
        assert(view.take(i + 1).drop_last() =~= view.take(i as int));
        assert(view.take(i + 1).last() == asset@);
        if is_selected(selector, require_idle, asset) {
            chosen.push(asset.clone());
            assert(chosen.deep_view() =~= before.push(asset@));
        }
        assert(chosen.deep_view() == view.take(i + 1).filter(wanted)) by {
            reveal(Seq::filter);
        }
        i += 1;
    }
    assert(view.take(i as int) =~= view);
    Ok(chosen)
}

/// Creates a deployment under a given identifier at a given time.
pub fn create_deployment_as(
    db: &mut Database,
    req: CreateDeploymentRequest,
    id: String,
    now: Timestamp,
) -> (r: Result<DeploymentRecord, DbError>)
    requires
        now.in_calendar(),
    ensures
        (final(db)@, viewed(r)) == deployment_created(old(db)@, req@, id@, now),
        final(db).continues(old(db)),
        now.has_four_digit_year() ==> reads_back(now),
{
    let at = to_rfc3339(now);
    let release = get_release(db, req.release_id.as_str())?;
    if !same(release.target_type.as_str(), req.selector.target_type.as_str()) {
        return Err(DbError::TargetTypeMismatch);
    }
    db.execute(
        Write::InsertDeployment(
            NewDeployment {
                id: id.clone(),
                release_id: req.release_id.clone(),
                rollout_name: req.rollout_name.clone(),
                status: DeploymentStatus::Active.as_str().to_string(),
                selector: req.selector.clone(),
                strategy: req.strategy,
                created_at: at.clone(),
            },
        ),
    )?;
    let assets = select_assets_for_deployment(db, &req.selector, req.strategy.require_idle)?;
    let ghost stored = db@;
    let ghost all = target_writes(assets.deep_view(), release.version@, id@, now);
    let ghost mut done: Seq<WriteView> = Seq::empty();
    let mut i: usize = 0;
    assert(done =~= all.take(0));
    while i < assets.len()
        invariant
            i <= assets.len(),
            at@ == rfc3339_text(now.secs, now.nanos),
            now.has_four_digit_year() ==> reads_back(now),
            all == target_writes(assets.deep_view(), release.version@, id@, now),
            done == all.take(2 * i),
            performed(stored, done) == (db@, Ok::<(), DbErrorView>(())),
            deployment_created(old(db)@, req@, id@, now) == {
                let (after, outcome) = performed(stored, all);
                match outcome {
                    Err(e) => (after, Err(e)),
                    Ok(_) => (after, deployment_of(after, id@)),
                }
            },
            db.continues(old(db)),
        decreases assets.len() - i,
    {
        let desire = Write::SetDesiredVersion(
            DesiredVersion {
                asset_id: assets[i].asset_id.clone(),
                version: release.version.clone(),
            },
        );
        proof {
            assert(assets.deep_view()[i as int] == assets@[i as int]@);
            assert((2 * i) % 2 == 0 && (2 * i) / 2 == i);
            assert(desire@ == all[2 * i]);
            lemma_performed_push(stored, done, all[2 * i]);
            done = done.push(all[2 * i]);
            assert(done =~= all.take(2 * i + 1));
        }
        match db.execute(desire) {
            Ok(_) => {},
            Err(e) => {
                proof {
                    lemma_performed_stops(stored, all, 2 * i + 1);
                }
                return Err(e);
            },
        }
        let insert = Write::InsertTarget(
            TargetRow {
                deployment_id: id.clone(),
                asset_id: assets[i].asset_id.clone(),
                state: DeploymentTargetState::Pending.as_str().to_string(),
                last_error: None,
                current_command_id: None,
                updated_at: at.clone(),
            },
        );
        proof {
            assert((2 * i + 1) % 2 == 1 && (2 * i + 1) / 2 == i);
            assert(insert@ == all[2 * i + 1]);
            lemma_performed_push(stored, done, all[2 * i + 1]);
            done = done.push(all[2 * i + 1]);
            assert(done =~= all.take(2 * i + 2));
        }
        match db.execute(insert) {
            Ok(_) => {},
            Err(e) => {
                proof {
                    lemma_performed_stops(stored, all, 2 * i + 2);
                }
                return Err(e);
            },
        }
        i += 1;
    }
    assert(done =~= all);
    get_deployment(db, id.as_str())
}

/// Creates a deployment: stores it, and makes the assets that it selects its targets.
pub fn create_deployment(db: &mut Database, req: CreateDeploymentRequest) -> (r: Result<
    DeploymentRecord,
    DbError,
>)
    ensures
        exists|id: Seq<char>, now: Timestamp|
            is_random_uuid(id) && now.in_calendar() && (final(db)@, viewed(r))
                == #[trigger] deployment_created(old(db)@, req@, id, now),
        final(db).continues(old(db)),
{
    let id = fresh_id();
    let now = utc_now();
    create_deployment_as(db, req, id, now)
}

/// Gives a deployment a new state. An unknown deployment changes nothing.
pub(crate) fn set_status(db: &mut Database, deployment_id: &str, status: DeploymentStatus) -> (r: Result<
    (),
    DbError,
>)
    ensures
        r is Ok,
        final(db)@ == with_status(old(db)@, deployment_id@, status),
        final(db).continues(old(db)),
{
    db.execute(
        Write::SetDeploymentStatus(
            DeploymentChange {
                id: deployment_id.to_string(),
                status: status.as_str().to_string(),
            },
        ),
    )
}

/// Pauses a deployment, or makes it active. An unknown deployment changes nothing.
pub fn set_deployment_paused(db: &mut Database, deployment_id: &str, paused: bool) -> (r: Result<
    (),
    DbError,
>)
    ensures
        r is Ok,
        final(db)@ == with_status(old(db)@, deployment_id@, paused_status(paused)),
        final(db).continues(old(db)),
{
    let status = if paused {
        DeploymentStatus::Paused
    } else {
        DeploymentStatus::Active
    };
    set_status(db, deployment_id, status)
}

/// Aborts a deployment. An unknown deployment changes nothing.
pub fn abort_deployment(db: &mut Database, deployment_id: &str) -> (r: Result<(), DbError>)
    ensures
        r is Ok,
        final(db)@ == with_status(old(db)@, deployment_id@, DeploymentStatus::Aborted),
        final(db).continues(old(db)),
{
    set_status(db, deployment_id, DeploymentStatus::Aborted)
}

} // verus!
