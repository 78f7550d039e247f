//! What is found under an identifier, said of the fields of the stored rows.

use crate::clock::{instant_named, Timestamp};
use crate::db::assets::asset_of;
use crate::db::deployments::deployment_of;
use crate::db::error::DbErrorView;
use crate::db::integrity::lemma_filter_embeds;
use crate::db::order::{ascending, law_listing_order, listed_before};
use crate::db::releases::release_of;
use crate::db::rollout::lemma_filter_has;
use crate::db::shared::{labels_of, law_labels_listed, stored_labels};
use crate::db::tables::{
    asset_row, deployment_row, lemma_asset_row, lemma_deployment_row, lemma_release_row,
    release_row, AssetLabelRowView, AssetRowView, DeploymentRowView, ReleaseRowView, TablesView,
};
use crate::text::{lemma_precedes_irreflexive, lemma_precedes_transitive, precedes};
use crate::types::manifest::ReleaseManifestView;
use crate::types::records::{
    AssetRecordView, DeploymentRecordView, ReleaseRecordView, RolloutStrategy, SelectorView,
};
use crate::types::status::{
    law_asset_status_round_trip, law_deployment_status_round_trip, AssetStatus, DeploymentStatus,
};
use vstd::prelude::*;

verus! {

/// The first row under its identifier is the one that is found.
proof fn lemma_first_release(rows: Seq<ReleaseRowView>, i: int)
    requires
        0 <= i < rows.len(),
        forall|j: int| 0 <= j < i ==> (#[trigger] rows[j]).id != rows[i].id,
    ensures
        release_row(rows, rows[i].id) == Some(rows[i]),
    decreases rows.len(),
{
    if i > 0 {
        let rest = rows.skip(1);
        assert(rows[0].id != rows[i].id);
        assert(rest[i - 1] == rows[i]);
        assert forall|j: int| 0 <= j < i - 1 implies (#[trigger] rest[j]).id != rest[i - 1].id by {
            assert(rest[j] == rows[j + 1]);
        }
        lemma_first_release(rest, i - 1);
    }
}

/// The first row under its identifier is the one that is found.
proof fn lemma_first_asset(rows: Seq<AssetRowView>, i: int)
    requires
        0 <= i < rows.len(),
        forall|j: int| 0 <= j < i ==> (#[trigger] rows[j]).asset_id != rows[i].asset_id,
    ensures
        asset_row(rows, rows[i].asset_id) == Some(rows[i]),
    decreases rows.len(),
{
    if i > 0 {
        let rest = rows.skip(1);
        assert(rows[0].asset_id != rows[i].asset_id);
        assert(rest[i - 1] == rows[i]);
        assert forall|j: int| 0 <= j < i - 1 implies (#[trigger] rest[j]).asset_id != rest[i
            - 1].asset_id by {
            assert(rest[j] == rows[j + 1]);
        }
        lemma_first_asset(rest, i - 1);
    }
}

/// The first row under its identifier is the one that is found.
proof fn lemma_first_deployment(rows: Seq<DeploymentRowView>, i: int)
    requires
        0 <= i < rows.len(),
        forall|j: int| 0 <= j < i ==> (#[trigger] rows[j]).id != rows[i].id,
    ensures
        deployment_row(rows, rows[i].id) == Some(rows[i]),
    decreases rows.len(),
{
    if i > 0 {
        let rest = rows.skip(1);
        assert(rows[0].id != rows[i].id);
        assert(rest[i - 1] == rows[i]);
        assert forall|j: int| 0 <= j < i - 1 implies (#[trigger] rest[j]).id != rest[i - 1].id by {
            assert(rest[j] == rows[j + 1]);
        }
        lemma_first_deployment(rest, i - 1);
    }
}

/// Under an identifier that no row has, nothing is found, and the answer names the identifier.
pub proof fn law_unknown_by_id(t: TablesView, id: Seq<char>)
    ensures
        (forall|i: int| 0 <= i < t.releases.len() ==> (#[trigger] t.releases[i]).id != id)
            ==> release_of(t, id) == Err::<ReleaseRecordView, DbErrorView>(
            DbErrorView::ReleaseNotFound(id),
        ),
        (forall|i: int| 0 <= i < t.assets.len() ==> (#[trigger] t.assets[i]).asset_id != id)
            ==> asset_of(t, id) == Err::<AssetRecordView, DbErrorView>(
            DbErrorView::AssetNotFound(id),
        ),
        (forall|i: int| 0 <= i < t.deployments.len() ==> (#[trigger] t.deployments[i]).id != id)
            ==> deployment_of(t, id) == Err::<DeploymentRecordView, DbErrorView>(
            DbErrorView::DeploymentNotFound(id),
        ),
{
    lemma_release_row(t.releases, id);
    lemma_asset_row(t.assets, id);
    lemma_deployment_row(t.deployments, id);
}

/// Under the identifier of a release its own fields are found, exactly where its manifest and its
/// time can be read. One that cannot be read is not found.
pub proof fn law_release_by_id(t: TablesView, i: int)
    requires
        0 <= i < t.releases.len(),
        forall|j: int| 0 <= j < i ==> (#[trigger] t.releases[j]).id != t.releases[i].id,
    ensures
        ({
            let row = t.releases[i];
            let found = release_of(t, row.id);
            let x = found->Ok_0;
            &&& found is Ok <==> row.manifest is Ok && instant_named(row.created_at) is Ok
            &&& found is Err ==> found->Err_0 == DbErrorView::ReleaseNotFound(row.id)
            &&& found is Ok ==> {
                &&& x.id == row.id
                &&& x.version == row.version
                &&& x.target_type == row.target_type
                &&& row.manifest == Ok::<ReleaseManifestView, Seq<char>>(x.manifest)
                &&& instant_named(row.created_at) == Ok::<Timestamp, Seq<char>>(x.created_at)
            }
        }),
{
    lemma_first_release(t.releases, i);
}

/// Under the identifier of a deployment its own fields are found, exactly where its status is one
/// of the three and its selector, its strategy and its time can be read. One that cannot be read
/// is not found.
pub proof fn law_deployment_by_id(t: TablesView, i: int)
    requires
        0 <= i < t.deployments.len(),
        forall|j: int| 0 <= j < i ==> (#[trigger] t.deployments[j]).id != t.deployments[i].id,
    ensures
        ({
            let row = t.deployments[i];
            let found = deployment_of(t, row.id);
            let x = found->Ok_0;
            &&& found is Ok <==> {
                &&& row.status == "active"@ || row.status == "paused"@ || row.status == "aborted"@
                &&& row.selector is Ok
                &&& row.strategy is Ok
                &&& instant_named(row.created_at) is Ok
            }
            &&& found is Err ==> found->Err_0 == DbErrorView::DeploymentNotFound(row.id)
            &&& found is Ok ==> {
                &&& x.id == row.id
                &&& x.release_id == row.release_id
                &&& x.rollout_name == row.rollout_name
                &&& x.status is Active <==> row.status == "active"@
                &&& x.status is Paused <==> row.status == "paused"@
                &&& x.status is Aborted <==> row.status == "aborted"@
                &&& row.selector == Ok::<SelectorView, Seq<char>>(x.selector)
                &&& row.strategy == Ok::<RolloutStrategy, Seq<char>>(x.strategy)
                &&& instant_named(row.created_at) == Ok::<Timestamp, Seq<char>>(x.created_at)
            }
        }),
{
    lemma_first_deployment(t.deployments, i);
    law_deployment_status_round_trip(DeploymentStatus::Active);
    law_deployment_status_round_trip(DeploymentStatus::Paused);
    law_deployment_status_round_trip(DeploymentStatus::Aborted);
}

/// Under the identifier of an asset its own fields are found, exactly where its status is one of
/// the two and its time can be read. One that cannot be read is not found.
pub proof fn law_asset_by_id(t: TablesView, i: int)
    requires
        0 <= i < t.assets.len(),
        forall|j: int| 0 <= j < i ==> (#[trigger] t.assets[j]).asset_id != t.assets[i].asset_id,
    ensures
        ({
            let row = t.assets[i];
            let found = asset_of(t, row.asset_id);
            let x = found->Ok_0;
            &&& found is Ok <==> (row.status == "online"@ || row.status == "offline"@)
                && instant_named(row.last_seen) is Ok
            &&& found is Err ==> found->Err_0 == DbErrorView::AssetNotFound(row.asset_id)
            &&& found is Ok ==> {
                &&& x.asset_id == row.asset_id
                &&& x.asset_type == row.asset_type
                &&& x.mission_state == row.mission_state
                &&& x.current_version == row.current_version
                &&& x.desired_version == row.desired_version
                &&& x.active_slot == row.active_slot
                &&& x.status is Online <==> row.status == "online"@
                &&& x.status is Offline <==> row.status == "offline"@
                &&& instant_named(row.last_seen) == Ok::<Timestamp, Seq<char>>(x.last_seen)
            }
        }),
{
    lemma_first_asset(t.assets, i);
    law_asset_status_round_trip(AssetStatus::Online);
    law_asset_status_round_trip(AssetStatus::Offline);
}

/// The labels of an asset are those that are stored for it, as many as there are rows, in
/// alphabetical order.
pub proof fn law_labels_by_rows(t: TablesView, asset_id: Seq<char>)
    requires
        asset_of(t, asset_id) is Ok,
    ensures
        ({
            let labels = asset_of(t, asset_id)->Ok_0.labels;
            &&& labels.len() == t.labels.filter(
                |row: AssetLabelRowView| row.asset_id == asset_id,
            ).len()
            &&& forall|label: Seq<char>| #[trigger]
                labels.contains(label) <==> t.labels.contains(AssetLabelRowView { asset_id, label })
            &&& forall|a: int, b: int|
                0 <= a < b < labels.len() ==> !precedes(#[trigger] labels[b], #[trigger] labels[a])
        }),
{
    let labels = asset_of(t, asset_id)->Ok_0.labels;
    lemma_asset_row(t.assets, asset_id);
    let mine = |row: AssetLabelRowView| row.asset_id == asset_id;
    let rows = t.labels.filter(mine);
    let stored = stored_labels(t.labels, asset_id);
    let order = ascending(stored);
    assert(labels == labels_of(t.labels, asset_id));
    assert(stored.len() == rows.len());
    law_listing_order(stored, stored.len(), false);
    lemma_filter_embeds(t.labels, mine);
    assert forall|label: Seq<char>| #[trigger]
        labels.contains(label) <==> t.labels.contains(AssetLabelRowView { asset_id, label }) by {
        let row = AssetLabelRowView { asset_id, label };
        law_labels_listed(t.labels, asset_id, label);
        if stored.contains(label) {
            let k = choose|k: int| 0 <= k < stored.len() && stored[k] == label;
            assert(mine(rows[k]));
            assert(rows[k] == row);
            assert(t.labels.contains(rows[k]));
        }
        if t.labels.contains(row) {
            let i = choose|i: int| 0 <= i < t.labels.len() && t.labels[i] == row;
            lemma_filter_has(t.labels, mine, i);
            let k = choose|k: int| 0 <= k < rows.len() && rows[k] == row;
            assert(stored[k] == label);
        }
    }
    assert forall|a: int, b: int| 0 <= a < b < labels.len() implies !precedes(
        #[trigger] labels[b],
        #[trigger] labels[a],
    ) by {
        assert(listed_before(stored, order[a], order[b], false));
        lemma_precedes_irreflexive(labels[a]);
        if precedes(labels[a], labels[b]) && precedes(labels[b], labels[a]) {
            lemma_precedes_transitive(labels[a], labels[b], labels[a]);
        }
    }
}

} // verus!
