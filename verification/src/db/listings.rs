//! What the listings hold and in which order, said of the fields of the stored rows.

use crate::clock::{instant_named, Timestamp};
use crate::db::assets::{asset_in, asset_keys, asset_list, assets_read};
use crate::db::commands::{active_among, polled, TicketView};
use crate::db::deployments::{
    deployment_in, deployment_keys, deployment_list, deployments_read, target_in, target_keys,
    target_list, targets_of, targets_read,
};
use crate::db::independence::{are_about, law_deployments_decided_alone, rows_agree};
use crate::db::integrity::{is_sound, lemma_filter_embeds};
use crate::db::order::{descending, law_listing_order, listed_before};
use crate::db::releases::{release_in, release_keys, release_list, releases_read};
use crate::db::rollout::{law_commands_of_active_deployments, lemma_filter_has};
use crate::db::shared::{collected, lemma_collected_items, lemma_collected_reads, picked};
use crate::db::tables::{
    AssetRowView, DeploymentRowView, ReleaseRowView, TablesView, TargetRowView,
};
use crate::text::{lemma_precedes_irreflexive, lemma_precedes_transitive, precedes};
use crate::types::manifest::ReleaseManifestView;
use crate::types::records::{
    AssetRecordView, DeploymentRecordView, DeploymentTargetRecordView, ReleaseRecordView,
    RolloutStrategy, SelectorView,
};
use crate::types::status::{
    law_asset_status_round_trip, law_deployment_status_round_trip, law_target_state_round_trip,
    AssetStatus, DeploymentStatus, DeploymentTargetState,
};
use vstd::prelude::*;

verus! {

/// What a listing of rows in falling order of their keys holds.
proof fn lemma_listing<R, T>(
    rows: Seq<R>,
    keys: Seq<Seq<char>>,
    read: spec_fn(R) -> Result<T, Seq<char>>,
)
    requires
        keys.len() == rows.len(),
    ensures
        ({
            let order = descending(keys);
            let items = picked(rows, order).map_values(read);
            let list = collected(items)->Ok_0;
            &&& collected(items) is Ok <==> forall|i: int|
                0 <= i < rows.len() ==> read(#[trigger] rows[i]) is Ok
            &&& collected(items) is Ok ==> {
                &&& list.len() == rows.len()
                &&& order.len() == rows.len()
                &&& forall|k: int|
                    0 <= k < list.len() ==> 0 <= order[k] < rows.len() && read(rows[order[k]])
                        == Ok::<T, Seq<char>>(#[trigger] list[k])
                &&& forall|i: int| 0 <= i < rows.len() ==> #[trigger] order.contains(i)
                &&& forall|a: int, b: int|
                    0 <= a < b < order.len() ==> #[trigger] order[a] != #[trigger] order[b]
                        && !precedes(keys[order[a]], keys[order[b]])
            }
        }),
{
    let order = descending(keys);
    let items = picked(rows, order).map_values(read);
    law_listing_order(keys, keys.len(), true);
    if collected(items) is Ok {
        let list = collected(items)->Ok_0;
        lemma_collected_items(items);
        assert forall|k: int| 0 <= k < list.len() implies 0 <= order[k] < rows.len() && read(
            rows[order[k]],
        ) == Ok::<T, Seq<char>>(#[trigger] list[k]) by {
            assert(0 <= order[k] < rows.len());
            assert(items[k] == read(rows[order[k]]));
        }
        assert forall|i: int| 0 <= i < rows.len() implies read(#[trigger] rows[i]) is Ok by {
            assert(order.contains(i));
            let k = choose|k: int| 0 <= k < order.len() && order[k] == i;
            assert(items[k] == read(rows[order[k]]));
        }
        assert forall|a: int, b: int| 0 <= a < b < order.len() implies #[trigger] order[a]
            != #[trigger] order[b] && !precedes(keys[order[a]], keys[order[b]]) by {
            assert(listed_before(keys, order[a], order[b], true));
            lemma_precedes_irreflexive(keys[order[a]]);
            if precedes(keys[order[a]], keys[order[b]]) && precedes(
                keys[order[b]],
                keys[order[a]],
            ) {
                lemma_precedes_transitive(
                    keys[order[a]],
                    keys[order[b]],
                    keys[order[a]],
                );
            }
        }
    }
    if forall|i: int| 0 <= i < rows.len() ==> read(#[trigger] rows[i]) is Ok {
        assert forall|k: int| 0 <= k < items.len() implies (#[trigger] items[k]) is Ok by {
            assert(0 <= order[k] < rows.len());
            assert(items[k] == read(rows[order[k]]));
        }
        lemma_collected_reads(items);
    }
}

/// Deployments are listed exactly where each can be read: its status is one of the three, and its
/// selector, its strategy and its time can be read. Each is listed once, with the fields of its
/// row, and none before one that was created later.
pub proof fn law_deployments_listed(t: TablesView)
    ensures
        deployment_list(t) is Ok <==> forall|i: int|
            0 <= i < t.deployments.len() ==> {
                let row = #[trigger] t.deployments[i];
                &&& row.status == "active"@ || row.status == "paused"@ || row.status == "aborted"@
                &&& row.selector is Ok
                &&& row.strategy is Ok
                &&& instant_named(row.created_at) is Ok
            },
        deployment_list(t) is Ok ==> exists|order: Seq<int>|
            {
                let list = deployment_list(t)->Ok_0;
                &&& #[trigger] order.len() == t.deployments.len()
                &&& list.len() == t.deployments.len()
                &&& forall|i: int| 0 <= i < t.deployments.len() ==> #[trigger] order.contains(i)
                &&& forall|k: int|
                    0 <= k < list.len() ==> {
                        let row = t.deployments[#[trigger] order[k]];
                        &&& 0 <= order[k] < t.deployments.len()
                        &&& list[k].id == row.id
                        &&& list[k].release_id == row.release_id
                        &&& list[k].rollout_name == row.rollout_name
                        &&& list[k].status is Active <==> row.status == "active"@
                        &&& list[k].status is Paused <==> row.status == "paused"@
                        &&& list[k].status is Aborted <==> row.status == "aborted"@
                        &&& row.selector == Ok::<SelectorView, Seq<char>>(list[k].selector)
                        &&& row.strategy == Ok::<RolloutStrategy, Seq<char>>(list[k].strategy)
                        &&& instant_named(row.created_at) == Ok::<Timestamp, Seq<char>>(
                            list[k].created_at,
                        )
                    }
                &&& forall|a: int, b: int|
                    0 <= a < b < list.len() ==> #[trigger] order[a] != #[trigger] order[b]
                        && !precedes(
                        t.deployments[order[a]].created_at,
                        t.deployments[order[b]].created_at,
                    )
            },
{
    let read = |row: DeploymentRowView| deployment_in(row);
    let keys = deployment_keys(t.deployments);
    let order = descending(keys);
    lemma_listing(t.deployments, keys, read);
    law_deployment_status_round_trip(DeploymentStatus::Active);
    law_deployment_status_round_trip(DeploymentStatus::Paused);
    law_deployment_status_round_trip(DeploymentStatus::Aborted);
    assert(deployments_read(t.deployments) == picked(t.deployments, order).map_values(read));
    assert forall|row: DeploymentRowView| true implies (#[trigger] read(row) is Ok <==> {
        &&& row.status == "active"@ || row.status == "paused"@ || row.status == "aborted"@
        &&& row.selector is Ok
        &&& row.strategy is Ok
        &&& instant_named(row.created_at) is Ok
    }) by {}
    if deployment_list(t) is Ok {
        let list = deployment_list(t)->Ok_0;
        assert forall|i: int| 0 <= i < t.deployments.len() implies {
            let row = #[trigger] t.deployments[i];
            &&& row.status == "active"@ || row.status == "paused"@ || row.status == "aborted"@
            &&& row.selector is Ok
            &&& row.strategy is Ok
            &&& instant_named(row.created_at) is Ok
        } by {
            assert(read(t.deployments[i]) is Ok);
        }
        assert(order.len() == t.deployments.len());
        assert forall|k: int| 0 <= k < list.len() implies {
            let row = t.deployments[#[trigger] order[k]];
            &&& 0 <= order[k] < t.deployments.len()
            &&& list[k].id == row.id
            &&& list[k].release_id == row.release_id
            &&& list[k].rollout_name == row.rollout_name
            &&& list[k].status is Active <==> row.status == "active"@
            &&& list[k].status is Paused <==> row.status == "paused"@
            &&& list[k].status is Aborted <==> row.status == "aborted"@
            &&& row.selector == Ok::<SelectorView, Seq<char>>(list[k].selector)
            &&& row.strategy == Ok::<RolloutStrategy, Seq<char>>(list[k].strategy)
            &&& instant_named(row.created_at) == Ok::<Timestamp, Seq<char>>(list[k].created_at)
        } by {
            assert(read(t.deployments[order[k]]) == Ok::<DeploymentRecordView, Seq<char>>(list[k]));
        }
        assert forall|a: int, b: int| 0 <= a < b < list.len() implies #[trigger] order[a]
            != #[trigger] order[b] && !precedes(
            t.deployments[order[a]].created_at,
            t.deployments[order[b]].created_at,
        ) by {
            assert(keys[order[a]] == t.deployments[order[a]].created_at);
            assert(keys[order[b]] == t.deployments[order[b]].created_at);
        }
    }
    if forall|i: int|
        0 <= i < t.deployments.len() ==> {
            let row = #[trigger] t.deployments[i];
            &&& row.status == "active"@ || row.status == "paused"@ || row.status == "aborted"@
            &&& row.selector is Ok
            &&& row.strategy is Ok
            &&& instant_named(row.created_at) is Ok
        } {
        assert forall|i: int| 0 <= i < t.deployments.len() implies read(
            #[trigger] t.deployments[i],
        ) is Ok by {}
    }
}

/// Releases are listed exactly where each can be read. Each is listed once, with the fields of its
/// row, and none before one that was created later.
pub proof fn law_releases_listed(t: TablesView)
    ensures
        release_list(t) is Ok <==> forall|i: int|
            0 <= i < t.releases.len() ==> (#[trigger] t.releases[i]).manifest is Ok
                && instant_named(t.releases[i].created_at) is Ok,
        release_list(t) is Ok ==> exists|order: Seq<int>|
            {
                let list = release_list(t)->Ok_0;
                &&& #[trigger] order.len() == t.releases.len()
                &&& list.len() == t.releases.len()
                &&& forall|i: int| 0 <= i < t.releases.len() ==> #[trigger] order.contains(i)
                &&& forall|k: int|
                    0 <= k < list.len() ==> {
                        let row = t.releases[#[trigger] order[k]];
                        &&& 0 <= order[k] < t.releases.len()
                        &&& list[k].id == row.id
                        &&& list[k].version == row.version
                        &&& list[k].target_type == row.target_type
                        &&& row.manifest == Ok::<ReleaseManifestView, Seq<char>>(list[k].manifest)
                        &&& instant_named(row.created_at) == Ok::<Timestamp, Seq<char>>(
                            list[k].created_at,
                        )
                    }
                &&& forall|a: int, b: int|
                    0 <= a < b < list.len() ==> #[trigger] order[a] != #[trigger] order[b]
                        && !precedes(
                        t.releases[order[a]].created_at,
                        t.releases[order[b]].created_at,
                    )
            },
{
    let read = |row: ReleaseRowView| release_in(row);
    let keys = release_keys(t.releases);
    let order = descending(keys);
    lemma_listing(t.releases, keys, read);
    assert(releases_read(t.releases) == picked(t.releases, order).map_values(read));
    assert forall|i: int| 0 <= i < t.releases.len() implies (read(#[trigger] t.releases[i]) is Ok
        <==> t.releases[i].manifest is Ok && instant_named(t.releases[i].created_at) is Ok) by {}
    if release_list(t) is Ok {
        let list = release_list(t)->Ok_0;
        assert(order.len() == t.releases.len());
        assert forall|k: int| 0 <= k < list.len() implies {
            let row = t.releases[#[trigger] order[k]];
            &&& 0 <= order[k] < t.releases.len()
            &&& list[k].id == row.id
            &&& list[k].version == row.version
            &&& list[k].target_type == row.target_type
            &&& row.manifest == Ok::<ReleaseManifestView, Seq<char>>(list[k].manifest)
            &&& instant_named(row.created_at) == Ok::<Timestamp, Seq<char>>(list[k].created_at)
        } by {
            assert(read(t.releases[order[k]]) == Ok::<ReleaseRecordView, Seq<char>>(list[k]));
        }
        assert forall|a: int, b: int| 0 <= a < b < list.len() implies #[trigger] order[a]
            != #[trigger] order[b] && !precedes(
            t.releases[order[a]].created_at,
            t.releases[order[b]].created_at,
        ) by {
            assert(keys[order[a]] == t.releases[order[a]].created_at);
            assert(keys[order[b]] == t.releases[order[b]].created_at);
        }
    }
}

/// Assets are listed exactly where each can be read: its status is one of the two, and its time
/// can be read. Each is listed once, with the fields of its row, and none before one that was seen
/// later.
pub proof fn law_assets_listed(t: TablesView)
    ensures
        asset_list(t) is Ok <==> forall|i: int|
            0 <= i < t.assets.len() ==> ((#[trigger] t.assets[i]).status == "online"@
                || t.assets[i].status == "offline"@) && instant_named(t.assets[i].last_seen) is Ok,
        asset_list(t) is Ok ==> exists|order: Seq<int>|
            {
                let list = asset_list(t)->Ok_0;
                &&& #[trigger] order.len() == t.assets.len()
                &&& list.len() == t.assets.len()
                &&& forall|i: int| 0 <= i < t.assets.len() ==> #[trigger] order.contains(i)
                &&& forall|k: int|
                    0 <= k < list.len() ==> {
                        let row = t.assets[#[trigger] order[k]];
                        &&& 0 <= order[k] < t.assets.len()
                        &&& list[k].asset_id == row.asset_id
                        &&& list[k].asset_type == row.asset_type
                        &&& list[k].mission_state == row.mission_state
                        &&& list[k].current_version == row.current_version
                        &&& list[k].desired_version == row.desired_version
                        &&& list[k].active_slot == row.active_slot
                        &&& list[k].status is Online <==> row.status == "online"@
                        &&& list[k].status is Offline <==> row.status == "offline"@
                        &&& instant_named(row.last_seen) == Ok::<Timestamp, Seq<char>>(
                            list[k].last_seen,
                        )
                    }
                &&& forall|a: int, b: int|
                    0 <= a < b < list.len() ==> #[trigger] order[a] != #[trigger] order[b]
                        && !precedes(t.assets[order[a]].last_seen, t.assets[order[b]].last_seen)
            },
{
    let labels = t.labels;
    let read = |row: AssetRowView| asset_in(row, labels);
    let keys = asset_keys(t.assets);
    let order = descending(keys);
    lemma_listing(t.assets, keys, read);
    law_asset_status_round_trip(AssetStatus::Online);
    law_asset_status_round_trip(AssetStatus::Offline);
    assert(assets_read(t.assets, labels) == picked(t.assets, order).map_values(read));
    assert forall|i: int| 0 <= i < t.assets.len() implies (read(#[trigger] t.assets[i]) is Ok <==> (
    t.assets[i].status == "online"@ || t.assets[i].status == "offline"@) && instant_named(
        t.assets[i].last_seen,
    ) is Ok) by {}
    if asset_list(t) is Ok {
        let list = asset_list(t)->Ok_0;
        assert(order.len() == t.assets.len());
        assert forall|k: int| 0 <= k < list.len() implies {
            let row = t.assets[#[trigger] order[k]];
            &&& 0 <= order[k] < t.assets.len()
            &&& list[k].asset_id == row.asset_id
            &&& list[k].asset_type == row.asset_type
            &&& list[k].mission_state == row.mission_state
            &&& list[k].current_version == row.current_version
            &&& list[k].desired_version == row.desired_version
            &&& list[k].active_slot == row.active_slot
            &&& list[k].status is Online <==> row.status == "online"@
            &&& list[k].status is Offline <==> row.status == "offline"@
            &&& instant_named(row.last_seen) == Ok::<Timestamp, Seq<char>>(list[k].last_seen)
        } by {
            assert(read(t.assets[order[k]]) == Ok::<AssetRecordView, Seq<char>>(list[k]));
        }
        assert forall|a: int, b: int| 0 <= a < b < list.len() implies #[trigger] order[a]
            != #[trigger] order[b] && !precedes(
            t.assets[order[a]].last_seen,
            t.assets[order[b]].last_seen,
        ) by {
            assert(keys[order[a]] == t.assets[order[a]].last_seen);
            assert(keys[order[b]] == t.assets[order[b]].last_seen);
        }
    }
}

/// The targets of a deployment are listed exactly where each of them can be read: its state is one
/// of the six, and its time can be read. Each is listed once, with the fields of its row, and none
/// before one that changed later.
pub proof fn law_targets_listed(t: TablesView, d: Seq<char>)
    ensures
        target_list(t, d) is Ok <==> forall|i: int|
            0 <= i < t.targets.len() && (#[trigger] t.targets[i]).deployment_id == d ==> {
                &&& {
                    ||| t.targets[i].state == "pending"@
                    ||| t.targets[i].state == "issued"@
                    ||| t.targets[i].state == "retry"@
                    ||| t.targets[i].state == "succeeded"@
                    ||| t.targets[i].state == "failed"@
                    ||| t.targets[i].state == "rolled_back"@
                }
                &&& instant_named(t.targets[i].updated_at) is Ok
            },
        target_list(t, d) is Ok ==> exists|rows: Seq<TargetRowView>|
            {
                let list = target_list(t, d)->Ok_0;
                &&& #[trigger] rows.len() == list.len()
                &&& rows.len() == t.targets.filter(
                    |row: TargetRowView| row.deployment_id == d,
                ).len()
                &&& forall|i: int|
                    0 <= i < t.targets.len() && (#[trigger] t.targets[i]).deployment_id == d
                        ==> rows.contains(t.targets[i])
                &&& forall|k: int|
                    0 <= k < list.len() ==> {
                        let row = #[trigger] rows[k];
                        &&& t.targets.contains(row)
                        &&& row.deployment_id == d
                        &&& list[k].deployment_id == d
                        &&& list[k].asset_id == row.asset_id
                        &&& list[k].state is Pending <==> row.state == "pending"@
                        &&& list[k].state is Issued <==> row.state == "issued"@
                        &&& list[k].state is Retry <==> row.state == "retry"@
                        &&& list[k].state is Succeeded <==> row.state == "succeeded"@
                        &&& list[k].state is Failed <==> row.state == "failed"@
                        &&& list[k].state is RolledBack <==> row.state == "rolled_back"@
                        &&& list[k].last_error == row.last_error
                        &&& list[k].current_command_id == row.current_command_id
                        &&& instant_named(row.updated_at) == Ok::<Timestamp, Seq<char>>(
                            list[k].updated_at,
                        )
                    }
                &&& forall|a: int, b: int|
                    0 <= a < b < list.len() ==> !precedes(
                        (#[trigger] rows[a]).updated_at,
                        (#[trigger] rows[b]).updated_at,
                    )
            },
{
    let mine = |row: TargetRowView| row.deployment_id == d;
    let stored = targets_of(t.targets, d);
    let read = |row: TargetRowView| target_in(row);
    let keys = target_keys(stored);
    let order = descending(keys);
    lemma_listing(stored, keys, read);
    lemma_filter_embeds(t.targets, mine);
    law_target_state_round_trip(DeploymentTargetState::Pending);
    law_target_state_round_trip(DeploymentTargetState::Issued);
    law_target_state_round_trip(DeploymentTargetState::Retry);
    law_target_state_round_trip(DeploymentTargetState::Succeeded);
    law_target_state_round_trip(DeploymentTargetState::Failed);
    law_target_state_round_trip(DeploymentTargetState::RolledBack);
    assert(targets_read(stored) == picked(stored, order).map_values(read));
    assert forall|i: int|
        0 <= i < t.targets.len() && (
        #[trigger] t.targets[i]).deployment_id == d implies stored.contains(t.targets[i]) by {
        lemma_filter_has(t.targets, mine, i);
    }
    assert forall|i: int| 0 <= i < stored.len() implies (
    #[trigger] stored[i]).deployment_id == d by {
        assert(mine(stored[i]));
    }
    if target_list(t, d) is Ok {
        let list = target_list(t, d)->Ok_0;
        let rows = picked(stored, order);
        assert(rows.len() == list.len());
        assert forall|i: int|
            0 <= i < t.targets.len() && (
            #[trigger] t.targets[i]).deployment_id == d implies rows.contains(t.targets[i])
            && read(t.targets[i]) is Ok by {
            let j = choose|j: int| 0 <= j < stored.len() && stored[j] == t.targets[i];
            assert(order.contains(j));
            let k = choose|k: int| 0 <= k < order.len() && order[k] == j;
            assert(rows[k] == t.targets[i]);
            assert(read(stored[j]) is Ok);
        }
        assert forall|k: int| 0 <= k < list.len() implies {
            let row = #[trigger] rows[k];
            &&& t.targets.contains(row)
            &&& row.deployment_id == d
            &&& read(row) == Ok::<DeploymentTargetRecordView, Seq<char>>(list[k])
        } by {
            assert(read(stored[order[k]]) == Ok::<DeploymentTargetRecordView, Seq<char>>(list[k]));
            assert(t.targets.contains(stored[order[k]]));
        }
        assert forall|a: int, b: int| 0 <= a < b < list.len() implies !precedes(
            (#[trigger] rows[a]).updated_at,
            (#[trigger] rows[b]).updated_at,
        ) by {
            assert(order[a] != order[b] && !precedes(keys[order[a]], keys[order[b]]));
            assert(read(stored[order[a]]) == Ok::<DeploymentTargetRecordView, Seq<char>>(list[a]));
            assert(read(stored[order[b]]) == Ok::<DeploymentTargetRecordView, Seq<char>>(list[b]));
            assert(keys[order[a]] == stored[order[a]].updated_at);
            assert(keys[order[b]] == stored[order[b]].updated_at);
        }
    }
    if forall|i: int|
        0 <= i < t.targets.len() && (#[trigger] t.targets[i]).deployment_id == d ==> {
            &&& {
                ||| t.targets[i].state == "pending"@
                ||| t.targets[i].state == "issued"@
                ||| t.targets[i].state == "retry"@
                ||| t.targets[i].state == "succeeded"@
                ||| t.targets[i].state == "failed"@
                ||| t.targets[i].state == "rolled_back"@
            }
            &&& instant_named(t.targets[i].updated_at) is Ok
        } {
        assert forall|i: int| 0 <= i < stored.len() implies read(#[trigger] stored[i]) is Ok by {
            assert(t.targets.contains(stored[i]));
        }
    }
}

/// Commands are handed out only of deployments that are stored as active: one that is paused or
/// aborted hands out none. The rows of such a deployment stay when an asset asks for commands.
pub proof fn law_only_active_rows_hand_out(
    t: TablesView,
    asset_id: Seq<char>,
    over_limit: Seq<Seq<char>>,
    tickets: Seq<TicketView>,
    d: Seq<char>,
)
    requires
        is_sound(t),
        polled(t, asset_id, over_limit, tickets).1 is Ok,
        crate::db::commands::are_tickets(tickets, t.deployments.len()),
        forall|i: int|
            0 <= i < t.deployments.len() && (#[trigger] t.deployments[i]).id == d
                ==> t.deployments[i].status != "active"@,
    ensures
        forall|k: int|
            0 <= k < polled(t, asset_id, over_limit, tickets).1->Ok_0.len() ==> (
            #[trigger] polled(t, asset_id, over_limit, tickets).1->Ok_0[k]).deployment_id != d,
        rows_agree(polled(t, asset_id, over_limit, tickets).0, t, d),
{
    let list = deployment_list(t)->Ok_0;
    let answer = polled(t, asset_id, over_limit, tickets).1->Ok_0;
    let active = active_among(list);
    let p = |x: DeploymentRecordView| x.status is Active;
    law_deployments_listed(t);
    let order = choose|order: Seq<int>|
        {
            &&& #[trigger] order.len() == t.deployments.len()
            &&& list.len() == t.deployments.len()
            &&& forall|k: int|
                0 <= k < list.len() ==> {
                    let row = t.deployments[#[trigger] order[k]];
                    &&& 0 <= order[k] < t.deployments.len()
                    &&& list[k].id == row.id
                    &&& list[k].status is Active <==> row.status == "active"@
                }
        };
    assert forall|i: int| 0 <= i < list.len() && (
    #[trigger] list[i]).status is Active implies list[i].id != d by {
        assert(t.deployments[order[i]].status == "active"@);
    }
    assert forall|k: int| 0 <= k < answer.len() implies (#[trigger] answer[k]).deployment_id != d by {
        law_commands_of_active_deployments(t, asset_id, over_limit, tickets, k);
    }
    lemma_filter_embeds(list, p);
    assert(!are_about(active, d)) by {
        if are_about(active, d) {
            let k = choose|k: int| 0 <= k < active.len() && (#[trigger] active[k]).id == d;
            assert(list.contains(active[k]));
            assert(p(active[k]));
        }
    }
    law_deployments_decided_alone(t, asset_id, over_limit, tickets);
}

} // verus!
