//! Which assets a deployment is for, said of the fields of the stored rows.

use crate::clock::{reads_back, rfc3339_text, Timestamp};
use crate::db::assets::{asset_in, asset_keys, asset_list, assets_read};
use crate::db::counts::lemma_count_bound;
use crate::db::deployments::{
    deployment_created, label_text, selected, selects, targets_of,
};
use crate::db::integrity::{is_sound, lemma_filter_embeds};
use crate::db::order::{descending, law_listing_order};
use crate::db::releases::release_of;
use crate::db::rollout::{
    all_desiring, is_wanted, law_deployment_targets, lemma_filter_has, pending_targets,
};
use crate::db::shared::{labels_of, law_labels_listed, lemma_collected_items, stored_labels};
use crate::db::tables::{deployment_row, AssetLabelRowView, TablesView, TargetRowView};
use crate::types::records::{AssetRecordView, CreateDeploymentRequestView, SelectorView};
use vstd::prelude::*;

verus! {

/// An asset carries the labels that rows say of it.
proof fn lemma_labels_by_rows(rows: Seq<AssetLabelRowView>, asset_id: Seq<char>, label: Seq<char>)
    ensures
        labels_of(rows, asset_id).contains(label) <==> exists|i: int|
            0 <= i < rows.len() && (#[trigger] rows[i]).asset_id == asset_id && rows[i].label
                == label,
{
    let mine = |row: AssetLabelRowView| row.asset_id == asset_id;
    let kept = rows.filter(mine);
    let stored = stored_labels(rows, asset_id);
    law_labels_listed(rows, asset_id, label);
    lemma_filter_embeds(rows, mine);
    if stored.contains(label) {
        let k = choose|k: int| 0 <= k < stored.len() && stored[k] == label;
        assert(rows.contains(kept[k]));
        assert(mine(kept[k]));
        let i = choose|i: int| 0 <= i < rows.len() && rows[i] == kept[k];
        assert(rows[i].label == label);
    }
    if exists|i: int|
        0 <= i < rows.len() && (#[trigger] rows[i]).asset_id == asset_id && rows[i].label == label {
        let i = choose|i: int|
            0 <= i < rows.len() && (#[trigger] rows[i]).asset_id == asset_id && rows[i].label
                == label;
        lemma_filter_has(rows, mine, i);
        let k = choose|k: int| 0 <= k < kept.len() && kept[k] == rows[i];
        assert(stored[k] == label);
    }
}

/// The assets as they are listed, and the rows that hold them.
proof fn lemma_assets_by_rows(t: TablesView)
    requires
        asset_list(t) is Ok,
    ensures
        ({
            let list = asset_list(t)->Ok_0;
            let order = descending(asset_keys(t.assets));
            &&& list.len() == t.assets.len()
            &&& forall|k: int|
                0 <= k < list.len() ==> 0 <= order[k] < t.assets.len() && asset_in(
                    t.assets[order[k]],
                    t.labels,
                ) == Ok::<AssetRecordView, Seq<char>>(#[trigger] list[k])
            &&& forall|i: int|
                0 <= i < t.assets.len() ==> asset_in(#[trigger] t.assets[i], t.labels) is Ok
                    && list.contains(asset_in(t.assets[i], t.labels)->Ok_0)
        }),
{
    let items = assets_read(t.assets, t.labels);
    let keys = asset_keys(t.assets);
    let order = descending(keys);
    let list = asset_list(t)->Ok_0;
    law_listing_order(keys, keys.len(), true);
    lemma_collected_items(items);
    assert forall|k: int| 0 <= k < list.len() implies 0 <= order[k] < t.assets.len() && asset_in(
        t.assets[order[k]],
        t.labels,
    ) == Ok::<AssetRecordView, Seq<char>>(#[trigger] list[k]) by {
        assert(0 <= order[k] < t.assets.len());
        assert(items[k] == asset_in(t.assets[order[k]], t.labels));
    }
    assert forall|i: int| 0 <= i < t.assets.len() implies asset_in(
        #[trigger] t.assets[i],
        t.labels,
    ) is Ok && list.contains(asset_in(t.assets[i], t.labels)->Ok_0) by {
        assert(order.contains(i));
        let k = choose|k: int| 0 <= k < order.len() && order[k] == i;
        assert(items[k] == asset_in(t.assets[order[k]], t.labels));
        assert(list[k] == asset_in(t.assets[i], t.labels)->Ok_0);
    }
}

/// Which assets become targets of a new deployment, by the stored rows: exactly those of the type
/// that the selector names, that have for each of its labels a stored label `key=value`, whose
/// mission state is one of those it lists, at whatever position, or any where it lists none, and
/// that are idle where the strategy asks for it. Exactly these assets are told to run the version
/// of the release.
pub proof fn law_targets_by_rows(
    t: TablesView,
    req: CreateDeploymentRequestView,
    id: Seq<char>,
    now: Timestamp,
    i: int,
)
    requires
        is_sound(t),
        reads_back(now),
        deployment_row(t.deployments, id) is None,
        release_of(t, req.release_id) is Ok,
        release_of(t, req.release_id)->Ok_0.target_type == req.selector.target_type,
        asset_list(t) is Ok,
        0 <= i < t.assets.len(),
    ensures
        ({
            let (after, outcome) = deployment_created(t, req, id, now);
            let asset = t.assets[i];
            let states = req.selector.mission_states;
            let wanted = {
                &&& asset.asset_type == req.selector.target_type
                &&& forall|key: Seq<char>| #[trigger]
                    req.selector.labels.dom().contains(key) ==> exists|j: int|
                        0 <= j < t.labels.len() && (#[trigger] t.labels[j]).asset_id
                            == asset.asset_id && t.labels[j].label == key + "="@
                            + req.selector.labels[key]
                &&& states.len() == 0 || exists|m: int|
                    0 <= m < states.len() && #[trigger] states[m] == asset.mission_state
                &&& req.strategy.require_idle ==> asset.mission_state == "idle"@
            };
            &&& outcome is Ok
            &&& wanted <==> exists|j: int|
                0 <= j < after.targets.len() && (#[trigger] after.targets[j]).deployment_id == id
                    && after.targets[j].asset_id == asset.asset_id
            &&& after.assets.len() == t.assets.len()
            &&& after.assets[i].desired_version == if wanted {
                Some(release_of(t, req.release_id)->Ok_0.version)
            } else {
                asset.desired_version
            }
            &&& after.assets[i].asset_id == asset.asset_id
            &&& after.assets[i].asset_type == asset.asset_type
            &&& after.assets[i].mission_state == asset.mission_state
            &&& after.assets[i].current_version == asset.current_version
            &&& after.assets[i].active_slot == asset.active_slot
            &&& after.assets[i].status == asset.status
            &&& after.assets[i].last_seen == asset.last_seen
        }),
{
    let asset = t.assets[i];
    let p = |x: AssetRecordView| selects(req.selector, req.strategy.require_idle, x);
    let assets = asset_list(t)->Ok_0.filter(p);
    lemma_selects_by_rows(t, req.selector, req.strategy.require_idle, i);
    lemma_wanted_by_selector(t, req, i);
    lemma_created(t, req, id, now);
    lemma_targets_wanted(
        deployment_created(t, req, id, now).0.targets,
        assets,
        id,
        now,
        asset.asset_id,
    );
}

/// What creating a deployment does to targets and assets.
proof fn lemma_created(
    t: TablesView,
    req: CreateDeploymentRequestView,
    id: Seq<char>,
    now: Timestamp,
)
    requires
        is_sound(t),
        reads_back(now),
        deployment_row(t.deployments, id) is None,
        release_of(t, req.release_id) is Ok,
        release_of(t, req.release_id)->Ok_0.target_type == req.selector.target_type,
        asset_list(t) is Ok,
    ensures
        ({
            let (after, outcome) = deployment_created(t, req, id, now);
            let assets = asset_list(t)->Ok_0.filter(
                |x: AssetRecordView| selects(req.selector, req.strategy.require_idle, x),
            );
            &&& outcome is Ok
            &&& targets_of(after.targets, id) == pending_targets(assets, id, now)
            &&& after.assets == all_desiring(
                t.assets,
                assets,
                release_of(t, req.release_id)->Ok_0.version,
            )
        }),
{
    law_deployment_targets(t, req, id, now);
}

/// Whether a selector is for the asset of a row, by the stored rows.
proof fn lemma_selects_by_rows(t: TablesView, selector: SelectorView, require_idle: bool, i: int)
    requires
        asset_list(t) is Ok,
        0 <= i < t.assets.len(),
    ensures
        asset_in(t.assets[i], t.labels) is Ok,
        selects(selector, require_idle, asset_in(t.assets[i], t.labels)->Ok_0) <==> {
            let asset = t.assets[i];
            let states = selector.mission_states;
            &&& asset.asset_type == selector.target_type
            &&& forall|key: Seq<char>| #[trigger]
                selector.labels.dom().contains(key) ==> exists|j: int|
                    0 <= j < t.labels.len() && (#[trigger] t.labels[j]).asset_id == asset.asset_id
                        && t.labels[j].label == key + "="@ + selector.labels[key]
            &&& states.len() == 0 || exists|m: int|
                0 <= m < states.len() && #[trigger] states[m] == asset.mission_state
            &&& require_idle ==> asset.mission_state == "idle"@
        },
{
    let asset = t.assets[i];
    let states = selector.mission_states;
    lemma_assets_by_rows(t);
    let record = asset_in(asset, t.labels)->Ok_0;
    assert forall|key: Seq<char>| #[trigger] selector.labels.dom().contains(key) implies (
    record.labels.contains(label_text(key, selector.labels[key])) <==> exists|j: int|
        0 <= j < t.labels.len() && (#[trigger] t.labels[j]).asset_id == asset.asset_id
            && t.labels[j].label == key + "="@ + selector.labels[key]) by {
        lemma_labels_by_rows(t.labels, asset.asset_id, label_text(key, selector.labels[key]));
    }
    assert(states.contains(asset.mission_state) <==> exists|m: int|
        0 <= m < states.len() && #[trigger] states[m] == asset.mission_state);
}

/// The asset of a row is among those that a selector is for exactly where the selector is for it.
proof fn lemma_wanted_by_selector(t: TablesView, req: CreateDeploymentRequestView, i: int)
    requires
        is_sound(t),
        asset_list(t) is Ok,
        0 <= i < t.assets.len(),
    ensures
        is_wanted(
            asset_list(t)->Ok_0.filter(
                |x: AssetRecordView| selects(req.selector, req.strategy.require_idle, x),
            ),
            t.assets[i].asset_id,
        ) <==> selects(
            req.selector,
            req.strategy.require_idle,
            asset_in(t.assets[i], t.labels)->Ok_0,
        ),
{
    let p = |x: AssetRecordView| selects(req.selector, req.strategy.require_idle, x);
    let list = asset_list(t)->Ok_0;
    let assets = list.filter(p);
    let record = asset_in(t.assets[i], t.labels)->Ok_0;
    lemma_assets_by_rows(t);
    if p(record) {
        let k = choose|k: int| 0 <= k < list.len() && list[k] == record;
        lemma_filter_has(list, p, k);
        let m = choose|m: int| 0 <= m < assets.len() && assets[m] == record;
        assert(assets[m].asset_id == t.assets[i].asset_id);
    }
    if is_wanted(assets, t.assets[i].asset_id) {
        let m = choose|m: int|
            0 <= m < assets.len() && (#[trigger] assets[m]).asset_id == t.assets[i].asset_id;
        lemma_wanted_is_record(t, req, assets, i, m);
    }
}

/// A deployment with these new targets has one on an asset exactly where the asset is among those
/// that it is for.
proof fn lemma_targets_wanted(
    targets: Seq<TargetRowView>,
    assets: Seq<AssetRecordView>,
    id: Seq<char>,
    now: Timestamp,
    asset_id: Seq<char>,
)
    requires
        targets_of(targets, id) == pending_targets(assets, id, now),
    ensures
        is_wanted(assets, asset_id) <==> exists|j: int|
            0 <= j < targets.len() && (#[trigger] targets[j]).deployment_id == id
                && targets[j].asset_id == asset_id,
{
    let mine = |row: TargetRowView| row.deployment_id == id;
    let rows = targets_of(targets, id);
    lemma_filter_embeds(targets, mine);
    if is_wanted(assets, asset_id) {
        let m = choose|m: int| 0 <= m < assets.len() && (#[trigger] assets[m]).asset_id == asset_id;
        assert(rows[m].asset_id == asset_id);
        assert(targets.contains(rows[m]));
        assert(mine(rows[m]));
        let j = choose|j: int| 0 <= j < targets.len() && targets[j] == rows[m];
        assert(targets[j].deployment_id == id);
    }
    if exists|j: int|
        0 <= j < targets.len() && (#[trigger] targets[j]).deployment_id == id
            && targets[j].asset_id == asset_id {
        let j = choose|j: int|
            0 <= j < targets.len() && (#[trigger] targets[j]).deployment_id == id
                && targets[j].asset_id == asset_id;
        lemma_filter_has(targets, mine, j);
        let k = choose|k: int| 0 <= k < rows.len() && rows[k] == targets[j];
        assert(rows[k] == pending_targets(assets, id, now)[k]);
        assert(assets[k].asset_id == asset_id);
    }
}

/// The targets that a new deployment adds are its own, each on a known asset, pending, without an
/// error and without a command. The targets that were there stay, and so do all deployments,
/// releases, labels, commands and results.
pub proof fn law_new_targets_by_fields(
    t: TablesView,
    req: CreateDeploymentRequestView,
    id: Seq<char>,
    now: Timestamp,
)
    requires
        is_sound(t),
        reads_back(now),
        deployment_row(t.deployments, id) is None,
        release_of(t, req.release_id) is Ok,
        release_of(t, req.release_id)->Ok_0.target_type == req.selector.target_type,
        asset_list(t) is Ok,
    ensures
        ({
            let (after, outcome) = deployment_created(t, req, id, now);
            &&& outcome is Ok
            &&& outcome->Ok_0.id == id
            &&& outcome->Ok_0.release_id == req.release_id
            &&& outcome->Ok_0.rollout_name == req.rollout_name
            &&& outcome->Ok_0.status is Active
            &&& outcome->Ok_0.selector == req.selector
            &&& outcome->Ok_0.strategy == req.strategy
            &&& outcome->Ok_0.created_at == now
            &&& t.targets.len() <= after.targets.len() <= t.targets.len() + t.assets.len()
            &&& forall|j: int|
                0 <= j < t.targets.len() ==> #[trigger] after.targets[j] == t.targets[j]
            &&& forall|j: int|
                t.targets.len() <= j < after.targets.len() ==> {
                    &&& (#[trigger] after.targets[j]).deployment_id == id
                    &&& after.targets[j].state == "pending"@
                    &&& after.targets[j].last_error is None
                    &&& after.targets[j].current_command_id is None
                    &&& after.targets[j].updated_at == rfc3339_text(now.secs, now.nanos)
                }
            &&& after.deployments.len() == t.deployments.len() + 1
            &&& forall|i: int|
                0 <= i < t.deployments.len() ==> #[trigger] after.deployments[i]
                    == t.deployments[i]
            &&& after.releases == t.releases
            &&& after.labels == t.labels
            &&& after.commands == t.commands
            &&& after.results == t.results
        }),
{
    let after = deployment_created(t, req, id, now).0;
    let p = |x: AssetRecordView| selects(req.selector, req.strategy.require_idle, x);
    let list = asset_list(t)->Ok_0;
    law_deployment_targets(t, req, id, now);
    lemma_assets_by_rows(t);
    lemma_count_bound(list, p);
    assert forall|j: int| t.targets.len() <= j < after.targets.len() implies {
        &&& (#[trigger] after.targets[j]).deployment_id == id
        &&& after.targets[j].state == "pending"@
        &&& after.targets[j].last_error is None
        &&& after.targets[j].current_command_id is None
        &&& after.targets[j].updated_at == rfc3339_text(now.secs, now.nanos)
    } by {
        assert(after.targets[j] == pending_targets(list.filter(p), id, now)[j
            - t.targets.len()]);
    }
}

/// An asset that a listing has under the identifier of a row is the one that the row holds.
proof fn lemma_wanted_is_record(
    t: TablesView,
    req: CreateDeploymentRequestView,
    assets: Seq<AssetRecordView>,
    i: int,
    m: int,
)
    requires
        is_sound(t),
        asset_list(t) is Ok,
        assets == asset_list(t)->Ok_0.filter(
            |x: AssetRecordView| selects(req.selector, req.strategy.require_idle, x),
        ),
        0 <= i < t.assets.len(),
        0 <= m < assets.len(),
        assets[m].asset_id == t.assets[i].asset_id,
    ensures
        asset_in(t.assets[i], t.labels) == Ok::<AssetRecordView, Seq<char>>(assets[m]),
        selects(req.selector, req.strategy.require_idle, assets[m]),
{
    let p = |x: AssetRecordView| selects(req.selector, req.strategy.require_idle, x);
    let list = asset_list(t)->Ok_0;
    let order = descending(asset_keys(t.assets));
    lemma_assets_by_rows(t);
    lemma_filter_embeds(list, p);
    assert(list.contains(assets[m]));
    assert(p(assets[m]));
    let k = choose|k: int| 0 <= k < list.len() && list[k] == assets[m];
    let j = order[k];
    assert(asset_in(t.assets[j], t.labels) == Ok::<AssetRecordView, Seq<char>>(list[k]));
    if j < i {
        assert(t.assets[j].asset_id != t.assets[i].asset_id);
    } else if i < j {
        assert(t.assets[i].asset_id != t.assets[j].asset_id);
    }
}

/// Which assets a deployment is for does not depend on the order in which its selector lists
/// mission states, nor on how often it lists one.
pub proof fn law_mission_states_in_any_order(
    t: TablesView,
    one: SelectorView,
    other: SelectorView,
    require_idle: bool,
)
    requires
        one.target_type == other.target_type,
        one.labels == other.labels,
        forall|state: Seq<char>| #[trigger]
            one.mission_states.contains(state) <==> other.mission_states.contains(state),
    ensures
        selected(t, one, require_idle) == selected(t, other, require_idle),
{
    if one.mission_states.len() > 0 {
        assert(one.mission_states.contains(one.mission_states[0]));
    }
    if other.mission_states.len() > 0 {
        assert(other.mission_states.contains(other.mission_states[0]));
        assert(one.mission_states.contains(other.mission_states[0]));
    }
    let p = |x: AssetRecordView| selects(one, require_idle, x);
    let q = |x: AssetRecordView| selects(other, require_idle, x);
    assert forall|x: AssetRecordView| #[trigger] p(x) == q(x) by {
        assert(one.mission_states.contains(x.mission_state) <==> other.mission_states.contains(
            x.mission_state,
        ));
    }
    assert(p =~= q);
}

/// A selector that asks for more selects no more: where one with further labels selects an asset,
/// the one without them does, and one that lists no mission states selects whatever one does that
/// lists some.
pub proof fn law_asking_more_selects_less(
    more: SelectorView,
    less: SelectorView,
    require_idle: bool,
    asset: AssetRecordView,
)
    requires
        more.target_type == less.target_type,
        forall|key: Seq<char>| #[trigger]
            less.labels.dom().contains(key) ==> more.labels.dom().contains(key)
                && more.labels[key] == less.labels[key],
        less.mission_states.len() == 0 || less.mission_states == more.mission_states,
    ensures
        selects(more, require_idle, asset) ==> selects(less, require_idle, asset),
        selects(more, true, asset) ==> selects(more, false, asset) && asset.mission_state
            == "idle"@,
{
}

/// The assets that are selected are those of the listing, in the order of the listing, that have
/// the type, carry a label for each one that is asked for, are in one of the states where some are
/// asked for, and are idle where that is asked for. They can be told exactly where the assets can
/// be listed.
pub proof fn law_selected_of_listing(t: TablesView, selector: SelectorView, require_idle: bool)
    ensures
        selected(t, selector, require_idle) is Ok <==> asset_list(t) is Ok,
        asset_list(t) is Err ==> selected(t, selector, require_idle) == asset_list(t),
        asset_list(t) is Ok ==> selected(t, selector, require_idle)->Ok_0
            == asset_list(t)->Ok_0.filter(
            |asset: AssetRecordView|
                {
                    &&& asset.asset_type == selector.target_type
                    &&& forall|key: Seq<char>| #[trigger]
                        selector.labels.dom().contains(key) ==> asset.labels.contains(
                            key + "="@ + selector.labels[key],
                        )
                    &&& selector.mission_states.len() == 0 || exists|m: int|
                        0 <= m < selector.mission_states.len()
                            && #[trigger] selector.mission_states[m] == asset.mission_state
                    &&& require_idle ==> asset.mission_state == "idle"@
                },
        ),
{
    let by_fields = |asset: AssetRecordView|
        {
            &&& asset.asset_type == selector.target_type
            &&& forall|key: Seq<char>| #[trigger]
                selector.labels.dom().contains(key) ==> asset.labels.contains(
                    key + "="@ + selector.labels[key],
                )
            &&& selector.mission_states.len() == 0 || exists|m: int|
                0 <= m < selector.mission_states.len() && #[trigger] selector.mission_states[m]
                    == asset.mission_state
            &&& require_idle ==> asset.mission_state == "idle"@
        };
    let by_name = |asset: AssetRecordView| selects(selector, require_idle, asset);
    assert forall|asset: AssetRecordView| #[trigger] by_fields(asset) == by_name(asset) by {
        if by_name(asset) {
            assert forall|key: Seq<char>| #[trigger]
                selector.labels.dom().contains(key) implies asset.labels.contains(
                key + "="@ + selector.labels[key],
            ) by {
                assert(asset.labels.contains(label_text(key, selector.labels[key])));
            }
        }
        if by_fields(asset) {
            assert forall|key: Seq<char>| #[trigger]
                selector.labels.dom().contains(key) implies asset.labels.contains(
                label_text(key, selector.labels[key]),
            ) by {
                assert(asset.labels.contains(key + "="@ + selector.labels[key]));
            }
        }
    }
    assert(by_fields =~= by_name);
}

} // verus!
