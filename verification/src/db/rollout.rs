//! What the operations on the records promise of one another.

use crate::clock::{reads_back, rfc3339_text, Timestamp};
use crate::db::assets::{
    asset_in, asset_keys, asset_list, asset_upserted, assets_read, checkin_writes, label_writes,
    reported_status,
};
use crate::db::commands::{
    active_among, canary_assets, closing_writes, ended_command, ended_target, finished,
    install_command, install_row, is_waiting, issue_writes, polled, polled_each, polled_one,
    result_submitted, result_write, target_on, under_way, TicketView,
};
use crate::db::deployments::{
    deployment_created, deployment_list, deployment_write, pending_target, selected, selects,
    target_in, target_keys, target_list, target_writes, targets_of, targets_read, with_status,
};
use crate::db::error::{DbErrorView, UniqueKey};
use crate::db::integrity::{
    has_deployment, is_sound, lemma_filter_embeds, law_statement_keeps_integrity,
};
use crate::db::order::{descending, law_listing_order, listed_before};
use crate::db::releases::{release_inserted, release_of};
use crate::db::shared::{
    collected, labels_of, law_labels_listed, lemma_collected_items, lemma_collected_reads,
    stored_labels,
};
use crate::db::tables::{
    asset_row, command_row, deployment_row, label_row, lemma_asset_row, lemma_deployment_row,
    lemma_label_row, lemma_release_row, lemma_target_row, release_row, target_row,
    AssetLabelRowView, AssetRowView, CommandResultRowView, TablesView, TargetRowView,
};
use crate::db::writes::{
    checked_in, checked_in_row, desiring, ended, issued, issued_row, labels_of_others,
    lemma_performed_add, lemma_performed_push, moved, performed, results_of_others, settled, step,
    AssetCheckinView, AssetOutcomeView, CommandChangeView, DesiredVersionView, TargetIssueView,
    TargetOutcomeView,
    WriteView,
};
use crate::text::coalesce;
use crate::types::manifest::CreateReleaseRequestView;
use crate::types::records::{
    AgentCheckinRequestView, AgentResultRequestView, AssetRecordView, CommandRecordView,
    CreateDeploymentRequestView, DeploymentRecordView, DeploymentTargetRecordView,
};
use crate::types::status::{
    law_asset_status_round_trip, law_deployment_status_round_trip, law_target_state_round_trip,
    DeploymentStatus, DeploymentTargetState,
};
use vstd::prelude::*;

verus! {

/// A release that has been stored is found again under its identifier, as it was answered.
pub proof fn law_release_found_again(
    t: TablesView,
    req: CreateReleaseRequestView,
    id: Seq<char>,
    now: Timestamp,
)
    requires
        reads_back(now),
        release_row(t.releases, id) is None,
    ensures
        release_inserted(t, req, id, now).1 is Ok,
        release_of(release_inserted(t, req, id, now).0, id) == release_inserted(
            t,
            req,
            id,
            now,
        ).1,
{
    let after = release_inserted(t, req, id, now).0;
    lemma_release_row(t.releases, id);
    lemma_release_row(after.releases, id);
    assert(after.releases[t.releases.len() as int].id == id);
    let row = release_row(after.releases, id)->0;
    let i = choose|i: int| 0 <= i < after.releases.len() && after.releases[i] == row;
    if i < t.releases.len() {
        assert(t.releases[i].id == id);
    }
}

/// The labels of an asset that are stored one after the other: the first that is there already
/// is refused.
proof fn lemma_labels_stored(t: TablesView, asset_id: Seq<char>, labels: Seq<Seq<char>>)
    requires
        asset_row(t.assets, asset_id) is Some,
    ensures
        ({
            let (after, outcome) = performed(t, label_writes(asset_id, labels));
            &&& outcome is Ok <==> labels.no_duplicates() && forall|k: int|
                0 <= k < labels.len() ==> label_row(
                    t.labels,
                    asset_id,
                    #[trigger] labels[k],
                ) is None
            &&& outcome is Err ==> outcome == Err::<(), DbErrorView>(
                DbErrorView::Unique(UniqueKey::AssetLabel),
            )
            &&& after.assets == t.assets
            &&& outcome is Ok ==> after.labels == t.labels + labels.map_values(
                |label: Seq<char>| AssetLabelRowView { asset_id, label },
            )
        }),
    decreases labels.len(),
{
    let ws = label_writes(asset_id, labels);
    if labels.len() == 0 {
        assert(t.labels + labels.map_values(
            |label: Seq<char>| AssetLabelRowView { asset_id, label },
        ) =~= t.labels);
    } else {
        let rest = labels.skip(1);
        assert(ws.skip(1) =~= label_writes(asset_id, rest));
        match step(t, ws[0]) {
            Err(e) => {
                assert(label_row(t.labels, asset_id, labels[0]) is Some);
            },
            Ok(next) => {
                lemma_labels_stored(next, asset_id, rest);
                let row = AssetLabelRowView { asset_id, label: labels[0] };
                assert(next.labels == t.labels.push(row));
                assert forall|label: Seq<char>| label_row(
                    next.labels,
                    asset_id,
                    label,
                ) is None <==> label != labels[0] && (#[trigger] label_row(
                    t.labels,
                    asset_id,
                    label,
                )) is None by {
                    lemma_label_row(t.labels, asset_id, label);
                    lemma_label_row(next.labels, asset_id, label);
                    assert(next.labels[t.labels.len() as int] == row);
                    assert forall|i: int| 0 <= i < t.labels.len() implies next.labels[i]
                        == #[trigger] t.labels[i] by {}
                }
                let (after, outcome) = performed(t, ws);
                if outcome is Ok {
                    assert forall|k: int| 0 <= k < labels.len() implies label_row(
                        t.labels,
                        asset_id,
                        #[trigger] labels[k],
                    ) is None by {
                        if k > 0 {
                            assert(rest[k - 1] == labels[k]);
                        }
                    }
                    assert forall|i: int, j: int|
                        0 <= i < labels.len() && 0 <= j < labels.len() && i != j implies labels[i]
                        != labels[j] by {
                        if i > 0 && j > 0 {
                            assert(rest[i - 1] != rest[j - 1]);
                        } else if i > 0 {
                            assert(label_row(next.labels, asset_id, rest[i - 1]) is None);
                        } else {
                            assert(label_row(next.labels, asset_id, rest[j - 1]) is None);
                        }
                    }
                    assert(t.labels.push(row) + rest.map_values(
                        |label: Seq<char>| AssetLabelRowView { asset_id, label },
                    ) =~= t.labels + labels.map_values(
                        |label: Seq<char>| AssetLabelRowView { asset_id, label },
                    ));
                }
                if labels.no_duplicates() && forall|k: int|
                    0 <= k < labels.len() ==> label_row(
                        t.labels,
                        asset_id,
                        #[trigger] labels[k],
                    ) is None {
                    assert(rest.no_duplicates());
                    assert forall|k: int| 0 <= k < rest.len() implies label_row(
                        next.labels,
                        asset_id,
                        #[trigger] rest[k],
                    ) is None by {
                        assert(rest[k] == labels[k + 1]);
                        assert(labels[k + 1] != labels[0]);
                        assert(label_row(t.labels, asset_id, labels[k + 1]) is None);
                    }
                }
            },
        }
    }
}

/// Removing the labels of an asset leaves it none, and storing labels adds them in their order.
proof fn lemma_labels_replaced(
    rows: Seq<AssetLabelRowView>,
    asset_id: Seq<char>,
    labels: Seq<Seq<char>>,
)
    ensures
        stored_labels(
            labels_of_others(rows, asset_id) + labels.map_values(
                |label: Seq<char>| AssetLabelRowView { asset_id, label },
            ),
            asset_id,
        ) == labels,
{
    let mine = |row: AssetLabelRowView| row.asset_id == asset_id;
    let others = labels_of_others(rows, asset_id);
    let added = labels.map_values(|label: Seq<char>| AssetLabelRowView { asset_id, label });
    lemma_filter_embeds(rows, |row: AssetLabelRowView| row.asset_id != asset_id);
    assert(others.filter(mine) =~= Seq::empty()) by {
        lemma_filter_embeds(others, mine);
        if others.filter(mine).len() > 0 {
            let x = others.filter(mine)[0];
            assert(others.contains(x));
            assert(mine(x));
        }
    }
    lemma_filter_all(added, mine);
    Seq::filter_distributes_over_add(others, added, mine);
    assert((others + added).filter(mine) =~= added);
    assert(stored_labels(others + added, asset_id) =~= labels);
}

proof fn lemma_filter_all<T>(s: Seq<T>, p: spec_fn(T) -> bool)
    requires
        forall|i: int| 0 <= i < s.len() ==> p(#[trigger] s[i]),
    ensures
        s.filter(p) == s,
    decreases s.len(),
{
    reveal(Seq::filter);
    if s.len() > 0 {
        lemma_filter_all(s.drop_last(), p);
        assert(p(s[s.len() - 1]));
        assert(s.drop_last().push(s.last()) =~= s);
    } else {
        assert(s.filter(p) =~= s);
    }
}

proof fn lemma_checked_in(rows: Seq<AssetRowView>, c: AssetCheckinView)
    requires
        asset_row(rows, c.asset_id) is Some,
    ensures
        asset_row(checked_in(rows, c), c.asset_id) == Some(
            checked_in_row(asset_row(rows, c.asset_id)->0, c),
        ),
    decreases rows.len(),
{
    if rows.len() > 0 {
        assert(checked_in(rows, c)[0] == checked_in_row(rows[0], c));
        if rows[0].asset_id != c.asset_id {
            assert(checked_in(rows, c).skip(1) =~= checked_in(rows.skip(1), c));
            lemma_checked_in(rows.skip(1), c);
        }
    }
}

/// An asset that checks in is answered as it says it is. What it does not say of its version and
/// its slot stays as it was, and so does the version that it is to run. Its labels are those
/// that it says, each once. An asset that says a label twice is refused.
pub proof fn law_checkin_answered(t: TablesView, req: AgentCheckinRequestView, now: Timestamp)
    requires
        reads_back(now),
    ensures
        ({
            let outcome = asset_upserted(t, req, now).1;
            let known = asset_row(t.assets, req.asset_id);
            if req.labels.no_duplicates() {
                &&& outcome is Ok
                &&& outcome->Ok_0.asset_id == req.asset_id
                &&& outcome->Ok_0.asset_type == req.asset_type
                &&& outcome->Ok_0.mission_state == req.mission_state
                &&& outcome->Ok_0.status == reported_status(req)
                &&& outcome->Ok_0.last_seen == now
                &&& outcome->Ok_0.current_version == match known {
                    Some(row) => coalesce(req.current_version, row.current_version),
                    None => req.current_version,
                }
                &&& outcome->Ok_0.active_slot == match known {
                    Some(row) => coalesce(req.active_slot, row.active_slot),
                    None => req.active_slot,
                }
                &&& outcome->Ok_0.desired_version == match known {
                    Some(row) => row.desired_version,
                    None => None,
                }
                &&& outcome->Ok_0.labels.len() == req.labels.len()
                &&& forall|label: Seq<char>|
                    outcome->Ok_0.labels.contains(label) <==> #[trigger] req.labels.contains(
                        label,
                    )
            } else {
                outcome == Err::<AssetRecordView, DbErrorView>(
                    DbErrorView::Unique(UniqueKey::AssetLabel),
                )
            }
        }),
{
    let all = checkin_writes(req, now);
    let c = all[0]->UpsertAsset_0;
    let seen = step(t, all[0])->Ok_0;
    let cleared = step(seen, all[1])->Ok_0;
    let id = req.asset_id;
    let first = all.take(2);
    assert(first[0] == all[0] && first[1] == all[1]);
    assert(first.skip(1)[0] == all[1]);
    assert(first.skip(1).skip(1) =~= Seq::empty());
    assert(performed(cleared, first.skip(1).skip(1)) == (cleared, Ok::<(), DbErrorView>(())));
    assert(performed(seen, first.skip(1)) == (cleared, Ok::<(), DbErrorView>(())));
    assert(performed(t, first) == (cleared, Ok::<(), DbErrorView>(())));
    assert(all =~= first + label_writes(id, req.labels));
    lemma_performed_add(t, first, label_writes(id, req.labels));
    assert(asset_row(seen.assets, id) is Some) by {
        if asset_row(t.assets, id) is Some {
            lemma_checked_in(t.assets, c);
        } else {
            lemma_asset_row(seen.assets, id);
            assert(seen.assets[t.assets.len() as int].asset_id == id);
        }
    }
    lemma_labels_stored(cleared, id, req.labels);
    assert forall|k: int| 0 <= k < req.labels.len() implies label_row(
        cleared.labels,
        id,
        #[trigger] req.labels[k],
    ) is None by {
        lemma_label_row(cleared.labels, id, req.labels[k]);
        lemma_filter_embeds(t.labels, |row: AssetLabelRowView| row.asset_id != id);
        if label_row(cleared.labels, id, req.labels[k]) is Some {
            let row = label_row(cleared.labels, id, req.labels[k])->0;
            let i = choose|i: int| 0 <= i < cleared.labels.len() && cleared.labels[i] == row;
            assert(cleared.labels[i].asset_id != id);
        }
    }
    if req.labels.no_duplicates() {
        let after = asset_upserted(t, req, now).0;
        lemma_labels_replaced(t.labels, id, req.labels);
        assert(stored_labels(after.labels, id) == req.labels);
        assert forall|label: Seq<char>|
            labels_of(after.labels, id).contains(label) <==> #[trigger] req.labels.contains(
                label,
            ) by {
            law_labels_listed(after.labels, id, label);
        }
        law_labels_listed(after.labels, id, Seq::empty());
        law_asset_status_round_trip(reported_status(req));
        if asset_row(t.assets, id) is Some {
            lemma_asset_row(t.assets, id);
            lemma_checked_in(t.assets, c);
        } else {
            lemma_asset_row(t.assets, id);
            lemma_asset_row(after.assets, id);
            let row = asset_row(after.assets, id)->0;
            let i = choose|i: int| 0 <= i < after.assets.len() && after.assets[i] == row;
            if i < t.assets.len() {
                assert(t.assets[i].asset_id == id);
            }
        }
    }
}

/// What is asked of an asset that becomes a target.
pub open spec fn is_wanted(assets: Seq<AssetRecordView>, asset_id: Seq<char>) -> bool {
    exists|k: int| 0 <= k < assets.len() && (#[trigger] assets[k]).asset_id == asset_id
}

/// The rows of assets of which some have been told which version to run.
pub open spec fn all_desiring(
    rows: Seq<AssetRowView>,
    assets: Seq<AssetRecordView>,
    version: Seq<char>,
) -> Seq<AssetRowView> {
    rows.map_values(
        |row: AssetRowView|
            if is_wanted(assets, row.asset_id) {
                AssetRowView { desired_version: Some(version), ..row }
            } else {
                row
            },
    )
}

/// The rows of the new targets of a deployment.
pub open spec fn pending_targets(
    assets: Seq<AssetRecordView>,
    deployment_id: Seq<char>,
    now: Timestamp,
) -> Seq<TargetRowView> {
    assets.map_values(
        |asset: AssetRecordView| pending_target(deployment_id, asset.asset_id, now),
    )
}

proof fn lemma_desiring_found(rows: Seq<AssetRowView>, c: DesiredVersionView, id: Seq<char>)
    requires
        asset_row(rows, id) is Some,
    ensures
        asset_row(desiring(rows, c), id) is Some,
{
    lemma_asset_row(rows, id);
    lemma_asset_row(desiring(rows, c), id);
    let row = asset_row(rows, id)->0;
    let i = choose|i: int| 0 <= i < rows.len() && rows[i] == row;
    assert(desiring(rows, c)[i].asset_id == id);
}

/// Making assets targets of a deployment succeeds where they are known, listed once, and not yet
/// targets of it.
proof fn lemma_targets_stored(
    t: TablesView,
    assets: Seq<AssetRecordView>,
    version: Seq<char>,
    id: Seq<char>,
    now: Timestamp,
)
    requires
        deployment_row(t.deployments, id) is Some,
        forall|k: int|
            0 <= k < assets.len() ==> asset_row(t.assets, (#[trigger] assets[k]).asset_id) is Some,
        forall|k: int|
            0 <= k < assets.len() ==> target_row(
                t.targets,
                id,
                (#[trigger] assets[k]).asset_id,
            ) is None,
        forall|i: int, j: int|
            0 <= i < j < assets.len() ==> (#[trigger] assets[i]).asset_id != (
            #[trigger] assets[j]).asset_id,
    ensures
        performed(t, target_writes(assets, version, id, now)) == (
            TablesView {
                assets: all_desiring(t.assets, assets, version),
                targets: t.targets + pending_targets(assets, id, now),
                ..t
            },
            Ok::<(), DbErrorView>(()),
        ),
    decreases assets.len(),
{
    let all = target_writes(assets, version, id, now);
    if assets.len() == 0 {
        assert(all_desiring(t.assets, assets, version) =~= t.assets);
        assert(t.targets + pending_targets(assets, id, now) =~= t.targets);
    } else {
        let rest = assets.skip(1);
        let asset_id = assets[0].asset_id;
        let c = DesiredVersionView { asset_id, version };
        let row = pending_target(id, asset_id, now);
        assert(all[0] == WriteView::SetDesiredVersion(c));
        assert(all[1] == WriteView::InsertTarget(row));
        assert(all.skip(1)[0] == all[1]);
        assert(all.skip(1).skip(1) =~= target_writes(rest, version, id, now)) by {
            assert forall|k: int| 0 <= k < all.len() - 2 implies #[trigger] all.skip(1).skip(1)[k]
                == target_writes(rest, version, id, now)[k] by {
                assert((k + 2) / 2 == k / 2 + 1);
                assert((k + 2) % 2 == k % 2);
                assert(rest[k / 2] == assets[k / 2 + 1]);
            }
        }
        let told = step(t, all[0])->Ok_0;
        assert(asset_row(t.assets, asset_id) is Some);
        lemma_desiring_found(t.assets, c, asset_id);
        assert(target_row(t.targets, id, asset_id) is None);
        let next = step(told, all[1])->Ok_0;
        assert(next.targets == t.targets.push(row));
        assert forall|k: int| 0 <= k < rest.len() implies asset_row(
            next.assets,
            (#[trigger] rest[k]).asset_id,
        ) is Some && target_row(next.targets, id, rest[k].asset_id) is None by {
            assert(rest[k] == assets[k + 1]);
            assert(asset_row(t.assets, assets[k + 1].asset_id) is Some);
            lemma_desiring_found(t.assets, c, rest[k].asset_id);
            assert(target_row(t.targets, id, assets[k + 1].asset_id) is None);
            lemma_target_row(t.targets, id, rest[k].asset_id);
            lemma_target_row(next.targets, id, rest[k].asset_id);
            assert(assets[0].asset_id != assets[k + 1].asset_id);
            if target_row(next.targets, id, rest[k].asset_id) is Some {
                let x = target_row(next.targets, id, rest[k].asset_id)->0;
                let i = choose|i: int| 0 <= i < next.targets.len() && next.targets[i] == x;
                if i < t.targets.len() {
                    assert(t.targets[i] == x);
                }
            }
        }
        assert forall|i: int, j: int| 0 <= i < j < rest.len() implies (
        #[trigger] rest[i]).asset_id != (#[trigger] rest[j]).asset_id by {
            assert(rest[i] == assets[i + 1] && rest[j] == assets[j + 1]);
        }
        lemma_targets_stored(next, rest, version, id, now);
        assert(performed(told, all.skip(1)) == performed(next, all.skip(1).skip(1)));
        assert(performed(t, all) == performed(told, all.skip(1)));
        assert(all_desiring(next.assets, rest, version) =~= all_desiring(
            t.assets,
            assets,
            version,
        )) by {
            assert forall|i: int| 0 <= i < t.assets.len() implies #[trigger] all_desiring(
                next.assets,
                rest,
                version,
            )[i] == all_desiring(t.assets, assets, version)[i] by {
                let x = t.assets[i].asset_id;
                if is_wanted(rest, x) {
                    let k = choose|k: int|
                        0 <= k < rest.len() && (#[trigger] rest[k]).asset_id == x;
                    assert(assets[k + 1].asset_id == x);
                }
                if is_wanted(assets, x) && x != asset_id {
                    let k = choose|k: int|
                        0 <= k < assets.len() && (#[trigger] assets[k]).asset_id == x;
                    assert(rest[k - 1].asset_id == x);
                }
                if x == asset_id {
                    assert(assets[0].asset_id == x);
                }
            }
        }
        assert(t.targets.push(row) + pending_targets(rest, id, now) =~= t.targets
            + pending_targets(assets, id, now));
    }
}

/// The listed assets are rows of the table, each once.
proof fn lemma_assets_listed(t: TablesView)
    requires
        is_sound(t),
        asset_list(t) is Ok,
    ensures
        ({
            let list = asset_list(t)->Ok_0;
            &&& forall|k: int|
                0 <= k < list.len() ==> asset_row(t.assets, (#[trigger] list[k]).asset_id) is Some
            &&& forall|i: int, j: int|
                0 <= i < j < list.len() ==> (#[trigger] list[i]).asset_id != (
                #[trigger] list[j]).asset_id
        }),
{
    let list = asset_list(t)->Ok_0;
    let items = assets_read(t.assets, t.labels);
    let keys = asset_keys(t.assets);
    let order = descending(keys);
    law_listing_order(keys, keys.len(), true);
    lemma_collected_items(items);
    assert forall|k: int| 0 <= k < list.len() implies (#[trigger] list[k]).asset_id
        == t.assets[order[k]].asset_id && 0 <= order[k] < t.assets.len() by {
        assert(0 <= order[k] < t.assets.len());
        assert(items[k] == asset_in(t.assets[order[k]], t.labels));
    }
    assert forall|k: int| 0 <= k < list.len() implies asset_row(
        t.assets,
        (#[trigger] list[k]).asset_id,
    ) is Some by {
        lemma_asset_row(t.assets, list[k].asset_id);
        assert(t.assets[order[k]].asset_id == list[k].asset_id);
    }
    assert forall|i: int, j: int| 0 <= i < j < list.len() implies (#[trigger] list[i]).asset_id != (
    #[trigger] list[j]).asset_id by {
        assert(listed_before(keys, order[i], order[j], true));
        if order[i] == order[j] {
            crate::text::lemma_precedes_irreflexive(keys[order[i]]);
        }
        assert(t.assets[order[i]].asset_id != t.assets[order[j]].asset_id);
    }
}

proof fn lemma_filter_keeps_apart(
    s: Seq<AssetRecordView>,
    p: spec_fn(AssetRecordView) -> bool,
)
    requires
        forall|i: int, j: int|
            0 <= i < j < s.len() ==> (#[trigger] s[i]).asset_id != (#[trigger] s[j]).asset_id,
    ensures
        forall|i: int, j: int|
            0 <= i < j < s.filter(p).len() ==> (#[trigger] s.filter(p)[i]).asset_id != (
            #[trigger] s.filter(p)[j]).asset_id,
    decreases s.len(),
{
    reveal(Seq::filter);
    if s.len() > 0 {
        let rest = s.drop_last();
        lemma_filter_keeps_apart(rest, p);
        lemma_filter_embeds(rest, p);
        assert forall|i: int, j: int| 0 <= i < j < s.filter(p).len() implies (
        #[trigger] s.filter(p)[i]).asset_id != (#[trigger] s.filter(p)[j]).asset_id by {
            if j < rest.filter(p).len() {
                assert(rest.filter(p)[i].asset_id != rest.filter(p)[j].asset_id);
            } else {
                assert(rest.contains(rest.filter(p)[i]));
                let k = choose|k: int| 0 <= k < rest.len() && rest[k] == rest.filter(p)[i];
                assert(s[k].asset_id != s[s.len() - 1].asset_id);
            }
        }
    }
}

/// A deployment whose release is for the assets that it selects is created, and active. Its
/// targets are exactly the assets that it selects, each pending, and exactly those assets are
/// told to run the version of the release.
pub proof fn law_deployment_targets(
    t: TablesView,
    req: CreateDeploymentRequestView,
    id: Seq<char>,
    now: Timestamp,
)
    requires
        is_sound(t),
        reads_back(now),
        deployment_row(t.deployments, id) is None,
        release_of(t, req.release_id) is Ok,
        release_of(t, req.release_id)->Ok_0.target_type == req.selector.target_type,
        asset_list(t) is Ok,
    ensures
        ({
            let (after, outcome) = deployment_created(t, req, id, now);
            let assets = selected(t, req.selector, req.strategy.require_idle)->Ok_0;
            &&& outcome == Ok::<DeploymentRecordView, DbErrorView>(
                DeploymentRecordView {
                    id,
                    release_id: req.release_id,
                    rollout_name: req.rollout_name,
                    status: DeploymentStatus::Active,
                    selector: req.selector,
                    strategy: req.strategy,
                    created_at: now,
                },
            )
            &&& targets_of(after.targets, id) == pending_targets(assets, id, now)
            &&& after.targets == t.targets + pending_targets(assets, id, now)
            &&& after.deployments.len() == t.deployments.len() + 1
            &&& forall|i: int|
                0 <= i < t.deployments.len() ==> #[trigger] after.deployments[i]
                    == t.deployments[i]
            &&& after.releases == t.releases
            &&& after.labels == t.labels
            &&& after.results == t.results
            &&& after.assets == all_desiring(
                t.assets,
                assets,
                release_of(t, req.release_id)->Ok_0.version,
            )
            &&& after.commands == t.commands
        }),
{
    let release = release_of(t, req.release_id)->Ok_0;
    let w = deployment_write(req, id, now);
    lemma_release_row(t.releases, req.release_id);
    let stored = step(t, w)->Ok_0;
    law_statement_keeps_integrity(t, w);
    let p = |asset: AssetRecordView| selects(req.selector, req.strategy.require_idle, asset);
    let list = asset_list(t)->Ok_0;
    let assets = list.filter(p);
    assert(asset_list(stored) == asset_list(t));
    assert(selected(stored, req.selector, req.strategy.require_idle) == Ok::<
        Seq<AssetRecordView>,
        DbErrorView,
    >(assets));
    lemma_assets_listed(t);
    lemma_filter_keeps_apart(list, p);
    lemma_filter_embeds(list, p);
    lemma_deployment_row(t.deployments, id);
    assert forall|i: int| 0 <= i < t.targets.len() implies (#[trigger] t.targets[i]).deployment_id
        != id by {
        assert(has_deployment(t.deployments, t.targets[i].deployment_id));
    }
    lemma_deployment_row(stored.deployments, id);
    assert(stored.deployments[t.deployments.len() as int].id == id);
    assert forall|k: int| 0 <= k < assets.len() implies asset_row(
        stored.assets,
        (#[trigger] assets[k]).asset_id,
    ) is Some && target_row(stored.targets, id, assets[k].asset_id) is None by {
        assert(list.contains(assets[k]));
        lemma_target_row(stored.targets, id, assets[k].asset_id);
        if target_row(stored.targets, id, assets[k].asset_id) is Some {
            let x = target_row(stored.targets, id, assets[k].asset_id)->0;
            let i = choose|i: int| 0 <= i < t.targets.len() && t.targets[i] == x;
            assert(t.targets[i].deployment_id != id);
        }
    }
    lemma_targets_stored(stored, assets, release.version, id, now);
    let after = deployment_created(t, req, id, now).0;
    let mine = |row: TargetRowView| row.deployment_id == id;
    assert(t.targets.filter(mine) =~= Seq::empty()) by {
        lemma_filter_embeds(t.targets, mine);
        if t.targets.filter(mine).len() > 0 {
            let x = t.targets.filter(mine)[0];
            assert(t.targets.contains(x));
            assert(mine(x));
        }
    }
    lemma_filter_all(pending_targets(assets, id, now), mine);
    Seq::filter_distributes_over_add(t.targets, pending_targets(assets, id, now), mine);
    assert(targets_of(after.targets, id) =~= pending_targets(assets, id, now));
    let row = deployment_row(after.deployments, id)->0;
    let i = choose|i: int| 0 <= i < after.deployments.len() && after.deployments[i] == row;
    if i < t.deployments.len() {
        assert(t.deployments[i].id == id);
    }
    law_deployment_status_round_trip(DeploymentStatus::Active);
}

/// A command is handed out only for a deployment that is not over its limit of failures, to an
/// asset that is a target that waits for one, while fewer commands than allowed are under way,
/// and, until as many targets have ended as come first, only to those that come first.
pub proof fn law_command_allowed(
    t: TablesView,
    deployment: DeploymentRecordView,
    asset_id: Seq<char>,
    over_limit: bool,
    ticket: TicketView,
)
    requires
        polled_one(t, deployment, asset_id, over_limit, ticket).1 matches Ok(Some(_)),
    ensures
        ({
            let targets = target_list(t, deployment.id)->Ok_0;
            let canary = deployment.strategy.canary as nat;
            &&& !over_limit
            &&& target_list(t, deployment.id) is Ok
            &&& target_on(targets, asset_id) is Some
            &&& is_waiting(target_on(targets, asset_id)->0.state)
            &&& under_way(t.commands, deployment.id) < deployment.strategy.max_parallel
            &&& canary == 0 || canary <= finished(targets) || canary_assets(
                targets,
                canary,
            ).contains(asset_id)
        }),
{
}

/// A target that waits gets its command where nothing speaks against it: its deployment is not
/// over its limit of failures, fewer commands than allowed are under way, and as many targets
/// have ended as come first, or it is one of those that come first. The command is then queued,
/// and the target issued.
pub proof fn law_command_owed(
    t: TablesView,
    deployment: DeploymentRecordView,
    asset_id: Seq<char>,
    ticket: TicketView,
)
    requires
        deployment_row(t.deployments, deployment.id) is Some,
        asset_row(t.assets, asset_id) is Some,
        command_row(t.commands, ticket.id) is None,
        release_of(t, deployment.release_id) is Ok,
        target_list(t, deployment.id) is Ok,
        target_on(target_list(t, deployment.id)->Ok_0, asset_id) is Some,
        is_waiting(target_on(target_list(t, deployment.id)->Ok_0, asset_id)->0.state),
        under_way(t.commands, deployment.id) < deployment.strategy.max_parallel,
        deployment.strategy.canary == 0 || deployment.strategy.canary <= finished(
            target_list(t, deployment.id)->Ok_0,
        ) || canary_assets(
            target_list(t, deployment.id)->Ok_0,
            deployment.strategy.canary as nat,
        ).contains(asset_id),
    ensures
        polled_one(t, deployment, asset_id, false, ticket) == (
            TablesView {
                commands: t.commands.push(install_row(deployment, asset_id, ticket)),
                targets: issued(
                    t.targets,
                    TargetIssueView {
                        deployment_id: deployment.id,
                        asset_id,
                        state: DeploymentTargetState::Issued.name(),
                        command_id: ticket.id,
                        updated_at: rfc3339_text(ticket.at.secs, ticket.at.nanos),
                    },
                ),
                ..t
            },
            Ok::<Option<CommandRecordView>, DbErrorView>(
                Some(
                    install_command(
                        deployment,
                        release_of(t, deployment.release_id)->Ok_0,
                        asset_id,
                        ticket,
                    ),
                ),
            ),
        ),
{
    let all = issue_writes(deployment, asset_id, ticket);
    let none = Seq::<WriteView>::empty();
    assert(performed(t, none) == (t, Ok::<(), DbErrorView>(())));
    lemma_performed_push(t, none, all[0]);
    lemma_performed_push(t, none.push(all[0]), all[1]);
    assert(none.push(all[0]).push(all[1]) =~= all);
}

/// A deployment over its limit of failures is aborted when a target that waits asks for its
/// command, and no command is handed out.
pub proof fn law_over_limit_aborts(
    t: TablesView,
    deployment: DeploymentRecordView,
    asset_id: Seq<char>,
    ticket: TicketView,
)
    requires
        target_list(t, deployment.id) is Ok,
        target_on(target_list(t, deployment.id)->Ok_0, asset_id) is Some,
        is_waiting(target_on(target_list(t, deployment.id)->Ok_0, asset_id)->0.state),
    ensures
        polled_one(t, deployment, asset_id, true, ticket) == (
            with_status(t, deployment.id, DeploymentStatus::Aborted),
            Ok::<Option<CommandRecordView>, DbErrorView>(None),
        ),
{
}

/// Of two states that a deployment is put in one after the other, the last counts: a deployment
/// that is paused and resumed is as one that is resumed.
pub proof fn law_last_status_counts(
    t: TablesView,
    id: Seq<char>,
    first: DeploymentStatus,
    last: DeploymentStatus,
)
    ensures
        with_status(with_status(t, id, first), id, last) == with_status(t, id, last),
{
    assert(with_status(with_status(t, id, first), id, last).deployments =~= with_status(
        t,
        id,
        last,
    ).deployments);
}

/// The commands that an asset gets are for it, and each is of a deployment that was active.
pub proof fn law_commands_of_active_deployments(
    t: TablesView,
    asset_id: Seq<char>,
    over_limit: Seq<Seq<char>>,
    tickets: Seq<TicketView>,
    k: int,
)
    requires
        polled(t, asset_id, over_limit, tickets).1 is Ok,
        0 <= k < polled(t, asset_id, over_limit, tickets).1->Ok_0.len(),
    ensures
        ({
            let command = polled(t, asset_id, over_limit, tickets).1->Ok_0[k];
            let list = deployment_list(t)->Ok_0;
            &&& command.asset_id == asset_id
            &&& deployment_list(t) is Ok
            &&& exists|i: int|
                0 <= i < list.len() && (#[trigger] list[i]).status is Active && list[i].id
                    == command.deployment_id && !over_limit.contains(list[i].id)
        }),
{
    let list = deployment_list(t)->Ok_0;
    let active = active_among(list);
    lemma_commands_of(t, active, asset_id, over_limit, tickets, k);
    let command = polled(t, asset_id, over_limit, tickets).1->Ok_0[k];
    let j = choose|j: int|
        0 <= j < active.len() && (#[trigger] active[j]).id == command.deployment_id
            && !over_limit.contains(active[j].id);
    lemma_filter_embeds(list, |d: DeploymentRecordView| d.status is Active);
    assert(list.contains(active[j]));
    let i = choose|i: int| 0 <= i < list.len() && list[i] == active[j];
    assert(list[i].status is Active);
}

proof fn lemma_commands_of(
    t: TablesView,
    deployments: Seq<DeploymentRecordView>,
    asset_id: Seq<char>,
    over_limit: Seq<Seq<char>>,
    tickets: Seq<TicketView>,
    k: int,
)
    requires
        polled_each(t, deployments, asset_id, over_limit, tickets).1 is Ok,
        0 <= k < polled_each(t, deployments, asset_id, over_limit, tickets).1->Ok_0.len(),
    ensures
        ({
            let command = polled_each(t, deployments, asset_id, over_limit, tickets).1->Ok_0[k];
            &&& command.asset_id == asset_id
            &&& exists|i: int|
                0 <= i < deployments.len() && (#[trigger] deployments[i]).id
                    == command.deployment_id && !over_limit.contains(deployments[i].id)
        }),
    decreases deployments.len(),
{
    if deployments.len() > 0 {
        let rest = deployments.drop_last();
        let earlier = polled_each(t, rest, asset_id, over_limit, tickets).1->Ok_0;
        let command = polled_each(t, deployments, asset_id, over_limit, tickets).1->Ok_0[k];
        if k < earlier.len() {
            lemma_commands_of(t, rest, asset_id, over_limit, tickets, k);
            let i = choose|i: int|
                0 <= i < rest.len() && (#[trigger] rest[i]).id == command.deployment_id
                    && !over_limit.contains(rest[i].id);
            assert(deployments[i] == rest[i]);
        } else {
            assert(deployments[deployments.len() - 1].id == command.deployment_id);
        }
    }
}

/// The first target on an asset is one of the targets, and on that asset.
pub proof fn lemma_target_on(targets: Seq<DeploymentTargetRecordView>, asset_id: Seq<char>)
    ensures
        match target_on(targets, asset_id) {
            Some(x) => targets.contains(x) && x.asset_id == asset_id,
            None => forall|i: int| 0 <= i < targets.len() ==> (#[trigger] targets[i]).asset_id
                != asset_id,
        },
    decreases targets.len(),
{
    if targets.len() > 0 && targets[0].asset_id != asset_id {
        let rest = targets.skip(1);
        lemma_target_on(rest, asset_id);
        match target_on(rest, asset_id) {
            Some(x) => {
                let i = choose|i: int| 0 <= i < rest.len() && rest[i] == x;
                assert(targets[i + 1] == x);
            },
            None => {
                assert forall|i: int| 0 <= i < targets.len() implies (
                #[trigger] targets[i]).asset_id != asset_id by {
                    if i > 0 {
                        assert(rest[i - 1] == targets[i]);
                    }
                }
            },
        }
    }
}

/// Listed targets are the stored ones.
proof fn lemma_targets_listed(rows: Seq<TargetRowView>)
    requires
        collected(targets_read(rows)) is Ok,
    ensures
        ({
            let list = collected(targets_read(rows))->Ok_0;
            &&& list.len() == rows.len()
            &&& forall|k: int|
                0 <= k < list.len() ==> exists|i: int|
                    0 <= i < rows.len() && target_in(#[trigger] rows[i]) == Ok::<
                        DeploymentTargetRecordView,
                        Seq<char>,
                    >(#[trigger] list[k])
            &&& forall|i: int|
                0 <= i < rows.len() ==> target_in(#[trigger] rows[i]) is Ok && list.contains(
                    target_in(rows[i])->Ok_0,
                )
        }),
{
    let items = targets_read(rows);
    let keys = target_keys(rows);
    let order = descending(keys);
    let list = collected(items)->Ok_0;
    law_listing_order(keys, keys.len(), true);
    lemma_collected_items(items);
    assert forall|k: int| 0 <= k < list.len() implies exists|i: int|
        0 <= i < rows.len() && target_in(#[trigger] rows[i]) == Ok::<
            DeploymentTargetRecordView,
            Seq<char>,
        >(#[trigger] list[k]) by {
        assert(items[k] == target_in(rows[order[k]]));
        assert(0 <= order[k] < rows.len());
    }
    assert forall|i: int| 0 <= i < rows.len() implies target_in(#[trigger] rows[i]) is Ok
        && list.contains(target_in(rows[i])->Ok_0) by {
        assert(order.contains(i));
        let k = choose|k: int| 0 <= k < order.len() && order[k] == i;
        assert(items[k] == target_in(rows[order[k]]));
        assert(list[k] == target_in(rows[i])->Ok_0);
    }
}

/// Targets that can all be read can be listed.
proof fn lemma_targets_readable(rows: Seq<TargetRowView>)
    requires
        forall|i: int| 0 <= i < rows.len() ==> target_in(#[trigger] rows[i]) is Ok,
    ensures
        collected(targets_read(rows)) is Ok,
{
    let items = targets_read(rows);
    let keys = target_keys(rows);
    let order = descending(keys);
    law_listing_order(keys, keys.len(), true);
    assert forall|k: int| 0 <= k < items.len() implies (#[trigger] items[k]) is Ok by {
        assert(0 <= order[k] < rows.len());
        assert(items[k] == target_in(rows[order[k]]));
    }
    lemma_collected_reads(items);
}

/// Once a command has been handed out for a target, the target no longer waits for one, and asking
/// again hands out no second one.
pub proof fn law_no_second_command(
    t: TablesView,
    deployment: DeploymentRecordView,
    asset_id: Seq<char>,
    over_limit: bool,
    ticket: TicketView,
    later_over_limit: bool,
    later_ticket: TicketView,
)
    requires
        is_sound(t),
        reads_back(ticket.at),
        polled_one(t, deployment, asset_id, over_limit, ticket).1 matches Ok(Some(_)),
    ensures
        ({
            let after = polled_one(t, deployment, asset_id, over_limit, ticket).0;
            polled_one(after, deployment, asset_id, later_over_limit, later_ticket) == (
                after,
                Ok::<Option<CommandRecordView>, DbErrorView>(None),
            )
        }),
        ({
            let after = polled_one(t, deployment, asset_id, over_limit, ticket).0;
            &&& target_list(after, deployment.id) is Ok
            &&& target_on(target_list(after, deployment.id)->Ok_0, asset_id) matches Some(target)
                ==> !is_waiting(target.state)
        }),
{
    let d = deployment.id;
    let all = issue_writes(deployment, asset_id, ticket);
    let after = polled_one(t, deployment, asset_id, over_limit, ticket).0;
    let c = all[1]->IssueTarget_0;
    assert(after.targets == issued(t.targets, c)) by {
        let none = Seq::<WriteView>::empty();
        assert(performed(t, none) == (t, Ok::<(), DbErrorView>(())));
        lemma_performed_push(t, none, all[0]);
        lemma_performed_push(t, none.push(all[0]), all[1]);
        assert(none.push(all[0]).push(all[1]) =~= all);
    }
    let mine = |row: TargetRowView| row.deployment_id == d;
    let before_rows = targets_of(t.targets, d);
    let after_rows = targets_of(after.targets, d);
    lemma_filter_embeds(t.targets, mine);
    lemma_filter_embeds(after.targets, mine);
    lemma_targets_listed(before_rows);
    law_target_state_round_trip(DeploymentTargetState::Issued);
    assert forall|j: int| 0 <= j < after_rows.len() implies ({
        &&& target_in(#[trigger] after_rows[j]) is Ok
        &&& after_rows[j].asset_id == asset_id ==> target_in(after_rows[j])->Ok_0.state is Issued
    }) by {
        assert(after.targets.contains(after_rows[j]));
        let i = choose|i: int| 0 <= i < after.targets.len() && after.targets[i] == after_rows[j];
        assert(after.targets[i] == issued_row(t.targets[i], c));
        assert(mine(after.targets[i]));
        lemma_filter_has(t.targets, mine, i);
        let k = choose|k: int| 0 <= k < before_rows.len() && before_rows[k] == t.targets[i];
        assert(target_in(before_rows[k]) is Ok);
    }
    lemma_targets_readable(after_rows);
    lemma_targets_listed(after_rows);
    let list = collected(targets_read(after_rows))->Ok_0;
    lemma_target_on(list, asset_id);
    if target_on(list, asset_id) is Some {
        let x = target_on(list, asset_id)->0;
        let k = choose|k: int| 0 <= k < list.len() && list[k] == x;
        let j = choose|j: int|
            0 <= j < after_rows.len() && target_in(#[trigger] after_rows[j]) == Ok::<
                DeploymentTargetRecordView,
                Seq<char>,
            >(list[k]);
        assert(target_in(after_rows[j])->Ok_0.state is Issued);
    }
}

/// What is asked for and was in a sequence is left of it.
pub proof fn lemma_filter_has<T>(s: Seq<T>, p: spec_fn(T) -> bool, i: int)
    requires
        0 <= i < s.len(),
        p(s[i]),
    ensures
        s.filter(p).contains(s[i]),
    decreases s.len(),
{
    reveal(Seq::filter);
    let rest = s.drop_last();
    if i < rest.len() {
        lemma_filter_has(rest, p, i);
        let k = choose|k: int| 0 <= k < rest.filter(p).len() && rest.filter(p)[k] == s[i];
        assert(s.filter(p)[k] == s[i]);
    } else {
        assert(s.filter(p)[s.filter(p).len() - 1] == s[i]);
    }
}

/// A result that is accepted ends its command and the target of that command, and its asset runs
/// what the result says and is no longer to run another version. Where the result does not say
/// which version or slot that is, what was known stays.
pub proof fn law_result_effects(t: TablesView, req: AgentResultRequestView, now: Timestamp)
    requires
        command_row(t.commands, req.command_id) is Some,
    ensures
        ({
            let command = command_row(t.commands, req.command_id)->0;
            let at = rfc3339_text(now.secs, now.nanos);
            let after = result_submitted(t, req, now).0;
            &&& after.commands == moved(
                t.commands,
                CommandChangeView {
                    id: req.command_id,
                    status: ended_command(req.success).name(),
                    updated_at: at,
                },
            )
            &&& after.targets == ended(
                t.targets,
                TargetOutcomeView {
                    deployment_id: command.deployment_id,
                    asset_id: command.asset_id,
                    state: ended_target(req.success).name(),
                    last_error: if req.success {
                        None
                    } else {
                        Some(req.message)
                    },
                    updated_at: at,
                },
            )
            &&& after.assets == settled(
                t.assets,
                AssetOutcomeView {
                    asset_id: command.asset_id,
                    booted_version: req.booted_version,
                    active_slot: req.active_slot,
                },
            )
            &&& after.results == results_of_others(t.results, req.command_id).push(
                CommandResultRowView {
                    command_id: req.command_id,
                    success: req.success,
                    message: req.message,
                    active_slot: req.active_slot,
                    booted_version: req.booted_version,
                    created_at: at,
                },
            )
            &&& after.deployments == t.deployments
            &&& after.releases == t.releases
            &&& after.labels == t.labels
        }),
{
    let stored = step(t, result_write(req, now))->Ok_0;
    let all = closing_writes(req, command_row(stored.commands, req.command_id)->0, now);
    let none = Seq::<WriteView>::empty();
    assert(performed(stored, none) == (stored, Ok::<(), DbErrorView>(())));
    lemma_performed_push(stored, none, all[0]);
    lemma_performed_push(stored, none.push(all[0]), all[1]);
    lemma_performed_push(stored, none.push(all[0]).push(all[1]), all[2]);
    assert(none.push(all[0]).push(all[1]).push(all[2]) =~= all);
}

} // verus!
