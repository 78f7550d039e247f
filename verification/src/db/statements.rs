//! What single statements and rows of statements do, said of the fields of the stored rows.

use crate::db::error::{DbErrorView, UniqueKey};
use crate::db::shared::{collected, lemma_collected_reads};
use crate::db::tables::{
    asset_row, command_row, deployment_row, label_row, lemma_asset_row, lemma_command_row,
    lemma_deployment_row, lemma_label_row, lemma_release_row, lemma_target_row, release_row,
    target_row, AssetLabelRowView, CommandRowView, TablesView, TargetRowView,
};
use crate::db::writes::{
    performed, step, DesiredVersionView, NewDeploymentView, NewReleaseView, WriteView,
};
use crate::types::manifest::ReleaseManifestView;
use crate::types::records::{RolloutStrategy, SelectorView};
use vstd::prelude::*;

verus! {

/// A release is stored, behind all others, exactly where none has its identifier. All else stays.
pub proof fn law_insert_release(t: TablesView, x: NewReleaseView)
    ensures
        ({
            let stored = step(t, WriteView::InsertRelease(x));
            let after = stored->Ok_0;
            let row = after.releases.last();
            &&& stored is Ok <==> forall|i: int|
                0 <= i < t.releases.len() ==> (#[trigger] t.releases[i]).id != x.id
            &&& stored is Err ==> stored->Err_0 == DbErrorView::Unique(UniqueKey::Release)
            &&& stored is Ok ==> {
                &&& after.releases.len() == t.releases.len() + 1
                &&& after.releases.drop_last() == t.releases
                &&& row.id == x.id
                &&& row.version == x.version
                &&& row.target_type == x.target_type
                &&& row.manifest == Ok::<ReleaseManifestView, Seq<char>>(x.manifest)
                &&& row.created_at == x.created_at
                &&& after == (TablesView { releases: after.releases, ..t })
            }
        }),
{
    lemma_release_row(t.releases, x.id);
    if step(t, WriteView::InsertRelease(x)) is Ok {
        assert(step(t, WriteView::InsertRelease(x))->Ok_0.releases.drop_last() =~= t.releases);
    } else {
        let row = release_row(t.releases, x.id)->0;
        let i = choose|i: int| 0 <= i < t.releases.len() && t.releases[i] == row;
        assert(t.releases[i].id == x.id);
    }
}

/// A deployment is stored, behind all others, exactly where none has its identifier and there is
/// its release. All else stays.
pub proof fn law_insert_deployment(t: TablesView, x: NewDeploymentView)
    ensures
        ({
            let stored = step(t, WriteView::InsertDeployment(x));
            let after = stored->Ok_0;
            let row = after.deployments.last();
            let is_new = forall|i: int|
                0 <= i < t.deployments.len() ==> (#[trigger] t.deployments[i]).id != x.id;
            let has_release = exists|i: int|
                0 <= i < t.releases.len() && (#[trigger] t.releases[i]).id == x.release_id;
            &&& stored is Ok <==> is_new && has_release
            &&& !is_new ==> stored is Err && stored->Err_0 == DbErrorView::Unique(
                UniqueKey::Deployment,
            )
            &&& is_new && !has_release ==> stored is Err && stored->Err_0 == DbErrorView::ForeignKey
            &&& stored is Ok ==> {
                &&& after.deployments.len() == t.deployments.len() + 1
                &&& after.deployments.drop_last() == t.deployments
                &&& row.id == x.id
                &&& row.release_id == x.release_id
                &&& row.rollout_name == x.rollout_name
                &&& row.status == x.status
                &&& row.selector == Ok::<SelectorView, Seq<char>>(x.selector)
                &&& row.strategy == Ok::<RolloutStrategy, Seq<char>>(x.strategy)
                &&& row.created_at == x.created_at
                &&& after == (TablesView { deployments: after.deployments, ..t })
            }
        }),
{
    lemma_release_row(t.releases, x.release_id);
    lemma_deployment_row(t.deployments, x.id);
    if deployment_row(t.deployments, x.id) is Some {
        let row = deployment_row(t.deployments, x.id)->0;
        let i = choose|i: int| 0 <= i < t.deployments.len() && t.deployments[i] == row;
        assert(t.deployments[i].id == x.id);
    }
    if release_row(t.releases, x.release_id) is Some {
        let row = release_row(t.releases, x.release_id)->0;
        let i = choose|i: int| 0 <= i < t.releases.len() && t.releases[i] == row;
        assert(t.releases[i].id == x.release_id);
    }
    if step(t, WriteView::InsertDeployment(x)) is Ok {
        assert(step(t, WriteView::InsertDeployment(x))->Ok_0.deployments.drop_last()
            =~= t.deployments);
    }
}

/// A target is stored, behind all others, exactly where its deployment has none on its asset yet
/// and there are that deployment and that asset. All else stays.
pub proof fn law_insert_target(t: TablesView, x: TargetRowView)
    ensures
        ({
            let stored = step(t, WriteView::InsertTarget(x));
            let is_new = forall|i: int|
                0 <= i < t.targets.len() ==> !((#[trigger] t.targets[i]).deployment_id
                    == x.deployment_id && t.targets[i].asset_id == x.asset_id);
            let has_deployment = exists|i: int|
                0 <= i < t.deployments.len() && (#[trigger] t.deployments[i]).id
                    == x.deployment_id;
            let has_asset = exists|i: int|
                0 <= i < t.assets.len() && (#[trigger] t.assets[i]).asset_id == x.asset_id;
            &&& stored is Ok <==> is_new && has_deployment && has_asset
            &&& !is_new ==> stored is Err && stored->Err_0 == DbErrorView::Unique(
                UniqueKey::Target,
            )
            &&& is_new && !(has_deployment && has_asset) ==> stored is Err && stored->Err_0
                == DbErrorView::ForeignKey
            &&& stored is Ok ==> stored->Ok_0 == (TablesView { targets: t.targets.push(x), ..t })
        }),
{
    lemma_target_row(t.targets, x.deployment_id, x.asset_id);
    lemma_deployment_row(t.deployments, x.deployment_id);
    lemma_asset_row(t.assets, x.asset_id);
    if target_row(t.targets, x.deployment_id, x.asset_id) is Some {
        let row = target_row(t.targets, x.deployment_id, x.asset_id)->0;
        let i = choose|i: int| 0 <= i < t.targets.len() && t.targets[i] == row;
        assert(t.targets[i].asset_id == x.asset_id);
    }
    if deployment_row(t.deployments, x.deployment_id) is Some {
        let row = deployment_row(t.deployments, x.deployment_id)->0;
        let i = choose|i: int| 0 <= i < t.deployments.len() && t.deployments[i] == row;
        assert(t.deployments[i].id == x.deployment_id);
    }
    if asset_row(t.assets, x.asset_id) is Some {
        let row = asset_row(t.assets, x.asset_id)->0;
        let i = choose|i: int| 0 <= i < t.assets.len() && t.assets[i] == row;
        assert(t.assets[i].asset_id == x.asset_id);
    }
}

/// A command is stored, behind all others, exactly where none has its identifier and there are its
/// deployment, its release and its asset. All else stays.
pub proof fn law_insert_command(t: TablesView, x: CommandRowView)
    ensures
        ({
            let stored = step(t, WriteView::InsertCommand(x));
            let is_new = forall|i: int|
                0 <= i < t.commands.len() ==> (#[trigger] t.commands[i]).id != x.id;
            let has_deployment = exists|i: int|
                0 <= i < t.deployments.len() && (#[trigger] t.deployments[i]).id
                    == x.deployment_id;
            let has_release = exists|i: int|
                0 <= i < t.releases.len() && (#[trigger] t.releases[i]).id == x.release_id;
            let has_asset = exists|i: int|
                0 <= i < t.assets.len() && (#[trigger] t.assets[i]).asset_id == x.asset_id;
            &&& stored is Ok <==> is_new && has_deployment && has_release && has_asset
            &&& !is_new ==> stored is Err && stored->Err_0 == DbErrorView::Unique(
                UniqueKey::Command,
            )
            &&& is_new && !(has_deployment && has_release && has_asset) ==> stored is Err
                && stored->Err_0 == DbErrorView::ForeignKey
            &&& stored is Ok ==> stored->Ok_0 == (TablesView { commands: t.commands.push(x), ..t })
        }),
{
    lemma_command_row(t.commands, x.id);
    lemma_deployment_row(t.deployments, x.deployment_id);
    lemma_release_row(t.releases, x.release_id);
    lemma_asset_row(t.assets, x.asset_id);
    if command_row(t.commands, x.id) is Some {
        let row = command_row(t.commands, x.id)->0;
        let i = choose|i: int| 0 <= i < t.commands.len() && t.commands[i] == row;
        assert(t.commands[i].id == x.id);
    }
    if deployment_row(t.deployments, x.deployment_id) is Some {
        let row = deployment_row(t.deployments, x.deployment_id)->0;
        let i = choose|i: int| 0 <= i < t.deployments.len() && t.deployments[i] == row;
        assert(t.deployments[i].id == x.deployment_id);
    }
    if release_row(t.releases, x.release_id) is Some {
        let row = release_row(t.releases, x.release_id)->0;
        let i = choose|i: int| 0 <= i < t.releases.len() && t.releases[i] == row;
        assert(t.releases[i].id == x.release_id);
    }
    if asset_row(t.assets, x.asset_id) is Some {
        let row = asset_row(t.assets, x.asset_id)->0;
        let i = choose|i: int| 0 <= i < t.assets.len() && t.assets[i] == row;
        assert(t.assets[i].asset_id == x.asset_id);
    }
}

/// A label is stored, behind all others, exactly where its asset does not have it yet and there is
/// that asset. All else stays.
pub proof fn law_insert_label(t: TablesView, x: AssetLabelRowView)
    ensures
        ({
            let stored = step(t, WriteView::InsertAssetLabel(x));
            let has_asset = exists|i: int|
                0 <= i < t.assets.len() && (#[trigger] t.assets[i]).asset_id == x.asset_id;
            &&& stored is Ok <==> !t.labels.contains(x) && has_asset
            &&& t.labels.contains(x) ==> stored is Err && stored->Err_0 == DbErrorView::Unique(
                UniqueKey::AssetLabel,
            )
            &&& !t.labels.contains(x) && !has_asset ==> stored is Err && stored->Err_0
                == DbErrorView::ForeignKey
            &&& stored is Ok ==> stored->Ok_0 == (TablesView { labels: t.labels.push(x), ..t })
        }),
{
    lemma_label_row(t.labels, x.asset_id, x.label);
    lemma_asset_row(t.assets, x.asset_id);
    if label_row(t.labels, x.asset_id, x.label) is Some {
        assert(label_row(t.labels, x.asset_id, x.label)->0 == x);
    } else if t.labels.contains(x) {
        let i = choose|i: int| 0 <= i < t.labels.len() && t.labels[i] == x;
        assert(t.labels[i].asset_id == x.asset_id);
    }
    if asset_row(t.assets, x.asset_id) is Some {
        let row = asset_row(t.assets, x.asset_id)->0;
        let i = choose|i: int| 0 <= i < t.assets.len() && t.assets[i] == row;
        assert(t.assets[i].asset_id == x.asset_id);
    }
}

/// An asset that is told a version is to run that version. All else stays.
pub proof fn law_desired_by_fields(t: TablesView, x: DesiredVersionView)
    ensures
        ({
            let stored = step(t, WriteView::SetDesiredVersion(x));
            let after = stored->Ok_0;
            &&& stored is Ok
            &&& after == (TablesView { assets: after.assets, ..t })
            &&& after.assets.len() == t.assets.len()
            &&& forall|i: int|
                0 <= i < t.assets.len() ==> ({
                    let was = t.assets[i];
                    let is = #[trigger] after.assets[i];
                    if was.asset_id == x.asset_id {
                        &&& is.desired_version == Some(x.version)
                        &&& is.asset_id == was.asset_id
                        &&& is.asset_type == was.asset_type
                        &&& is.mission_state == was.mission_state
                        &&& is.current_version == was.current_version
                        &&& is.active_slot == was.active_slot
                        &&& is.status == was.status
                        &&& is.last_seen == was.last_seen
                    } else {
                        is == was
                    }
                })
        }),
{
}

/// Statements take effect one after the other. The first that fails is the last: what was done
/// before it stays, and nothing behind it is done.
pub proof fn law_statements_in_turn(t: TablesView, first: Seq<WriteView>, rest: Seq<WriteView>)
    ensures
        performed(t, first).1 is Ok ==> performed(t, first + rest) == performed(
            performed(t, first).0,
            rest,
        ),
        performed(t, first).1 is Err ==> performed(t, first + rest) == performed(t, first),
        first.len() == 0 ==> performed(t, first).0 == t && performed(t, first).1 is Ok,
        first.len() == 1 && step(t, first[0]) is Ok ==> performed(t, first).0 == step(
            t,
            first[0],
        )->Ok_0 && performed(t, first).1 is Ok,
        first.len() == 1 && step(t, first[0]) is Err ==> performed(t, first).0 == t && performed(
            t,
            first,
        ).1 == Err::<(), DbErrorView>(step(t, first[0])->Err_0),
    decreases first.len(),
{
    if first.len() == 0 {
        assert(first + rest =~= rest);
    } else {
        assert((first + rest)[0] == first[0]);
        assert((first + rest).skip(1) =~= first.skip(1) + rest);
        match step(t, first[0]) {
            Ok(after) => {
                law_statements_in_turn(after, first.skip(1), rest);
            },
            Err(_) => {},
        }
    }
}

/// Where rows cannot all be read, the reason is that of the first that cannot.
pub proof fn law_first_unreadable<T>(items: Seq<Result<T, Seq<char>>>, k: int)
    requires
        0 <= k < items.len(),
        items[k] is Err,
        forall|j: int| 0 <= j < k ==> (#[trigger] items[j]) is Ok,
    ensures
        collected(items) == Err::<Seq<T>, Seq<char>>(items[k]->Err_0),
    decreases items.len(),
{
    let before = items.drop_last();
    if k < items.len() - 1 {
        law_first_unreadable(before, k);
    } else {
        lemma_collected_reads(before);
    }
}

} // verus!
