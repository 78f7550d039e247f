//! What every statement keeps: keys are unique, and references point to rows that exist.

use crate::db::tables::{
    lemma_asset_row, lemma_command_row, lemma_deployment_row, lemma_label_row, lemma_release_row,
    lemma_target_row, AssetLabelRowView, AssetRowView, CommandResultRowView, CommandRowView,
    DeploymentRowView, ReleaseRowView, TablesView, TargetRowView,
};
use crate::db::writes::{performed, results_of_others, step, WriteView};
use vstd::prelude::*;

verus! {

/// Whether a release has this identifier.
pub open spec fn has_release(rows: Seq<ReleaseRowView>, id: Seq<char>) -> bool {
    exists|i: int| 0 <= i < rows.len() && (#[trigger] rows[i]).id == id
}

/// Whether an asset has this identifier.
pub open spec fn has_asset(rows: Seq<AssetRowView>, id: Seq<char>) -> bool {
    exists|i: int| 0 <= i < rows.len() && (#[trigger] rows[i]).asset_id == id
}

/// Whether a deployment has this identifier.
pub open spec fn has_deployment(rows: Seq<DeploymentRowView>, id: Seq<char>) -> bool {
    exists|i: int| 0 <= i < rows.len() && (#[trigger] rows[i]).id == id
}

/// Whether a command has this identifier.
pub open spec fn has_command(rows: Seq<CommandRowView>, id: Seq<char>) -> bool {
    exists|i: int| 0 <= i < rows.len() && (#[trigger] rows[i]).id == id
}

/// Whether no two releases share an identifier.
pub open spec fn releases_distinct(rows: Seq<ReleaseRowView>) -> bool {
    forall|i: int, j: int|
        0 <= i < j < rows.len() ==> (#[trigger] rows[i]).id != (#[trigger] rows[j]).id
}

/// Whether no two assets share an identifier.
pub open spec fn assets_distinct(rows: Seq<AssetRowView>) -> bool {
    forall|i: int, j: int|
        0 <= i < j < rows.len() ==> (#[trigger] rows[i]).asset_id != (#[trigger] rows[j]).asset_id
}

/// Whether no asset has a label twice.
pub open spec fn labels_distinct(rows: Seq<AssetLabelRowView>) -> bool {
    forall|i: int, j: int| 0 <= i < j < rows.len() ==> #[trigger] rows[i] != #[trigger] rows[j]
}

/// Whether no two deployments share an identifier.
pub open spec fn deployments_distinct(rows: Seq<DeploymentRowView>) -> bool {
    forall|i: int, j: int|
        0 <= i < j < rows.len() ==> (#[trigger] rows[i]).id != (#[trigger] rows[j]).id
}

/// Whether no deployment has two targets on one asset.
pub open spec fn targets_distinct(rows: Seq<TargetRowView>) -> bool {
    forall|i: int, j: int|
        0 <= i < j < rows.len() ==> (#[trigger] rows[i]).deployment_id != (
        #[trigger] rows[j]).deployment_id || rows[i].asset_id != rows[j].asset_id
}

/// Whether no two commands share an identifier.
pub open spec fn commands_distinct(rows: Seq<CommandRowView>) -> bool {
    forall|i: int, j: int|
        0 <= i < j < rows.len() ==> (#[trigger] rows[i]).id != (#[trigger] rows[j]).id
}

/// Whether no command has two results.
pub open spec fn results_distinct(rows: Seq<CommandResultRowView>) -> bool {
    forall|i: int, j: int|
        0 <= i < j < rows.len() ==> (#[trigger] rows[i]).command_id != (
        #[trigger] rows[j]).command_id
}

/// Whether keys are unique.
pub open spec fn keys_unique(t: TablesView) -> bool {
    &&& releases_distinct(t.releases)
    &&& assets_distinct(t.assets)
    &&& labels_distinct(t.labels)
    &&& deployments_distinct(t.deployments)
    &&& targets_distinct(t.targets)
    &&& commands_distinct(t.commands)
    &&& results_distinct(t.results)
}

/// Whether references point to rows that exist.
pub open spec fn references_hold(t: TablesView) -> bool {
    &&& forall|i: int|
        0 <= i < t.labels.len() ==> has_asset(t.assets, (#[trigger] t.labels[i]).asset_id)
    &&& forall|i: int|
        0 <= i < t.deployments.len() ==> has_release(
            t.releases,
            (#[trigger] t.deployments[i]).release_id,
        )
    &&& forall|i: int|
        0 <= i < t.targets.len() ==> has_deployment(
            t.deployments,
            (#[trigger] t.targets[i]).deployment_id,
        ) && has_asset(t.assets, t.targets[i].asset_id)
    &&& forall|i: int|
        0 <= i < t.commands.len() ==> has_deployment(
            t.deployments,
            (#[trigger] t.commands[i]).deployment_id,
        ) && has_release(t.releases, t.commands[i].release_id) && has_asset(
            t.assets,
            t.commands[i].asset_id,
        )
    &&& forall|i: int|
        0 <= i < t.results.len() ==> has_command(t.commands, (#[trigger] t.results[i]).command_id)
}

/// Whether keys are unique and references point to rows that exist.
pub open spec fn is_sound(t: TablesView) -> bool {
    keys_unique(t) && references_hold(t)
}

proof fn lemma_more_releases(rows: Seq<ReleaseRowView>, row: ReleaseRowView)
    ensures
        forall|id: Seq<char>| has_release(rows, id) ==> #[trigger] has_release(rows.push(row), id),
{
    assert forall|id: Seq<char>| has_release(rows, id) implies #[trigger] has_release(
        rows.push(row),
        id,
    ) by {
        let i = choose|i: int| 0 <= i < rows.len() && (#[trigger] rows[i]).id == id;
        assert(rows.push(row)[i].id == id);
    }
}

proof fn lemma_same_assets(before: Seq<AssetRowView>, after: Seq<AssetRowView>)
    requires
        before.len() <= after.len(),
        forall|i: int|
            0 <= i < before.len() ==> (#[trigger] after[i]).asset_id == before[i].asset_id,
    ensures
        forall|id: Seq<char>| has_asset(before, id) ==> #[trigger] has_asset(after, id),
{
    assert forall|id: Seq<char>| has_asset(before, id) implies #[trigger] has_asset(after, id) by {
        let i = choose|i: int| 0 <= i < before.len() && (#[trigger] before[i]).asset_id == id;
        assert(after[i].asset_id == id);
    }
}

proof fn lemma_same_deployments(before: Seq<DeploymentRowView>, after: Seq<DeploymentRowView>)
    requires
        before.len() <= after.len(),
        forall|i: int| 0 <= i < before.len() ==> (#[trigger] after[i]).id == before[i].id,
    ensures
        forall|id: Seq<char>| has_deployment(before, id) ==> #[trigger] has_deployment(after, id),
{
    assert forall|id: Seq<char>| has_deployment(before, id) implies #[trigger] has_deployment(
        after,
        id,
    ) by {
        let i = choose|i: int| 0 <= i < before.len() && (#[trigger] before[i]).id == id;
        assert(after[i].id == id);
    }
}

proof fn lemma_same_commands(before: Seq<CommandRowView>, after: Seq<CommandRowView>)
    requires
        before.len() <= after.len(),
        forall|i: int| 0 <= i < before.len() ==> (#[trigger] after[i]).id == before[i].id,
    ensures
        forall|id: Seq<char>| has_command(before, id) ==> #[trigger] has_command(after, id),
{
    assert forall|id: Seq<char>| has_command(before, id) implies #[trigger] has_command(
        after,
        id,
    ) by {
        let i = choose|i: int| 0 <= i < before.len() && (#[trigger] before[i]).id == id;
        assert(after[i].id == id);
    }
}

/// What is left of a sequence was in it, and is what was asked for.
pub proof fn lemma_filter_embeds<T>(s: Seq<T>, p: spec_fn(T) -> bool)
    ensures
        forall|i: int| 0 <= i < s.filter(p).len() ==> p(#[trigger] s.filter(p)[i]),
        forall|i: int| 0 <= i < s.filter(p).len() ==> s.contains(#[trigger] s.filter(p)[i]),
    decreases s.len(),
{
    reveal(Seq::filter);
    if s.len() > 0 {
        let rest = s.drop_last();
        lemma_filter_embeds(rest, p);
        assert forall|i: int| 0 <= i < s.filter(p).len() implies s.contains(
            #[trigger] s.filter(p)[i],
        ) && p(s.filter(p)[i]) by {
            if i < rest.filter(p).len() {
                let x = rest.filter(p)[i];
                assert(rest.contains(x));
                let k = choose|k: int| 0 <= k < rest.len() && rest[k] == x;
                assert(s[k] == x);
            } else {
                assert(s[s.len() - 1] == s.filter(p)[i]);
            }
        }
    }
}

/// Dropping rows of distinct rows leaves distinct rows.
proof fn lemma_filter_distinct<T>(s: Seq<T>, p: spec_fn(T) -> bool, apart: spec_fn(T, T) -> bool)
    requires
        forall|i: int, j: int| 0 <= i < j < s.len() ==> apart(#[trigger] s[i], #[trigger] s[j]),
    ensures
        forall|i: int, j: int|
            0 <= i < j < s.filter(p).len() ==> apart(
                #[trigger] s.filter(p)[i],
                #[trigger] s.filter(p)[j],
            ),
    decreases s.len(),
{
    reveal(Seq::filter);
    if s.len() > 0 {
        let rest = s.drop_last();
        assert forall|i: int, j: int| 0 <= i < j < rest.len() implies apart(
            #[trigger] rest[i],
            #[trigger] rest[j],
        ) by {
            assert(apart(s[i], s[j]));
        }
        lemma_filter_distinct(rest, p, apart);
        lemma_filter_embeds(rest, p);
        assert forall|i: int, j: int| 0 <= i < j < s.filter(p).len() implies apart(
            #[trigger] s.filter(p)[i],
            #[trigger] s.filter(p)[j],
        ) by {
            if j < rest.filter(p).len() {
                assert(apart(rest.filter(p)[i], rest.filter(p)[j]));
            } else {
                assert(rest.contains(rest.filter(p)[i]));
                let k = choose|k: int| 0 <= k < rest.len() && rest[k] == rest.filter(p)[i];
                assert(apart(s[k], s[s.len() - 1]));
            }
        }
    }
}

/// A statement keeps keys unique and references pointing to rows that exist.
pub proof fn law_statement_keeps_integrity(t: TablesView, w: WriteView)
    requires
        is_sound(t),
        step(t, w) is Ok,
    ensures
        is_sound(step(t, w)->Ok_0),
{
    let after = step(t, w)->Ok_0;
    match w {
        WriteView::InsertRelease(x) => {
            lemma_release_row(t.releases, x.id);
            lemma_more_releases(t.releases, after.releases.last());
        },
        WriteView::UpsertAsset(x) => {
            lemma_asset_row(t.assets, x.asset_id);
            lemma_same_assets(t.assets, after.assets);
        },
        WriteView::ClearAssetLabels(asset_id) => {
            let other = |row: AssetLabelRowView| row.asset_id != asset_id;
            let apart = |a: AssetLabelRowView, b: AssetLabelRowView| a != b;
            lemma_filter_distinct(t.labels, other, apart);
            lemma_filter_embeds(t.labels, other);
            assert forall|i: int, j: int| 0 <= i < j < after.labels.len() implies
                #[trigger] after.labels[i] != #[trigger] after.labels[j] by {
                assert(apart(t.labels.filter(other)[i], t.labels.filter(other)[j]));
            }
            assert forall|i: int| 0 <= i < after.labels.len() implies has_asset(
                after.assets,
                (#[trigger] after.labels[i]).asset_id,
            ) by {
                assert(t.labels.contains(t.labels.filter(other)[i]));
            }
        },
        WriteView::InsertAssetLabel(x) => {
            lemma_label_row(t.labels, x.asset_id, x.label);
            lemma_asset_row(t.assets, x.asset_id);
        },
        WriteView::InsertDeployment(x) => {
            lemma_deployment_row(t.deployments, x.id);
            lemma_release_row(t.releases, x.release_id);
            lemma_same_deployments(t.deployments, after.deployments);
        },
        WriteView::SetDesiredVersion(x) => {
            lemma_same_assets(t.assets, after.assets);
        },
        WriteView::InsertTarget(x) => {
            lemma_target_row(t.targets, x.deployment_id, x.asset_id);
            lemma_deployment_row(t.deployments, x.deployment_id);
            lemma_asset_row(t.assets, x.asset_id);
        },
        WriteView::SetDeploymentStatus(x) => {
            lemma_same_deployments(t.deployments, after.deployments);
        },
        WriteView::InsertCommand(x) => {
            lemma_command_row(t.commands, x.id);
            lemma_deployment_row(t.deployments, x.deployment_id);
            lemma_release_row(t.releases, x.release_id);
            lemma_asset_row(t.assets, x.asset_id);
            lemma_same_commands(t.commands, after.commands);
        },
        WriteView::IssueTarget(x) => {},
        WriteView::SetCommandStatus(x) => {
            lemma_same_commands(t.commands, after.commands);
        },
        WriteView::ReplaceCommandResult(x) => {
            lemma_command_row(t.commands, x.command_id);
            let other = |row: CommandResultRowView| row.command_id != x.command_id;
            let apart = |a: CommandResultRowView, b: CommandResultRowView|
                a.command_id != b.command_id;
            lemma_filter_distinct(t.results, other, apart);
            lemma_filter_embeds(t.results, other);
            let kept = results_of_others(t.results, x.command_id);
            assert forall|i: int, j: int| 0 <= i < j < kept.len() implies (
            #[trigger] kept[i]).command_id != (#[trigger] kept[j]).command_id by {
                assert(apart(t.results.filter(other)[i], t.results.filter(other)[j]));
            }
            assert forall|i: int| 0 <= i < kept.len() implies has_command(
                t.commands,
                (#[trigger] kept[i]).command_id,
            ) && kept[i].command_id != x.command_id by {
                assert(t.results.contains(t.results.filter(other)[i]));
                assert(other(t.results.filter(other)[i]));
            }
        },
        WriteView::CompleteTarget(x) => {},
        WriteView::CompleteAsset(x) => {
            lemma_same_assets(t.assets, after.assets);
        },
    }
}

/// Statements one after the other, up to the first that fails, keep keys unique and references
/// pointing to rows that exist.
pub proof fn law_statements_keep_integrity(t: TablesView, ws: Seq<WriteView>)
    requires
        is_sound(t),
    ensures
        is_sound(performed(t, ws).0),
    decreases ws.len(),
{
    if ws.len() > 0 && step(t, ws[0]) is Ok {
        law_statement_keeps_integrity(t, ws[0]);
        law_statements_keep_integrity(step(t, ws[0])->Ok_0, ws.skip(1));
    }
}

} // verus!
