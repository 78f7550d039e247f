//! What the operations on the records do, said of the fields of the stored rows.

use crate::clock::{rfc3339_text, Timestamp};
use crate::db::assets::{asset_upserted, checkin_writes, label_writes};
use crate::db::commands::{
    assets_in, canary_assets, closing_writes, finished, is_finished, is_under_way,
    law_result_accepted, polled, polled_one, result_submitted, result_write, running, target_on,
    under_way, TicketView,
};
use crate::db::counts::{
    counts_named, lemma_among_first, lemma_count_alike, lemma_count_both, lemma_count_bound,
    lemma_count_named, lemma_count_none, lemma_count_one_more, lemma_listed_count,
};
use crate::db::deployments::{
    deployment_created, is_failure, paused_status, state_in, states_read, stats_of, target_in,
    target_keys, target_list, targets_of, targets_read, with_status,
};
use crate::db::error::DbErrorView;
use crate::db::integrity::{
    has_asset, is_sound, law_statement_keeps_integrity, law_statements_keep_integrity,
    lemma_filter_embeds, targets_distinct,
};
use crate::db::limits::lemma_issued;
use crate::db::order::{descending, law_listing_order, listed_before};
use crate::db::releases::{release_inserted, release_of};
use crate::db::rollout::{law_result_effects, lemma_filter_has, lemma_target_on};
use crate::db::shared::{collected, lemma_collected_items, lemma_collected_reads, picked};
use crate::db::tables::{
    asset_row, command_row, deployment_row, lemma_asset_row, lemma_command_row, lemma_release_row,
    release_row, AssetLabelRowView, CommandResultRowView, CommandRowView, TablesView,
    TargetRowView,
};
use crate::db::writes::{performed, step, WriteView};
use crate::text::{lemma_precedes_irreflexive, precedes};
use crate::types::manifest::{CreateReleaseRequestView, ReleaseManifestView};
use crate::types::records::{
    AgentCheckinRequestView, AgentResultRequestView, CommandRecordView,
    CreateDeploymentRequestView, DeploymentRecordView, DeploymentTargetRecordView,
};
use crate::types::status::{
    law_target_state_round_trip, AssetStatus, DeploymentStatus, DeploymentTargetState,
};
use vstd::prelude::*;

verus! {

/// Which state a stored text stands for.
proof fn lemma_states_by_text(raw: Seq<char>)
    ensures
        DeploymentTargetState::named(raw) == Some(DeploymentTargetState::Pending) <==> raw
            == "pending"@,
        DeploymentTargetState::named(raw) == Some(DeploymentTargetState::Issued) <==> raw
            == "issued"@,
        DeploymentTargetState::named(raw) == Some(DeploymentTargetState::Retry) <==> raw
            == "retry"@,
        DeploymentTargetState::named(raw) == Some(DeploymentTargetState::Succeeded) <==> raw
            == "succeeded"@,
        DeploymentTargetState::named(raw) == Some(DeploymentTargetState::Failed) <==> raw
            == "failed"@,
        DeploymentTargetState::named(raw) == Some(DeploymentTargetState::RolledBack) <==> raw
            == "rolled_back"@,
{
    law_target_state_round_trip(DeploymentTargetState::Pending);
    law_target_state_round_trip(DeploymentTargetState::Issued);
    law_target_state_round_trip(DeploymentTargetState::Retry);
    law_target_state_round_trip(DeploymentTargetState::Succeeded);
    law_target_state_round_trip(DeploymentTargetState::Failed);
    law_target_state_round_trip(DeploymentTargetState::RolledBack);
}

/// The failures of a deployment are its targets that have failed or were rolled back, and no
/// others: one that has succeeded, waits for a command or has got one is no failure. All its
/// targets are counted. They can be counted exactly where the state of each of them is known.
pub proof fn law_stats_by_rows(t: TablesView, d: Seq<char>)
    ensures
        stats_of(t, d) matches Ok((failed, total)) ==> {
            &&& failed == t.targets.filter(
                |row: TargetRowView|
                    row.deployment_id == d && (row.state == "failed"@ || row.state
                        == "rolled_back"@),
            ).len()
            &&& total == t.targets.filter(|row: TargetRowView| row.deployment_id == d).len()
            &&& failed <= total
            &&& failed == 0 <==> forall|i: int|
                0 <= i < t.targets.len() && (#[trigger] t.targets[i]).deployment_id == d
                    ==> t.targets[i].state != "failed"@ && t.targets[i].state != "rolled_back"@
        },
        stats_of(t, d) is Ok <==> forall|i: int|
            0 <= i < t.targets.len() && (#[trigger] t.targets[i]).deployment_id == d ==> {
                ||| t.targets[i].state == "pending"@
                ||| t.targets[i].state == "issued"@
                ||| t.targets[i].state == "retry"@
                ||| t.targets[i].state == "succeeded"@
                ||| t.targets[i].state == "failed"@
                ||| t.targets[i].state == "rolled_back"@
            },
{
    let mine = |row: TargetRowView| row.deployment_id == d;
    let failing = |state: DeploymentTargetState| is_failure(state);
    let said = |row: TargetRowView| row.state == "failed"@ || row.state == "rolled_back"@;
    let both = |row: TargetRowView|
        row.deployment_id == d && (row.state == "failed"@ || row.state == "rolled_back"@);
    let rows = targets_of(t.targets, d);
    let items = states_read(rows);
    lemma_filter_embeds(t.targets, mine);
    assert forall|raw: Seq<char>| true implies #[trigger] DeploymentTargetState::named(raw) is Some
        == (raw == "pending"@ || raw == "issued"@ || raw == "retry"@ || raw == "succeeded"@ || raw
        == "failed"@ || raw == "rolled_back"@) by {
        lemma_states_by_text(raw);
    }
    if collected(items) is Ok {
        let states = collected(items)->Ok_0;
        lemma_collected_items(items);
        assert forall|k: int| 0 <= k < states.len() implies failing(#[trigger] states[k]) == said(
            rows[k],
        ) by {
            assert(items[k] == state_in(rows[k]));
            lemma_states_by_text(rows[k].state);
        }
        lemma_count_alike(states, failing, rows, said);
        lemma_count_both(t.targets, mine, said, both);
        lemma_count_none(t.targets, both);
        lemma_count_bound(rows, said);
        if t.targets.filter(both).len() == 0 {
            assert forall|i: int|
                0 <= i < t.targets.len() && (
                #[trigger] t.targets[i]).deployment_id == d implies t.targets[i].state
                != "failed"@ && t.targets[i].state != "rolled_back"@ by {
                assert(!both(t.targets[i]));
            }
        }
        assert forall|i: int|
            0 <= i < t.targets.len() && (
            #[trigger] t.targets[i]).deployment_id == d implies DeploymentTargetState::named(
            t.targets[i].state,
        ) is Some by {
            lemma_filter_has(t.targets, mine, i);
            let k = choose|k: int| 0 <= k < rows.len() && rows[k] == t.targets[i];
            assert(items[k] == state_in(rows[k]));
        }
    }
    if forall|i: int|
        0 <= i < t.targets.len() && (#[trigger] t.targets[i]).deployment_id == d
            ==> DeploymentTargetState::named(t.targets[i].state) is Some {
        assert forall|k: int| 0 <= k < items.len() implies (#[trigger] items[k]) is Ok by {
            assert(t.targets.contains(rows[k]));
            assert(mine(rows[k]));
        }
        lemma_collected_reads(items);
    }
}

/// The targets of a deployment as they are listed, and the rows that hold them.
proof fn lemma_list_by_rows(t: TablesView, d: Seq<char>)
    requires
        target_list(t, d) is Ok,
    ensures
        ({
            let rows = targets_of(t.targets, d);
            let order = descending(target_keys(rows));
            let list = target_list(t, d)->Ok_0;
            &&& order.len() == rows.len()
            &&& list.len() == rows.len()
            &&& forall|k: int|
                0 <= k < list.len() ==> 0 <= order[k] < rows.len() && target_in(rows[order[k]])
                    == Ok::<DeploymentTargetRecordView, Seq<char>>(#[trigger] list[k])
            &&& forall|i: int|
                0 <= i < t.targets.len() && (#[trigger] t.targets[i]).deployment_id == d
                    ==> target_in(t.targets[i]) is Ok && list.contains(
                    target_in(t.targets[i])->Ok_0,
                )
            &&& forall|i: int| 0 <= i < rows.len() ==> t.targets.contains(#[trigger] rows[i])
            &&& forall|i: int| 0 <= i < rows.len() ==> (#[trigger] rows[i]).deployment_id == d
        }),
{
    let mine = |row: TargetRowView| row.deployment_id == d;
    let rows = targets_of(t.targets, d);
    let items = targets_read(rows);
    let keys = target_keys(rows);
    let order = descending(keys);
    let list = target_list(t, d)->Ok_0;
    law_listing_order(keys, keys.len(), true);
    lemma_collected_items(items);
    lemma_filter_embeds(t.targets, mine);
    assert forall|i: int| 0 <= i < rows.len() implies (#[trigger] rows[i]).deployment_id == d by {
        assert(mine(rows[i]));
    }
    assert forall|k: int| 0 <= k < list.len() implies 0 <= order[k] < rows.len() && target_in(
        rows[order[k]],
    ) == Ok::<DeploymentTargetRecordView, Seq<char>>(#[trigger] list[k]) by {
        assert(0 <= order[k] < rows.len());
        assert(items[k] == target_in(rows[order[k]]));
    }
    assert forall|i: int|
        0 <= i < t.targets.len() && (
        #[trigger] t.targets[i]).deployment_id == d implies target_in(t.targets[i]) is Ok
        && list.contains(target_in(t.targets[i])->Ok_0) by {
        lemma_filter_has(t.targets, mine, i);
        let j = choose|j: int| 0 <= j < rows.len() && rows[j] == t.targets[i];
        assert(order.contains(j));
        let k = choose|k: int| 0 <= k < order.len() && order[k] == j;
        assert(list[k] == target_in(t.targets[i])->Ok_0);
    }
}

/// Counting listed targets is counting the rows that hold them.
proof fn lemma_count_listed(
    t: TablesView,
    d: Seq<char>,
    p: spec_fn(DeploymentTargetRecordView) -> bool,
    q: spec_fn(TargetRowView) -> bool,
    both: spec_fn(TargetRowView) -> bool,
)
    requires
        target_list(t, d) is Ok,
        forall|row: TargetRowView| #[trigger]
            target_in(row) is Ok ==> p(target_in(row)->Ok_0) == q(row),
        forall|row: TargetRowView| #[trigger] both(row) == (row.deployment_id == d && q(row)),
    ensures
        target_list(t, d)->Ok_0.filter(p).len() == t.targets.filter(both).len(),
{
    let mine = |row: TargetRowView| row.deployment_id == d;
    let rows = targets_of(t.targets, d);
    let keys = target_keys(rows);
    let order = descending(keys);
    let list = target_list(t, d)->Ok_0;
    lemma_list_by_rows(t, d);
    let listed = picked(rows, order);
    assert forall|k: int| 0 <= k < list.len() implies p(#[trigger] list[k]) == q(listed[k]) by {
        assert(target_in(rows[order[k]]) == Ok::<DeploymentTargetRecordView, Seq<char>>(list[k]));
    }
    lemma_count_alike(list, p, listed, q);
    lemma_listed_count(rows, keys, rows.len(), true, q);
    assert(rows.take(rows.len() as int) =~= rows);
    lemma_count_both(t.targets, mine, q, both);
}

/// The target of a deployment on an asset is the one that the row with both says.
proof fn lemma_target_by_row(t: TablesView, d: Seq<char>, asset_id: Seq<char>, i: int)
    requires
        is_sound(t),
        target_list(t, d) is Ok,
        0 <= i < t.targets.len(),
        t.targets[i].deployment_id == d,
        t.targets[i].asset_id == asset_id,
    ensures
        target_on(target_list(t, d)->Ok_0, asset_id) == Some(target_in(t.targets[i])->Ok_0),
        target_in(t.targets[i]) is Ok,
{
    let list = target_list(t, d)->Ok_0;
    let rows = targets_of(t.targets, d);
    let order = descending(target_keys(rows));
    lemma_list_by_rows(t, d);
    lemma_target_on(list, asset_id);
    let mine = target_in(t.targets[i])->Ok_0;
    let k = choose|k: int| 0 <= k < list.len() && list[k] == mine;
    assert(list[k].asset_id == asset_id);
    let x = target_on(list, asset_id)->0;
    let j = choose|j: int| 0 <= j < list.len() && list[j] == x;
    let row = rows[order[j]];
    assert(target_in(row) == Ok::<DeploymentTargetRecordView, Seq<char>>(list[j]));
    assert(t.targets.contains(row));
    let m = choose|m: int| 0 <= m < t.targets.len() && t.targets[m] == row;
    if m < i {
        assert(t.targets[m].asset_id != t.targets[i].asset_id);
    } else if i < m {
        assert(t.targets[i].asset_id != t.targets[m].asset_id);
    }
}

/// The targets of a deployment differ in their assets.
proof fn lemma_assets_differ(t: TablesView, d: Seq<char>)
    requires
        is_sound(t),
        target_list(t, d) is Ok,
    ensures
        assets_in(target_list(t, d)->Ok_0).no_duplicates(),
{
    let list = target_list(t, d)->Ok_0;
    let ids = assets_in(list);
    let rows = targets_of(t.targets, d);
    let keys = target_keys(rows);
    let order = descending(keys);
    lemma_list_by_rows(t, d);
    law_listing_order(keys, keys.len(), true);
    lemma_targets_apart(t.targets, |row: TargetRowView| row.deployment_id == d);
    assert forall|i: int, j: int| 0 <= i < ids.len() && 0 <= j < ids.len() && i != j implies ids[i]
        != ids[j] by {
        assert(target_in(rows[order[i]]) == Ok::<DeploymentTargetRecordView, Seq<char>>(list[i]));
        assert(target_in(rows[order[j]]) == Ok::<DeploymentTargetRecordView, Seq<char>>(list[j]));
        if i < j {
            assert(listed_before(keys, order[i], order[j], true));
        } else {
            assert(listed_before(keys, order[j], order[i], true));
        }
        lemma_precedes_irreflexive(keys[order[i]]);
        assert(order[i] != order[j]);
        assert(rows[order[i]].deployment_id == rows[order[j]].deployment_id);
        if order[i] < order[j] {
            assert(rows[order[i]].asset_id != rows[order[j]].asset_id);
        } else {
            assert(rows[order[j]].asset_id != rows[order[i]].asset_id);
        }
    }
}

proof fn lemma_targets_apart(s: Seq<TargetRowView>, p: spec_fn(TargetRowView) -> bool)
    requires
        targets_distinct(s),
    ensures
        targets_distinct(s.filter(p)),
    decreases s.len(),
{
    reveal(Seq::filter);
    if s.len() > 0 {
        let rest = s.drop_last();
        assert forall|i: int, j: int| 0 <= i < j < rest.len() implies (
        #[trigger] rest[i]).deployment_id != (#[trigger] rest[j]).deployment_id
            || rest[i].asset_id != rest[j].asset_id by {
            assert(s[i].deployment_id != s[j].deployment_id || s[i].asset_id != s[j].asset_id);
        }
        lemma_targets_apart(rest, p);
        lemma_filter_embeds(rest, p);
        let left = s.filter(p);
        assert forall|i: int, j: int| 0 <= i < j < left.len() implies (
        #[trigger] left[i]).deployment_id != (#[trigger] left[j]).deployment_id
            || left[i].asset_id != left[j].asset_id by {
            let before = rest.filter(p);
            if j < before.len() {
                assert(before[i].deployment_id != before[j].deployment_id || before[i].asset_id
                    != before[j].asset_id);
            } else {
                assert(rest.contains(before[i]));
                let k = choose|k: int| 0 <= k < rest.len() && rest[k] == before[i];
                assert(s[k].deployment_id != s[s.len() - 1].deployment_id || s[k].asset_id
                    != s[s.len() - 1].asset_id);
            }
        }
    }
}

/// What the counts that a poll goes by are, said of the rows. The targets that have ended are those
/// that have succeeded, failed or were rolled back. An asset is among the first where fewer than
/// that many assets of the deployment come before it in the alphabet. The commands under way are
/// those that are queued or running.
pub proof fn law_counts_by_rows(t: TablesView, d: Seq<char>, asset_id: Seq<char>, canary: nat)
    requires
        is_sound(t),
        target_list(t, d) is Ok,
    ensures
        finished(target_list(t, d)->Ok_0) == t.targets.filter(
            |row: TargetRowView|
                row.deployment_id == d && (row.state == "succeeded"@ || row.state == "failed"@
                    || row.state == "rolled_back"@),
        ).len(),
        assets_in(target_list(t, d)->Ok_0).contains(asset_id) ==> (canary_assets(
            target_list(t, d)->Ok_0,
            canary,
        ).contains(asset_id) <==> t.targets.filter(
            |row: TargetRowView| row.deployment_id == d && precedes(row.asset_id, asset_id),
        ).len() < canary),
        under_way(t.commands, d) == t.commands.filter(
            |row: CommandRowView|
                row.deployment_id == d && (row.status == "queued"@ || row.status == "running"@),
        ).len(),
{
    let list = target_list(t, d)->Ok_0;
    let ids = assets_in(list);
    let done = |x: DeploymentTargetRecordView| is_finished(x.state);
    let said = |row: TargetRowView|
        row.state == "succeeded"@ || row.state == "failed"@ || row.state == "rolled_back"@;
    assert forall|row: TargetRowView| #[trigger] target_in(row) is Ok implies done(
        target_in(row)->Ok_0,
    ) == said(row) by {
        lemma_states_by_text(row.state);
    }
    lemma_count_listed(
        t,
        d,
        done,
        said,
        |row: TargetRowView|
            row.deployment_id == d && (row.state == "succeeded"@ || row.state == "failed"@
                || row.state == "rolled_back"@),
    );
    let ahead = |x: DeploymentTargetRecordView| precedes(x.asset_id, asset_id);
    let stored_ahead = |row: TargetRowView| precedes(row.asset_id, asset_id);
    let id_ahead = |x: Seq<char>| precedes(x, asset_id);
    lemma_count_listed(
        t,
        d,
        ahead,
        stored_ahead,
        |row: TargetRowView| row.deployment_id == d && precedes(row.asset_id, asset_id),
    );
    lemma_count_alike(list, ahead, ids, id_ahead);
    lemma_assets_differ(t, d);
    if ids.contains(asset_id) {
        lemma_among_first(ids, asset_id, canary);
    }
    let active = |row: CommandRowView| is_under_way(row, d);
    let open = |row: CommandRowView|
        row.deployment_id == d && (row.status == "queued"@ || row.status == "running"@);
    assert forall|i: int| 0 <= i < t.commands.len() implies active(#[trigger] t.commands[i]) == open(
        t.commands[i],
    ) by {}
    lemma_count_alike(t.commands, active, t.commands, open);
}

/// Which target gets a command, by the stored rows. The target waits where its state is pending
/// or retry. Commands under way are those that are queued or running. Targets have ended that
/// have succeeded, have failed or were rolled back. With canaries, until as many targets have
/// ended, only those go ahead of which fewer than so many others come before in the order of
/// their identifiers. A deployment over its limit of failures is aborted instead.
pub proof fn law_poll_by_rows(
    t: TablesView,
    deployment: DeploymentRecordView,
    asset_id: Seq<char>,
    over_limit: bool,
    ticket: TicketView,
    i: int,
)
    requires
        is_sound(t),
        target_list(t, deployment.id) is Ok,
        0 <= i < t.targets.len(),
        t.targets[i].deployment_id == deployment.id,
        t.targets[i].asset_id == asset_id,
    ensures
        ({
            let d = deployment.id;
            let canary = deployment.strategy.canary;
            let waits = t.targets[i].state == "pending"@ || t.targets[i].state == "retry"@;
            let open = t.commands.filter(
                |row: CommandRowView|
                    row.deployment_id == d && (row.status == "queued"@ || row.status
                        == "running"@),
            ).len();
            let ended = t.targets.filter(
                |row: TargetRowView|
                    row.deployment_id == d && (row.state == "succeeded"@ || row.state
                        == "failed"@ || row.state == "rolled_back"@),
            ).len();
            let ahead = t.targets.filter(
                |row: TargetRowView| row.deployment_id == d && precedes(row.asset_id, asset_id),
            ).len();
            let due = waits && !over_limit && open < deployment.strategy.max_parallel && (canary
                == 0 || canary <= ended || ahead < canary);
            let (after, outcome) = polled_one(t, deployment, asset_id, over_limit, ticket);
            &&& outcome matches Ok(Some(_)) ==> due
            &&& !due && !(waits && over_limit) ==> after == t && outcome == Ok::<
                Option<CommandRecordView>,
                DbErrorView,
            >(None)
            &&& waits && over_limit ==> outcome == Ok::<Option<CommandRecordView>, DbErrorView>(
                None,
            ) && after.commands == t.commands && after.targets == t.targets
            &&& due && outcome is Ok ==> outcome->Ok_0 is Some
            &&& due && release_of(t, deployment.release_id) is Ok && command_row(
                t.commands,
                ticket.id,
            ) is None && deployment_row(t.deployments, d) is Some ==> {
                let release = release_of(t, deployment.release_id)->Ok_0;
                &&& outcome is Ok
                &&& outcome->Ok_0 is Some
                &&& outcome->Ok_0->0.id == ticket.id
                &&& outcome->Ok_0->0.deployment_id == d
                &&& outcome->Ok_0->0.asset_id == asset_id
                &&& outcome->Ok_0->0.release_id == release.id
                &&& outcome->Ok_0->0.release_version == release.version
                &&& outcome->Ok_0->0.manifest == release.manifest
                &&& outcome->Ok_0->0.command_type == "install_release"@
                &&& outcome->Ok_0->0.status is Queued
            }
        }),
{
    let d = deployment.id;
    let list = target_list(t, d)->Ok_0;
    lemma_target_by_row(t, d, asset_id, i);
    lemma_states_by_text(t.targets[i].state);
    lemma_list_by_rows(t, d);
    assert(assets_in(list).contains(asset_id)) by {
        let k = choose|k: int| 0 <= k < list.len() && list[k] == target_in(t.targets[i])->Ok_0;
        assert(assets_in(list)[k] == asset_id);
    }
    law_counts_by_rows(t, d, asset_id, deployment.strategy.canary as nat);
    lemma_issued(t, deployment, asset_id, ticket);
    lemma_release_row(t.releases, deployment.release_id);
    lemma_asset_row(t.assets, asset_id);
    assert(has_asset(t.assets, t.targets[i].asset_id));
}

/// Once as many targets of a deployment have ended as come first, whether they have succeeded or
/// failed, no target is held back: one that waits gets its command where fewer commands than
/// allowed are under way and the deployment is not over its limit of failures.
pub proof fn law_ended_canaries_let_others_in(
    t: TablesView,
    deployment: DeploymentRecordView,
    asset_id: Seq<char>,
    ticket: TicketView,
    i: int,
    done: Seq<Seq<char>>,
)
    requires
        is_sound(t),
        target_list(t, deployment.id) is Ok,
        0 <= i < t.targets.len(),
        t.targets[i].deployment_id == deployment.id,
        t.targets[i].asset_id == asset_id,
        t.targets[i].state == "pending"@ || t.targets[i].state == "retry"@,
        t.commands.filter(
            |row: CommandRowView|
                row.deployment_id == deployment.id && (row.status == "queued"@ || row.status
                    == "running"@),
        ).len() < deployment.strategy.max_parallel,
        done.no_duplicates(),
        deployment.strategy.canary <= done.len(),
        forall|k: int|
            0 <= k < done.len() ==> exists|j: int|
                {
                    &&& 0 <= j < t.targets.len()
                    &&& (#[trigger] t.targets[j]).deployment_id == deployment.id
                    &&& t.targets[j].asset_id == #[trigger] done[k]
                    &&& t.targets[j].state == "succeeded"@ || t.targets[j].state == "failed"@
                        || t.targets[j].state == "rolled_back"@
                },
    ensures
        polled_one(t, deployment, asset_id, false, ticket).1 matches Ok(given) ==> given is Some,
        release_of(t, deployment.release_id) is Ok && command_row(t.commands, ticket.id) is None
            && deployment_row(t.deployments, deployment.id) is Some
            ==> polled_one(t, deployment, asset_id, false, ticket).1 is Ok,
{
    let d = deployment.id;
    let ended = |row: TargetRowView|
        row.deployment_id == d && (row.state == "succeeded"@ || row.state == "failed"@ || row.state
            == "rolled_back"@);
    let name = |row: TargetRowView| row.asset_id;
    assert forall|k: int| 0 <= k < done.len() implies counts_named(
        t.targets,
        ended,
        name,
        #[trigger] done[k],
    ) by {
        let j = choose|j: int|
            {
                &&& 0 <= j < t.targets.len()
                &&& (#[trigger] t.targets[j]).deployment_id == deployment.id
                &&& t.targets[j].asset_id == done[k]
                &&& t.targets[j].state == "succeeded"@ || t.targets[j].state == "failed"@
                    || t.targets[j].state == "rolled_back"@
            };
        assert(ended(t.targets[j]) && name(t.targets[j]) == done[k]);
    }
    lemma_count_named(t.targets, ended, name, done);
    law_poll_by_rows(t, deployment, asset_id, false, ticket, i);
}

/// What an accepted result does, by the stored rows. Its command has succeeded or failed. The
/// target of the command has too, with the message as its error where it has failed. The asset
/// of the command runs the version and the slot that the result says, whatever was known before;
/// where the result does not say one, what was known stays. It is no longer to run another
/// version. The result is stored in place of an earlier one of that command. All else stays.
pub proof fn law_result_by_fields(
    t: TablesView,
    req: AgentResultRequestView,
    now: Timestamp,
    c: int,
)
    requires
        is_sound(t),
        0 <= c < t.commands.len(),
        t.commands[c].id == req.command_id,
    ensures
        ({
            let (after, outcome) = result_submitted(t, req, now);
            let command = t.commands[c];
            let at = rfc3339_text(now.secs, now.nanos);
            let end = if req.success {
                "succeeded"@
            } else {
                "failed"@
            };
            &&& outcome is Ok
            &&& after.assets.len() == t.assets.len()
            &&& forall|i: int|
                0 <= i < t.assets.len() ==> ({
                    let was = t.assets[i];
                    let is = #[trigger] after.assets[i];
                    if was.asset_id == command.asset_id {
                        &&& req.booted_version is Some ==> is.current_version == req.booted_version
                        &&& req.booted_version is None ==> is.current_version
                            == was.current_version
                        &&& req.active_slot is Some ==> is.active_slot == req.active_slot
                        &&& req.active_slot is None ==> is.active_slot == was.active_slot
                        &&& is.desired_version is None
                        &&& is.asset_id == was.asset_id
                        &&& is.asset_type == was.asset_type
                        &&& is.mission_state == was.mission_state
                        &&& is.status == was.status
                        &&& is.last_seen == was.last_seen
                    } else {
                        is == was
                    }
                })
            &&& after.targets.len() == t.targets.len()
            &&& forall|i: int|
                0 <= i < t.targets.len() ==> ({
                    let was = t.targets[i];
                    let is = #[trigger] after.targets[i];
                    if was.deployment_id == command.deployment_id && was.asset_id
                        == command.asset_id {
                        &&& is.state == end
                        &&& req.success ==> is.last_error is None
                        &&& !req.success ==> is.last_error == Some(req.message)
                        &&& is.updated_at == at
                        &&& is.deployment_id == was.deployment_id
                        &&& is.asset_id == was.asset_id
                        &&& is.current_command_id == was.current_command_id
                    } else {
                        is == was
                    }
                })
            &&& after.commands.len() == t.commands.len()
            &&& forall|i: int|
                0 <= i < t.commands.len() ==> ({
                    let was = t.commands[i];
                    let is = #[trigger] after.commands[i];
                    if i == c {
                        &&& is.status == end
                        &&& is.updated_at == at
                        &&& is.id == was.id
                        &&& is.deployment_id == was.deployment_id
                        &&& is.release_id == was.release_id
                        &&& is.asset_id == was.asset_id
                        &&& is.command_type == was.command_type
                        &&& is.created_at == was.created_at
                    } else {
                        is == was
                    }
                })
            &&& after.deployments == t.deployments
            &&& after.releases == t.releases
            &&& after.labels == t.labels
        }),
{
    let command = t.commands[c];
    lemma_command_at(t, c);
    law_result_accepted(t, req, now);
    law_result_effects(t, req, now);
    let after = result_submitted(t, req, now).0;
    assert forall|i: int| 0 <= i < t.commands.len() && i != c implies #[trigger] after.commands[i]
        == t.commands[i] by {
        if i < c {
            assert(t.commands[i].id != t.commands[c].id);
        } else {
            assert(t.commands[c].id != t.commands[i].id);
        }
    }
}

/// The command with an identifier is the one whose row has it.
proof fn lemma_command_at(t: TablesView, c: int)
    requires
        is_sound(t),
        0 <= c < t.commands.len(),
    ensures
        command_row(t.commands, t.commands[c].id) == Some(t.commands[c]),
{
    let id = t.commands[c].id;
    lemma_command_row(t.commands, id);
    let row = command_row(t.commands, id)->0;
    let j = choose|j: int| 0 <= j < t.commands.len() && t.commands[j] == row;
    if j < c {
        assert(t.commands[j].id != t.commands[c].id);
    } else if c < j {
        assert(t.commands[c].id != t.commands[j].id);
    }
}

/// The result of a command is stored as it came in, once, and the results of other commands stay.
pub proof fn law_result_stored(
    t: TablesView,
    req: AgentResultRequestView,
    now: Timestamp,
    c: int,
)
    requires
        is_sound(t),
        0 <= c < t.commands.len(),
        t.commands[c].id == req.command_id,
    ensures
        ({
            let after = result_submitted(t, req, now).0;
            let last = after.results[after.results.len() - 1];
            &&& after.results.len() > 0
            &&& last.command_id == req.command_id
            &&& last.success == req.success
            &&& last.message == req.message
            &&& last.active_slot == req.active_slot
            &&& last.booted_version == req.booted_version
            &&& last.created_at == rfc3339_text(now.secs, now.nanos)
            &&& forall|i: int|
                0 <= i < after.results.len() - 1 ==> (#[trigger] after.results[i]).command_id
                    != req.command_id && t.results.contains(after.results[i])
            &&& forall|i: int|
                0 <= i < t.results.len() && (#[trigger] t.results[i]).command_id != req.command_id
                    ==> after.results.contains(t.results[i])
        }),
{
    lemma_command_at(t, c);
    law_result_effects(t, req, now);
    let after = result_submitted(t, req, now).0;
    let other = |row: CommandResultRowView| row.command_id != req.command_id;
    let kept = t.results.filter(other);
    lemma_filter_embeds(t.results, other);
    assert forall|i: int| 0 <= i < after.results.len() - 1 implies (
    #[trigger] after.results[i]).command_id != req.command_id && t.results.contains(
        after.results[i],
    ) by {
        assert(after.results[i] == kept[i]);
        assert(other(kept[i]));
    }
    assert forall|i: int|
        0 <= i < t.results.len() && (
        #[trigger] t.results[i]).command_id != req.command_id implies after.results.contains(
        t.results[i],
    ) by {
        lemma_filter_has(t.results, other, i);
        let k = choose|k: int| 0 <= k < kept.len() && kept[k] == t.results[i];
        assert(after.results[k] == t.results[i]);
    }
}

/// A result, whether of success or of failure, ends the target of its command: where the target
/// had not ended before, one more target of its deployment has ended. One more of them has failed
/// where the result is of a failure, and none where it is of a success.
pub proof fn law_result_ends_target(
    t: TablesView,
    req: AgentResultRequestView,
    now: Timestamp,
    c: int,
    i: int,
)
    requires
        is_sound(t),
        0 <= c < t.commands.len(),
        t.commands[c].id == req.command_id,
        0 <= i < t.targets.len(),
        t.targets[i].deployment_id == t.commands[c].deployment_id,
        t.targets[i].asset_id == t.commands[c].asset_id,
        t.targets[i].state == "issued"@ || t.targets[i].state == "pending"@ || t.targets[i].state
            == "retry"@,
    ensures
        ({
            let d = t.commands[c].deployment_id;
            let after = result_submitted(t, req, now).0;
            let ended = |row: TargetRowView|
                row.deployment_id == d && (row.state == "succeeded"@ || row.state == "failed"@
                    || row.state == "rolled_back"@);
            let failed = |row: TargetRowView|
                row.deployment_id == d && (row.state == "failed"@ || row.state == "rolled_back"@);
            &&& after.targets.filter(ended).len() == t.targets.filter(ended).len() + 1
            &&& after.targets.filter(failed).len() == t.targets.filter(failed).len() + if req.success {
                0nat
            } else {
                1nat
            }
        }),
{
    let d = t.commands[c].deployment_id;
    let after = result_submitted(t, req, now).0;
    let ended = |row: TargetRowView|
        row.deployment_id == d && (row.state == "succeeded"@ || row.state == "failed"@ || row.state
            == "rolled_back"@);
    let failed = |row: TargetRowView|
        row.deployment_id == d && (row.state == "failed"@ || row.state == "rolled_back"@);
    law_result_by_fields(t, req, now, c);
    lemma_states_by_text("issued"@);
    lemma_states_by_text("pending"@);
    lemma_states_by_text("retry"@);
    lemma_states_by_text("succeeded"@);
    assert forall|j: int| 0 <= j < t.targets.len() && j != i implies after.targets[j]
        == #[trigger] t.targets[j] by {
        if j < i {
            assert(t.targets[j].deployment_id != t.targets[i].deployment_id
                || t.targets[j].asset_id != t.targets[i].asset_id);
        } else {
            assert(t.targets[i].deployment_id != t.targets[j].deployment_id
                || t.targets[i].asset_id != t.targets[j].asset_id);
        }
    }
    assert(ended(after.targets[i]));
    assert(!ended(t.targets[i]));
    lemma_count_one_more(t.targets, after.targets, ended, i);
    if req.success {
        assert(!failed(after.targets[i]));
        assert forall|j: int| 0 <= j < t.targets.len() implies failed(#[trigger] t.targets[j])
            == failed(after.targets[j]) by {}
        lemma_count_alike(t.targets, failed, after.targets, failed);
    } else {
        lemma_count_one_more(t.targets, after.targets, failed, i);
    }
}

/// With the result of a command, as many targets of its deployment may have ended as come first:
/// then no other target is held back. One that waits gets its command where fewer commands than
/// allowed are under way, whether the result was of success or of failure.
pub proof fn law_result_lets_others_in(
    t: TablesView,
    req: AgentResultRequestView,
    now: Timestamp,
    c: int,
    deployment: DeploymentRecordView,
    asset_id: Seq<char>,
    ticket: TicketView,
    i: int,
    done: Seq<Seq<char>>,
)
    requires
        is_sound(t),
        0 <= c < t.commands.len(),
        t.commands[c].id == req.command_id,
        t.commands[c].deployment_id == deployment.id,
        target_list(result_submitted(t, req, now).0, deployment.id) is Ok,
        0 <= i < t.targets.len(),
        t.targets[i].deployment_id == deployment.id,
        t.targets[i].asset_id == asset_id,
        asset_id != t.commands[c].asset_id,
        t.targets[i].state == "pending"@ || t.targets[i].state == "retry"@,
        result_submitted(t, req, now).0.commands.filter(
            |row: CommandRowView|
                row.deployment_id == deployment.id && (row.status == "queued"@ || row.status
                    == "running"@),
        ).len() < deployment.strategy.max_parallel,
        done.no_duplicates(),
        deployment.strategy.canary <= done.len(),
        forall|k: int|
            0 <= k < done.len() ==> exists|j: int|
                {
                    &&& 0 <= j < t.targets.len()
                    &&& (#[trigger] t.targets[j]).deployment_id == deployment.id
                    &&& t.targets[j].asset_id == #[trigger] done[k]
                    &&& done[k] == t.commands[c].asset_id || t.targets[j].state == "succeeded"@
                        || t.targets[j].state == "failed"@ || t.targets[j].state
                        == "rolled_back"@
                },
    ensures
        ({
            let after = result_submitted(t, req, now).0;
            let outcome = polled_one(after, deployment, asset_id, false, ticket).1;
            outcome matches Ok(given) ==> given is Some
        }),
{
    let after = result_submitted(t, req, now).0;
    law_result_by_fields(t, req, now, c);
    let stored = step(t, result_write(req, now))->Ok_0;
    assert(is_sound(after)) by {
        lemma_command_at(t, c);
        law_statement_keeps_integrity(
            t,
            result_write(req, now),
        );
        law_statements_keep_integrity(
            stored,
            closing_writes(
                req,
                command_row(stored.commands, req.command_id)->0,
                now,
            ),
        );
    }
    assert forall|k: int| 0 <= k < done.len() implies exists|j: int|
        {
            &&& 0 <= j < after.targets.len()
            &&& (#[trigger] after.targets[j]).deployment_id == deployment.id
            &&& after.targets[j].asset_id == #[trigger] done[k]
            &&& after.targets[j].state == "succeeded"@ || after.targets[j].state == "failed"@
                || after.targets[j].state == "rolled_back"@
        } by {
        let j = choose|j: int|
            {
                &&& 0 <= j < t.targets.len()
                &&& (#[trigger] t.targets[j]).deployment_id == deployment.id
                &&& t.targets[j].asset_id == done[k]
                &&& done[k] == t.commands[c].asset_id || t.targets[j].state == "succeeded"@
                    || t.targets[j].state == "failed"@ || t.targets[j].state == "rolled_back"@
            };
        assert(after.targets[j].asset_id == done[k]);
    }
    assert(after.targets[i] == t.targets[i]);
    law_ended_canaries_let_others_in(after, deployment, asset_id, ticket, i, done);
}

/// What handing out a command does, by the stored rows: one queued command is added, with what
/// was answered, and its target is issued with it. All else stays.
pub proof fn law_command_by_fields(
    t: TablesView,
    deployment: DeploymentRecordView,
    asset_id: Seq<char>,
    over_limit: bool,
    ticket: TicketView,
)
    requires
        polled_one(t, deployment, asset_id, over_limit, ticket).1 matches Ok(Some(_)),
    ensures
        ({
            let (after, outcome) = polled_one(t, deployment, asset_id, over_limit, ticket);
            let given = outcome->Ok_0->0;
            let at = rfc3339_text(ticket.at.secs, ticket.at.nanos);
            let row = after.commands[t.commands.len() as int];
            &&& given.id == ticket.id
            &&& given.deployment_id == deployment.id
            &&& given.asset_id == asset_id
            &&& given.command_type == "install_release"@
            &&& given.status is Queued
            &&& exists|i: int|
                0 <= i < t.releases.len() && {
                    let release = #[trigger] t.releases[i];
                    &&& release.id == deployment.release_id
                    &&& given.release_id == release.id
                    &&& given.release_version == release.version
                    &&& release.manifest == Ok::<ReleaseManifestView, Seq<char>>(given.manifest)
                }
            &&& after.commands.len() == t.commands.len() + 1
            &&& forall|i: int|
                0 <= i < t.commands.len() ==> #[trigger] after.commands[i] == t.commands[i]
            &&& row.id == ticket.id
            &&& row.deployment_id == deployment.id
            &&& row.release_id == deployment.release_id
            &&& row.asset_id == asset_id
            &&& row.command_type == "install_release"@
            &&& row.status == "queued"@
            &&& row.created_at == at
            &&& row.updated_at == at
            &&& after.targets.len() == t.targets.len()
            &&& forall|i: int|
                0 <= i < t.targets.len() ==> ({
                    let was = t.targets[i];
                    let is = #[trigger] after.targets[i];
                    if was.deployment_id == deployment.id && was.asset_id == asset_id {
                        &&& is.state == "issued"@
                        &&& is.current_command_id == Some(ticket.id)
                        &&& is.updated_at == at
                        &&& is.last_error == was.last_error
                        &&& is.deployment_id == was.deployment_id
                        &&& is.asset_id == was.asset_id
                    } else {
                        is == was
                    }
                })
            &&& after.assets == t.assets
            &&& after.deployments == t.deployments
            &&& after.releases == t.releases
            &&& after.labels == t.labels
        }),
{
    lemma_issued(t, deployment, asset_id, ticket);
    lemma_release_row(t.releases, deployment.release_id);
    let release = release_row(t.releases, deployment.release_id)->0;
    let i = choose|i: int| 0 <= i < t.releases.len() && t.releases[i] == release;
    assert(t.releases[i].id == deployment.release_id);
}

/// An asset that is not known is given no command, and its request is refused with its identifier.
/// Nothing changes.
pub proof fn law_unknown_asset_polls(
    t: TablesView,
    asset_id: Seq<char>,
    over_limit: Seq<Seq<char>>,
    tickets: Seq<TicketView>,
)
    requires
        forall|i: int| 0 <= i < t.assets.len() ==> (#[trigger] t.assets[i]).asset_id != asset_id,
    ensures
        polled(t, asset_id, over_limit, tickets).0 == t,
        polled(t, asset_id, over_limit, tickets).1 == Err::<Seq<CommandRecordView>, DbErrorView>(
            DbErrorView::AssetNotFound(asset_id),
        ),
{
    lemma_asset_row(t.assets, asset_id);
}

/// What a new state of a deployment does, by the stored rows: the deployment is active, paused or
/// aborted, as was said, and all else stays.
pub proof fn law_status_by_fields(t: TablesView, id: Seq<char>)
    ensures
        forall|status: DeploymentStatus, i: int|
            0 <= i < t.deployments.len() ==> ({
                let was = t.deployments[i];
                let is = #[trigger] with_status(t, id, status).deployments[i];
                if was.id == id {
                    &&& status is Active ==> is.status == "active"@
                    &&& status is Paused ==> is.status == "paused"@
                    &&& status is Aborted ==> is.status == "aborted"@
                    &&& is.id == was.id
                    &&& is.release_id == was.release_id
                    &&& is.rollout_name == was.rollout_name
                    &&& is.selector == was.selector
                    &&& is.strategy == was.strategy
                    &&& is.created_at == was.created_at
                } else {
                    is == was
                }
            }),
        forall|status: DeploymentStatus|
            {
                let after = #[trigger] with_status(t, id, status);
                &&& after.deployments.len() == t.deployments.len()
                &&& after.targets == t.targets
                &&& after.commands == t.commands
                &&& after.assets == t.assets
                &&& after.releases == t.releases
                &&& after.labels == t.labels
                &&& after.results == t.results
            },
        paused_status(true) is Paused,
        paused_status(false) is Active,
{
}

/// What beginning to run a command does, by the stored rows: the command is running, and all else
/// stays.
pub proof fn law_running_by_fields(t: TablesView, id: Seq<char>, now: Timestamp)
    ensures
        ({
            let after = running(t, id, now);
            &&& after.commands.len() == t.commands.len()
            &&& forall|i: int|
                0 <= i < t.commands.len() ==> ({
                    let was = t.commands[i];
                    let is = #[trigger] after.commands[i];
                    if was.id == id {
                        &&& is.status == "running"@
                        &&& is.updated_at == rfc3339_text(now.secs, now.nanos)
                        &&& is.id == was.id
                        &&& is.deployment_id == was.deployment_id
                        &&& is.release_id == was.release_id
                        &&& is.asset_id == was.asset_id
                        &&& is.command_type == was.command_type
                        &&& is.created_at == was.created_at
                    } else {
                        is == was
                    }
                })
            &&& after.deployments == t.deployments
            &&& after.targets == t.targets
            &&& after.assets == t.assets
            &&& after.releases == t.releases
            &&& after.labels == t.labels
            &&& after.results == t.results
        }),
{
}

/// Storing labels leaves all other rows.
proof fn lemma_labels_leave(t: TablesView, asset_id: Seq<char>, labels: Seq<Seq<char>>)
    ensures
        ({
            let after = performed(t, label_writes(asset_id, labels)).0;
            &&& after == (TablesView { labels: after.labels, ..t })
            &&& forall|row: AssetLabelRowView|
                row.asset_id != asset_id ==> (#[trigger] after.labels.contains(row)
                    <==> t.labels.contains(row))
        }),
    decreases labels.len(),
{
    let ws = label_writes(asset_id, labels);
    if labels.len() > 0 {
        let rest = labels.skip(1);
        assert(ws.skip(1) =~= label_writes(asset_id, rest));
        let x = AssetLabelRowView { asset_id, label: labels[0] };
        assert(ws[0] == WriteView::InsertAssetLabel(x));
        match step(t, ws[0]) {
            Ok(stored) => {
                lemma_labels_leave(stored, asset_id, rest);
                assert forall|row: AssetLabelRowView| row.asset_id != asset_id implies (
                #[trigger] stored.labels.contains(row) <==> t.labels.contains(row)) by {
                    if t.labels.contains(row) {
                        let i = choose|i: int| 0 <= i < t.labels.len() && t.labels[i] == row;
                        assert(stored.labels[i] == row);
                    }
                    if stored.labels.contains(row) {
                        let i = choose|i: int|
                            0 <= i < stored.labels.len() && stored.labels[i] == row;
                        if i < t.labels.len() {
                            assert(t.labels[i] == row);
                        }
                    }
                }
            },
            Err(_) => {},
        }
    }
}

/// What an asset's checking in does, by the stored rows. The asset has the type and the mission
/// state that it says and was seen now. Where it says its version, its slot or whether it is
/// online, it has that; where it does not, its version and slot stay as they were, and it is
/// online. Which version it is to run stays. An asset that was not known is added. The other
/// assets and their labels, and all other rows, stay.
pub proof fn law_checkin_by_fields(t: TablesView, req: AgentCheckinRequestView, now: Timestamp)
    ensures
        ({
            let after = asset_upserted(t, req, now).0;
            let known = exists|i: int|
                0 <= i < t.assets.len() && (#[trigger] t.assets[i]).asset_id == req.asset_id;
            let at = rfc3339_text(now.secs, now.nanos);
            &&& forall|i: int|
                0 <= i < t.assets.len() ==> ({
                    let was = t.assets[i];
                    let is = #[trigger] after.assets[i];
                    if was.asset_id == req.asset_id {
                        &&& is.asset_id == req.asset_id
                        &&& is.asset_type == req.asset_type
                        &&& is.mission_state == req.mission_state
                        &&& req.current_version is Some ==> is.current_version
                            == req.current_version
                        &&& req.current_version is None ==> is.current_version
                            == was.current_version
                        &&& req.active_slot is Some ==> is.active_slot == req.active_slot
                        &&& req.active_slot is None ==> is.active_slot == was.active_slot
                        &&& is.desired_version == was.desired_version
                        &&& is.last_seen == at
                        &&& is.status == if req.status == Some(AssetStatus::Offline) {
                            "offline"@
                        } else {
                            "online"@
                        }
                    } else {
                        is == was
                    }
                })
            &&& known ==> after.assets.len() == t.assets.len()
            &&& !known ==> {
                let is = after.assets[t.assets.len() as int];
                &&& after.assets.len() == t.assets.len() + 1
                &&& is.asset_id == req.asset_id
                &&& is.asset_type == req.asset_type
                &&& is.mission_state == req.mission_state
                &&& is.current_version == req.current_version
                &&& is.active_slot == req.active_slot
                &&& is.desired_version is None
                &&& is.last_seen == at
                &&& is.status == if req.status == Some(AssetStatus::Offline) {
                    "offline"@
                } else {
                    "online"@
                }
            }
            &&& forall|row: AssetLabelRowView|
                row.asset_id != req.asset_id ==> (#[trigger] after.labels.contains(row)
                    <==> t.labels.contains(row))
            &&& after.deployments == t.deployments
            &&& after.targets == t.targets
            &&& after.commands == t.commands
            &&& after.releases == t.releases
            &&& after.results == t.results
        }),
{
    let all = checkin_writes(req, now);
    let seen = step(t, all[0])->Ok_0;
    let cleared = step(seen, all[1])->Ok_0;
    let id = req.asset_id;
    let other = |row: AssetLabelRowView| row.asset_id != id;
    assert(all.skip(1)[0] == all[1]);
    assert(all.skip(1).skip(1) =~= label_writes(id, req.labels));
    assert(performed(t, all) == performed(seen, all.skip(1)));
    assert(performed(seen, all.skip(1)) == performed(cleared, all.skip(1).skip(1)));
    lemma_labels_leave(cleared, id, req.labels);
    lemma_filter_embeds(t.labels, other);
    assert forall|row: AssetLabelRowView| row.asset_id != id implies (
    #[trigger] cleared.labels.contains(row) <==> t.labels.contains(row)) by {
        if t.labels.contains(row) {
            let i = choose|i: int| 0 <= i < t.labels.len() && t.labels[i] == row;
            lemma_filter_has(t.labels, other, i);
        }
    }
    lemma_asset_row(t.assets, id);
    if asset_row(t.assets, id) is Some {
        let i = choose|i: int| 0 <= i < t.assets.len() && t.assets[i] == asset_row(t.assets, id)->0;
        assert(t.assets[i].asset_id == id);
    }
}

/// A release is stored and answered as it was asked for, and nothing else changes. Where its
/// identifier is taken, it is refused and nothing changes.
pub proof fn law_release_by_fields(
    t: TablesView,
    req: CreateReleaseRequestView,
    id: Seq<char>,
    now: Timestamp,
)
    ensures
        ({
            let (after, outcome) = release_inserted(t, req, id, now);
            let taken = exists|i: int|
                0 <= i < t.releases.len() && (#[trigger] t.releases[i]).id == id;
            let row = after.releases[t.releases.len() as int];
            &&& taken ==> after == t && outcome is Err
            &&& !taken ==> {
                &&& outcome is Ok
                &&& outcome->Ok_0.id == id
                &&& outcome->Ok_0.version == req.version
                &&& outcome->Ok_0.target_type == req.manifest.target_type
                &&& outcome->Ok_0.manifest == req.manifest
                &&& outcome->Ok_0.created_at == now
                &&& after.releases.len() == t.releases.len() + 1
                &&& row.id == id
                &&& row.version == req.version
                &&& row.target_type == req.manifest.target_type
                &&& row.manifest == Ok::<ReleaseManifestView, Seq<char>>(req.manifest)
                &&& row.created_at == rfc3339_text(now.secs, now.nanos)
                &&& forall|i: int|
                    0 <= i < t.releases.len() ==> #[trigger] after.releases[i] == t.releases[i]
                &&& after == (TablesView { releases: after.releases, ..t })
            }
        }),
{
    lemma_release_row(t.releases, id);
    if release_row(t.releases, id) is Some {
        let i = choose|i: int|
            0 <= i < t.releases.len() && t.releases[i] == release_row(t.releases, id)->0;
        assert(t.releases[i].id == id);
    }
}

/// A deployment whose release is for another type of machine than it selects is refused, and so
/// is one whose release is not known. Nothing changes then.
pub proof fn law_deployment_refused(
    t: TablesView,
    req: CreateDeploymentRequestView,
    id: Seq<char>,
    now: Timestamp,
)
    ensures
        (forall|i: int|
            0 <= i < t.releases.len() ==> (#[trigger] t.releases[i]).id != req.release_id)
            ==> deployment_created(t, req, id, now) == (
            t,
            Err::<DeploymentRecordView, DbErrorView>(
                DbErrorView::ReleaseNotFound(req.release_id),
            ),
        ),
        release_of(t, req.release_id) matches Ok(release) ==> release.target_type
            != req.selector.target_type ==> deployment_created(t, req, id, now) == (
            t,
            Err::<DeploymentRecordView, DbErrorView>(DbErrorView::TargetTypeMismatch),
        ),
{
    lemma_release_row(t.releases, req.release_id);
}

} // verus!
