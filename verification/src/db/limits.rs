//! What every operation keeps: no more commands of a deployment are under way than its strategy
//! allows.

use crate::api::{agent_polled, all_running};
use crate::clock::Timestamp;
use crate::db::assets::{asset_of, asset_upserted, checkin_writes, label_writes};
use crate::db::commands::{
    active_among, closing_writes, install_row, is_under_way, issue_writes, polled, polled_each,
    polled_one, result_submitted, result_write, running, under_way, TicketView,
};
use crate::db::deployments::{
    deployment_created, deployment_in, deployment_keys, deployment_list, deployment_write,
    deployments_read, selected, target_writes, with_status,
};
use crate::db::error::DbErrorView;
use crate::db::integrity::{
    has_deployment, is_sound, law_statement_keeps_integrity, law_statements_keep_integrity,
    lemma_filter_embeds,
};
use crate::db::order::{descending, law_listing_order};
use crate::db::releases::{release_inserted, release_of, release_write};
use crate::db::shared::lemma_collected_items;
use crate::db::tables::{command_row, lemma_deployment_row, CommandRowView, TablesView};
use crate::db::writes::{
    issued, lemma_performed_push, performed, step, CommandChangeView, DeploymentChangeView,
    WriteView,
};
use crate::types::manifest::CreateReleaseRequestView;
use crate::types::records::{
    AgentCheckinRequestView, AgentResultRequestView, CommandRecordView,
    CreateDeploymentRequestView, DeploymentRecordView,
};
use crate::types::status::{CommandStatus, DeploymentStatus};
use vstd::prelude::*;

verus! {

/// Whether no more commands of any deployment are under way than its strategy allows.
pub open spec fn within_limits(t: TablesView) -> bool {
    forall|i: int|
        0 <= i < t.deployments.len() && (#[trigger] t.deployments[i]).strategy is Ok ==> under_way(
            t.commands,
            t.deployments[i].id,
        ) <= t.deployments[i].strategy->Ok_0.max_parallel
}

/// The larger of two numbers.
pub open spec fn larger(a: nat, b: nat) -> nat {
    if a < b {
        b
    } else {
        a
    }
}

/// Whether no more commands of any deployment are under way than were before or than its strategy
/// allows, whichever is more.
pub open spec fn within_limits_since(t: TablesView, before: Seq<CommandRowView>) -> bool {
    forall|i: int|
        0 <= i < t.deployments.len() && (#[trigger] t.deployments[i]).strategy is Ok ==> under_way(
            t.commands,
            t.deployments[i].id,
        ) <= larger(
            under_way(before, t.deployments[i].id),
            t.deployments[i].strategy->Ok_0.max_parallel as nat,
        )
}

/// Whether two tables hold the same deployments with the same strategies.
pub open spec fn same_strategies(a: TablesView, b: TablesView) -> bool {
    &&& a.deployments.len() == b.deployments.len()
    &&& forall|i: int|
        0 <= i < a.deployments.len() ==> (#[trigger] a.deployments[i]).id == b.deployments[i].id
            && a.deployments[i].strategy == b.deployments[i].strategy
}

/// Where no commands were under way before, that is to be within the limits.
proof fn lemma_limits_since_none(t: TablesView)
    ensures
        within_limits(t) <==> within_limits_since(t, Seq::empty()),
{
    assert forall|d: Seq<char>| #[trigger] under_way(Seq::empty(), d) == 0 by {
        lemma_under_way_none(Seq::empty(), d);
    }
    if within_limits(t) {
        assert forall|i: int|
            0 <= i < t.deployments.len() && (
            #[trigger] t.deployments[i]).strategy is Ok implies under_way(
            t.commands,
            t.deployments[i].id,
        ) <= larger(
            under_way(Seq::empty(), t.deployments[i].id),
            t.deployments[i].strategy->Ok_0.max_parallel as nat,
        ) by {
            assert(under_way(Seq::empty(), t.deployments[i].id) == 0);
        }
    }
    if within_limits_since(t, Seq::empty()) {
        assert forall|i: int|
            0 <= i < t.deployments.len() && (
            #[trigger] t.deployments[i]).strategy is Ok implies under_way(
            t.commands,
            t.deployments[i].id,
        ) <= t.deployments[i].strategy->Ok_0.max_parallel by {
            assert(under_way(Seq::empty(), t.deployments[i].id) == 0);
        }
    }
}

/// Whether the rows hold together: keys are unique, references point to rows that exist, and no
/// more commands of any deployment are under way than its strategy allows.
pub open spec fn is_orderly(t: TablesView) -> bool {
    is_sound(t) && within_limits(t)
}

/// Where fewer of the same commands are under way, fewer count.
pub proof fn lemma_under_way_less(
    before: Seq<CommandRowView>,
    after: Seq<CommandRowView>,
    d: Seq<char>,
)
    requires
        before.len() == after.len(),
        forall|i: int|
            0 <= i < after.len() && is_under_way(#[trigger] after[i], d) ==> is_under_way(
                before[i],
                d,
            ),
    ensures
        under_way(after, d) <= under_way(before, d),
    decreases before.len(),
{
    reveal(Seq::filter);
    if before.len() > 0 {
        assert forall|i: int|
            0 <= i < after.drop_last().len() && is_under_way(
                #[trigger] after.drop_last()[i],
                d,
            ) implies is_under_way(before.drop_last()[i], d) by {
            assert(after[i] == after.drop_last()[i]);
        }
        lemma_under_way_less(before.drop_last(), after.drop_last(), d);
        assert(is_under_way(after[after.len() - 1], d) ==> is_under_way(
            before[after.len() - 1],
            d,
        ));
    }
}

/// One more command counts where it is under way.
pub proof fn lemma_under_way_push(rows: Seq<CommandRowView>, row: CommandRowView, d: Seq<char>)
    ensures
        under_way(rows.push(row), d) == under_way(rows, d) + if is_under_way(row, d) {
            1nat
        } else {
            0nat
        },
{
    reveal(Seq::filter);
    assert(rows.push(row).drop_last() =~= rows);
}

proof fn lemma_under_way_none(rows: Seq<CommandRowView>, d: Seq<char>)
    requires
        forall|i: int| 0 <= i < rows.len() ==> (#[trigger] rows[i]).deployment_id != d,
    ensures
        under_way(rows, d) == 0,
{
    let active = |row: CommandRowView| is_under_way(row, d);
    lemma_filter_embeds(rows, active);
    if rows.filter(active).len() > 0 {
        assert(rows.contains(rows.filter(active)[0]));
        assert(active(rows.filter(active)[0]));
    }
}

/// Whether a statement leaves commands and deployments alone.
spec fn is_quiet(w: WriteView) -> bool {
    w is UpsertAsset || w is ClearAssetLabels || w is InsertAssetLabel || w is SetDesiredVersion
        || w is InsertTarget || w is IssueTarget || w is CompleteTarget || w is CompleteAsset
}

proof fn lemma_quiet(t: TablesView, ws: Seq<WriteView>)
    requires
        forall|k: int| 0 <= k < ws.len() ==> is_quiet(#[trigger] ws[k]),
    ensures
        performed(t, ws).0.commands == t.commands,
        performed(t, ws).0.deployments == t.deployments,
        performed(t, ws).0.releases == t.releases,
    decreases ws.len(),
{
    if ws.len() > 0 {
        assert(is_quiet(ws[0]));
        match step(t, ws[0]) {
            Ok(after) => {
                assert forall|k: int| 0 <= k < ws.skip(1).len() implies is_quiet(
                    #[trigger] ws.skip(1)[k],
                ) by {
                    assert(is_quiet(ws[k + 1]));
                }
                lemma_quiet(after, ws.skip(1));
            },
            Err(e) => {},
        }
    }
}

/// Storing a release keeps the rows orderly.
pub proof fn law_release_keeps_order(
    t: TablesView,
    req: CreateReleaseRequestView,
    id: Seq<char>,
    now: Timestamp,
)
    requires
        is_orderly(t),
    ensures
        is_orderly(release_inserted(t, req, id, now).0),
{
    let w = release_write(req, id, now);
    if step(t, w) is Ok {
        law_statement_keeps_integrity(t, w);
    }
}

/// An asset's checking in keeps the rows orderly.
pub proof fn law_checkin_keeps_order(
    t: TablesView,
    req: AgentCheckinRequestView,
    now: Timestamp,
)
    requires
        is_orderly(t),
    ensures
        is_orderly(asset_upserted(t, req, now).0),
{
    let ws = checkin_writes(req, now);
    assert forall|k: int| 0 <= k < ws.len() implies is_quiet(#[trigger] ws[k]) by {
        if k >= 2 {
            assert(ws[k] == label_writes(req.asset_id, req.labels)[k - 2]);
        }
    }
    lemma_quiet(t, ws);
    law_statements_keep_integrity(t, ws);
}

/// Creating a deployment keeps the rows orderly.
pub proof fn law_deployment_keeps_order(
    t: TablesView,
    req: CreateDeploymentRequestView,
    id: Seq<char>,
    now: Timestamp,
)
    requires
        is_orderly(t),
    ensures
        is_orderly(deployment_created(t, req, id, now).0),
{
    let w = deployment_write(req, id, now);
    if release_of(t, req.release_id) is Ok && step(t, w) is Ok {
        let release = release_of(t, req.release_id)->Ok_0;
        let stored = step(t, w)->Ok_0;
        law_statement_keeps_integrity(t, w);
        lemma_deployment_row(t.deployments, id);
        assert forall|i: int| 0 <= i < t.commands.len() implies (
        #[trigger] t.commands[i]).deployment_id != id by {
            assert(has_deployment(t.deployments, t.commands[i].deployment_id));
        }
        lemma_under_way_none(t.commands, id);
        assert forall|i: int|
            0 <= i < stored.deployments.len() && (
            #[trigger] stored.deployments[i]).strategy is Ok implies under_way(
            stored.commands,
            stored.deployments[i].id,
        ) <= stored.deployments[i].strategy->Ok_0.max_parallel by {
            if i < t.deployments.len() {
                assert(stored.deployments[i] == t.deployments[i]);
            }
        }
        if selected(stored, req.selector, req.strategy.require_idle) is Ok {
            let assets = selected(stored, req.selector, req.strategy.require_idle)->Ok_0;
            let ws = target_writes(assets, release.version, id, now);
            assert forall|k: int| 0 <= k < ws.len() implies is_quiet(#[trigger] ws[k]) by {}
            lemma_quiet(stored, ws);
            law_statements_keep_integrity(stored, ws);
        }
    }
}

/// A new state of a deployment keeps the rows orderly.
pub proof fn law_status_keeps_order(t: TablesView, id: Seq<char>, status: DeploymentStatus)
    requires
        is_orderly(t),
    ensures
        is_orderly(with_status(t, id, status)),
{
    lemma_limits_since_none(t);
    lemma_status_keeps_limits(t, Seq::empty(), id, status);
    lemma_limits_since_none(with_status(t, id, status));
}

proof fn lemma_status_keeps_limits(
    t: TablesView,
    before: Seq<CommandRowView>,
    id: Seq<char>,
    status: DeploymentStatus,
)
    requires
        is_sound(t),
        within_limits_since(t, before),
    ensures
        is_sound(with_status(t, id, status)),
        within_limits_since(with_status(t, id, status), before),
        same_strategies(t, with_status(t, id, status)),
{
    let w = WriteView::SetDeploymentStatus(DeploymentChangeView { id, status: status.name() });
    let after = with_status(t, id, status);
    assert(step(t, w) == Ok::<TablesView, DbErrorView>(after));
    law_statement_keeps_integrity(t, w);
    assert forall|i: int|
        0 <= i < after.deployments.len() && (
        #[trigger] after.deployments[i]).strategy is Ok implies under_way(
        after.commands,
        after.deployments[i].id,
    ) <= larger(
        under_way(before, after.deployments[i].id),
        after.deployments[i].strategy->Ok_0.max_parallel as nat,
    ) by {
        assert(after.deployments[i].strategy == t.deployments[i].strategy);
        assert(after.deployments[i].id == t.deployments[i].id);
    }
}

/// Whether a row holds this deployment with its strategy.
pub open spec fn is_stored(t: TablesView, deployment: DeploymentRecordView) -> bool {
    exists|i: int|
        0 <= i < t.deployments.len() && (#[trigger] t.deployments[i]).id == deployment.id
            && t.deployments[i].strategy == Ok::<
            crate::types::records::RolloutStrategy,
            Seq<char>,
        >(deployment.strategy)
}

/// A listed deployment is stored.
pub proof fn lemma_listed_stored(t: TablesView, k: int)
    requires
        deployment_list(t) is Ok,
        0 <= k < deployment_list(t)->Ok_0.len(),
    ensures
        is_stored(t, deployment_list(t)->Ok_0[k]),
{
    let items = deployments_read(t.deployments);
    let order = descending(deployment_keys(t.deployments));
    law_listing_order(deployment_keys(t.deployments), t.deployments.len(), true);
    lemma_collected_items(items);
    assert(0 <= order[k] < t.deployments.len());
    assert(items[k] == deployment_in(t.deployments[order[k]]));
}

proof fn lemma_stored_after_status(
    t: TablesView,
    id: Seq<char>,
    status: DeploymentStatus,
    deployment: DeploymentRecordView,
)
    requires
        is_stored(t, deployment),
    ensures
        is_stored(with_status(t, id, status), deployment),
{
    let after = with_status(t, id, status);
    let i = choose|i: int|
        0 <= i < t.deployments.len() && (#[trigger] t.deployments[i]).id == deployment.id
            && t.deployments[i].strategy == Ok::<
            crate::types::records::RolloutStrategy,
            Seq<char>,
        >(deployment.strategy);
    assert(after.deployments[i].id == deployment.id);
}

/// Handing out a command changes the commands by that command alone, its target, and no
/// deployment.
pub proof fn lemma_issued(
    t: TablesView,
    deployment: DeploymentRecordView,
    asset_id: Seq<char>,
    ticket: TicketView,
)
    ensures
        ({
            let (after, outcome) = performed(t, issue_writes(deployment, asset_id, ticket));
            &&& after.deployments == t.deployments
            &&& after.releases == t.releases
            &&& after.assets == t.assets
            &&& after.labels == t.labels
            &&& outcome is Ok ==> after.commands == t.commands.push(
                install_row(deployment, asset_id, ticket),
            )
            &&& outcome is Ok ==> after.targets == issued(
                t.targets,
                issue_writes(deployment, asset_id, ticket)[1]->IssueTarget_0,
            )
            &&& outcome is Err ==> after == t
            &&& outcome is Ok <==> step(
                t,
                WriteView::InsertCommand(install_row(deployment, asset_id, ticket)),
            ) is Ok
        }),
{
    let all = issue_writes(deployment, asset_id, ticket);
    let none = Seq::<WriteView>::empty();
    assert(performed(t, none) == (t, Ok::<(), DbErrorView>(())));
    lemma_performed_push(t, none, all[0]);
    lemma_performed_push(t, none.push(all[0]), all[1]);
    assert(none.push(all[0]).push(all[1]) =~= all);
}

/// An asset's asking for the commands of one deployment keeps within the limits, and the command
/// that it gets is under way.
proof fn lemma_polled_one_keeps_limits(
    t: TablesView,
    before: Seq<CommandRowView>,
    deployment: DeploymentRecordView,
    asset_id: Seq<char>,
    over_limit: bool,
    ticket: TicketView,
)
    requires
        is_sound(t),
        within_limits_since(t, before),
        is_stored(t, deployment),
    ensures
        ({
            let (after, outcome) = polled_one(t, deployment, asset_id, over_limit, ticket);
            &&& is_sound(after)
            &&& within_limits_since(after, before)
            &&& same_strategies(t, after)
            &&& forall|d: DeploymentRecordView| is_stored(t, d) ==> #[trigger] is_stored(after, d)
            &&& forall|id: Seq<char>| is_running(t, id) ==> #[trigger] is_running(after, id)
            &&& outcome matches Ok(Some(command)) ==> is_running(after, command.id)
        }),
{
    let (after, outcome) = polled_one(t, deployment, asset_id, over_limit, ticket);
    lemma_status_keeps_limits(t, before, deployment.id, DeploymentStatus::Aborted);
    assert forall|d: DeploymentRecordView| is_stored(t, d) implies #[trigger] is_stored(
        with_status(t, deployment.id, DeploymentStatus::Aborted),
        d,
    ) by {
        lemma_stored_after_status(t, deployment.id, DeploymentStatus::Aborted, d);
    }
    lemma_issued(t, deployment, asset_id, ticket);
    if outcome is Ok && outcome->Ok_0 is Some {
        let row = install_row(deployment, asset_id, ticket);
        law_statements_keep_integrity(t, issue_writes(deployment, asset_id, ticket));
        assert forall|i: int|
            0 <= i < after.deployments.len() && (
            #[trigger] after.deployments[i]).strategy is Ok implies under_way(
            after.commands,
            after.deployments[i].id,
        ) <= larger(
            under_way(before, after.deployments[i].id),
            after.deployments[i].strategy->Ok_0.max_parallel as nat,
        ) by {
            lemma_under_way_push(t.commands, row, t.deployments[i].id);
            if t.deployments[i].id == deployment.id {
                let j = choose|j: int|
                    0 <= j < t.deployments.len() && (#[trigger] t.deployments[j]).id
                        == deployment.id && t.deployments[j].strategy == Ok::<
                        crate::types::records::RolloutStrategy,
                        Seq<char>,
                    >(deployment.strategy);
                assert(i == j);
            }
        }
        assert forall|id: Seq<char>| is_running(t, id) implies #[trigger] is_running(after, id) by {
            let i = choose|i: int|
                0 <= i < t.commands.len() && (#[trigger] t.commands[i]).id == id && is_under_way(
                    t.commands[i],
                    t.commands[i].deployment_id,
                );
            assert(after.commands[i] == t.commands[i]);
        }
        assert(after.commands[t.commands.len() as int] == row);
        assert(is_running(after, ticket.id)) by {
            assert(is_under_way(row, row.deployment_id));
        }
    }
}

/// Whether a command with this identifier is under way.
pub open spec fn is_running(t: TablesView, id: Seq<char>) -> bool {
    exists|i: int|
        0 <= i < t.commands.len() && (#[trigger] t.commands[i]).id == id && is_under_way(
            t.commands[i],
            t.commands[i].deployment_id,
        )
}

proof fn lemma_polled_each_keeps_limits(
    t: TablesView,
    start: Seq<CommandRowView>,
    deployments: Seq<DeploymentRecordView>,
    asset_id: Seq<char>,
    over_limit: Seq<Seq<char>>,
    tickets: Seq<TicketView>,
)
    requires
        is_sound(t),
        within_limits_since(t, start),
        forall|k: int| 0 <= k < deployments.len() ==> is_stored(t, #[trigger] deployments[k]),
    ensures
        ({
            let (after, outcome) = polled_each(t, deployments, asset_id, over_limit, tickets);
            &&& is_sound(after)
            &&& within_limits_since(after, start)
            &&& same_strategies(t, after)
            &&& forall|d: DeploymentRecordView| is_stored(t, d) ==> #[trigger] is_stored(after, d)
            &&& outcome is Ok ==> forall|k: int|
                0 <= k < outcome->Ok_0.len() ==> is_running(
                    after,
                    (#[trigger] outcome->Ok_0[k]).id,
                )
        }),
    decreases deployments.len(),
{
    if deployments.len() > 0 {
        let rest = deployments.drop_last();
        let d = deployments.last();
        assert forall|k: int| 0 <= k < rest.len() implies is_stored(t, #[trigger] rest[k]) by {
            assert(rest[k] == deployments[k]);
        }
        lemma_polled_each_keeps_limits(t, start, rest, asset_id, over_limit, tickets);
        let (before, earlier) = polled_each(t, rest, asset_id, over_limit, tickets);
        assert(is_stored(t, deployments[deployments.len() - 1]));
        assert(is_stored(before, d));
        if earlier is Ok {
            lemma_polled_one_keeps_limits(
                before,
                start,
                d,
                asset_id,
                over_limit.contains(d.id),
                tickets[deployments.len() - 1],
            );
        }
    }
}

/// Asking for commands keeps the rows orderly, and the commands handed out are under way.
pub proof fn law_poll_keeps_order(
    t: TablesView,
    asset_id: Seq<char>,
    over_limit: Seq<Seq<char>>,
    tickets: Seq<TicketView>,
)
    requires
        is_orderly(t),
    ensures
        is_orderly(polled(t, asset_id, over_limit, tickets).0),
        polled(t, asset_id, over_limit, tickets).1 is Ok ==> forall|k: int|
            0 <= k < polled(t, asset_id, over_limit, tickets).1->Ok_0.len() ==> is_running(
                polled(t, asset_id, over_limit, tickets).0,
                (#[trigger] polled(t, asset_id, over_limit, tickets).1->Ok_0[k]).id,
            ),
{
    let after = polled(t, asset_id, over_limit, tickets).0;
    lemma_limits_since_none(t);
    lemma_polled_keeps_limits(t, Seq::empty(), asset_id, over_limit, tickets);
    lemma_limits_since_none(after);
}

proof fn lemma_polled_keeps_limits(
    t: TablesView,
    before: Seq<CommandRowView>,
    asset_id: Seq<char>,
    over_limit: Seq<Seq<char>>,
    tickets: Seq<TicketView>,
)
    requires
        is_sound(t),
        within_limits_since(t, before),
    ensures
        ({
            let (after, outcome) = polled(t, asset_id, over_limit, tickets);
            &&& is_sound(after)
            &&& within_limits_since(after, before)
            &&& same_strategies(t, after)
            &&& outcome is Ok ==> forall|k: int|
                0 <= k < outcome->Ok_0.len() ==> is_running(
                    after,
                    (#[trigger] outcome->Ok_0[k]).id,
                )
        }),
{
    if asset_of(t, asset_id) is Ok && deployment_list(t) is Ok {
        let list = deployment_list(t)->Ok_0;
        let active = active_among(list);
        lemma_filter_embeds(list, |d: DeploymentRecordView| d.status is Active);
        assert forall|k: int| 0 <= k < active.len() implies is_stored(t, #[trigger] active[k]) by {
            assert(list.contains(active[k]));
            let j = choose|j: int| 0 <= j < list.len() && list[j] == active[k];
            lemma_listed_stored(t, j);
        }
        lemma_polled_each_keeps_limits(t, before, active, asset_id, over_limit, tickets);
    }
}

/// Where a deployment cannot be read, asking for commands changes nothing.
proof fn lemma_unread_unchanged(
    t: TablesView,
    asset_id: Seq<char>,
    over_limit: Seq<Seq<char>>,
    tickets: Seq<TicketView>,
    i: int,
)
    requires
        0 <= i < t.deployments.len(),
        t.deployments[i].strategy is Err,
    ensures
        polled(t, asset_id, over_limit, tickets).0 == t,
        polled(t, asset_id, over_limit, tickets).1 is Err,
{
    if deployment_list(t) is Ok {
        let items = deployments_read(t.deployments);
        let order = descending(deployment_keys(t.deployments));
        law_listing_order(deployment_keys(t.deployments), t.deployments.len(), true);
        lemma_collected_items(items);
        assert(order.contains(i));
        let k = choose|k: int| 0 <= k < order.len() && order[k] == i;
        assert(items[k] == deployment_in(t.deployments[i]));
    }
}

/// Whether each deployment has at most as many commands under way as it had before or as its
/// strategy allows, whichever is more. One whose strategy cannot be read allows none.
pub open spec fn no_more_than_allowed(before: TablesView, after: TablesView) -> bool {
    forall|i: int|
        0 <= i < before.deployments.len() ==> under_way(
            after.commands,
            (#[trigger] before.deployments[i]).id,
        ) <= larger(
            under_way(before.commands, before.deployments[i].id),
            match before.deployments[i].strategy {
                Ok(strategy) => strategy.max_parallel as nat,
                Err(_) => 0,
            },
        )
}

/// After an asset has asked for commands, each deployment has at most as many commands under way
/// as it had before or as its strategy allows, whichever is more, however many that were.
pub proof fn law_poll_adds_only_what_is_allowed(
    t: TablesView,
    asset_id: Seq<char>,
    over_limit: Seq<Seq<char>>,
    tickets: Seq<TicketView>,
)
    requires
        is_sound(t),
    ensures
        no_more_than_allowed(t, polled(t, asset_id, over_limit, tickets).0),
{
    let after = polled(t, asset_id, over_limit, tickets).0;
    lemma_polled_keeps_limits(t, t.commands, asset_id, over_limit, tickets);
    lemma_allowed_since(t, after, asset_id, over_limit, tickets);
}

proof fn lemma_allowed_since(
    t: TablesView,
    after: TablesView,
    asset_id: Seq<char>,
    over_limit: Seq<Seq<char>>,
    tickets: Seq<TicketView>,
)
    requires
        within_limits_since(after, t.commands),
        same_strategies(t, after),
        polled(t, asset_id, over_limit, tickets).1 is Err ==> after == polled(
            t,
            asset_id,
            over_limit,
            tickets,
        ).0,
    ensures
        no_more_than_allowed(t, after),
{
    assert forall|i: int| 0 <= i < t.deployments.len() implies under_way(
        after.commands,
        (#[trigger] t.deployments[i]).id,
    ) <= larger(
        under_way(t.commands, t.deployments[i].id),
        match t.deployments[i].strategy {
            Ok(strategy) => strategy.max_parallel as nat,
            Err(_) => 0,
        },
    ) by {
        assert(after.deployments[i].id == t.deployments[i].id);
        assert(after.deployments[i].strategy == t.deployments[i].strategy);
        if t.deployments[i].strategy is Err {
            lemma_unread_unchanged(t, asset_id, over_limit, tickets, i);
        }
    }
}

/// After an agent has asked for commands and they have begun to run, each deployment has at most
/// as many commands under way as it had before or as its strategy allows, whichever is more.
pub proof fn law_agent_poll_adds_only_what_is_allowed(
    t: TablesView,
    asset_id: Seq<char>,
    over_limit: Seq<Seq<char>>,
    tickets: Seq<TicketView>,
    times: Seq<Timestamp>,
)
    requires
        is_sound(t),
    ensures
        no_more_than_allowed(t, agent_polled(t, asset_id, over_limit, tickets, times).0),
{
    let (asked, outcome) = polled(t, asset_id, over_limit, tickets);
    lemma_polled_keeps_limits(t, t.commands, asset_id, over_limit, tickets);
    if outcome is Ok {
        lemma_all_running_keeps_limits(asked, t.commands, outcome->Ok_0, times);
    }
    let after = agent_polled(t, asset_id, over_limit, tickets, times).0;
    lemma_allowed_since(t, after, asset_id, over_limit, tickets);
}

proof fn lemma_running_keeps_limits(
    t: TablesView,
    before: Seq<CommandRowView>,
    id: Seq<char>,
    now: Timestamp,
)
    requires
        is_sound(t),
        within_limits_since(t, before),
        is_running(t, id),
    ensures
        is_sound(running(t, id, now)),
        within_limits_since(running(t, id, now), before),
        same_strategies(t, running(t, id, now)),
        forall|other: Seq<char>| is_running(t, other) ==> #[trigger] is_running(
            running(t, id, now),
            other,
        ),
{
    let after = running(t, id, now);
    let change = CommandChangeView {
        id,
        status: CommandStatus::Running.name(),
        updated_at: crate::clock::rfc3339_text(now.secs, now.nanos),
    };
    let w = WriteView::SetCommandStatus(change);
    assert(step(t, w) == Ok::<TablesView, DbErrorView>(after));
    law_statement_keeps_integrity(t, w);
    let at = choose|i: int|
        0 <= i < t.commands.len() && (#[trigger] t.commands[i]).id == id && is_under_way(
            t.commands[i],
            t.commands[i].deployment_id,
        );
    assert forall|i: int|
        0 <= i < after.deployments.len() && (
        #[trigger] after.deployments[i]).strategy is Ok implies under_way(
        after.commands,
        after.deployments[i].id,
    ) <= larger(
        under_way(before, after.deployments[i].id),
        after.deployments[i].strategy->Ok_0.max_parallel as nat,
    ) by {
        let d = after.deployments[i].id;
        assert forall|j: int|
            0 <= j < after.commands.len() && is_under_way(
                #[trigger] after.commands[j],
                d,
            ) implies is_under_way(t.commands[j], d) by {
            if t.commands[j].id == id {
                assert(j == at);
            }
        }
        lemma_under_way_less(t.commands, after.commands, d);
    }
    assert forall|other: Seq<char>| is_running(t, other) implies #[trigger] is_running(
        after,
        other,
    ) by {
        let j = choose|j: int|
            0 <= j < t.commands.len() && (#[trigger] t.commands[j]).id == other && is_under_way(
                t.commands[j],
                t.commands[j].deployment_id,
            );
        assert(after.commands[j].id == other);
    }
}

proof fn lemma_all_running_keeps_limits(
    t: TablesView,
    start: Seq<CommandRowView>,
    commands: Seq<CommandRecordView>,
    times: Seq<Timestamp>,
)
    requires
        is_sound(t),
        within_limits_since(t, start),
        forall|k: int| 0 <= k < commands.len() ==> is_running(t, (#[trigger] commands[k]).id),
    ensures
        is_sound(all_running(t, commands, times)),
        within_limits_since(all_running(t, commands, times), start),
        same_strategies(t, all_running(t, commands, times)),
        forall|id: Seq<char>| is_running(t, id) ==> #[trigger] is_running(
            all_running(t, commands, times),
            id,
        ),
    decreases commands.len(),
{
    if commands.len() > 0 {
        let rest = commands.drop_last();
        assert forall|k: int| 0 <= k < rest.len() implies is_running(t, (#[trigger] rest[k]).id) by {
            assert(rest[k] == commands[k]);
        }
        lemma_all_running_keeps_limits(t, start, rest, times);
        assert(is_running(t, commands[commands.len() - 1].id));
        let before = all_running(t, rest, times);
        assert(is_running(before, commands.last().id));
        lemma_running_keeps_limits(
            before,
            start,
            commands.last().id,
            times[commands.len() - 1],
        );
    }
}

/// An agent's asking for commands keeps the rows orderly.
pub proof fn law_agent_poll_keeps_order(
    t: TablesView,
    asset_id: Seq<char>,
    over_limit: Seq<Seq<char>>,
    tickets: Seq<TicketView>,
    times: Seq<Timestamp>,
)
    requires
        is_orderly(t),
    ensures
        is_orderly(agent_polled(t, asset_id, over_limit, tickets, times).0),
{
    law_poll_keeps_order(t, asset_id, over_limit, tickets);
    let (after, outcome) = polled(t, asset_id, over_limit, tickets);
    if outcome is Ok {
        lemma_limits_since_none(after);
        lemma_all_running_keeps_limits(after, Seq::empty(), outcome->Ok_0, times);
        lemma_limits_since_none(all_running(after, outcome->Ok_0, times));
    }
}

/// A result keeps the rows orderly.
pub proof fn law_result_keeps_order(t: TablesView, req: AgentResultRequestView, now: Timestamp)
    requires
        is_orderly(t),
    ensures
        is_orderly(result_submitted(t, req, now).0),
{
    let w = result_write(req, now);
    if step(t, w) is Ok {
        let stored = step(t, w)->Ok_0;
        law_statement_keeps_integrity(t, w);
        let all = closing_writes(req, command_row(stored.commands, req.command_id)->0, now);
        law_statements_keep_integrity(stored, all);
        let moved = step(stored, all[0])->Ok_0;
        assert(performed(stored, all) == performed(moved, all.skip(1)));
        assert forall|k: int| 0 <= k < all.skip(1).len() implies is_quiet(
            #[trigger] all.skip(1)[k],
        ) by {}
        lemma_quiet(moved, all.skip(1));
        assert forall|i: int|
            0 <= i < moved.deployments.len() && (
            #[trigger] moved.deployments[i]).strategy is Ok implies under_way(
            moved.commands,
            moved.deployments[i].id,
        ) <= moved.deployments[i].strategy->Ok_0.max_parallel by {
            let d = moved.deployments[i].id;
            assert forall|j: int|
                0 <= j < moved.commands.len() && is_under_way(
                    #[trigger] moved.commands[j],
                    d,
                ) implies is_under_way(stored.commands[j], d) by {
                lemma_ended_not_under_way(req.success);
            }
            lemma_under_way_less(stored.commands, moved.commands, d);
        }
    }
}

proof fn lemma_ended_not_under_way(success: bool)
    ensures
        crate::db::commands::ended_command(success).name() != "queued"@,
        crate::db::commands::ended_command(success).name() != "running"@,
{
    reveal_strlit("queued");
    reveal_strlit("running");
    reveal_strlit("succeeded");
    reveal_strlit("failed");
    assert("queued"@[0] == 'q' && "running"@[0] == 'r');
    assert("succeeded"@[0] == 's' && "failed"@[0] == 'f');
}

} // verus!
