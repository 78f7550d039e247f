//! What asking for commands a second time gives.

use crate::api::{agent_polled, all_running, ApiErrorView};
use crate::clock::{reads_back, Timestamp};
use crate::db::assets::asset_of;
use crate::db::commands::{
    active_among, are_tickets, is_held_back, is_under_way, is_waiting, issue_writes, polled,
    polled_each, polled_one, target_on, under_way, TicketView,
};
use crate::db::deployments::{
    deployment_in, deployment_keys, deployment_list, deployments_read, target_list, targets_of,
    with_status,
};
use crate::db::error::DbErrorView;
use crate::db::integrity::{
    is_sound, law_statement_keeps_integrity, law_statements_keep_integrity, lemma_filter_embeds,
};
use crate::db::limits::{lemma_issued, lemma_under_way_less, lemma_under_way_push};
use crate::db::order::{descending, law_listing_order, listed_before};
use crate::db::rollout::{law_no_second_command, lemma_filter_has};
use crate::db::shared::{lemma_collected_items, lemma_collected_reads};
use crate::db::tables::{DeploymentRowView, TablesView, TargetRowView};
use crate::db::writes::{
    issued, issued_row, step, DeploymentChangeView, TargetIssueView, WriteView,
};
use crate::types::records::{CommandRecordView, DeploymentRecordView};
use crate::types::status::{law_deployment_status_round_trip, DeploymentStatus};
use vstd::prelude::*;

verus! {

/// Whether a deployment has no command for an asset, and asking for one changes nothing: the asset
/// is no target, or one that does not wait, or the deployment is not over its limit of failures
/// and has to hold its commands back.
pub open spec fn has_nothing(
    t: TablesView,
    deployment: DeploymentRecordView,
    asset_id: Seq<char>,
    over_limit: bool,
) -> bool {
    match target_list(t, deployment.id) {
        Err(_) => false,
        Ok(targets) => match target_on(targets, asset_id) {
            None => true,
            Some(target) => {
                ||| !is_waiting(target.state)
                ||| !over_limit && (under_way(t.commands, deployment.id)
                    >= deployment.strategy.max_parallel || is_held_back(
                    targets,
                    deployment.strategy.canary as nat,
                    asset_id,
                ))
            },
        },
    }
}

/// Whether a deployment is aborted.
pub open spec fn is_aborted(t: TablesView, id: Seq<char>) -> bool {
    forall|i: int|
        0 <= i < t.deployments.len() && (#[trigger] t.deployments[i]).id == id
            ==> t.deployments[i].status == DeploymentStatus::Aborted.name()
}

/// Whether rows differ from earlier ones in nothing but deployments that were aborted, as far as
/// assets and deployments go.
pub open spec fn only_aborts(before: TablesView, after: TablesView) -> bool {
    &&& after.assets == before.assets
    &&& after.labels == before.labels
    &&& after.deployments.len() == before.deployments.len()
    &&& forall|i: int|
        0 <= i < after.deployments.len() ==> (#[trigger] after.deployments[i]
            == before.deployments[i] || after.deployments[i] == (DeploymentRowView {
            status: DeploymentStatus::Aborted.name(),
            ..before.deployments[i]
        }))
}

/// Where nothing that is asked for changes, what is left stays.
proof fn lemma_others_left(rows: Seq<TargetRowView>, c: TargetIssueView, d: Seq<char>)
    requires
        c.deployment_id != d,
    ensures
        targets_of(issued(rows, c), d) == targets_of(rows, d),
    decreases rows.len(),
{
    reveal(Seq::filter);
    if rows.len() > 0 {
        lemma_others_left(rows.drop_last(), c, d);
        assert(issued(rows, c).drop_last() =~= issued(rows.drop_last(), c));
        assert(issued(rows, c).last() == issued_row(rows.last(), c));
    }
}

/// After an asset has asked for the command of one deployment, that deployment has nothing for it
/// or is aborted, and a deployment that had nothing for it still has nothing.
proof fn lemma_asked_one(
    t: TablesView,
    deployment: DeploymentRecordView,
    asset_id: Seq<char>,
    over_limit: bool,
    ticket: TicketView,
)
    requires
        is_sound(t),
        reads_back(ticket.at),
        polled_one(t, deployment, asset_id, over_limit, ticket).1 is Ok,
    ensures
        ({
            let after = polled_one(t, deployment, asset_id, over_limit, ticket).0;
            &&& is_sound(after)
            &&& only_aborts(t, after)
            &&& has_nothing(after, deployment, asset_id, over_limit) || is_aborted(
                after,
                deployment.id,
            )
            &&& forall|d: DeploymentRecordView, over: bool|
                d.id != deployment.id && has_nothing(t, d, asset_id, over)
                    ==> #[trigger] has_nothing(after, d, asset_id, over)
            &&& forall|id: Seq<char>| is_aborted(t, id) ==> #[trigger] is_aborted(after, id)
        }),
{
    let (after, outcome) = polled_one(t, deployment, asset_id, over_limit, ticket);
    let aborted = with_status(t, deployment.id, DeploymentStatus::Aborted);
    let w = WriteView::SetDeploymentStatus(
        DeploymentChangeView { id: deployment.id, status: DeploymentStatus::Aborted.name() },
    );
    assert(step(t, w) == Ok::<TablesView, DbErrorView>(aborted));
    law_statement_keeps_integrity(t, w);
    lemma_issued(t, deployment, asset_id, ticket);
    law_statements_keep_integrity(t, issue_writes(deployment, asset_id, ticket));
    if outcome->Ok_0 is Some {
        law_no_second_command(t, deployment, asset_id, over_limit, ticket, over_limit, ticket);
        let all = issue_writes(deployment, asset_id, ticket);
        assert forall|d: DeploymentRecordView, over: bool|
            d.id != deployment.id && has_nothing(
                t,
                d,
                asset_id,
                over,
            ) implies #[trigger] has_nothing(after, d, asset_id, over) by {
            lemma_others_left(t.targets, all[1]->IssueTarget_0, d.id);
            lemma_under_way_push(t.commands, all[0]->InsertCommand_0, d.id);
        }
    } else if after != t {
        assert(after == aborted);
    }
}

/// After an asset has asked for the commands of deployments, each of them has nothing for it or
/// is aborted.
proof fn lemma_asked_each(
    t: TablesView,
    deployments: Seq<DeploymentRecordView>,
    asset_id: Seq<char>,
    over_limit: Seq<Seq<char>>,
    tickets: Seq<TicketView>,
)
    requires
        is_sound(t),
        deployments.len() <= tickets.len(),
        forall|k: int| 0 <= k < tickets.len() ==> reads_back((#[trigger] tickets[k]).at),
        forall|i: int, j: int|
            0 <= i < j < deployments.len() ==> (#[trigger] deployments[i]).id != (
            #[trigger] deployments[j]).id,
        polled_each(t, deployments, asset_id, over_limit, tickets).1 is Ok,
    ensures
        ({
            let after = polled_each(t, deployments, asset_id, over_limit, tickets).0;
            &&& is_sound(after)
            &&& only_aborts(t, after)
            &&& forall|j: int|
                0 <= j < deployments.len() ==> has_nothing(
                    after,
                    #[trigger] deployments[j],
                    asset_id,
                    over_limit.contains(deployments[j].id),
                ) || is_aborted(after, deployments[j].id)
        }),
    decreases deployments.len(),
{
    if deployments.len() > 0 {
        let rest = deployments.drop_last();
        let last = deployments.last();
        let before = polled_each(t, rest, asset_id, over_limit, tickets).0;
        let after = polled_each(t, deployments, asset_id, over_limit, tickets).0;
        assert forall|i: int, j: int| 0 <= i < j < rest.len() implies (#[trigger] rest[i]).id != (
        #[trigger] rest[j]).id by {
            assert(deployments[i].id != deployments[j].id);
        }
        lemma_asked_each(t, rest, asset_id, over_limit, tickets);
        assert(reads_back(tickets[deployments.len() - 1].at));
        lemma_asked_one(
            before,
            last,
            asset_id,
            over_limit.contains(last.id),
            tickets[deployments.len() - 1],
        );
        assert forall|j: int| 0 <= j < deployments.len() implies has_nothing(
            after,
            #[trigger] deployments[j],
            asset_id,
            over_limit.contains(deployments[j].id),
        ) || is_aborted(after, deployments[j].id) by {
            if j < rest.len() {
                assert(rest[j] == deployments[j]);
                assert(deployments[j].id != deployments[deployments.len() - 1].id);
            }
        }
        assert(only_aborts(t, after)) by {
            assert forall|i: int| 0 <= i < after.deployments.len() implies (
            #[trigger] after.deployments[i] == t.deployments[i] || after.deployments[i] == (
            DeploymentRowView {
                status: DeploymentStatus::Aborted.name(),
                ..t.deployments[i]
            })) by {
                assert(before.deployments[i] == t.deployments[i] || before.deployments[i] == (
                DeploymentRowView {
                    status: DeploymentStatus::Aborted.name(),
                    ..t.deployments[i]
                }));
            }
        }
    }
}

/// Asking deployments that have nothing gives nothing and changes nothing.
proof fn lemma_nothing_each(
    t: TablesView,
    deployments: Seq<DeploymentRecordView>,
    asset_id: Seq<char>,
    over_limit: Seq<Seq<char>>,
    tickets: Seq<TicketView>,
)
    requires
        forall|j: int|
            0 <= j < deployments.len() ==> has_nothing(
                t,
                #[trigger] deployments[j],
                asset_id,
                over_limit.contains(deployments[j].id),
            ),
    ensures
        polled_each(t, deployments, asset_id, over_limit, tickets) == (
            t,
            Ok::<Seq<CommandRecordView>, DbErrorView>(Seq::empty()),
        ),
    decreases deployments.len(),
{
    if deployments.len() > 0 {
        let rest = deployments.drop_last();
        assert forall|j: int| 0 <= j < rest.len() implies has_nothing(
            t,
            #[trigger] rest[j],
            asset_id,
            over_limit.contains(rest[j].id),
        ) by {
            assert(rest[j] == deployments[j]);
        }
        lemma_nothing_each(t, rest, asset_id, over_limit, tickets);
        assert(has_nothing(
            t,
            deployments[deployments.len() - 1],
            asset_id,
            over_limit.contains(deployments.last().id),
        ));
    }
}

/// The listed deployments are rows of the table, each once.
pub proof fn lemma_deployments_listed(t: TablesView)
    requires
        is_sound(t),
        deployment_list(t) is Ok,
    ensures
        ({
            let list = deployment_list(t)->Ok_0;
            let order = descending(deployment_keys(t.deployments));
            &&& list.len() == t.deployments.len()
            &&& order.len() == list.len()
            &&& forall|k: int|
                0 <= k < list.len() ==> 0 <= order[k] < t.deployments.len() && deployment_in(
                    t.deployments[order[k]],
                ) == Ok::<DeploymentRecordView, Seq<char>>(#[trigger] list[k])
            &&& forall|i: int, j: int|
                0 <= i < j < list.len() ==> (#[trigger] list[i]).id != (#[trigger] list[j]).id
        }),
{
    let list = deployment_list(t)->Ok_0;
    let items = deployments_read(t.deployments);
    let keys = deployment_keys(t.deployments);
    let order = descending(keys);
    law_listing_order(keys, keys.len(), true);
    lemma_collected_items(items);
    assert forall|k: int| 0 <= k < list.len() implies 0 <= order[k] < t.deployments.len()
        && deployment_in(t.deployments[order[k]]) == Ok::<DeploymentRecordView, Seq<char>>(
        #[trigger] list[k],
    ) by {
        assert(0 <= order[k] < t.deployments.len());
        assert(items[k] == deployment_in(t.deployments[order[k]]));
    }
    assert forall|i: int, j: int| 0 <= i < j < list.len() implies (#[trigger] list[i]).id != (
    #[trigger] list[j]).id by {
        assert(listed_before(keys, order[i], order[j], true));
        if order[i] == order[j] {
            crate::text::lemma_precedes_irreflexive(keys[order[i]]);
        }
        assert(t.deployments[order[i]].id != t.deployments[order[j]].id);
    }
}

/// What is left of deployments that differ in their identifiers differs in them.
pub proof fn lemma_active_apart(
    s: Seq<DeploymentRecordView>,
    p: spec_fn(DeploymentRecordView) -> bool,
)
    requires
        forall|i: int, j: int|
            0 <= i < j < s.len() ==> (#[trigger] s[i]).id != (#[trigger] s[j]).id,
    ensures
        s.filter(p).len() <= s.len(),
        forall|i: int, j: int|
            0 <= i < j < s.filter(p).len() ==> (#[trigger] s.filter(p)[i]).id != (
            #[trigger] s.filter(p)[j]).id,
    decreases s.len(),
{
    reveal(Seq::filter);
    if s.len() > 0 {
        let rest = s.drop_last();
        lemma_active_apart(rest, p);
        lemma_filter_embeds(rest, p);
        assert forall|i: int, j: int| 0 <= i < j < s.filter(p).len() implies (
        #[trigger] s.filter(p)[i]).id != (#[trigger] s.filter(p)[j]).id by {
            if j < rest.filter(p).len() {
                assert(rest.filter(p)[i].id != rest.filter(p)[j].id);
            } else {
                assert(rest.contains(rest.filter(p)[i]));
                let k = choose|k: int| 0 <= k < rest.len() && rest[k] == rest.filter(p)[i];
                assert(s[k].id != s[s.len() - 1].id);
            }
        }
    }
}

/// After deployments were aborted, those that are still active are as they were.
proof fn lemma_active_left(before: TablesView, after: TablesView)
    requires
        is_sound(before),
        is_sound(after),
        only_aborts(before, after),
        deployment_list(before) is Ok,
    ensures
        deployment_list(after) is Ok,
        ({
            let was = active_among(deployment_list(before)->Ok_0);
            let left = active_among(deployment_list(after)->Ok_0);
            forall|k: int|
                0 <= k < left.len() ==> was.contains(#[trigger] left[k]) && !is_aborted(
                    after,
                    left[k].id,
                )
        }),
{
    let active = |d: DeploymentRecordView| d.status is Active;
    law_deployment_status_round_trip(DeploymentStatus::Aborted);
    lemma_deployments_listed(before);
    let list = deployment_list(before)->Ok_0;
    let keys = deployment_keys(before.deployments);
    let order = descending(keys);
    assert(deployment_keys(after.deployments) =~= keys) by {
        assert forall|i: int| 0 <= i < after.deployments.len() implies (
        #[trigger] after.deployments[i]).created_at == before.deployments[i].created_at by {}
    }
    let items = deployments_read(after.deployments);
    assert forall|k: int| 0 <= k < items.len() implies (#[trigger] items[k]) is Ok by {
        assert(deployment_in(before.deployments[order[k]]) == Ok::<
            DeploymentRecordView,
            Seq<char>,
        >(list[k]));
        assert(items[k] == deployment_in(after.deployments[order[k]]));
        assert(after.deployments[order[k]].id == before.deployments[order[k]].id);
    }
    lemma_collected_reads(items);
    lemma_deployments_listed(after);
    let now = deployment_list(after)->Ok_0;
    let left = active_among(now);
    lemma_filter_embeds(now, active);
    assert forall|k: int| 0 <= k < left.len() implies active_among(list).contains(
        #[trigger] left[k],
    ) && !is_aborted(after, left[k].id) by {
        assert(now.contains(left[k]));
        assert(active(left[k]));
        let j = choose|j: int| 0 <= j < now.len() && now[j] == left[k];
        let row = after.deployments[order[j]];
        assert(deployment_in(row) == Ok::<DeploymentRecordView, Seq<char>>(now[j]));
        assert(deployment_in(before.deployments[order[j]]) == Ok::<
            DeploymentRecordView,
            Seq<char>,
        >(list[j]));
        assert(row.status != DeploymentStatus::Aborted.name());
        assert(row == before.deployments[order[j]]);
        assert(list[j] == left[k]);
        lemma_filter_has(list, active, j);
        assert(row.id == left[k].id);
    }
}

/// An asset that asks for commands and then asks again, with the same deployments over their
/// limits of failures, gets nothing more: the second answer is empty, and nothing changes.
pub proof fn law_second_poll_gives_nothing(
    t: TablesView,
    asset_id: Seq<char>,
    over_limit: Seq<Seq<char>>,
    tickets: Seq<TicketView>,
    later_tickets: Seq<TicketView>,
)
    requires
        is_sound(t),
        are_tickets(tickets, t.deployments.len()),
        forall|k: int| 0 <= k < tickets.len() ==> reads_back((#[trigger] tickets[k]).at),
        polled(t, asset_id, over_limit, tickets).1 is Ok,
    ensures
        ({
            let after = polled(t, asset_id, over_limit, tickets).0;
            polled(after, asset_id, over_limit, later_tickets) == (
                after,
                Ok::<Seq<CommandRecordView>, DbErrorView>(Seq::empty()),
            )
        }),
{
    let after = polled(t, asset_id, over_limit, tickets).0;
    lemma_poll_leaves_nothing(t, asset_id, over_limit, tickets);
    lemma_nothing_each(
        after,
        active_among(deployment_list(after)->Ok_0),
        asset_id,
        over_limit,
        later_tickets,
    );
}

/// After an asset has asked for commands, no active deployment has anything for it.
proof fn lemma_poll_leaves_nothing(
    t: TablesView,
    asset_id: Seq<char>,
    over_limit: Seq<Seq<char>>,
    tickets: Seq<TicketView>,
)
    requires
        is_sound(t),
        are_tickets(tickets, t.deployments.len()),
        forall|k: int| 0 <= k < tickets.len() ==> reads_back((#[trigger] tickets[k]).at),
        polled(t, asset_id, over_limit, tickets).1 is Ok,
    ensures
        ({
            let after = polled(t, asset_id, over_limit, tickets).0;
            let left = active_among(deployment_list(after)->Ok_0);
            &&& asset_of(after, asset_id) is Ok
            &&& deployment_list(after) is Ok
            &&& forall|k: int|
                0 <= k < left.len() ==> has_nothing(
                    after,
                    #[trigger] left[k],
                    asset_id,
                    over_limit.contains(left[k].id),
                )
        }),
{
    let after = polled(t, asset_id, over_limit, tickets).0;
    let list = deployment_list(t)->Ok_0;
    let active = |d: DeploymentRecordView| d.status is Active;
    let was = active_among(list);
    lemma_deployments_listed(t);
    lemma_active_apart(list, active);
    lemma_asked_each(t, was, asset_id, over_limit, tickets);
    lemma_active_left(t, after);
    let left = active_among(deployment_list(after)->Ok_0);
    assert forall|k: int| 0 <= k < left.len() implies has_nothing(
        after,
        #[trigger] left[k],
        asset_id,
        over_limit.contains(left[k].id),
    ) by {
        let j = choose|j: int| 0 <= j < was.len() && was[j] == left[k];
        assert(was[j] == left[k]);
    }
}

/// That commands have begun to run leaves those that are under way, and all other rows.
proof fn lemma_running_leaves(
    t: TablesView,
    commands: Seq<CommandRecordView>,
    times: Seq<Timestamp>,
    d: Seq<char>,
)
    ensures
        ({
            let after = all_running(t, commands, times);
            &&& under_way(t.commands, d) <= under_way(after.commands, d)
            &&& after == (TablesView { commands: after.commands, ..t })
        }),
    decreases commands.len(),
{
    if commands.len() > 0 {
        let before = all_running(t, commands.drop_last(), times);
        let after = all_running(t, commands, times);
        lemma_running_leaves(t, commands.drop_last(), times, d);
        assert forall|i: int|
            0 <= i < before.commands.len() && is_under_way(
                #[trigger] before.commands[i],
                d,
            ) implies is_under_way(after.commands[i], d) by {}
        lemma_under_way_less(after.commands, before.commands, d);
    }
}

/// An agent that asks for commands and then asks again, with the same deployments over their
/// limits of failures, gets nothing more: the second answer is empty, and nothing changes.
pub proof fn law_second_agent_poll_gives_nothing(
    t: TablesView,
    asset_id: Seq<char>,
    over_limit: Seq<Seq<char>>,
    tickets: Seq<TicketView>,
    times: Seq<Timestamp>,
    later_tickets: Seq<TicketView>,
    later_times: Seq<Timestamp>,
)
    requires
        is_sound(t),
        are_tickets(tickets, t.deployments.len()),
        forall|k: int| 0 <= k < tickets.len() ==> reads_back((#[trigger] tickets[k]).at),
        agent_polled(t, asset_id, over_limit, tickets, times).1 is Ok,
    ensures
        ({
            let after = agent_polled(t, asset_id, over_limit, tickets, times).0;
            agent_polled(after, asset_id, over_limit, later_tickets, later_times) == (
                after,
                Ok::<Seq<CommandRecordView>, ApiErrorView>(Seq::empty()),
            )
        }),
{
    let (asked, outcome) = polled(t, asset_id, over_limit, tickets);
    let after = agent_polled(t, asset_id, over_limit, tickets, times).0;
    lemma_poll_leaves_nothing(t, asset_id, over_limit, tickets);
    lemma_running_leaves(asked, outcome->Ok_0, times, Seq::empty());
    let left = active_among(deployment_list(after)->Ok_0);
    assert forall|k: int| 0 <= k < left.len() implies has_nothing(
        after,
        #[trigger] left[k],
        asset_id,
        over_limit.contains(left[k].id),
    ) by {
        lemma_running_leaves(asked, outcome->Ok_0, times, left[k].id);
        assert(has_nothing(asked, left[k], asset_id, over_limit.contains(left[k].id)));
    }
    lemma_nothing_each(after, left, asset_id, over_limit, later_tickets);
}

} // verus!
