//! Deployments do not get in each other's way: what an asset gets of each is decided by the rows
//! of that deployment.

use crate::db::assets::asset_of;
use crate::db::commands::{
    active_among, are_tickets, install_command, install_row, is_held_back, is_waiting,
    issue_writes, polled, polled_each, polled_one, target_on, under_way, TicketView,
};
use crate::db::deployments::{deployment_list, target_list, targets_of};
use crate::db::error::DbErrorView;
use crate::db::integrity::is_sound;
use crate::db::limits::lemma_issued;
use crate::db::releases::release_of;
use crate::db::repeat::{lemma_active_apart, lemma_deployments_listed};
use crate::db::tables::{
    command_row, deployment_row, lemma_command_row, lemma_deployment_row, CommandRowView,
    TablesView, TargetRowView,
};
use crate::db::writes::{issued, issued_row, TargetIssueView};
use crate::types::records::{CommandRecordView, DeploymentRecordView};
use vstd::prelude::*;

verus! {

/// The rows of the commands of a deployment in the order of storage.
pub open spec fn commands_of(rows: Seq<CommandRowView>, deployment_id: Seq<char>) -> Seq<
    CommandRowView,
> {
    rows.filter(|row: CommandRowView| row.deployment_id == deployment_id)
}

/// Whether two tables hold the same rows of a deployment: the deployment itself, its targets and
/// its commands.
pub open spec fn rows_agree(a: TablesView, b: TablesView, id: Seq<char>) -> bool {
    &&& a.deployments.len() == b.deployments.len()
    &&& forall|i: int|
        0 <= i < a.deployments.len() && b.deployments[i].id == id ==> #[trigger] a.deployments[i]
            == b.deployments[i]
    &&& targets_of(a.targets, id) == targets_of(b.targets, id)
    &&& commands_of(a.commands, id) == commands_of(b.commands, id)
}

/// Whether one of the deployments has this identifier.
pub open spec fn are_about(deployments: Seq<DeploymentRecordView>, id: Seq<char>) -> bool {
    exists|k: int| 0 <= k < deployments.len() && (#[trigger] deployments[k]).id == id
}

/// The commands that an asset gets of deployments, each of them asked with the same rows.
pub open spec fn decided_alone(
    t: TablesView,
    deployments: Seq<DeploymentRecordView>,
    asset_id: Seq<char>,
    over_limit: Seq<Seq<char>>,
    tickets: Seq<TicketView>,
) -> Result<Seq<CommandRecordView>, DbErrorView>
    decreases deployments.len(),
{
    if deployments.len() == 0 {
        Ok(Seq::empty())
    } else {
        match decided_alone(t, deployments.drop_last(), asset_id, over_limit, tickets) {
            Err(e) => Err(e),
            Ok(commands) => match polled_one(
                t,
                deployments.last(),
                asset_id,
                over_limit.contains(deployments.last().id),
                tickets[deployments.len() - 1],
            ).1 {
                Err(e) => Err(e),
                Ok(None) => Ok(commands),
                Ok(Some(command)) => Ok(commands.push(command)),
            },
        }
    }
}

/// Whether no two tickets share an identifier.
pub open spec fn tickets_differ(tickets: Seq<TicketView>) -> bool {
    forall|i: int, j: int|
        0 <= i < j < tickets.len() ==> (#[trigger] tickets[i]).id != (#[trigger] tickets[j]).id
}

/// Whether rows have grown out of earlier ones: by commands alone, but for targets and for the
/// states of deployments.
spec fn has_grown(t: TablesView, after: TablesView) -> bool {
    &&& after.releases == t.releases
    &&& after.assets == t.assets
    &&& after.deployments.len() == t.deployments.len()
    &&& forall|i: int|
        0 <= i < t.deployments.len() ==> (#[trigger] after.deployments[i]).id == t.deployments[i].id
    &&& t.commands.len() <= after.commands.len()
    &&& forall|i: int|
        0 <= i < t.commands.len() ==> #[trigger] after.commands[i] == t.commands[i]
}

/// The targets of a deployment after a command was handed out are those from before, with the
/// command handed out.
proof fn lemma_issued_of(rows: Seq<TargetRowView>, c: TargetIssueView, d: Seq<char>)
    ensures
        targets_of(issued(rows, c), d) == issued(targets_of(rows, d), c),
        c.deployment_id != d ==> targets_of(issued(rows, c), d) == targets_of(rows, d),
    decreases rows.len(),
{
    reveal(Seq::filter);
    if rows.len() > 0 {
        let rest = rows.drop_last();
        lemma_issued_of(rest, c, d);
        assert(issued(rows, c).drop_last() =~= issued(rest, c));
        assert(issued(rows, c).last() == issued_row(rows.last(), c));
        if rows.last().deployment_id == d {
            assert(issued(targets_of(rest, d).push(rows.last()), c) =~= issued(
                targets_of(rest, d),
                c,
            ).push(issued_row(rows.last(), c)));
        }
    } else {
        assert(issued(rows, c) =~= rows);
        assert(issued(targets_of(rows, d), c) =~= targets_of(rows, d));
    }
}

proof fn lemma_commands_push(rows: Seq<CommandRowView>, row: CommandRowView, d: Seq<char>)
    ensures
        commands_of(rows.push(row), d) == if row.deployment_id == d {
            commands_of(rows, d).push(row)
        } else {
            commands_of(rows, d)
        },
{
    reveal(Seq::filter);
    assert(rows.push(row).drop_last() =~= rows);
}

/// What is under way of a deployment is told by its commands.
proof fn lemma_under_way_of(rows: Seq<CommandRowView>, d: Seq<char>)
    ensures
        under_way(rows, d) == under_way(commands_of(rows, d), d),
    decreases rows.len(),
{
    reveal(Seq::filter);
    if rows.len() > 0 {
        let rest = rows.drop_last();
        lemma_under_way_of(rest, d);
        assert(rows =~= rest.push(rows.last()));
        lemma_commands_push(rest, rows.last(), d);
        if rows.last().deployment_id == d {
            assert(commands_of(rows, d).drop_last() =~= commands_of(rest, d));
        }
    }
}

/// Asking one deployment for the command of an asset leaves the rows of the others.
proof fn lemma_others_agree(
    t: TablesView,
    deployment: DeploymentRecordView,
    asset_id: Seq<char>,
    over_limit: bool,
    ticket: TicketView,
)
    ensures
        ({
            let after = polled_one(t, deployment, asset_id, over_limit, ticket).0;
            &&& has_grown(t, after)
            &&& forall|id: Seq<char>| id != deployment.id ==> #[trigger] rows_agree(after, t, id)
            &&& forall|i: int|
                t.commands.len() <= i < after.commands.len() ==> (#[trigger] after.commands[i]).id
                    == ticket.id
        }),
{
    let after = polled_one(t, deployment, asset_id, over_limit, ticket).0;
    lemma_issued(t, deployment, asset_id, ticket);
    assert forall|id: Seq<char>| id != deployment.id implies #[trigger] rows_agree(
        after,
        t,
        id,
    ) by {
        lemma_issued_of(
            t.targets,
            issue_writes(deployment, asset_id, ticket)[1]->IssueTarget_0,
            id,
        );
        lemma_commands_push(t.commands, install_row(deployment, asset_id, ticket), id);
    }
}

/// A deployment whose rows are those of earlier tables decides as it did with those, as long as
/// the identifier of the ticket was not taken in between.
proof fn lemma_decides_alike(
    t: TablesView,
    now: TablesView,
    deployment: DeploymentRecordView,
    asset_id: Seq<char>,
    over_limit: bool,
    ticket: TicketView,
)
    requires
        has_grown(t, now),
        rows_agree(now, t, deployment.id),
    ensures
        ({
            let (after, outcome) = polled_one(now, deployment, asset_id, over_limit, ticket);
            let (alone, decision) = polled_one(t, deployment, asset_id, over_limit, ticket);
            let is_free = forall|i: int|
                t.commands.len() <= i < now.commands.len() ==> (#[trigger] now.commands[i]).id
                    != ticket.id;
            outcome is Ok || is_free ==> outcome == decision && rows_agree(
                after,
                alone,
                deployment.id,
            )
        }),
{
    let d = deployment.id;
    let row = install_row(deployment, asset_id, ticket);
    let c = issue_writes(deployment, asset_id, ticket)[1]->IssueTarget_0;
    lemma_under_way_of(t.commands, d);
    lemma_under_way_of(now.commands, d);
    lemma_issued(t, deployment, asset_id, ticket);
    lemma_issued(now, deployment, asset_id, ticket);
    lemma_issued_of(t.targets, c, d);
    lemma_issued_of(now.targets, c, d);
    lemma_commands_push(t.commands, row, d);
    lemma_commands_push(now.commands, row, d);
    lemma_same_deployment_known(t, now, d);
    lemma_command_row(t.commands, ticket.id);
    lemma_command_row(now.commands, ticket.id);
    if command_row(t.commands, ticket.id) is Some {
        let i = choose|i: int| 0 <= i < t.commands.len() && t.commands[i].id == ticket.id;
        assert(now.commands[i].id == ticket.id);
    }
}

proof fn lemma_same_deployment_known(t: TablesView, now: TablesView, d: Seq<char>)
    requires
        has_grown(t, now),
    ensures
        deployment_row(t.deployments, d) is Some <==> deployment_row(now.deployments, d) is Some,
{
    lemma_deployment_row(t.deployments, d);
    lemma_deployment_row(now.deployments, d);
    if deployment_row(t.deployments, d) is Some {
        let i = choose|i: int| 0 <= i < t.deployments.len() && t.deployments[i].id == d;
        assert(now.deployments[i].id == d);
    }
    if deployment_row(now.deployments, d) is Some {
        let i = choose|i: int| 0 <= i < now.deployments.len() && now.deployments[i].id == d;
        assert(t.deployments[i].id == d);
    }
}

proof fn lemma_each_decided_alone(
    t: TablesView,
    deployments: Seq<DeploymentRecordView>,
    asset_id: Seq<char>,
    over_limit: Seq<Seq<char>>,
    tickets: Seq<TicketView>,
)
    requires
        deployments.len() <= tickets.len(),
        forall|i: int, j: int|
            0 <= i < j < deployments.len() ==> (#[trigger] deployments[i]).id != (
            #[trigger] deployments[j]).id,
    ensures
        ({
            let (after, outcome) = polled_each(t, deployments, asset_id, over_limit, tickets);
            &&& has_grown(t, after)
            &&& forall|i: int|
                t.commands.len() <= i < after.commands.len() ==> exists|k: int|
                    0 <= k < deployments.len() && (#[trigger] after.commands[i]).id == (
                    #[trigger] tickets[k]).id
            &&& forall|id: Seq<char>|
                !are_about(deployments, id) ==> #[trigger] rows_agree(after, t, id)
            &&& outcome is Ok || tickets_differ(tickets) ==> outcome == decided_alone(
                t,
                deployments,
                asset_id,
                over_limit,
                tickets,
            )
            &&& outcome is Ok ==> forall|k: int|
                0 <= k < deployments.len() ==> rows_agree(
                    after,
                    polled_one(
                        t,
                        #[trigger] deployments[k],
                        asset_id,
                        over_limit.contains(deployments[k].id),
                        tickets[k],
                    ).0,
                    deployments[k].id,
                )
        }),
    decreases deployments.len(),
{
    if deployments.len() > 0 {
        let n = deployments.len() - 1;
        let rest = deployments.drop_last();
        let last = deployments.last();
        let over = over_limit.contains(last.id);
        let (before, earlier) = polled_each(t, rest, asset_id, over_limit, tickets);
        let (after, outcome) = polled_each(t, deployments, asset_id, over_limit, tickets);
        assert forall|i: int, j: int| 0 <= i < j < rest.len() implies (#[trigger] rest[i]).id != (
        #[trigger] rest[j]).id by {
            assert(deployments[i].id != deployments[j].id);
        }
        lemma_each_decided_alone(t, rest, asset_id, over_limit, tickets);
        assert forall|id: Seq<char>| are_about(rest, id) implies #[trigger] are_about(
            deployments,
            id,
        ) by {
            let k = choose|k: int| 0 <= k < rest.len() && (#[trigger] rest[k]).id == id;
            assert(deployments[k].id == id);
        }
        assert forall|i: int| t.commands.len() <= i < before.commands.len() implies exists|k: int|
            0 <= k < deployments.len() && (#[trigger] before.commands[i]).id == (
            #[trigger] tickets[k]).id by {
            let k = choose|k: int|
                0 <= k < rest.len() && before.commands[i].id == (#[trigger] tickets[k]).id;
            assert(before.commands[i].id == tickets[k].id);
        }
        if earlier is Ok {
            assert(!are_about(rest, last.id)) by {
                if are_about(rest, last.id) {
                    let k = choose|k: int|
                        0 <= k < rest.len() && (#[trigger] rest[k]).id == last.id;
                    assert(deployments[k].id != deployments[n].id);
                }
            }
            assert(rows_agree(before, t, last.id));
            lemma_others_agree(before, last, asset_id, over, tickets[n]);
            lemma_decides_alike(t, before, last, asset_id, over, tickets[n]);
            if tickets_differ(tickets) {
                assert forall|i: int| t.commands.len() <= i < before.commands.len() implies (
                #[trigger] before.commands[i]).id != tickets[n].id by {
                    let k = choose|k: int|
                        0 <= k < rest.len() && before.commands[i].id == (#[trigger] tickets[k]).id;
                    assert(tickets[k].id != tickets[n].id);
                }
            }
            assert forall|i: int|
                t.commands.len() <= i < after.commands.len() implies exists|k: int|
                0 <= k < deployments.len() && (#[trigger] after.commands[i]).id == (
                #[trigger] tickets[k]).id by {
                if i < before.commands.len() {
                    assert(after.commands[i] == before.commands[i]);
                    let k = choose|k: int|
                        0 <= k < rest.len() && before.commands[i].id == (#[trigger] tickets[k]).id;
                    assert(after.commands[i].id == tickets[k].id);
                } else {
                    assert(after.commands[i].id == tickets[n].id);
                }
            }
            assert(has_grown(t, after)) by {
                assert forall|i: int| 0 <= i < t.deployments.len() implies (
                #[trigger] after.deployments[i]).id == t.deployments[i].id by {
                    assert(before.deployments[i].id == t.deployments[i].id);
                }
                assert forall|i: int| 0 <= i < t.commands.len() implies #[trigger] after.commands[i]
                    == t.commands[i] by {
                    assert(before.commands[i] == t.commands[i]);
                }
            }
            assert forall|id: Seq<char>| !are_about(deployments, id) implies #[trigger] rows_agree(
                after,
                t,
                id,
            ) by {
                assert(deployments[n].id != id);
                assert(rows_agree(before, t, id));
                lemma_agree_through(after, before, t, id);
            }
            if outcome is Ok {
                assert forall|k: int| 0 <= k < deployments.len() implies rows_agree(
                    after,
                    polled_one(
                        t,
                        #[trigger] deployments[k],
                        asset_id,
                        over_limit.contains(deployments[k].id),
                        tickets[k],
                    ).0,
                    deployments[k].id,
                ) by {
                    if k < n {
                        let d = rest[k];
                        assert(d == deployments[k]);
                        assert(deployments[k].id != deployments[n].id);
                        let alone = polled_one(
                            t,
                            d,
                            asset_id,
                            over_limit.contains(d.id),
                            tickets[k],
                        ).0;
                        assert(rows_agree(before, alone, d.id));
                        lemma_others_agree(t, d, asset_id, over_limit.contains(d.id), tickets[k]);
                        assert(rows_agree(after, before, d.id));
                        lemma_agree_through(after, before, alone, d.id);
                    }
                }
            }
        }
    }
}

/// Tables that agree with the same tables on a deployment agree on it.
proof fn lemma_agree_through(a: TablesView, b: TablesView, c: TablesView, id: Seq<char>)
    requires
        rows_agree(a, b, id),
        rows_agree(b, c, id),
    ensures
        rows_agree(a, c, id),
{
    assert forall|i: int|
        0 <= i < a.deployments.len() && c.deployments[i].id == id implies #[trigger] a.deployments[i]
        == c.deployments[i] by {
        assert(b.deployments[i] == c.deployments[i]);
    }
}

/// When an asset asks for commands, each active deployment is decided by its rows from before,
/// whatever the others got: the asset gets the commands that it would get of each of them alone,
/// in their order, and the rows of each are those to which asking it alone would lead. The rows of
/// all other deployments stay. Where asking fails although no two tickets share an identifier, it
/// fails as the first of the deployments would that fails alone.
pub proof fn law_deployments_decided_alone(
    t: TablesView,
    asset_id: Seq<char>,
    over_limit: Seq<Seq<char>>,
    tickets: Seq<TicketView>,
)
    requires
        is_sound(t),
        are_tickets(tickets, t.deployments.len()),
        asset_of(t, asset_id) is Ok,
        deployment_list(t) is Ok,
    ensures
        ({
            let active = active_among(deployment_list(t)->Ok_0);
            let (after, outcome) = polled(t, asset_id, over_limit, tickets);
            &&& outcome is Ok || tickets_differ(tickets) ==> outcome == decided_alone(
                t,
                active,
                asset_id,
                over_limit,
                tickets,
            )
            &&& outcome is Ok ==> forall|k: int|
                0 <= k < active.len() ==> rows_agree(
                    after,
                    polled_one(
                        t,
                        #[trigger] active[k],
                        asset_id,
                        over_limit.contains(active[k].id),
                        tickets[k],
                    ).0,
                    active[k].id,
                )
            &&& forall|id: Seq<char>| !are_about(active, id) ==> #[trigger] rows_agree(after, t, id)
        }),
{
    let list = deployment_list(t)->Ok_0;
    lemma_deployments_listed(t);
    lemma_active_apart(list, |d: DeploymentRecordView| d.status is Active);
    lemma_each_decided_alone(t, active_among(list), asset_id, over_limit, tickets);
}

/// Whether a deployment has a command for an asset by these rows: it is not over its limit of
/// failures, the asset is a target that waits for a command, fewer commands than allowed are under
/// way, and the asset is not held back.
pub open spec fn has_command_for(
    t: TablesView,
    deployment: DeploymentRecordView,
    asset_id: Seq<char>,
    over_limit: bool,
) -> bool {
    let targets = target_list(t, deployment.id)->Ok_0;
    &&& !over_limit
    &&& target_list(t, deployment.id) is Ok
    &&& target_on(targets, asset_id) is Some
    &&& is_waiting(target_on(targets, asset_id)->0.state)
    &&& under_way(t.commands, deployment.id) < deployment.strategy.max_parallel
    &&& !is_held_back(targets, deployment.strategy.canary as nat, asset_id)
}

/// Whether a command is the one that a deployment has for an asset by these rows.
pub open spec fn is_command_of(
    t: TablesView,
    deployment: DeploymentRecordView,
    asset_id: Seq<char>,
    over_limit: bool,
    ticket: TicketView,
    command: CommandRecordView,
) -> bool {
    &&& has_command_for(t, deployment, asset_id, over_limit)
    &&& release_of(t, deployment.release_id) is Ok
    &&& command == install_command(
        deployment,
        release_of(t, deployment.release_id)->Ok_0,
        asset_id,
        ticket,
    )
}

proof fn lemma_alone_answers(
    t: TablesView,
    deployments: Seq<DeploymentRecordView>,
    asset_id: Seq<char>,
    over_limit: Seq<Seq<char>>,
    tickets: Seq<TicketView>,
)
    requires
        decided_alone(t, deployments, asset_id, over_limit, tickets) is Ok,
    ensures
        ({
            let answer = decided_alone(t, deployments, asset_id, over_limit, tickets)->Ok_0;
            &&& forall|j: int|
                0 <= j < answer.len() ==> exists|k: int|
                    0 <= k < deployments.len() && is_command_of(
                        t,
                        #[trigger] deployments[k],
                        asset_id,
                        over_limit.contains(deployments[k].id),
                        tickets[k],
                        #[trigger] answer[j],
                    )
            &&& forall|k: int|
                0 <= k < deployments.len() && has_command_for(
                    t,
                    #[trigger] deployments[k],
                    asset_id,
                    over_limit.contains(deployments[k].id),
                ) ==> release_of(t, deployments[k].release_id) is Ok && answer.contains(
                    install_command(
                        deployments[k],
                        release_of(t, deployments[k].release_id)->Ok_0,
                        asset_id,
                        tickets[k],
                    ),
                )
        }),
    decreases deployments.len(),
{
    if deployments.len() > 0 {
        let n = deployments.len() - 1;
        let rest = deployments.drop_last();
        let earlier = decided_alone(t, rest, asset_id, over_limit, tickets)->Ok_0;
        let answer = decided_alone(t, deployments, asset_id, over_limit, tickets)->Ok_0;
        lemma_alone_answers(t, rest, asset_id, over_limit, tickets);
        assert forall|j: int| 0 <= j < answer.len() implies exists|k: int|
            0 <= k < deployments.len() && is_command_of(
                t,
                #[trigger] deployments[k],
                asset_id,
                over_limit.contains(deployments[k].id),
                tickets[k],
                #[trigger] answer[j],
            ) by {
            if j < earlier.len() {
                assert(answer[j] == earlier[j]);
                let k = choose|k: int|
                    0 <= k < rest.len() && is_command_of(
                        t,
                        #[trigger] rest[k],
                        asset_id,
                        over_limit.contains(rest[k].id),
                        tickets[k],
                        earlier[j],
                    );
                assert(deployments[k] == rest[k]);
            } else {
                assert(is_command_of(
                    t,
                    deployments[n],
                    asset_id,
                    over_limit.contains(deployments[n].id),
                    tickets[n],
                    answer[j],
                ));
            }
        }
        assert forall|k: int|
            0 <= k < deployments.len() && has_command_for(
                t,
                #[trigger] deployments[k],
                asset_id,
                over_limit.contains(deployments[k].id),
            ) implies release_of(t, deployments[k].release_id) is Ok && answer.contains(
            install_command(
                deployments[k],
                release_of(t, deployments[k].release_id)->Ok_0,
                asset_id,
                tickets[k],
            ),
        ) by {
            let command = install_command(
                deployments[k],
                release_of(t, deployments[k].release_id)->Ok_0,
                asset_id,
                tickets[k],
            );
            if k < n {
                assert(rest[k] == deployments[k]);
                assert(earlier.contains(command));
                let j = choose|j: int| 0 <= j < earlier.len() && earlier[j] == command;
                assert(answer[j] == command);
            } else {
                assert(answer[answer.len() - 1] == command);
            }
        }
    }
}

/// An asset that asks for commands and is answered gets exactly the commands that the active
/// deployments have for it by the rows from before: each command of the answer is that of an
/// active deployment that has one for it, and each active deployment that has one for it gives it.
pub proof fn law_poll_gives_what_is_due(
    t: TablesView,
    asset_id: Seq<char>,
    over_limit: Seq<Seq<char>>,
    tickets: Seq<TicketView>,
)
    requires
        is_sound(t),
        are_tickets(tickets, t.deployments.len()),
        polled(t, asset_id, over_limit, tickets).1 is Ok,
    ensures
        ({
            let active = active_among(deployment_list(t)->Ok_0);
            let answer = polled(t, asset_id, over_limit, tickets).1->Ok_0;
            &&& deployment_list(t) is Ok
            &&& forall|j: int|
                0 <= j < answer.len() ==> exists|k: int|
                    0 <= k < active.len() && is_command_of(
                        t,
                        #[trigger] active[k],
                        asset_id,
                        over_limit.contains(active[k].id),
                        tickets[k],
                        #[trigger] answer[j],
                    )
            &&& forall|k: int|
                0 <= k < active.len() && has_command_for(
                    t,
                    #[trigger] active[k],
                    asset_id,
                    over_limit.contains(active[k].id),
                ) ==> release_of(t, active[k].release_id) is Ok && answer.contains(
                    install_command(
                        active[k],
                        release_of(t, active[k].release_id)->Ok_0,
                        asset_id,
                        tickets[k],
                    ),
                )
        }),
{
    law_deployments_decided_alone(t, asset_id, over_limit, tickets);
    lemma_alone_answers(
        t,
        active_among(deployment_list(t)->Ok_0),
        asset_id,
        over_limit,
        tickets,
    );
}

} // verus!
