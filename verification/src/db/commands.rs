//! The commands that the control plane hands out, and their results.

use crate::clock::{reads_back, rfc3339_text, to_rfc3339, utc_now, Timestamp};
use crate::db::assets::{asset_of, get_asset};
use crate::db::deployments::{
    deployment_list, deployments_read, deployment_keys, list_deployment_targets,
    list_deployments, set_status, target_list, with_status,
};
use crate::db::error::{DbError, DbErrorView};
use crate::db::order::{arrange, ascending, law_listing_order};
use crate::db::releases::{get_release, release_of};
use crate::db::shared::{lemma_collected_items, picked, viewed_list};
use crate::db::tables::{
    command_row, find_command, CommandResultRow, CommandResultRowView, CommandRow, CommandRowView,
    TablesView,
};
use crate::db::writes::{
    lemma_performed_push, moved, performed, step, AssetOutcome, AssetOutcomeView, CommandChange,
    CommandChangeView, Database, TargetIssue, TargetIssueView, TargetOutcome, TargetOutcomeView,
    Write, WriteView,
};
use crate::ids::{fresh_id, is_random_uuid};
use crate::text::{is_among, same};
use crate::types::records::{
    AgentResultRequest, AgentResultRequestView, CommandRecord, CommandRecordView, DeploymentRecord,
    DeploymentRecordView, DeploymentTargetRecord, DeploymentTargetRecordView, ReleaseRecordView,
};
use crate::types::status::{CommandStatus, DeploymentStatus, DeploymentTargetState};
use vstd::prelude::*;

verus! {

/// The identifier and the time of a command that may be handed out.
#[derive(Debug)]
pub struct Ticket {
    pub id: String,
    pub at: Timestamp,
}

/// The value of a [`Ticket`].
#[verifier::ext_equal]
pub struct TicketView {
    pub id: Seq<char>,
    pub at: Timestamp,
}

impl View for Ticket {
    type V = TicketView;

    open spec fn view(&self) -> TicketView {
        TicketView { id: self.id@, at: self.at }
    }
}

impl DeepView for Ticket {
    type V = TicketView;

    open spec fn deep_view(&self) -> TicketView {
        self@
    }
}

/// Whether a command is under way: handed out, and without a result.
pub open spec fn is_under_way(row: CommandRowView, deployment_id: Seq<char>) -> bool {
    row.deployment_id == deployment_id && (row.status == "queued"@ || row.status == "running"@)
}

/// How many commands of a deployment are under way.
pub open spec fn under_way(rows: Seq<CommandRowView>, deployment_id: Seq<char>) -> nat {
    rows.filter(|row: CommandRowView| is_under_way(row, deployment_id)).len()
}

/// Whether a target in this state waits for a command.
pub open spec fn is_waiting(state: DeploymentTargetState) -> bool {
    state is Pending || state is Retry
}

/// Whether a command for a target in this state has ended.
pub open spec fn is_finished(state: DeploymentTargetState) -> bool {
    state is Succeeded || state is Failed || state is RolledBack
}

/// How many of the targets have ended.
pub open spec fn finished(targets: Seq<DeploymentTargetRecordView>) -> nat {
    targets.filter(|target: DeploymentTargetRecordView| is_finished(target.state)).len()
}

/// The first target on an asset.
pub open spec fn target_on(
    targets: Seq<DeploymentTargetRecordView>,
    asset_id: Seq<char>,
) -> Option<DeploymentTargetRecordView>
    decreases targets.len(),
{
    if targets.len() == 0 {
        None
    } else if targets[0].asset_id == asset_id {
        Some(targets[0])
    } else {
        target_on(targets.skip(1), asset_id)
    }
}

/// The assets of targets.
pub open spec fn assets_in(targets: Seq<DeploymentTargetRecordView>) -> Seq<Seq<char>> {
    targets.map_values(|target: DeploymentTargetRecordView| target.asset_id)
}

/// The assets that come first: the given number of them, in the order of their identifiers.
pub open spec fn canary_assets(
    targets: Seq<DeploymentTargetRecordView>,
    canary: nat,
) -> Seq<Seq<char>> {
    let ids = assets_in(targets);
    let sorted = picked(ids, ascending(ids));
    if canary <= sorted.len() {
        sorted.take(canary as int)
    } else {
        sorted
    }
}

/// Whether an asset has to wait until enough of the targets have ended.
pub open spec fn is_held_back(
    targets: Seq<DeploymentTargetRecordView>,
    canary: nat,
    asset_id: Seq<char>,
) -> bool {
    &&& canary > 0
    &&& finished(targets) < canary
    &&& !canary_assets(targets, canary).contains(asset_id)
}

/// The row of a command to install the release of a deployment on an asset.
pub open spec fn install_row(
    deployment: DeploymentRecordView,
    asset_id: Seq<char>,
    ticket: TicketView,
) -> CommandRowView {
    CommandRowView {
        id: ticket.id,
        deployment_id: deployment.id,
        release_id: deployment.release_id,
        asset_id,
        command_type: "install_release"@,
        status: CommandStatus::Queued.name(),
        created_at: rfc3339_text(ticket.at.secs, ticket.at.nanos),
        updated_at: rfc3339_text(ticket.at.secs, ticket.at.nanos),
    }
}

/// The statements that hand out a command.
pub open spec fn issue_writes(
    deployment: DeploymentRecordView,
    asset_id: Seq<char>,
    ticket: TicketView,
) -> Seq<WriteView> {
    seq![
        WriteView::InsertCommand(install_row(deployment, asset_id, ticket)),
        WriteView::IssueTarget(
            TargetIssueView {
                deployment_id: deployment.id,
                asset_id,
                state: DeploymentTargetState::Issued.name(),
                command_id: ticket.id,
                updated_at: rfc3339_text(ticket.at.secs, ticket.at.nanos),
            },
        ),
    ]
}

/// The command to install the release of a deployment on an asset.
pub open spec fn install_command(
    deployment: DeploymentRecordView,
    release: ReleaseRecordView,
    asset_id: Seq<char>,
    ticket: TicketView,
) -> CommandRecordView {
    CommandRecordView {
        id: ticket.id,
        deployment_id: deployment.id,
        release_id: release.id,
        asset_id,
        command_type: "install_release"@,
        status: CommandStatus::Queued,
        manifest: release.manifest,
        release_version: release.version,
    }
}

/// What becomes of the rows when an asset asks for the commands of one deployment, and the
/// command that it gets. A deployment over its limit of failures is aborted. A command is handed
/// out where the asset is a target that waits for one, fewer commands than allowed are under
/// way, and the asset is not held back.
pub open spec fn polled_one(
    t: TablesView,
    deployment: DeploymentRecordView,
    asset_id: Seq<char>,
    over_limit: bool,
    ticket: TicketView,
) -> (TablesView, Result<Option<CommandRecordView>, DbErrorView>) {
    match target_list(t, deployment.id) {
        Err(e) => (t, Err(e)),
        Ok(targets) => match target_on(targets, asset_id) {
            None => (t, Ok(None)),
            Some(target) => if !is_waiting(target.state) {
                (t, Ok(None))
            } else if over_limit {
                (with_status(t, deployment.id, DeploymentStatus::Aborted), Ok(None))
            } else if under_way(t.commands, deployment.id) >= deployment.strategy.max_parallel {
                (t, Ok(None))
            } else if is_held_back(targets, deployment.strategy.canary as nat, asset_id) {
                (t, Ok(None))
            } else {
                match release_of(t, deployment.release_id) {
                    Err(e) => (t, Err(e)),
                    Ok(release) => {
                        let (after, outcome) = performed(
                            t,
                            issue_writes(deployment, asset_id, ticket),
                        );
                        match outcome {
                            Err(e) => (after, Err(e)),
                            Ok(_) => (
                                after,
                                Ok(Some(install_command(deployment, release, asset_id, ticket))),
                            ),
                        }
                    },
                }
            },
        },
    }
}

/// What becomes of the rows when an asset asks for the commands of deployments one after the
/// other, and the commands that it gets.
pub open spec fn polled_each(
    t: TablesView,
    deployments: Seq<DeploymentRecordView>,
    asset_id: Seq<char>,
    over_limit: Seq<Seq<char>>,
    tickets: Seq<TicketView>,
) -> (TablesView, Result<Seq<CommandRecordView>, DbErrorView>)
    decreases deployments.len(),
{
    if deployments.len() == 0 {
        (t, Ok(Seq::empty()))
    } else {
        let (before, earlier) = polled_each(
            t,
            deployments.drop_last(),
            asset_id,
            over_limit,
            tickets,
        );
        match earlier {
            Err(e) => (before, Err(e)),
            Ok(commands) => {
                let deployment = deployments.last();
                let (after, outcome) = polled_one(
                    before,
                    deployment,
                    asset_id,
                    over_limit.contains(deployment.id),
                    tickets[deployments.len() - 1],
                );
                match outcome {
                    Err(e) => (after, Err(e)),
                    Ok(None) => (after, Ok(commands)),
                    Ok(Some(command)) => (after, Ok(commands.push(command))),
                }
            },
        }
    }
}

/// The deployments that hand out commands.
pub open spec fn active_among(deployments: Seq<DeploymentRecordView>) -> Seq<
    DeploymentRecordView,
> {
    deployments.filter(|deployment: DeploymentRecordView| deployment.status is Active)
}

/// What becomes of the rows when an asset asks for commands, and the answer. The deployments
/// that are over their limit of failures are given, and so are the identifiers and times of the
/// commands that may be handed out.
pub open spec fn polled(
    t: TablesView,
    asset_id: Seq<char>,
    over_limit: Seq<Seq<char>>,
    tickets: Seq<TicketView>,
) -> (TablesView, Result<Seq<CommandRecordView>, DbErrorView>) {
    match asset_of(t, asset_id) {
        Err(e) => (t, Err(e)),
        Ok(_) => match deployment_list(t) {
            Err(e) => (t, Err(e)),
            Ok(deployments) => polled_each(
                t,
                active_among(deployments),
                asset_id,
                over_limit,
                tickets,
            ),
        },
    }
}

/// Whether there is a ticket for each deployment, all with times that can be written.
pub open spec fn are_tickets(tickets: Seq<TicketView>, deployments: nat) -> bool {
    &&& deployments <= tickets.len()
    &&& forall|k: int| 0 <= k < tickets.len() ==> (#[trigger] tickets[k]).at.in_calendar()
}

/// Whether the times of all tickets read back as they were written, but for those beyond the
/// years that have four digits.
pub open spec fn tickets_read_back(tickets: Seq<TicketView>) -> bool {
    forall|k: int|
        0 <= k < tickets.len() && (#[trigger] tickets[k]).at.has_four_digit_year() ==> reads_back(
            tickets[k].at,
        )
}

/// The rows after a command has begun to run.
pub open spec fn running(t: TablesView, command_id: Seq<char>, now: Timestamp) -> TablesView {
    TablesView {
        commands: moved(
            t.commands,
            CommandChangeView {
                id: command_id,
                status: CommandStatus::Running.name(),
                updated_at: rfc3339_text(now.secs, now.nanos),
            },
        ),
        ..t
    }
}

/// The state of a command with a result.
pub open spec fn ended_command(success: bool) -> CommandStatus {
    if success {
        CommandStatus::Succeeded
    } else {
        CommandStatus::Failed
    }
}

/// The state of a target whose command has a result.
pub open spec fn ended_target(success: bool) -> DeploymentTargetState {
    if success {
        DeploymentTargetState::Succeeded
    } else {
        DeploymentTargetState::Failed
    }
}

/// The statement that stores a result.
pub open spec fn result_write(req: AgentResultRequestView, now: Timestamp) -> WriteView {
    WriteView::ReplaceCommandResult(
        CommandResultRowView {
            command_id: req.command_id,
            success: req.success,
            message: req.message,
            active_slot: req.active_slot,
            booted_version: req.booted_version,
            created_at: rfc3339_text(now.secs, now.nanos),
        },
    )
}

/// The statements that carry a result over to the command, its target and its asset.
pub open spec fn closing_writes(
    req: AgentResultRequestView,
    command: CommandRowView,
    now: Timestamp,
) -> Seq<WriteView> {
    let at = rfc3339_text(now.secs, now.nanos);
    seq![
        WriteView::SetCommandStatus(
            CommandChangeView {
                id: req.command_id,
                status: ended_command(req.success).name(),
                updated_at: at,
            },
        ),
        WriteView::CompleteTarget(
            TargetOutcomeView {
                deployment_id: command.deployment_id,
                asset_id: command.asset_id,
                state: ended_target(req.success).name(),
                last_error: if req.success {
                    None
                } else {
                    Some(req.message)
                },
                updated_at: at,
            },
        ),
        WriteView::CompleteAsset(
            AssetOutcomeView {
                asset_id: command.asset_id,
                booted_version: req.booted_version,
                active_slot: req.active_slot,
            },
        ),
    ]
}

/// What becomes of the rows when a result comes in, and the answer. The result of an unknown
/// command is refused.
pub open spec fn result_submitted(
    t: TablesView,
    req: AgentResultRequestView,
    now: Timestamp,
) -> (TablesView, Result<(), DbErrorView>) {
    match step(t, result_write(req, now)) {
        Err(e) => (t, Err(e)),
        Ok(stored) => performed(
            stored,
            closing_writes(req, command_row(stored.commands, req.command_id)->0, now),
        ),
    }
}

/// How many commands of a deployment are under way.
fn count_active_commands(db: &Database, deployment_id: &str) -> (r: usize)
    ensures
        r == under_way(db@.commands, deployment_id@),
{
    let rows = &db.tables().commands;
    let ghost view = rows.deep_view();
    let ghost active = |row: CommandRowView| is_under_way(row, deployment_id@);
    let mut count: usize = 0;
    let mut i: usize = 0;
    assert(view.take(0).filter(active).len() == 0) by {
        reveal(Seq::filter);
    }
    while i < rows.len()
        invariant
            i <= rows.len(),
            count <= i,
            view == rows.deep_view(),
            active == (|row: CommandRowView| is_under_way(row, deployment_id@)),
            count == view.take(i as int).filter(active).len(),
        decreases rows.len() - i,
    {
        assert(view.take(i + 1).drop_last() =~= view.take(i as int));
        assert(view.take(i + 1).last() == rows@[i as int]@);
        if same(rows[i].deployment_id.as_str(), deployment_id) && (same(
            rows[i].status.as_str(),
            "queued",
        ) || same(rows[i].status.as_str(), "running")) {
            count += 1;
        }
        assert(count == view.take(i + 1).filter(active).len()) by {
            reveal(Seq::filter);
        }
        i += 1;
    }
    assert(view.take(i as int) =~= view);
    count
}

/// The state of the first target on an asset.
fn state_on(targets: &Vec<DeploymentTargetRecord>, asset_id: &str) -> (r: Option<
    DeploymentTargetState,
>)
    ensures
        match r {
            Some(state) => {
                &&& target_on(targets.deep_view(), asset_id@) is Some
                &&& target_on(targets.deep_view(), asset_id@)->0.state == state
            },
            None => target_on(targets.deep_view(), asset_id@) is None,
        },
{
    let ghost view = targets.deep_view();
    assert(view.skip(0) =~= view);
    let mut i: usize = 0;
    while i < targets.len()
        invariant
            i <= targets.len(),
            view == targets.deep_view(),
            target_on(view.skip(i as int), asset_id@) == target_on(view, asset_id@),
        decreases targets.len() - i,
    {
        assert(view.skip(i as int)[0] == targets@[i as int]@);
        if same(targets[i].asset_id.as_str(), asset_id) {
            return Some(targets[i].state);
        }
        assert(view.skip(i as int).skip(1) =~= view.skip(i + 1));
        i += 1;
    }
    None
}

/// How many of the targets have ended.
fn count_finished(targets: &Vec<DeploymentTargetRecord>) -> (r: usize)
    ensures
        r == finished(targets.deep_view()),
        r == targets.deep_view().filter(
            |target: DeploymentTargetRecordView|
                target.state == DeploymentTargetState::Succeeded || target.state
                    == DeploymentTargetState::Failed || target.state
                    == DeploymentTargetState::RolledBack,
        ).len(),
{
    assert((|target: DeploymentTargetRecordView| is_finished(target.state)) =~= (
    |target: DeploymentTargetRecordView|
        target.state == DeploymentTargetState::Succeeded || target.state
            == DeploymentTargetState::Failed || target.state
            == DeploymentTargetState::RolledBack));
    let ghost view = targets.deep_view();
    let ghost done = |target: DeploymentTargetRecordView| is_finished(target.state);
    let mut count: usize = 0;
    let mut i: usize = 0;
    assert(view.take(0).filter(done).len() == 0) by {
        reveal(Seq::filter);
    }
    while i < targets.len()
        invariant
            i <= targets.len(),
            count <= i,
            view == targets.deep_view(),
            done == (|target: DeploymentTargetRecordView| is_finished(target.state)),
            count == view.take(i as int).filter(done).len(),
        decreases targets.len() - i,
    {
        assert(view.take(i + 1).drop_last() =~= view.take(i as int));
        assert(view.take(i + 1).last() == targets@[i as int]@);
        match targets[i].state {
            DeploymentTargetState::Succeeded
            | DeploymentTargetState::Failed
            | DeploymentTargetState::RolledBack => {
                count += 1;
            },
            _ => {},
        }
        assert(count == view.take(i + 1).filter(done).len()) by {
            reveal(Seq::filter);
        }
        i += 1;
    }
    assert(view.take(i as int) =~= view);
    count
}

/// Whether an asset is among those that come first.
fn is_canary(targets: &Vec<DeploymentTargetRecord>, canary: usize, asset_id: &str) -> (r: bool)
    ensures
        r == canary_assets(targets.deep_view(), canary as nat).contains(asset_id@),
{
    let ghost view = targets.deep_view();
    let mut ids: Vec<String> = Vec::new();
    let mut i: usize = 0;
    assert(ids.deep_view() =~= assets_in(view).take(0));
    while i < targets.len()
        invariant
            i <= targets.len(),
            view == targets.deep_view(),
            ids.deep_view() == assets_in(view).take(i as int),
        decreases targets.len() - i,
    {
        let ghost before = ids.deep_view();
        ids.push(targets[i].asset_id.clone());
        assert(ids.deep_view() =~= before.push(view[i as int].asset_id));
        assert(ids.deep_view() =~= assets_in(view).take(i + 1));
        i += 1;
    }
    assert(ids.deep_view() =~= assets_in(view));
    let order = arrange(&ids, false);
    let ghost positions = ascending(assets_in(view));
    let ghost first = canary_assets(view, canary as nat);
    assert(order@.map_values(|p: usize| p as int) == positions);
    let mut k: usize = 0;
    while k < order.len() && k < canary
        invariant
            k <= order.len(),
            k <= canary,
            view == targets.deep_view(),
            ids.deep_view() == assets_in(view),
            order@.len() == ids@.len(),
            forall|p: int| 0 <= p < order@.len() ==> (#[trigger] order@[p]) < ids@.len(),
            positions == ascending(assets_in(view)),
            order@.map_values(|p: usize| p as int) == positions,
            first == canary_assets(view, canary as nat),
            forall|p: int| 0 <= p < k ==> #[trigger] first[p] != asset_id@,
        decreases order.len() - k,
    {
        assert(positions[k as int] == order@[k as int]);
        assert(first[k as int] == ids.deep_view()[order@[k as int] as int]);
        if same(ids[order[k]].as_str(), asset_id) {
            assert(first[k as int] == asset_id@);
            return true;
        }
        k += 1;
    }
    assert(first.len() == k);
    false
}

/// The times of tickets, as they are written.
fn written_times(tickets: &Vec<Ticket>) -> (r: Vec<String>)
    requires
        are_tickets(tickets.deep_view(), 0),
    ensures
        r@.len() == tickets@.len(),
        forall|k: int|
            0 <= k < r@.len() ==> (#[trigger] r@[k])@ == rfc3339_text(
                tickets@[k].at.secs,
                tickets@[k].at.nanos,
            ),
        tickets_read_back(tickets.deep_view()),
{
    let ghost drawn = tickets.deep_view();
    let mut times: Vec<String> = Vec::new();
    while times.len() < tickets.len()
        invariant
            times.len() <= tickets.len(),
            drawn == tickets.deep_view(),
            are_tickets(drawn, 0),
            forall|k: int|
                0 <= k < times@.len() ==> (#[trigger] times@[k])@ == rfc3339_text(
                    tickets@[k].at.secs,
                    tickets@[k].at.nanos,
                ),
            forall|k: int|
                0 <= k < times@.len() && (#[trigger] drawn[k]).at.has_four_digit_year()
                    ==> reads_back(drawn[k].at),
        decreases tickets.len() - times.len(),
    {
        let ticket = &tickets[times.len()];
        assert(drawn[times@.len() as int] == ticket@);
        times.push(to_rfc3339(ticket.at));
    }
    times
}

/// The command of one deployment that an asset gets, if it gets one.
fn poll_deployment(
    db: &mut Database,
    deployment: &DeploymentRecord,
    asset_id: &str,
    over_limit: bool,
    ticket: &Ticket,
    at: &String,
) -> (r: Result<Option<CommandRecord>, DbError>)
    requires
        at@ == rfc3339_text(ticket.at.secs, ticket.at.nanos),
    ensures
        final(db)@ == polled_one(old(db)@, deployment@, asset_id@, over_limit, ticket@).0,
        match r {
            Ok(Some(command)) => polled_one(
                old(db)@,
                deployment@,
                asset_id@,
                over_limit,
                ticket@,
            ).1 == Ok::<Option<CommandRecordView>, DbErrorView>(Some(command@)),
            Ok(None) => polled_one(old(db)@, deployment@, asset_id@, over_limit, ticket@).1 == Ok::<
                Option<CommandRecordView>,
                DbErrorView,
            >(None),
            Err(e) => polled_one(old(db)@, deployment@, asset_id@, over_limit, ticket@).1
                == Err::<Option<CommandRecordView>, DbErrorView>(e@),
        },
        final(db).continues(old(db)),
{
    let ghost start = db@;
    let targets = list_deployment_targets(db, deployment.id.as_str())?;
    let state = match state_on(&targets, asset_id) {
        Some(state) => state,
        None => {
            return Ok(None);
        },
    };
    match state {
        DeploymentTargetState::Pending | DeploymentTargetState::Retry => {},
        _ => {
            return Ok(None);
        },
    }
    if over_limit {
        set_status(db, deployment.id.as_str(), DeploymentStatus::Aborted)?;
        return Ok(None);
    }
    if count_active_commands(db, deployment.id.as_str()) >= deployment.strategy.max_parallel {
        return Ok(None);
    }
    if deployment.strategy.canary > 0 && count_finished(&targets) < deployment.strategy.canary
        && !is_canary(&targets, deployment.strategy.canary, asset_id) {
        return Ok(None);
    }
    let release = get_release(db, deployment.release_id.as_str())?;
    let insert = Write::InsertCommand(
        CommandRow {
            id: ticket.id.clone(),
            deployment_id: deployment.id.clone(),
            release_id: deployment.release_id.clone(),
            asset_id: asset_id.to_string(),
            command_type: "install_release".to_string(),
            status: CommandStatus::Queued.as_str().to_string(),
            created_at: at.clone(),
            updated_at: at.clone(),
        },
    );
    let issue = Write::IssueTarget(
        TargetIssue {
            deployment_id: deployment.id.clone(),
            asset_id: asset_id.to_string(),
            state: DeploymentTargetState::Issued.as_str().to_string(),
            command_id: ticket.id.clone(),
            updated_at: at.clone(),
        },
    );
    proof {
        let all = issue_writes(deployment@, asset_id@, ticket@);
        let none = Seq::<WriteView>::empty();
        assert(insert@ == all[0]);
        assert(issue@ == all[1]);
        assert(performed(start, none) == (start, Ok::<(), DbErrorView>(())));
        lemma_performed_push(start, none, all[0]);
        lemma_performed_push(start, none.push(all[0]), all[1]);
        assert(none.push(all[0]).push(all[1]) =~= all);
    }
    db.execute(insert)?;
    db.execute(issue)?;
    Ok(
        Some(
            CommandRecord {
                id: ticket.id.clone(),
                deployment_id: deployment.id.clone(),
                release_id: release.id,
                asset_id: asset_id.to_string(),
                command_type: "install_release".to_string(),
                status: CommandStatus::Queued,
                manifest: release.manifest,
                release_version: release.version,
            },
        ),
    )
}

/// What stops an asset's asking for commands early stops all of it.
proof fn lemma_polled_stops(
    t: TablesView,
    deployments: Seq<DeploymentRecordView>,
    asset_id: Seq<char>,
    over_limit: Seq<Seq<char>>,
    tickets: Seq<TicketView>,
    k: int,
)
    requires
        0 <= k <= deployments.len(),
        polled_each(t, deployments.take(k), asset_id, over_limit, tickets).1 is Err,
    ensures
        polled_each(t, deployments, asset_id, over_limit, tickets) == polled_each(
            t,
            deployments.take(k),
            asset_id,
            over_limit,
            tickets,
        ),
    decreases deployments.len(),
{
    if k == deployments.len() {
        assert(deployments.take(k) =~= deployments);
    } else {
        assert(deployments.drop_last().take(k) =~= deployments.take(k));
        lemma_polled_stops(t, deployments.drop_last(), asset_id, over_limit, tickets, k);
    }
}

/// The commands that an asset gets, with given identifiers and times. The deployments that are
/// over their limit of failures are given.
pub fn poll_commands_as(
    db: &mut Database,
    asset_id: &str,
    over_limit: &Vec<String>,
    tickets: &Vec<Ticket>,
) -> (r: Result<Vec<CommandRecord>, DbError>)
    requires
        are_tickets(tickets.deep_view(), old(db)@.deployments.len()),
    ensures
        (final(db)@, viewed_list(r)) == polled(
            old(db)@,
            asset_id@,
            over_limit.deep_view(),
            tickets.deep_view(),
        ),
        tickets_read_back(tickets.deep_view()),
        final(db).continues(old(db)),
{
    let times = written_times(tickets);
    let ghost start = db@;
    let ghost over = over_limit.deep_view();
    let ghost drawn = tickets.deep_view();
    let _asset = get_asset(db, asset_id)?;
    let deployments = list_deployments(db)?;
    let ghost list = deployments.deep_view();
    let ghost active_one = |d: DeploymentRecordView| d.status is Active;
    proof {
        lemma_collected_items(deployments_read(start.deployments));
        law_listing_order(
            deployment_keys(start.deployments),
            start.deployments.len(),
            true,
        );
    }
    let mut commands: Vec<CommandRecord> = Vec::new();
    let ghost mut active: Seq<DeploymentRecordView> = Seq::empty();
    let mut i: usize = 0;
    let mut n: usize = 0;
    assert(active =~= list.take(0).filter(active_one)) by {
        reveal(Seq::filter);
    }
    assert(commands.deep_view() =~= Seq::<CommandRecordView>::empty());
    while i < deployments.len()
        invariant
            i <= deployments.len(),
            n <= i,
            n == active.len(),
            list == deployments.deep_view(),
            over == over_limit.deep_view(),
            drawn == tickets.deep_view(),
            are_tickets(drawn, deployments@.len()),
            tickets_read_back(drawn),
            times@.len() == tickets@.len(),
            forall|k: int|
                0 <= k < times@.len() ==> (#[trigger] times@[k])@ == rfc3339_text(
                    tickets@[k].at.secs,
                    tickets@[k].at.nanos,
                ),
            active_one == (|d: DeploymentRecordView| d.status is Active),
            active == list.take(i as int).filter(active_one),
            polled_each(start, active, asset_id@, over, drawn) == (
                db@,
                Ok::<Seq<CommandRecordView>, DbErrorView>(commands.deep_view()),
            ),
            polled(start, asset_id@, over, drawn) == polled_each(
                start,
                active_among(list),
                asset_id@,
                over,
                drawn,
            ),
            start == old(db)@,
            db.continues(old(db)),
        decreases deployments.len() - i,
    {
        let deployment = &deployments[i];
        let ghost before = active;
        let ghost earlier = commands.deep_view();
        assert(list.take(i + 1).drop_last() =~= list.take(i as int));
        assert(list.take(i + 1).last() == deployment@);
        assert(list.take(i + 1).filter(active_one) == if deployment@.status is Active {
            active.push(deployment@)
        } else {
            active
        }) by {
            reveal(Seq::filter);
        }
        match deployment.status {
            DeploymentStatus::Active => {
                proof {
                    active = active.push(deployment@);
                    assert(active.drop_last() =~= before);
                }
                let over_its_limit = is_among(over_limit, deployment.id.as_str());
                assert(drawn[n as int] == tickets@[n as int]@);
                match poll_deployment(
                    db,
                    deployment,
                    asset_id,
                    over_its_limit,
                    &tickets[n],
                    &times[n],
                ) {
                    Ok(Some(command)) => {
                        commands.push(command);
                        assert(commands.deep_view() =~= earlier.push(command@));
                    },
                    Ok(None) => {},
                    Err(e) => {
                        proof {
                            lemma_filter_prefix(list, i + 1, active_one);
                            assert(active_among(list).take(active.len() as int) =~= active);
                            lemma_polled_stops(
                                start,
                                active_among(list),
                                asset_id@,
                                over,
                                drawn,
                                active.len() as int,
                            );
                        }
                        return Err(e);
                    },
                }
                n += 1;
            },
            _ => {},
        }
        i += 1;
    }
    assert(list.take(i as int) =~= list);
    Ok(commands)
}

/// An asset gets at most one command of each deployment.
pub proof fn lemma_polled_count(
    t: TablesView,
    asset_id: Seq<char>,
    over_limit: Seq<Seq<char>>,
    tickets: Seq<TicketView>,
)
    ensures
        polled(t, asset_id, over_limit, tickets).1 is Ok ==> polled(
            t,
            asset_id,
            over_limit,
            tickets,
        ).1->Ok_0.len() <= t.deployments.len(),
{
    if asset_of(t, asset_id) is Ok && deployment_list(t) is Ok {
        let list = deployment_list(t)->Ok_0;
        lemma_collected_items(deployments_read(t.deployments));
        law_listing_order(deployment_keys(t.deployments), t.deployments.len(), true);
        lemma_polled_each_count(t, active_among(list), asset_id, over_limit, tickets);
        lemma_filter_count(list, |d: DeploymentRecordView| d.status is Active);
    }
}

proof fn lemma_polled_each_count(
    t: TablesView,
    deployments: Seq<DeploymentRecordView>,
    asset_id: Seq<char>,
    over_limit: Seq<Seq<char>>,
    tickets: Seq<TicketView>,
)
    ensures
        polled_each(t, deployments, asset_id, over_limit, tickets).1 is Ok ==> polled_each(
            t,
            deployments,
            asset_id,
            over_limit,
            tickets,
        ).1->Ok_0.len() <= deployments.len(),
    decreases deployments.len(),
{
    if deployments.len() > 0 {
        lemma_polled_each_count(t, deployments.drop_last(), asset_id, over_limit, tickets);
    }
}

proof fn lemma_filter_count(
    s: Seq<DeploymentRecordView>,
    p: spec_fn(DeploymentRecordView) -> bool,
)
    ensures
        s.filter(p).len() <= s.len(),
    decreases s.len(),
{
    reveal(Seq::filter);
    if s.len() > 0 {
        lemma_filter_count(s.drop_last(), p);
    }
}

/// Filtering the beginning of a sequence gives the beginning of the filtered sequence.
proof fn lemma_filter_prefix(
    s: Seq<DeploymentRecordView>,
    k: int,
    p: spec_fn(DeploymentRecordView) -> bool,
)
    requires
        0 <= k <= s.len(),
    ensures
        s.take(k).filter(p).is_prefix_of(s.filter(p)),
    decreases s.len(),
{
    reveal(Seq::filter);
    if k == s.len() {
        assert(s.take(k) =~= s);
    } else {
        assert(s.drop_last().take(k) =~= s.take(k));
        lemma_filter_prefix(s.drop_last(), k, p);
    }
}

/// New identifiers for commands that may be handed out now.
pub(crate) fn draw_tickets(wanted: usize) -> (r: Vec<Ticket>)
    ensures
        are_tickets(r.deep_view(), wanted as nat),
        forall|k: int| 0 <= k < r@.len() ==> is_random_uuid((#[trigger] r.deep_view()[k]).id),
{
    let mut tickets: Vec<Ticket> = Vec::new();
    while tickets.len() < wanted
        invariant
            tickets.len() <= wanted,
            forall|k: int| 0 <= k < tickets@.len() ==> (#[trigger] tickets@[k]).at.in_calendar(),
            forall|k: int| 0 <= k < tickets@.len() ==> is_random_uuid((#[trigger] tickets@[k]).id@),
        decreases wanted - tickets.len(),
    {
        let id = fresh_id();
        let at = utc_now();
        tickets.push(Ticket { id, at });
    }
    proof {
        let drawn = tickets.deep_view();
        assert forall|k: int| 0 <= k < drawn.len() implies (#[trigger] drawn[k]).at.in_calendar()
            && is_random_uuid(drawn[k].id) by {
            assert(drawn[k] == tickets@[k]@);
        }
    }
    tickets
}

/// The commands that an asset gets. The deployments that are over their limit of failures are
/// given.
pub fn poll_commands(db: &mut Database, asset_id: &str, over_limit: &Vec<String>) -> (r: Result<
    Vec<CommandRecord>,
    DbError,
>)
    ensures
        exists|tickets: Seq<TicketView>|
            {
                &&& are_tickets(tickets, old(db)@.deployments.len())
                &&& forall|k: int|
                    0 <= k < tickets.len() ==> is_random_uuid((#[trigger] tickets[k]).id)
                &&& tickets_read_back(tickets)
                &&& (final(db)@, viewed_list(r)) == #[trigger] polled(
                    old(db)@,
                    asset_id@,
                    over_limit.deep_view(),
                    tickets,
                )
            },
        final(db).continues(old(db)),
{
    let tickets = draw_tickets(db.tables().deployments.len());
    poll_commands_as(db, asset_id, over_limit, &tickets)
}

/// Notes at a given time that a command has begun to run. An unknown command changes nothing.
pub fn mark_command_running_as(db: &mut Database, command_id: &str, now: Timestamp) -> (r: Result<
    (),
    DbError,
>)
    requires
        now.in_calendar(),
    ensures
        r is Ok,
        final(db)@ == running(old(db)@, command_id@, now),
        final(db).continues(old(db)),
{
    db.execute(
        Write::SetCommandStatus(
            CommandChange {
                id: command_id.to_string(),
                status: CommandStatus::Running.as_str().to_string(),
                updated_at: to_rfc3339(now),
            },
        ),
    )
}

/// Notes that a command has begun to run. An unknown command changes nothing.
pub fn mark_command_running(db: &mut Database, command_id: &str) -> (r: Result<(), DbError>)
    ensures
        r is Ok,
        exists|now: Timestamp|
            now.in_calendar() && final(db)@ == #[trigger] running(old(db)@, command_id@, now),
        final(db).continues(old(db)),
{
    let now = utc_now();
    mark_command_running_as(db, command_id, now)
}

/// Takes in the result of a command at a given time.
pub fn submit_command_result_as(
    db: &mut Database,
    req: AgentResultRequest,
    now: Timestamp,
) -> (r: Result<(), DbError>)
    requires
        now.in_calendar(),
    ensures
        final(db)@ == result_submitted(old(db)@, req@, now).0,
        match r {
            Ok(_) => result_submitted(old(db)@, req@, now).1 is Ok,
            Err(e) => result_submitted(old(db)@, req@, now).1 == Err::<(), DbErrorView>(e@),
        },
        final(db).continues(old(db)),
        now.has_four_digit_year() ==> reads_back(now),
{
    db.execute(
        Write::ReplaceCommandResult(
            CommandResultRow {
                command_id: req.command_id.clone(),
                success: req.success,
                message: req.message.clone(),
                active_slot: req.active_slot.clone(),
                booted_version: req.booted_version.clone(),
                created_at: to_rfc3339(now),
            },
        ),
    )?;
    let ghost stored = db@;
    let rows = &db.tables().commands;
    let (deployment_id, asset_id) = match find_command(rows, req.command_id.as_str()) {
        Some(i) => (rows[i].deployment_id.clone(), rows[i].asset_id.clone()),
        // The statement above has refused the result of an unknown command.
        None => {
            return Err(DbError::ForeignKey);
        },
    };
    let command_change = Write::SetCommandStatus(
        CommandChange {
            id: req.command_id.clone(),
            status: if req.success {
                CommandStatus::Succeeded.as_str().to_string()
            } else {
                CommandStatus::Failed.as_str().to_string()
            },
            updated_at: to_rfc3339(now),
        },
    );
    let target_outcome = Write::CompleteTarget(
        TargetOutcome {
            deployment_id,
            asset_id: asset_id.clone(),
            state: if req.success {
                DeploymentTargetState::Succeeded.as_str().to_string()
            } else {
                DeploymentTargetState::Failed.as_str().to_string()
            },
            last_error: if req.success {
                None
            } else {
                Some(req.message.clone())
            },
            updated_at: to_rfc3339(now),
        },
    );
    let asset_outcome = Write::CompleteAsset(
        AssetOutcome {
            asset_id,
            booted_version: req.booted_version.clone(),
            active_slot: req.active_slot.clone(),
        },
    );
    proof {
        let all = closing_writes(req@, command_row(stored.commands, req@.command_id)->0, now);
        let none = Seq::<WriteView>::empty();
        assert(command_change@ == all[0]);
        assert(target_outcome@ == all[1]);
        assert(asset_outcome@ == all[2]);
        assert(performed(stored, none) == (stored, Ok::<(), DbErrorView>(())));
        lemma_performed_push(stored, none, all[0]);
        lemma_performed_push(stored, none.push(all[0]), all[1]);
        lemma_performed_push(stored, none.push(all[0]).push(all[1]), all[2]);
        assert(none.push(all[0]).push(all[1]).push(all[2]) =~= all);
    }
    db.execute(command_change)?;
    db.execute(target_outcome)?;
    db.execute(asset_outcome)
}

/// A result is accepted exactly where its command is known. Otherwise nothing changes.
pub proof fn law_result_accepted(t: TablesView, req: AgentResultRequestView, now: Timestamp)
    ensures
        result_submitted(t, req, now).1 is Ok <==> command_row(t.commands, req.command_id) is Some,
        command_row(t.commands, req.command_id) is None ==> result_submitted(t, req, now) == (
            t,
            Err::<(), DbErrorView>(DbErrorView::ForeignKey),
        ),
{
    match step(t, result_write(req, now)) {
        Err(e) => {},
        Ok(stored) => {
            let all = closing_writes(req, command_row(stored.commands, req.command_id)->0, now);
            let none = Seq::<WriteView>::empty();
            assert(performed(stored, none) == (stored, Ok::<(), DbErrorView>(())));
            lemma_performed_push(stored, none, all[0]);
            lemma_performed_push(stored, none.push(all[0]), all[1]);
            lemma_performed_push(stored, none.push(all[0]).push(all[1]), all[2]);
            assert(none.push(all[0]).push(all[1]).push(all[2]) =~= all);
        },
    }
}

/// Takes in the result of a command: stores it, and carries it over to the command, its target
/// and its asset.
pub fn submit_command_result(db: &mut Database, req: AgentResultRequest) -> (r: Result<
    (),
    DbError,
>)
    ensures
        exists|now: Timestamp|
            now.in_calendar() && final(db)@ == (#[trigger] result_submitted(
                old(db)@,
                req@,
                now,
            )).0,
        match r {
            Ok(_) => command_row(old(db)@.commands, req@.command_id) is Some,
            Err(e) => command_row(old(db)@.commands, req@.command_id) is None
                && e@ == DbErrorView::ForeignKey,
        },
        final(db).continues(old(db)),
{
    let now = utc_now();
    proof {
        law_result_accepted(db@, req@, now);
    }
    submit_command_result_as(db, req, now)
}

} // verus!
