//! What an agent does, said of the fields of what it knows, is told and reports.

use crate::agent::execution::{
    command_advanced, command_begun, is_due, is_stage_of, CommandActionView, CommandEventView,
    CommandNextView, CommandStageView, UndertakingView,
};
use crate::agent::state::{LocalStateView, PendingBootStateView};
use crate::agent::workflow::{
    artifact_name, boot_awaited, boot_resumed, command_completed, command_prepared, deadline_exists,
    download_of, rollback_steps, rolling_back, starting_slot, ArtifactOriginView, BootVerdictView,
    CommandExecutionView, PreparationView, SurroundingsView,
};
use crate::agent::{
    advanced, checkin_of, is_expected, ActionView, AgentConfigView, Endpoint, EventView, StageView,
    WorkView,
};
use crate::clock::Timestamp;
use crate::digest::sha256;
use crate::executors::plan::ProgramsView;
use crate::executors::{executor_of, Executor, PendingRebootView, RollbackActionView};
use crate::links::{file_path, parsed_url};
use crate::paths::{joined, last_part_start, law_last_part};
use crate::text::{hex, lowered};
use crate::types::manifest::ArtifactSourceView;
use crate::types::records::CommandRecordView;
use crate::types::status::AssetStatus;
use vstd::prelude::*;

verus! {

/// What an agent makes of a start of the machine that is as expected. After a new release the
/// agent knows its version and the slot that it went to, and reports a success. After going back
/// it knows the version and the slot from before, and reports a failure. Either way no start is
/// waited for any more, and the report is of the command in question, with what the agent knows.
pub proof fn law_expected_boot(
    state: LocalStateView,
    asset_id: Seq<char>,
    now: Timestamp,
)
    requires
        state.pending_boot is Some,
    ensures
        ({
            let pending = state.pending_boot->0;
            let (after, verdict) = boot_resumed(state, asset_id, Ok(()), now);
            let report = verdict->Report_0;
            &&& verdict is Report
            &&& after.pending_boot is None
            &&& report.command_id == pending.command_id
            &&& report.asset_id == asset_id
            &&& report.booted_version == after.current_version
            &&& report.active_slot == after.active_slot
            &&& report.success <==> pending.phase is Forward
            &&& pending.phase is Forward ==> {
                &&& after.current_version == Some(pending.release_version)
                &&& after.active_slot == pending.next_active_slot
                &&& report.message == "validated "@ + pending.release_version + " after reboot"@
            }
            &&& pending.phase is Rollback ==> {
                &&& after.current_version == pending.previous_version
                &&& after.active_slot == pending.previous_active_slot
                &&& report.message == "post-boot validation failed for "@
                    + pending.release_version + "; rollback succeeded"@
            }
        }),
{
}

/// What an agent makes of a start of the machine that is not as expected. Strictly before the
/// deadline it waits and knows what it knew. From the deadline on it goes back where this is the
/// first start after a new release, going back is automatic and asked for after a failed
/// validation, and there is a way back. Otherwise it reports a failure with the complaint, knows
/// the version and the slot that it knew, and waits no more.
pub proof fn law_unexpected_boot(
    state: LocalStateView,
    asset_id: Seq<char>,
    complaint: Seq<char>,
    now: Timestamp,
)
    requires
        state.pending_boot is Some,
    ensures
        ({
            let pending = state.pending_boot->0;
            let (after, verdict) = boot_resumed(state, asset_id, Err(complaint), now);
            let early = now.secs < pending.deadline.secs || now.secs == pending.deadline.secs
                && now.nanos < pending.deadline.nanos;
            let back = pending.phase is Forward && pending.rollback.automatic
                && pending.rollback.on_validation_failure && pending.rollback_action is Some;
            let report = verdict->Report_0;
            &&& early <==> verdict is Wait
            &&& early ==> after == state
            &&& !early && back <==> verdict is StartRollback
            &&& !early && back ==> after == state && verdict->StartRollback_0
                == pending.rollback_action->0
            &&& !early && !back ==> {
                &&& verdict is Report
                &&& !report.success
                &&& report.command_id == pending.command_id
                &&& report.asset_id == asset_id
                &&& report.booted_version == state.current_version
                &&& report.active_slot == state.active_slot
                &&& pending.phase is Forward ==> report.message == "post-boot validation failed: "@
                    + complaint
                &&& pending.phase is Rollback ==> report.message
                    == "post-boot validation failed and rollback failed: "@ + complaint
                &&& after.pending_boot is None
                &&& after.current_version == state.current_version
                &&& after.active_slot == state.active_slot
            }
        }),
{
}

/// Where no start of the machine is waited for, an agent makes nothing of one.
pub proof fn law_idle_boot(
    state: LocalStateView,
    asset_id: Seq<char>,
    validation: Result<(), Seq<char>>,
    now: Timestamp,
)
    requires
        state.pending_boot is None,
    ensures
        boot_resumed(state, asset_id, validation, now) == (state, BootVerdictView::Idle),
{
}

/// While the agent waits, waiting longer changes nothing until the deadline: where a machine is
/// given up or taken back at some time, it is at every later time.
pub proof fn law_deadline_passes_once(
    state: LocalStateView,
    asset_id: Seq<char>,
    complaint: Seq<char>,
    now: Timestamp,
    later: Timestamp,
)
    requires
        now.secs < later.secs || now.secs == later.secs && now.nanos <= later.nanos,
    ensures
        boot_resumed(state, asset_id, Err(complaint), later).1 is Wait ==> boot_resumed(
            state,
            asset_id,
            Err(complaint),
            now,
        ).1 is Wait,
        !(boot_resumed(state, asset_id, Err(complaint), now).1 is Wait) ==> boot_resumed(
            state,
            asset_id,
            Err(complaint),
            later,
        ) == boot_resumed(state, asset_id, Err(complaint), now),
{
}

/// What is waited for after a release was taken back: a machine as it was before, by its system,
/// its name, its slot and its device, with the same health checks, for the time that the policy
/// gives. There is no further way back.
pub proof fn law_rolling_back_by_fields(pending: PendingBootStateView, now: Timestamp)
    requires
        deadline_exists(now, pending.rollback.candidate_timeout_seconds),
    ensures
        ({
            let after = rolling_back(pending, now);
            let seconds = pending.rollback.candidate_timeout_seconds;
            &&& after.phase is Rollback
            &&& after.command_id == pending.command_id
            &&& after.deployment_id == pending.deployment_id
            &&& after.release_id == pending.release_id
            &&& after.release_version == pending.release_version
            &&& after.expected_system_path == pending.previous_system_path
            &&& after.expected_hostname == pending.previous_hostname
            &&& after.expected_active_slot == pending.previous_active_slot
            &&& after.expected_root_device == pending.previous_root_device
            &&& after.next_active_slot == pending.previous_active_slot
            &&& after.previous_version == pending.previous_version
            &&& after.previous_active_slot == pending.previous_active_slot
            &&& after.previous_system_path == pending.previous_system_path
            &&& after.previous_root_device == pending.previous_root_device
            &&& after.previous_hostname is None
            &&& after.rollback_action is None
            &&& after.health_checks == pending.health_checks
            &&& after.rollback == pending.rollback
            &&& after.deadline.nanos == now.nanos
            &&& seconds <= i64::MAX ==> after.deadline.secs == now.secs + seconds
            &&& seconds > i64::MAX ==> after.deadline.secs == now.secs + 900
        }),
{
}

/// What is waited for after a command whose release needs a new start of the machine: what the
/// activation expects goes before what the manifest expects, and for a release with slots the slot
/// that it went to is expected. What the machine was before, and the way back, are kept. The
/// deadline is the time that the manifest gives from now.
pub proof fn law_awaited_by_fields(
    cmd: CommandRecordView,
    preparation: PreparationView,
    expected: PendingRebootView,
    now: Timestamp,
)
    requires
        deadline_exists(now, cmd.manifest.validation.timeout_seconds),
    ensures
        ({
            let after = boot_awaited(cmd, preparation, expected, now);
            let validation = cmd.manifest.validation;
            let seconds = validation.timeout_seconds;
            &&& after.phase is Forward
            &&& after.command_id == cmd.id
            &&& after.deployment_id == cmd.deployment_id
            &&& after.release_id == cmd.release_id
            &&& after.release_version == cmd.release_version
            &&& expected.expected_system_path is Some ==> after.expected_system_path
                == expected.expected_system_path
            &&& expected.expected_system_path is None ==> after.expected_system_path
                == validation.expected_system_path
            &&& after.expected_hostname == validation.expected_hostname
            &&& expected.expected_active_slot is Some ==> after.expected_active_slot
                == expected.expected_active_slot
            &&& expected.expected_active_slot is None && cmd.manifest.executor is GrubAb
                ==> after.expected_active_slot == Some(preparation.ctx.next_slot)
            &&& expected.expected_active_slot is None && !(cmd.manifest.executor is GrubAb)
                ==> after.expected_active_slot is None
            &&& after.expected_root_device == expected.expected_root_device
            &&& after.next_active_slot == Some(preparation.ctx.next_slot)
            &&& after.previous_system_path == preparation.previous_system_path
            &&& after.previous_root_device == preparation.previous_root_device
            &&& after.previous_hostname == preparation.previous_hostname
            &&& after.previous_version == preparation.previous_version
            &&& after.previous_active_slot == preparation.previous_active_slot
            &&& after.rollback_action == preparation.rollback_action
            &&& after.health_checks == validation.health_checks
            &&& after.rollback == cmd.manifest.rollback
            &&& after.deadline.nanos == now.nanos
            &&& seconds <= i64::MAX ==> after.deadline.secs == now.secs + seconds
            &&& seconds > i64::MAX ==> after.deadline.secs == now.secs + 900
        }),
{
}

/// After a command that is completed the agent knows the version of its release and the slot that
/// it went to. Whether a start of the machine is waited for stays.
pub proof fn law_completed_by_fields(
    cmd: CommandRecordView,
    state: LocalStateView,
    next_slot: Seq<char>,
)
    ensures
        ({
            let end = command_completed(cmd, state, next_slot);
            &&& end is Completed
            &&& end->Completed_message == "installed "@ + cmd.release_version
            &&& end->Completed_state.current_version == Some(cmd.release_version)
            &&& end->Completed_state.active_slot == Some(next_slot)
            &&& end->Completed_state.pending_boot == state.pending_boot
        }),
{
}

/// The slot that the machine is taken to run is the one that was found out; where none was, the
/// one that the agent knew; where it knew none, the first of the release; and "A" otherwise.
pub proof fn law_starting_slot(
    detected: Option<Seq<char>>,
    known: Option<Seq<char>>,
    pair: Option<(Seq<char>, Seq<char>)>,
)
    ensures
        detected is Some ==> starting_slot(detected, known, pair) == detected->0,
        detected is None && known is Some ==> starting_slot(detected, known, pair) == known->0,
        detected is None && known is None ==> (pair matches Some((first, _)) ==> starting_slot(
            detected,
            known,
            pair,
        ) == first),
        detected is None && known is None && pair is None ==> starting_slot(detected, known, pair)
            == "A"@,
{
}

/// What a command is carried out with, on a machine whose slot need not be found out. It is its
/// own identifier, version and manifest; the slot that the agent knew, or the first; the version
/// that the agent knew; and for a generation of a system the running system and the name of the
/// machine, with the way back to that system.
pub proof fn law_prepared_by_fields(
    cmd: CommandRecordView,
    state: LocalStateView,
    state_dir: Seq<char>,
    artifact_path: Option<Seq<char>>,
    around: SurroundingsView,
)
    requires
        cmd.manifest.executor is NixGeneration || cmd.manifest.executor is Scripted
            || cmd.manifest.executor is Noop,
    ensures
        ({
            let prepared = command_prepared(cmd, state, state_dir, artifact_path, around);
            let is_nix = cmd.manifest.executor is NixGeneration;
            let p = prepared->Ok_0;
            let slot = if state.active_slot is Some {
                state.active_slot->0
            } else {
                "A"@
            };
            &&& prepared is Ok <==> (is_nix ==> around.system_path is Ok && around.hostname is Ok)
            &&& is_nix && around.system_path is Err ==> prepared == Err::<
                PreparationView,
                Seq<char>,
            >(around.system_path->Err_0)
            &&& prepared is Ok ==> {
                &&& p.ctx.command_id == cmd.id
                &&& p.ctx.artifact_path == artifact_path
                &&& p.ctx.manifest == cmd.manifest
                &&& p.ctx.release_version == cmd.release_version
                &&& p.ctx.state_dir == state_dir
                &&& p.ctx.current_slot == slot
                &&& slot == "A"@ ==> p.ctx.next_slot == "B"@
                &&& slot != "A"@ ==> p.ctx.next_slot == "A"@
                &&& p.previous_version == state.current_version
                &&& p.previous_active_slot == Some(slot)
                &&& p.previous_root_device is None
                &&& is_nix ==> {
                    &&& p.previous_system_path == Some(around.system_path->Ok_0)
                    &&& p.previous_hostname == Some(around.hostname->Ok_0)
                    &&& p.rollback_action == Some(
                        RollbackActionView::NixGeneration {
                            previous_system_path: around.system_path->Ok_0,
                        },
                    )
                }
                &&& !is_nix ==> {
                    &&& p.previous_system_path is None
                    &&& p.previous_hostname is None
                    &&& p.rollback_action is None
                }
            }
        }),
{
}

/// The name under which an artifact is put is the last part of the path of its address, where the
/// path starts at the root and ends in no slash; it holds no slash. Otherwise it is
/// "artifact.bin".
pub proof fn law_artifact_name(path: Seq<char>)
    ensures
        path.len() > 0 && path[0] == '/' && path[path.len() - 1] != '/' ==> {
            let name = artifact_name(path);
            let start = path.len() - name.len();
            &&& 0 < start
            &&& name.len() > 0
            &&& path.skip(start) == name
            &&& path[start - 1] == '/'
            &&& forall|i: int| 0 <= i < name.len() ==> #[trigger] name[i] != '/'
        },
        path.len() == 0 || path[0] != '/' || path[path.len() - 1] == '/' ==> artifact_name(path)
            == "artifact.bin"@,
{
    law_last_part(path);
    let start = last_part_start(path) as int;
    let last = path.skip(start);
    if path.len() > 0 && path[path.len() - 1] == '/' {
        assert(last.len() == 0);
    }
    if path.len() > 0 && path[0] == '/' && path[path.len() - 1] != '/' {
        assert(start < path.len()) by {
            if start == path.len() {
                assert(path[start - 1] == '/');
            }
        }
        assert(start > 0) by {
            if start == 0 {
                assert(path[0] != '/');
            }
        }
        assert forall|i: int| 0 <= i < last.len() implies #[trigger] last[i] != '/' by {
            assert(path[start + i] != '/');
        }
    }
}

/// The path of a name in the directory of artifacts.
proof fn lemma_artifact_place(state_dir: Seq<char>, name: Seq<char>)
    requires
        state_dir.len() > 0,
        state_dir[state_dir.len() - 1] != '/',
        !(name.len() > 0 && name[0] == '/'),
    ensures
        joined(joined(state_dir, "artifacts"@), name) == state_dir + "/artifacts/"@ + name,
{
    reveal_strlit("/");
    reveal_strlit("artifacts");
    reveal_strlit("/artifacts/");
    let dir = joined(state_dir, "artifacts"@);
    assert(dir == state_dir + "/"@ + "artifacts"@);
    assert(dir.last() == 's');
    assert("/"@ + "artifacts"@ + "/"@ =~= "/artifacts/"@);
    assert(joined(dir, name) =~= state_dir + ("/"@ + "artifacts"@ + "/"@) + name);
}

/// How an artifact is fetched: one with the address of a file from the path that it leads to, one
/// at an address of the web from that address, with all its headers. No other address will do.
/// Either way it is put under its name in the directory of artifacts.
pub proof fn law_download_by_parts(
    state_dir: Seq<char>,
    artifact: ArtifactSourceView,
    scheme: Seq<char>,
    path: Seq<char>,
    local: Option<Seq<u8>>,
)
    requires
        state_dir.len() > 0,
        state_dir[state_dir.len() - 1] != '/',
    ensures
        ({
            let plan = download_of(state_dir, artifact, Ok((scheme, path)), local);
            &&& plan is Ok <==> scheme == "http"@ || scheme == "https"@ || scheme == "file"@
                && local is Some
            &&& plan is Ok ==> plan->Ok_0.dest == state_dir + "/artifacts/"@ + artifact_name(path)
            &&& plan is Ok && scheme == "file"@ ==> plan->Ok_0.origin == ArtifactOriginView::Local(
                local->0,
            )
            &&& plan is Ok && scheme != "file"@ ==> plan->Ok_0.origin == (
            ArtifactOriginView::Remote { url: artifact.url, headers: artifact.headers })
        }),
        forall|complaint: Seq<char>|
            #[trigger] download_of(state_dir, artifact, Err(complaint), local) is Err,
{
    let name = artifact_name(path);
    assert(!(name.len() > 0 && name[0] == '/')) by {
        law_artifact_name(path);
        reveal_strlit("artifact.bin");
    }
    lemma_artifact_place(state_dir, name);
    assert("file"@ != "http"@ && "file"@ != "https"@) by {
        reveal_strlit("file");
        reveal_strlit("http");
        reveal_strlit("https");
        assert("file"@[0] == 'f' && "http"@[0] == 'h' && "https"@[0] == 'h');
    }
}

/// What an agent says of itself when it checks in: who it is, as it was started, the version and
/// the slot that it knows, and that it is online.
pub proof fn law_checkin_by_config(cfg: AgentConfigView, state: LocalStateView)
    ensures
        ({
            let said = checkin_of(cfg, state);
            &&& said.asset_id == cfg.asset_id
            &&& said.asset_type == cfg.asset_type
            &&& said.mission_state == cfg.mission_state
            &&& said.labels == cfg.labels
            &&& said.current_version == state.current_version
            &&& said.active_slot == state.active_slot
            &&& said.status == Some(AssetStatus::Online)
        }),
{
}

/// How a round begins. What was loaded is validated where a start of the machine is waited for,
/// and stored otherwise. What was stored is told when the agent checks in.
pub proof fn law_round_begins(
    cfg: AgentConfigView,
    state: LocalStateView,
    now: Timestamp,
)
    ensures
        ({
            let (stage, action) = advanced(
                cfg,
                StageView::Loading,
                EventView::Loaded(state),
                now,
            );
            &&& state.pending_boot is Some ==> stage == StageView::Validating(state) && action
                == ActionView::Validate(state.pending_boot->0)
            &&& state.pending_boot is None ==> stage == StageView::Saving(state) && action
                == ActionView::Save(state)
        }),
        ({
            let (stage, action) = advanced(cfg, StageView::Saving(state), EventView::Done, now);
            &&& stage == StageView::CheckingIn(state)
            &&& action is CheckIn
            &&& action->CheckIn_0.asset_id == cfg.asset_id
            &&& action->CheckIn_0.current_version == state.current_version
            &&& action->CheckIn_0.active_slot == state.active_slot
        }),
        ({
            let (stage, action) = advanced(
                cfg,
                StageView::CheckingIn(state),
                EventView::Done,
                now,
            );
            &&& state.pending_boot is None ==> stage == StageView::Polling(state) && action is Poll
                && action->Poll_0.asset_id == cfg.asset_id
            &&& state.pending_boot is Some ==> stage is Resting && action == ActionView::Sleep(
                cfg.poll_seconds,
            )
        }),
        advanced(cfg, StageView::Resting, EventView::Done, now) == (
            StageView::Loading,
            ActionView::Load,
        ),
{
}

/// What an agent does about a start of the machine that was waited for. What it makes of it is
/// reported before it is stored. Where the machine goes back, that is done before it is stored
/// that the machine is to be as it was. Where the agent waits, what it knew is stored.
pub proof fn law_round_after_boot(
    cfg: AgentConfigView,
    state: LocalStateView,
    outcome: Result<(), Seq<char>>,
    now: Timestamp,
    later: Timestamp,
)
    requires
        state.pending_boot is Some,
    ensures
        ({
            let (after, verdict) = boot_resumed(state, cfg.asset_id, outcome, now);
            let (stage, action) = advanced(
                cfg,
                StageView::Validating(state),
                EventView::Validated(outcome),
                now,
            );
            let (next, then_do) = advanced(cfg, stage, EventView::Done, later);
            &&& verdict is Report ==> action == ActionView::Report(verdict->Report_0) && then_do
                == ActionView::Save(after) && next == StageView::Saving(after)
            &&& verdict is StartRollback ==> {
                &&& action == ActionView::RollBack(verdict->StartRollback_0)
                &&& then_do is Save
                &&& next == StageView::Saving(then_do->Save_0)
                &&& then_do->Save_0.pending_boot == Some(
                    rolling_back(state.pending_boot->0, later),
                )
                &&& then_do->Save_0.current_version == state.current_version
                &&& then_do->Save_0.active_slot == state.active_slot
            }
            &&& verdict is Wait ==> stage == StageView::Saving(state) && action
                == ActionView::Save(state)
        }),
{
}

/// What an agent does about the commands that it gets: it carries out the first, or sleeps where
/// there is none.
pub proof fn law_commands_begun(
    cfg: AgentConfigView,
    state: LocalStateView,
    commands: Seq<CommandRecordView>,
    now: Timestamp,
)
    ensures
        ({
            let (stage, action) = advanced(
                cfg,
                StageView::Polling(state),
                EventView::Polled(commands),
                now,
            );
            &&& commands.len() == 0 ==> stage is Resting && action == ActionView::Sleep(
                cfg.poll_seconds,
            )
            &&& commands.len() > 0 ==> {
                &&& action == ActionView::Execute(commands[0])
                &&& stage is Executing
                &&& stage->Executing_0.state == state
                &&& stage->Executing_0.queue == commands
                &&& stage->Executing_0.at == 0
            }
        }),
{
}

/// What an agent does after a command. One that failed is reported so, with its complaint and
/// with what the agent knew before. One that was completed is stored and then reported as a
/// success, with what the agent knows now. One that waits for a new start of the machine is
/// stored, and not reported yet. Each report is of the command that was carried out.
pub proof fn law_commands_reported(
    cfg: AgentConfigView,
    work: WorkView,
    outcome: Result<CommandExecutionView, Seq<char>>,
    now: Timestamp,
    later: Timestamp,
)
    requires
        work.at < work.queue.len(),
        work.queue.len() <= usize::MAX,
    ensures
        ({
            let (stage, action) = advanced(
                cfg,
                StageView::Executing(work),
                EventView::Executed(outcome),
                now,
            );
            let (next, then_do) = advanced(cfg, stage, EventView::Done, later);
            match outcome {
                Err(complaint) => {
                    &&& stage == StageView::Answering(work)
                    &&& action is Report
                    &&& !action->Report_0.success
                    &&& action->Report_0.message == complaint
                    &&& action->Report_0.command_id == work.queue[work.at as int].id
                    &&& action->Report_0.asset_id == cfg.asset_id
                    &&& action->Report_0.booted_version == work.state.current_version
                    &&& action->Report_0.active_slot == work.state.active_slot
                },
                Ok(CommandExecutionView::Completed { message, state }) => {
                    &&& action == ActionView::Save(state)
                    &&& next == StageView::Answering(work)
                    &&& then_do is Report
                    &&& then_do->Report_0.success
                    &&& then_do->Report_0.message == message
                    &&& then_do->Report_0.command_id == work.queue[work.at as int].id
                    &&& then_do->Report_0.asset_id == cfg.asset_id
                    &&& then_do->Report_0.booted_version == state.current_version
                    &&& then_do->Report_0.active_slot == state.active_slot
                },
                Ok(CommandExecutionView::Deferred { state }) => {
                    &&& action == ActionView::Save(state)
                    &&& !(then_do is Report)
                    &&& work.at + 1 >= work.queue.len() ==> next is Resting
                    &&& work.at + 1 < work.queue.len() ==> then_do == ActionView::Execute(
                        work.queue[work.at + 1],
                    )
                },
            }
        }),
{
}

/// What a command is carried out with, for a release with devices for its slots. The machine runs
/// the slot whose device it runs from, whatever the agent knew, and the release goes to the other
/// one. The name of the machine and the device are kept, and the way back leads to the menu entry
/// of the slot that it runs.
pub proof fn law_prepared_with_slots(
    cmd: CommandRecordView,
    state: LocalStateView,
    state_dir: Seq<char>,
    artifact_path: Option<Seq<char>>,
    around: SurroundingsView,
)
    requires
        cmd.manifest.executor is GrubAb,
        cmd.manifest.executor->GrubAb_0.slots is Some,
        cmd.manifest.executor->GrubAb_0.slot_pair is None,
        cmd.manifest.executor->GrubAb_0.boot_control is Some,
        cmd.manifest.executor->GrubAb_0.slots->0[0].name
            != cmd.manifest.executor->GrubAb_0.slots->0[1].name,
        around.devices.root is Ok,
        around.devices.root->Ok_0.canonical is Ok,
        around.devices.first.canonical is Ok,
        around.devices.second.canonical is Ok,
        around.devices.first.canonical->Ok_0 != around.devices.second.canonical->Ok_0,
    ensures
        ({
            let slots = cmd.manifest.executor->GrubAb_0.slots->0;
            let boot_control = cmd.manifest.executor->GrubAb_0.boot_control->0;
            let root = around.devices.root->Ok_0.canonical->Ok_0;
            let on_first = root == around.devices.first.canonical->Ok_0;
            let on_second = root == around.devices.second.canonical->Ok_0;
            let (running, other) = if on_first {
                (slots[0], slots[1])
            } else {
                (slots[1], slots[0])
            };
            let prepared = command_prepared(cmd, state, state_dir, artifact_path, around);
            let p = prepared->Ok_0;
            &&& prepared is Ok <==> (on_first || on_second) && around.hostname is Ok
                && around.root_device is Ok
            &&& prepared is Ok ==> {
                &&& p.ctx.command_id == cmd.id
                &&& p.ctx.artifact_path == artifact_path
                &&& p.ctx.manifest == cmd.manifest
                &&& p.ctx.release_version == cmd.release_version
                &&& p.ctx.state_dir == state_dir
                &&& p.ctx.current_slot == running.name
                &&& p.ctx.next_slot == other.name
                &&& p.previous_version == state.current_version
                &&& p.previous_active_slot == Some(running.name)
                &&& p.previous_hostname == Some(around.hostname->Ok_0)
                &&& p.previous_root_device == Some(around.root_device->Ok_0)
                &&& p.previous_system_path is None
                &&& p.rollback_action is Some
                &&& p.rollback_action->0 is GrubAb
                &&& p.rollback_action->0->previous_grub_menu_entry == running.grub_menu_entry
                &&& p.rollback_action->0->authority_device == boot_control.authority_device
                &&& p.rollback_action->0->mountpoint == boot_control.mountpoint
                &&& p.rollback_action->0->grubenv_relpath == boot_control.grubenv_relpath
            }
        }),
{
}

/// What a command is carried out with, for a release whose slots are only named. The machine is
/// taken to run the slot that the agent knew, or the first; the release goes to the other one, and
/// to the first where the agent knew one that is not of the release. There is no way back.
pub proof fn law_prepared_with_names(
    cmd: CommandRecordView,
    state: LocalStateView,
    state_dir: Seq<char>,
    artifact_path: Option<Seq<char>>,
    around: SurroundingsView,
)
    requires
        cmd.manifest.executor is GrubAb,
        cmd.manifest.executor->GrubAb_0.slots is None,
        cmd.manifest.executor->GrubAb_0.slot_pair is Some,
        cmd.manifest.executor->GrubAb_0.slot_pair->0[0]
            != cmd.manifest.executor->GrubAb_0.slot_pair->0[1],
    ensures
        ({
            let pair = cmd.manifest.executor->GrubAb_0.slot_pair->0;
            let slot = if state.active_slot is Some {
                state.active_slot->0
            } else {
                pair[0]
            };
            let prepared = command_prepared(cmd, state, state_dir, artifact_path, around);
            let p = prepared->Ok_0;
            &&& prepared is Ok
            &&& p.ctx.command_id == cmd.id
            &&& p.ctx.artifact_path == artifact_path
            &&& p.ctx.manifest == cmd.manifest
            &&& p.ctx.release_version == cmd.release_version
            &&& p.ctx.state_dir == state_dir
            &&& p.ctx.current_slot == slot
            &&& slot == pair[0] ==> p.ctx.next_slot == pair[1]
            &&& slot != pair[0] ==> p.ctx.next_slot == pair[0]
            &&& p.previous_version == state.current_version
            &&& p.previous_active_slot == Some(slot)
            &&& p.previous_system_path is None
            &&& p.previous_hostname is None
            &&& p.previous_root_device is None
            &&& p.rollback_action is None
        }),
{
}

/// How a command begins. One with an artifact makes room for it, fetches it, and reads it again
/// exactly where there is a digest to hold it to; then the agent looks around. One without an
/// artifact begins there.
pub proof fn law_command_begins(
    cmd: CommandRecordView,
    state_dir: Seq<char>,
    programs: ProgramsView,
    dest: Seq<char>,
    now: Timestamp,
)
    ensures
        ({
            let spec = cmd.manifest.executor;
            let has_artifact = spec is Scripted || spec is GrubAb;
            let artifact = if spec is Scripted {
                spec->Scripted_0.artifact
            } else {
                spec->GrubAb_0.artifact
            };
            let (stage, action) = command_begun(cmd, state_dir);
            let fetch = command_advanced(
                cmd,
                state_dir,
                programs,
                CommandStageView::MakingRoom,
                CommandEventView::Done,
                now,
            );
            let plan = download_of(
                state_dir,
                artifact,
                parsed_url(artifact.url),
                file_path(artifact.url),
            );
            let fetched = command_advanced(
                cmd,
                state_dir,
                programs,
                CommandStageView::Fetching(dest),
                CommandEventView::Done,
                now,
            );
            &&& !has_artifact ==> {
                &&& stage == CommandStageView::LookingAround(None)
                &&& action is LookAround
                &&& forall|state: LocalStateView, around: SurroundingsView| #[trigger]
                    is_due(cmd, stage, CommandEventView::Found(state, around), now)
            }
            &&& has_artifact ==> {
                &&& stage is MakingRoom
                &&& is_due(cmd, stage, CommandEventView::Done, now)
                &&& action == CommandActionView::CreateDirs(joined(state_dir, "artifacts"@))
                &&& plan is Err ==> fetch == CommandNextView::End(Err(plan->Err_0))
                &&& plan is Ok ==> fetch == CommandNextView::Go(
                    CommandStageView::Fetching(plan->Ok_0.dest),
                    CommandActionView::Fetch(plan->Ok_0),
                )
                &&& artifact.sha256 is Some ==> fetched == CommandNextView::Go(
                    CommandStageView::Verifying(dest),
                    CommandActionView::ReadArtifact(dest),
                )
                &&& artifact.sha256 is None ==> fetched == CommandNextView::Go(
                    CommandStageView::LookingAround(Some(dest)),
                    CommandActionView::LookAround,
                )
            }
        }),
{
}

/// An artifact that was read is used exactly where its digest is the one that the release names,
/// in upper or lower case. Otherwise the command fails.
pub proof fn law_artifact_held_to_digest(
    cmd: CommandRecordView,
    state_dir: Seq<char>,
    programs: ProgramsView,
    dest: Seq<char>,
    bytes: Seq<u8>,
    now: Timestamp,
)
    requires
        cmd.manifest.executor is Scripted,
        cmd.manifest.executor->Scripted_0.artifact.sha256 is Some,
    ensures
        ({
            let wanted = cmd.manifest.executor->Scripted_0.artifact.sha256->0;
            let next = command_advanced(
                cmd,
                state_dir,
                programs,
                CommandStageView::Verifying(dest),
                CommandEventView::ArtifactRead(Some(bytes)),
                now,
            );
            &&& hex(sha256(bytes)) == lowered(wanted) ==> next == CommandNextView::Go(
                CommandStageView::LookingAround(Some(dest)),
                CommandActionView::LookAround,
            )
            &&& hex(sha256(bytes)) != lowered(wanted) ==> next is End && next->End_0 is Err
        }),
{
}

/// After it has looked around the agent installs the release with what it found, by the steps of
/// its executor, and gives up where something that it needs was not found.
pub proof fn law_command_installs(
    cmd: CommandRecordView,
    state_dir: Seq<char>,
    programs: ProgramsView,
    artifact: Option<Seq<char>>,
    state: LocalStateView,
    around: SurroundingsView,
    now: Timestamp,
)
    ensures
        ({
            let prepared = command_prepared(cmd, state, state_dir, artifact, around);
            let steps = executor_of(cmd.manifest.executor).installs(prepared->Ok_0.ctx, programs);
            let next = command_advanced(
                cmd,
                state_dir,
                programs,
                CommandStageView::LookingAround(artifact),
                CommandEventView::Found(state, around),
                now,
            );
            &&& prepared is Err ==> next == CommandNextView::End(Err(prepared->Err_0))
            &&& prepared is Ok && steps is Err ==> next == CommandNextView::End(Err(steps->Err_0))
            &&& prepared is Ok && steps is Ok ==> {
                &&& next is Go
                &&& next->Go_0 is Installing
                &&& next->Go_0->Installing_0.state == state
                &&& next->Go_0->Installing_0.preparation == prepared->Ok_0
                &&& next->Go_1 == CommandActionView::Perform(steps->Ok_0)
            }
        }),
{
}

/// Once installed, a release is activated by the steps of its executor. Where it is active then,
/// its checks are made, and where there are none the command is completed: the agent knows the
/// version and the slot of the release. Where a new start of the machine is awaited, the command
/// is put off until then.
pub proof fn law_command_activates(
    cmd: CommandRecordView,
    state_dir: Seq<char>,
    programs: ProgramsView,
    work: UndertakingView,
    now: Timestamp,
    later: Timestamp,
)
    requires
        !(cmd.manifest.executor is NixGeneration),
    ensures
        ({
            let plan = executor_of(cmd.manifest.executor).activates(
                work.preparation.ctx,
                programs,
                None,
            );
            let next = command_advanced(
                cmd,
                state_dir,
                programs,
                CommandStageView::Installing(work),
                CommandEventView::Done,
                now,
            );
            let after = command_advanced(
                cmd,
                state_dir,
                programs,
                next->Go_0,
                CommandEventView::Done,
                later,
            );
            let validation = cmd.manifest.validation;
            let unchecked = validation.expected_system_path is None
                && validation.expected_hostname is None && validation.health_checks.len() == 0;
            let known = after->End_0->Ok_0->Completed_state;
            let awaited = after->End_0->Ok_0->Deferred_state;
            &&& plan is Err ==> next == CommandNextView::End(Err(plan->Err_0))
            &&& plan is Ok ==> {
                &&& next is Go
                &&& next->Go_0 is Activating
                &&& next->Go_1 == CommandActionView::Perform(plan->Ok_0.steps)
            }
            &&& plan is Ok && plan->Ok_0.outcome is Complete && unchecked ==> {
                &&& after is End
                &&& after->End_0 is Ok
                &&& after->End_0->Ok_0 is Completed
                &&& known.current_version == Some(cmd.release_version)
                &&& known.active_slot == Some(work.preparation.ctx.next_slot)
                &&& known.pending_boot == work.state.pending_boot
            }
            &&& plan is Ok && plan->Ok_0.outcome is AwaitReboot ==> {
                &&& after is End
                &&& after->End_0 is Ok
                &&& after->End_0->Ok_0 is Deferred
                &&& awaited.current_version == work.state.current_version
                &&& awaited.active_slot == work.state.active_slot
                &&& awaited.pending_boot == Some(
                    boot_awaited(
                        cmd,
                        work.preparation,
                        plan->Ok_0.outcome->AwaitReboot_0,
                        later,
                    ),
                )
            }
        }),
{
}

/// The places of the control plane that an agent talks to.
pub proof fn law_endpoints()
    ensures
        Endpoint::Checkin.path() == "/v1/agent/checkin"@,
        Endpoint::Poll.path() == "/v1/agent/poll"@,
        Endpoint::Result.path() == "/v1/agent/result"@,
{
}

/// The system of a command is read again from where the installation notes it.
pub proof fn law_system_read_back(
    cmd: CommandRecordView,
    state_dir: Seq<char>,
    programs: ProgramsView,
    work: UndertakingView,
    now: Timestamp,
)
    requires
        cmd.manifest.executor is NixGeneration,
        work.preparation.ctx.manifest == cmd.manifest,
    ensures
        ({
            let next = command_advanced(
                cmd,
                state_dir,
                programs,
                CommandStageView::Installing(work),
                CommandEventView::Done,
                now,
            );
            let steps = executor_of(cmd.manifest.executor).installs(
                work.preparation.ctx,
                programs,
            )->Ok_0;
            &&& next is Go
            &&& next->Go_0 == CommandStageView::Recalling(work)
            &&& next->Go_1 is ReadSystem
            &&& steps.last() is BuildSystem ==> next->Go_1->ReadSystem_0
                == steps.last()->BuildSystem_0.metadata_path
            &&& steps.last() is SaveSystem ==> next->Go_1->ReadSystem_0
                == steps.last()->SaveSystem_0.metadata_path
        }),
{
}

/// How a release is taken back: the system from before is registered and switched to, or the boot
/// loader is told the menu entry from before in its environment. The machine is started anew then.
pub proof fn law_taken_back(action: RollbackActionView, programs: ProgramsView)
    ensures
        ({
            let steps = rollback_steps(action, programs);
            let last = steps.last();
            &&& last is Run
            &&& last->Run_0.args.len() == 1
            &&& last->Run_0.args[0] == "reboot"@
            &&& action is NixGeneration ==> {
                &&& steps.len() == 3
                &&& steps[0] is Run
                &&& steps[0]->Run_0.program == "nix-env"@
                &&& steps[0]->Run_0.args.last() == action->previous_system_path
                &&& steps[1] is Run
                &&& steps[1]->Run_0.program == joined(
                    action->previous_system_path,
                    "bin/switch-to-configuration"@,
                )
                &&& last->Run_0.program == "systemctl"@
            }
            &&& action is GrubAb ==> {
                &&& steps.len() == 2
                &&& steps[0] is SetSavedEntry
                &&& steps[0]->SetSavedEntry_0.entry == action->previous_grub_menu_entry
                &&& steps[0]->SetSavedEntry_0.boot_control.authority_device
                    == action->authority_device
                &&& steps[0]->SetSavedEntry_0.boot_control.mountpoint == action->mountpoint
                &&& steps[0]->SetSavedEntry_0.boot_control.grubenv_relpath
                    == action->grubenv_relpath
                &&& last->Run_0.program == programs.reboot
            }
        }),
{
}

/// Whatever is to be done next for a command, what comes of it can be taken in: that it was done,
/// what was read, found or asked, and, at any time, that it failed.
pub proof fn law_command_goes_on(
    cmd: CommandRecordView,
    state_dir: Seq<char>,
    programs: ProgramsView,
    stage: CommandStageView,
    event: CommandEventView,
    now: Timestamp,
    later: Timestamp,
)
    requires
        is_due(cmd, stage, event, now),
        is_stage_of(cmd, stage),
        deadline_exists(later, cmd.manifest.validation.timeout_seconds),
    ensures
        command_advanced(cmd, state_dir, programs, stage, event, now) matches CommandNextView::Go(
            next,
            action,
        ) ==> {
            &&& action is CreateDirs || action is Fetch || action is Perform || action is Save
                ==> is_due(cmd, next, CommandEventView::Done, later)
            &&& action is ReadArtifact ==> forall|bytes: Option<Seq<u8>>| #[trigger]
                is_due(cmd, next, CommandEventView::ArtifactRead(bytes), later)
            &&& action is LookAround ==> forall|state: LocalStateView, around: SurroundingsView|
                #[trigger]
                is_due(cmd, next, CommandEventView::Found(state, around), later)
            &&& action is ReadSystem ==> forall|built: Option<Seq<char>>| #[trigger]
                is_due(cmd, next, CommandEventView::SystemRead(built), later)
            &&& action is Probe ==> forall|outcome: Result<(), Seq<char>>| #[trigger]
                is_due(cmd, next, CommandEventView::Probed(outcome), later)
            &&& forall|complaint: Seq<char>| #[trigger]
                is_due(cmd, next, CommandEventView::Failed(complaint), later)
        },
{
}

/// Whatever an agent is to do next, what comes of it can be taken in.
pub proof fn law_round_goes_on(
    cfg: AgentConfigView,
    stage: StageView,
    event: EventView,
    now: Timestamp,
    later: Timestamp,
)
    requires
        is_expected(stage, event, now),
    ensures
        ({
            let (next, action) = advanced(cfg, stage, event, now);
            &&& action is Load ==> forall|state: LocalStateView| #[trigger]
                is_expected(next, EventView::Loaded(state), later)
            &&& action is Validate ==> forall|outcome: Result<(), Seq<char>>| #[trigger]
                is_expected(next, EventView::Validated(outcome), later)
            &&& action is Poll ==> forall|commands: Seq<CommandRecordView>| #[trigger]
                is_expected(next, EventView::Polled(commands), later)
            &&& action is Execute ==> forall|
                outcome: Result<CommandExecutionView, Seq<char>>,
            | #[trigger]
                is_expected(next, EventView::Executed(outcome), later)
            &&& action is Save || action is CheckIn || action is Report || action is Sleep
                ==> is_expected(next, EventView::Done, later)
            &&& action is RollBack && next is RollingBack && deadline_exists(
                later,
                next->RollingBack_0.pending_boot->0.rollback.candidate_timeout_seconds,
            ) ==> is_expected(next, EventView::Done, later)
        }),
{
}

} // verus!
