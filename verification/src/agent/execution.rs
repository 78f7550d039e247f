//! A command from its beginning to its end.
//!
//! Carrying out a command takes turns with the machine: what is to be done next follows from what
//! came of the last action.

use crate::agent::state::{LocalState, LocalStateView};
use crate::agent::validation::{
    all_judged, digest_verdict, judged, law_passed, progress_from, run_health_checks,
    validation_probes, validation_probes_of, verify_sha256, Probe, ProbeView, Progress,
    ProgressView,
};
use crate::agent::workflow::{
    artifact_dir, artifact_dir_of, await_boot, boot_awaited, command_completed, command_prepared,
    complete_command, deadline_exists, defer_command_as, download_artifact, download_of,
    has_deadline, needs_reboot, prepare_command, requires_reboot, CommandExecution,
    CommandExecutionView, Download, DownloadView, Preparation, PreparationView, Surroundings,
    SurroundingsView,
};
use crate::clock::{utc_now, Timestamp};
use crate::executors::nix_generation::{metadata_file, metadata_path};
use crate::executors::plan::{Programs, ProgramsView, Step, StepView};
use crate::executors::{
    artifact_of, artifact_source, build, executor_of, Activation, ActivationOutcome,
    ActivationOutcomeView, ActivationView, Executor, PendingRebootView, RollbackActionView,
};
use crate::links::{file_path, parsed_url};
use crate::types::manifest::{ArtifactSourceView, ExecutorSpec};
use crate::types::records::{CommandRecord, CommandRecordView};
use vstd::prelude::*;

verus! {

/// What a command is carried out with, and what the agent knew before.
#[derive(Debug)]
pub struct Undertaking {
    pub state: LocalState,
    pub preparation: Preparation,
}

/// The value of an [`Undertaking`].
#[verifier::ext_equal]
pub struct UndertakingView {
    pub state: LocalStateView,
    pub preparation: PreparationView,
}

impl View for Undertaking {
    type V = UndertakingView;

    open spec fn view(&self) -> UndertakingView {
        UndertakingView { state: self.state@, preparation: self.preparation@ }
    }
}

/// An activation that is under way, and what it leads to.
#[derive(Debug)]
pub struct OpenActivation {
    pub work: Undertaking,
    pub outcome: ActivationOutcome,
}

/// The value of an [`OpenActivation`].
#[verifier::ext_equal]
pub struct OpenActivationView {
    pub work: UndertakingView,
    pub outcome: ActivationOutcomeView,
}

impl View for OpenActivation {
    type V = OpenActivationView;

    open spec fn view(&self) -> OpenActivationView {
        OpenActivationView { work: self.work@, outcome: self.outcome@ }
    }
}

/// An activation that is planned.
#[derive(Debug)]
pub struct PlannedActivation {
    pub work: Undertaking,
    pub activation: Activation,
}

/// The value of a [`PlannedActivation`].
#[verifier::ext_equal]
pub struct PlannedActivationView {
    pub work: UndertakingView,
    pub activation: ActivationView,
}

impl View for PlannedActivation {
    type V = PlannedActivationView;

    open spec fn view(&self) -> PlannedActivationView {
        PlannedActivationView { work: self.work@, activation: self.activation@ }
    }
}

/// A validation that is under way, and what came of the first of its probes.
#[derive(Debug)]
pub struct Checkup {
    pub work: Undertaking,
    pub outcomes: Vec<Result<(), String>>,
}

/// The value of a [`Checkup`].
#[verifier::ext_equal]
pub struct CheckupView {
    pub work: UndertakingView,
    pub outcomes: Seq<Result<(), Seq<char>>>,
}

impl View for Checkup {
    type V = CheckupView;

    open spec fn view(&self) -> CheckupView {
        CheckupView { work: self.work@, outcomes: all_judged(self.outcomes@) }
    }
}

/// How far a command has come.
#[derive(Debug)]
pub enum CommandStage {
    /// The directory for the artifact is made.
    MakingRoom,
    /// The artifact is fetched to this place.
    Fetching(String),
    /// The artifact at this place is read, to hold it against its digest.
    Verifying(String),
    /// The machine is looked at; the artifact, if there is one, is at this place.
    LookingAround(Option<String>),
    /// The release is installed.
    Installing(Undertaking),
    /// The path of the system that was installed is read.
    Recalling(Undertaking),
    /// What is expected of the next start of the machine, and how to go back, is stored, for a
    /// generation of a system.
    Securing(PlannedActivation),
    /// The release is activated.
    Activating(OpenActivation),
    /// The activation failed with this complaint, and what the agent knew before is stored again.
    Restoring(String),
    /// The release is validated.
    Checking(Checkup),
}

/// The value of a [`CommandStage`].
#[verifier::ext_equal]
pub enum CommandStageView {
    MakingRoom,
    Fetching(Seq<char>),
    Verifying(Seq<char>),
    LookingAround(Option<Seq<char>>),
    Installing(UndertakingView),
    Recalling(UndertakingView),
    Securing(PlannedActivationView),
    Activating(OpenActivationView),
    Restoring(Seq<char>),
    Checking(CheckupView),
}

impl View for CommandStage {
    type V = CommandStageView;

    open spec fn view(&self) -> CommandStageView {
        match self {
            CommandStage::MakingRoom => CommandStageView::MakingRoom,
            CommandStage::Fetching(x) => CommandStageView::Fetching(x@),
            CommandStage::Verifying(x) => CommandStageView::Verifying(x@),
            CommandStage::LookingAround(x) => CommandStageView::LookingAround(x.deep_view()),
            CommandStage::Installing(x) => CommandStageView::Installing(x@),
            CommandStage::Recalling(x) => CommandStageView::Recalling(x@),
            CommandStage::Securing(x) => CommandStageView::Securing(x@),
            CommandStage::Activating(x) => CommandStageView::Activating(x@),
            CommandStage::Restoring(x) => CommandStageView::Restoring(x@),
            CommandStage::Checking(x) => CommandStageView::Checking(x@),
        }
    }
}

/// What a command asks for next.
#[derive(Debug)]
pub enum CommandAction {
    /// A directory, with those that it lies in.
    CreateDirs(String),
    /// An artifact.
    Fetch(Download),
    /// The bytes of an artifact, unless it is a directory.
    ReadArtifact(String),
    /// What the agent knows, and what is found out about the machine.
    LookAround,
    /// Steps, one after the other, up to the first that fails.
    Perform(Vec<Step>),
    /// The path of a system, as it was noted in this file.
    ReadSystem(String),
    /// That the agent know this, also after the machine went down.
    Save(LocalState),
    /// Something to find out about the machine.
    Probe(Probe),
}

/// The value of a [`CommandAction`].
#[verifier::ext_equal]
pub enum CommandActionView {
    CreateDirs(Seq<char>),
    Fetch(DownloadView),
    ReadArtifact(Seq<char>),
    LookAround,
    Perform(Seq<StepView>),
    ReadSystem(Seq<char>),
    Save(LocalStateView),
    Probe(ProbeView),
}

impl View for CommandAction {
    type V = CommandActionView;

    open spec fn view(&self) -> CommandActionView {
        match self {
            CommandAction::CreateDirs(x) => CommandActionView::CreateDirs(x@),
            CommandAction::Fetch(x) => CommandActionView::Fetch(x@),
            CommandAction::ReadArtifact(x) => CommandActionView::ReadArtifact(x@),
            CommandAction::LookAround => CommandActionView::LookAround,
            CommandAction::Perform(x) => CommandActionView::Perform(x.deep_view()),
            CommandAction::ReadSystem(x) => CommandActionView::ReadSystem(x@),
            CommandAction::Save(x) => CommandActionView::Save(x@),
            CommandAction::Probe(x) => CommandActionView::Probe(x@),
        }
    }
}

/// What came of an action.
#[derive(Debug)]
pub enum CommandEvent {
    /// The action was carried out.
    Done,
    /// The bytes of the artifact, unless it is a directory.
    ArtifactRead(Option<Vec<u8>>),
    /// What the agent knows, and what was found out about the machine.
    Found(LocalState, Surroundings),
    /// The path of the system, if it was noted.
    SystemRead(Option<String>),
    /// What was found out of a probe.
    Probed(Result<(), String>),
    /// The action failed, with the complaint.
    Failed(String),
}

/// The value of a [`CommandEvent`].
#[verifier::ext_equal]
pub enum CommandEventView {
    Done,
    ArtifactRead(Option<Seq<u8>>),
    Found(LocalStateView, SurroundingsView),
    SystemRead(Option<Seq<char>>),
    Probed(Result<(), Seq<char>>),
    Failed(Seq<char>),
}

impl View for CommandEvent {
    type V = CommandEventView;

    open spec fn view(&self) -> CommandEventView {
        match self {
            CommandEvent::Done => CommandEventView::Done,
            CommandEvent::ArtifactRead(x) => CommandEventView::ArtifactRead(
                match x {
                    Some(bytes) => Some(bytes@),
                    None => None,
                },
            ),
            CommandEvent::Found(x, y) => CommandEventView::Found(x@, y@),
            CommandEvent::SystemRead(x) => CommandEventView::SystemRead(x.deep_view()),
            CommandEvent::Probed(x) => CommandEventView::Probed(judged(*x)),
            CommandEvent::Failed(x) => CommandEventView::Failed(x@),
        }
    }
}

/// How a command goes on.
#[derive(Debug)]
pub enum CommandNext {
    /// To this stage, with this action.
    Go(CommandStage, CommandAction),
    /// Not at all: it ended, or it failed with the complaint.
    End(Result<CommandExecution, String>),
}

/// The value of a [`CommandNext`].
#[verifier::ext_equal]
pub enum CommandNextView {
    Go(CommandStageView, CommandActionView),
    End(Result<CommandExecutionView, Seq<char>>),
}

impl View for CommandNext {
    type V = CommandNextView;

    open spec fn view(&self) -> CommandNextView {
        match self {
            CommandNext::Go(stage, action) => CommandNextView::Go(stage@, action@),
            CommandNext::End(outcome) => CommandNextView::End(
                match outcome {
                    Ok(execution) => Ok(execution@),
                    Err(complaint) => Err(complaint@),
                },
            ),
        }
    }
}

/// The end of a command that failed.
pub open spec fn failed(complaint: Seq<char>) -> CommandNextView {
    CommandNextView::End(Err(complaint))
}

/// The artifact of a command that has one.
pub open spec fn artifact_in(cmd: CommandRecordView) -> ArtifactSourceView {
    artifact_of(cmd.manifest.executor)->0
}

/// How a command begins: with room for its artifact, if it has one.
pub open spec fn command_begun(cmd: CommandRecordView, state_dir: Seq<char>) -> (
    CommandStageView,
    CommandActionView,
) {
    if artifact_of(cmd.manifest.executor) is Some {
        (
            CommandStageView::MakingRoom,
            CommandActionView::CreateDirs(artifact_dir_of(state_dir)),
        )
    } else {
        (CommandStageView::LookingAround(None), CommandActionView::LookAround)
    }
}

/// Looking at the machine, with the artifact at this place.
pub open spec fn looking(artifact: Seq<char>) -> CommandNextView {
    CommandNextView::Go(
        CommandStageView::LookingAround(Some(artifact)),
        CommandActionView::LookAround,
    )
}

/// How the installation begins.
pub open spec fn installation_begun(
    cmd: CommandRecordView,
    work: UndertakingView,
    programs: ProgramsView,
) -> CommandNextView {
    match executor_of(cmd.manifest.executor).installs(work.preparation.ctx, programs) {
        Err(complaint) => failed(complaint),
        Ok(steps) => CommandNextView::Go(
            CommandStageView::Installing(work),
            CommandActionView::Perform(steps),
        ),
    }
}

/// What the agent is to know before the machine starts anew: what is expected of that start, and
/// how to go back.
pub open spec fn secured_state(
    cmd: CommandRecordView,
    work: UndertakingView,
    expected: PendingRebootView,
    now: Timestamp,
) -> LocalStateView {
    LocalStateView {
        pending_boot: Some(boot_awaited(cmd, work.preparation, expected, now)),
        ..work.state
    }
}

/// The steps of an activation.
pub open spec fn activating(planned: PlannedActivationView) -> CommandNextView {
    CommandNextView::Go(
        CommandStageView::Activating(
            OpenActivationView { work: planned.work, outcome: planned.activation.outcome },
        ),
        CommandActionView::Perform(planned.activation.steps),
    )
}

/// How the activation begins: for a generation of a system with storing what is to be known after
/// the new start of the machine, and otherwise with its steps. Where a system was installed, its
/// path is given.
pub open spec fn activation_begun(
    cmd: CommandRecordView,
    work: UndertakingView,
    programs: ProgramsView,
    built: Option<Seq<char>>,
    now: Timestamp,
) -> CommandNextView {
    match executor_of(cmd.manifest.executor).activates(work.preparation.ctx, programs, built) {
        Err(complaint) => failed(complaint),
        Ok(activation) => match activation.outcome {
            ActivationOutcomeView::AwaitReboot(
                expected,
            ) if cmd.manifest.executor is NixGeneration => CommandNextView::Go(
                CommandStageView::Securing(PlannedActivationView { work, activation }),
                CommandActionView::Save(secured_state(cmd, work, expected, now)),
            ),
            _ => activating(PlannedActivationView { work, activation }),
        },
    }
}

/// What is to be found out about the machine after the activation.
pub open spec fn probes_for(cmd: CommandRecordView) -> Seq<ProbeView> {
    validation_probes_of(cmd.manifest.validation)
}

/// How the validation goes on.
pub open spec fn checkup_continued(cmd: CommandRecordView, checkup: CheckupView) -> CommandNextView {
    match progress_from(probes_for(cmd), checkup.outcomes, 0) {
        ProgressView::Failed(complaint) => failed(complaint),
        ProgressView::Passed => CommandNextView::End(
            Ok(
                command_completed(
                    cmd,
                    checkup.work.state,
                    checkup.work.preparation.ctx.next_slot,
                ),
            ),
        ),
        ProgressView::Next(at) => CommandNextView::Go(
            CommandStageView::Checking(checkup),
            CommandActionView::Probe(probes_for(cmd)[at]),
        ),
    }
}

/// Whether the activation can end in a new start of the machine.
pub open spec fn may_reboot(work: UndertakingView) -> bool {
    needs_reboot(work.preparation.ctx.manifest.executor)
}

/// Whether an event can come of the action that a stage waits for, and a deadline that has to be
/// set then lies in the calendar.
pub open spec fn is_due(
    cmd: CommandRecordView,
    stage: CommandStageView,
    event: CommandEventView,
    now: Timestamp,
) -> bool {
    let has_artifact = artifact_of(cmd.manifest.executor) is Some;
    let in_time = deadline_exists(now, cmd.manifest.validation.timeout_seconds);
    event is Failed || match stage {
        CommandStageView::MakingRoom => event is Done && has_artifact,
        CommandStageView::Fetching(_) => event is Done && has_artifact,
        CommandStageView::Verifying(_) => event is ArtifactRead && has_artifact,
        CommandStageView::LookingAround(_) => event is Found,
        CommandStageView::Installing(_) => event is Done,
        CommandStageView::Recalling(work) => event is SystemRead
            && cmd.manifest.executor is NixGeneration && (event->SystemRead_0 is Some && may_reboot(
            work,
        ) ==> in_time),
        CommandStageView::Securing(_) => event is Done,
        CommandStageView::Activating(activation) => event is Done && (
        activation.outcome is AwaitReboot ==> in_time),
        CommandStageView::Restoring(_) => event is Done,
        CommandStageView::Checking(_) => event is Probed,
    }
}

/// How a command goes on.
///
/// Its artifact is fetched, and held against its digest where it has one. The machine is looked
/// at. The release is installed and activated. Where it is active then, it is validated, and the
/// command ends if the machine is as it should be. Where the machine has to start anew, the
/// command ends after the activation with what is expected of that start and how to go back. For
/// a generation of a system that is stored before the activation too. Whatever fails ends the
/// command. Where that is the activation of a generation, what the agent knew before is stored
/// again first.
pub open spec fn command_advanced(
    cmd: CommandRecordView,
    state_dir: Seq<char>,
    programs: ProgramsView,
    stage: CommandStageView,
    event: CommandEventView,
    now: Timestamp,
) -> CommandNextView {
    match (stage, event) {
        (CommandStageView::Restoring(complaint), _) => failed(complaint),
        (
            CommandStageView::Activating(activation),
            CommandEventView::Failed(complaint),
        ) => if cmd.manifest.executor is NixGeneration && activation.outcome is AwaitReboot {
            CommandNextView::Go(
                CommandStageView::Restoring(complaint),
                CommandActionView::Save(activation.work.state),
            )
        } else {
            failed(complaint)
        },
        (_, CommandEventView::Failed(complaint)) => failed(complaint),
        (CommandStageView::MakingRoom, _) => {
            let artifact = artifact_in(cmd);
            match download_of(
                state_dir,
                artifact,
                parsed_url(artifact.url),
                file_path(artifact.url),
            ) {
                Err(complaint) => failed(complaint),
                Ok(download) => CommandNextView::Go(
                    CommandStageView::Fetching(download.dest),
                    CommandActionView::Fetch(download),
                ),
            }
        },
        (CommandStageView::Fetching(dest), _) => if artifact_in(cmd).sha256 is Some {
            CommandNextView::Go(
                CommandStageView::Verifying(dest),
                CommandActionView::ReadArtifact(dest),
            )
        } else {
            looking(dest)
        },
        (CommandStageView::Verifying(dest), CommandEventView::ArtifactRead(bytes)) => match bytes {
            None => looking(dest),
            Some(bytes) => match digest_verdict(bytes, artifact_in(cmd).sha256) {
                Err(complaint) => failed(complaint),
                Ok(_) => looking(dest),
            },
        },
        (
            CommandStageView::LookingAround(artifact),
            CommandEventView::Found(state, around),
        ) => match command_prepared(cmd, state, state_dir, artifact, around) {
            Err(complaint) => failed(complaint),
            Ok(preparation) => installation_begun(
                cmd,
                UndertakingView { state, preparation },
                programs,
            ),
        },
        (CommandStageView::Installing(work), _) => if cmd.manifest.executor is NixGeneration {
            CommandNextView::Go(
                CommandStageView::Recalling(work),
                CommandActionView::ReadSystem(metadata_file(work.preparation.ctx)),
            )
        } else {
            activation_begun(cmd, work, programs, None, now)
        },
        (
            CommandStageView::Recalling(work),
            CommandEventView::SystemRead(built),
        ) => activation_begun(cmd, work, programs, built, now),
        (CommandStageView::Securing(planned), _) => activating(planned),
        (CommandStageView::Activating(activation), _) => match activation.outcome {
            ActivationOutcomeView::Complete => checkup_continued(
                cmd,
                CheckupView { work: activation.work, outcomes: Seq::empty() },
            ),
            ActivationOutcomeView::AwaitReboot(expected) => CommandNextView::End(
                Ok(
                    CommandExecutionView::Deferred {
                        state: secured_state(cmd, activation.work, expected, now),
                    },
                ),
            ),
        },
        (CommandStageView::Checking(checkup), CommandEventView::Probed(outcome)) =>
            checkup_continued(
                cmd,
                CheckupView { outcomes: checkup.outcomes.push(outcome), ..checkup },
            ),
        _ => failed(Seq::empty()),
    }
}

/// Begins a command: with room for its artifact, if it has one.
pub fn execute_command(cmd: &CommandRecord, state_dir: &str) -> (r: (CommandStage, CommandAction))
    ensures
        (r.0@, r.1@) == command_begun(cmd@, state_dir@),
{
    match artifact_source(&cmd.manifest.executor) {
        Some(_) => (
            CommandStage::MakingRoom,
            CommandAction::CreateDirs(artifact_dir(state_dir)),
        ),
        None => (CommandStage::LookingAround(None), CommandAction::LookAround),
    }
}

/// A generation of a system is activated where its path is known, and needs a new start of the
/// machine then.
proof fn lemma_generation_reboots(
    cmd: CommandRecordView,
    work: UndertakingView,
    programs: ProgramsView,
    built: Option<Seq<char>>,
)
    requires
        cmd.manifest.executor is NixGeneration,
    ensures
        executor_of(cmd.manifest.executor).activates(
            work.preparation.ctx,
            programs,
            built,
        ) matches Ok(activation) ==> {
            &&& activation.outcome is AwaitReboot
            &&& may_reboot(work)
            &&& built is Some
        },
{
}

/// Begins the activation. Where a system was installed, its path is given.
fn begin_activation(
    cmd: &CommandRecord,
    work: Undertaking,
    programs: &Programs,
    built: Option<String>,
    now: Timestamp,
) -> (r: CommandNext)
    requires
        cmd@.manifest.executor is NixGeneration && built is Some && may_reboot(work@)
            ==> deadline_exists(now, cmd.manifest.validation.timeout_seconds),
    ensures
        r@ == activation_begun(cmd@, work@, programs@, built.deep_view(), now),
{
    proof {
        if cmd@.manifest.executor is NixGeneration {
            lemma_generation_reboots(cmd@, work@, programs@, built.deep_view());
        }
    }
    let executor = build(&cmd.manifest.executor);
    let activation = match executor.activate(&work.preparation.ctx, programs, built) {
        Err(complaint) => {
            return CommandNext::End(Err(complaint));
        },
        Ok(activation) => activation,
    };
    match (&cmd.manifest.executor, &activation.outcome) {
        (ExecutorSpec::NixGeneration(_), ActivationOutcome::AwaitReboot(expected)) => {
            let pending = await_boot(cmd, &work.preparation, expected, now);
            let secured = LocalState {
                current_version: work.state.current_version.clone(),
                active_slot: work.state.active_slot.clone(),
                pending_boot: Some(pending),
            };
            CommandNext::Go(
                CommandStage::Securing(PlannedActivation { work, activation }),
                CommandAction::Save(secured),
            )
        },
        _ => CommandNext::Go(
            CommandStage::Activating(OpenActivation { work, outcome: activation.outcome }),
            CommandAction::Perform(activation.steps),
        ),
    }
}

/// Goes on with the validation.
fn continue_checkup(cmd: &CommandRecord, checkup: Checkup) -> (r: CommandNext)
    ensures
        r@ == checkup_continued(cmd@, checkup@),
{
    let mut probes = validation_probes(&cmd.manifest.validation);
    match run_health_checks(&probes, &checkup.outcomes) {
        Progress::Failed(complaint) => CommandNext::End(Err(complaint)),
        Progress::Passed => CommandNext::End(
            Ok(
                complete_command(
                    cmd,
                    checkup.work.state,
                    checkup.work.preparation.ctx.next_slot.as_str(),
                ),
            ),
        ),
        Progress::Next(at) => {
            assert(probes.deep_view()[at as int] == probes@[at as int]@);
            let probe = probes.remove(at);
            CommandNext::Go(CommandStage::Checking(checkup), CommandAction::Probe(probe))
        },
    }
}

/// Goes on with a command at a given time.
pub fn advance_command_as(
    cmd: &CommandRecord,
    state_dir: &str,
    programs: &Programs,
    stage: CommandStage,
    event: CommandEvent,
    now: Timestamp,
) -> (r: CommandNext)
    requires
        is_due(cmd@, stage@, event@, now),
    ensures
        r@ == command_advanced(cmd@, state_dir@, programs@, stage@, event@, now),
{
    match (stage, event) {
        (CommandStage::Restoring(complaint), _) => CommandNext::End(Err(complaint)),
        (CommandStage::Activating(activation), CommandEvent::Failed(complaint)) => {
            match (&cmd.manifest.executor, &activation.outcome) {
                (
                    ExecutorSpec::NixGeneration(_),
                    ActivationOutcome::AwaitReboot(_),
                ) => CommandNext::Go(
                    CommandStage::Restoring(complaint),
                    CommandAction::Save(activation.work.state),
                ),
                _ => CommandNext::End(Err(complaint)),
            }
        },
        (_, CommandEvent::Failed(complaint)) => CommandNext::End(Err(complaint)),
        (CommandStage::MakingRoom, _) => match artifact_source(&cmd.manifest.executor) {
            Some(artifact) => match download_artifact(state_dir, artifact) {
                Err(complaint) => CommandNext::End(Err(complaint)),
                Ok(download) => CommandNext::Go(
                    CommandStage::Fetching(download.dest.clone()),
                    CommandAction::Fetch(download),
                ),
            },
            None => CommandNext::End(Err(String::new())),
        },
        (CommandStage::Fetching(dest), _) => match artifact_source(&cmd.manifest.executor) {
            Some(artifact) => if artifact.sha256.is_some() {
                CommandNext::Go(
                    CommandStage::Verifying(dest.clone()),
                    CommandAction::ReadArtifact(dest),
                )
            } else {
                CommandNext::Go(CommandStage::LookingAround(Some(dest)), CommandAction::LookAround)
            },
            None => CommandNext::End(Err(String::new())),
        },
        (CommandStage::Verifying(dest), CommandEvent::ArtifactRead(bytes)) => {
            if let Some(bytes) = bytes {
                if let Some(artifact) = artifact_source(&cmd.manifest.executor) {
                    if let Err(complaint) = verify_sha256(&bytes, &artifact.sha256) {
                        return CommandNext::End(Err(complaint));
                    }
                }
            }
            CommandNext::Go(CommandStage::LookingAround(Some(dest)), CommandAction::LookAround)
        },
        (CommandStage::LookingAround(artifact), CommandEvent::Found(state, around)) => {
            match prepare_command(cmd, &state, state_dir, artifact, &around) {
                Err(complaint) => CommandNext::End(Err(complaint)),
                Ok(preparation) => {
                    let executor = build(&cmd.manifest.executor);
                    match executor.install(&preparation.ctx, programs) {
                        Err(complaint) => CommandNext::End(Err(complaint)),
                        Ok(steps) => CommandNext::Go(
                            CommandStage::Installing(Undertaking { state, preparation }),
                            CommandAction::Perform(steps),
                        ),
                    }
                },
            }
        },
        (CommandStage::Installing(work), _) => match &cmd.manifest.executor {
            ExecutorSpec::NixGeneration(_) => {
                let path = metadata_path(&work.preparation.ctx);
                CommandNext::Go(CommandStage::Recalling(work), CommandAction::ReadSystem(path))
            },
            _ => begin_activation(cmd, work, programs, None, now),
        },
        (CommandStage::Recalling(work), CommandEvent::SystemRead(built)) => begin_activation(
            cmd,
            work,
            programs,
            built,
            now,
        ),
        (CommandStage::Securing(planned), _) => CommandNext::Go(
            CommandStage::Activating(
                OpenActivation { work: planned.work, outcome: planned.activation.outcome },
            ),
            CommandAction::Perform(planned.activation.steps),
        ),
        (CommandStage::Activating(activation), _) => match activation.outcome {
            ActivationOutcome::Complete => {
                let outcomes: Vec<Result<(), String>> = Vec::new();
                assert(all_judged(outcomes@) =~= Seq::empty());
                continue_checkup(cmd, Checkup { work: activation.work, outcomes })
            },
            ActivationOutcome::AwaitReboot(expected) => CommandNext::End(
                Ok(
                    defer_command_as(
                        cmd,
                        activation.work.state,
                        activation.work.preparation,
                        expected,
                        now,
                    ),
                ),
            ),
        },
        (CommandStage::Checking(checkup), CommandEvent::Probed(outcome)) => {
            let mut outcomes = checkup.outcomes;
            let ghost before = all_judged(outcomes@);
            outcomes.push(outcome);
            assert(all_judged(outcomes@) =~= before.push(judged(outcome)));
            continue_checkup(cmd, Checkup { work: checkup.work, outcomes })
        },
        _ => CommandNext::End(Err(String::new())),
    }
}

/// Whether an event can come of the action that a stage waits for, and a deadline that has to be
/// set then lies in the calendar.
fn due(cmd: &CommandRecord, stage: &CommandStage, event: &CommandEvent, now: Timestamp) -> (r: bool)
    requires
        now.in_calendar(),
    ensures
        r == is_due(cmd@, stage@, event@, now),
{
    match (stage, event) {
        (_, CommandEvent::Failed(_)) => true,
        (CommandStage::MakingRoom | CommandStage::Fetching(_), CommandEvent::Done) =>
            artifact_source(&cmd.manifest.executor).is_some(),
        (CommandStage::Verifying(_), CommandEvent::ArtifactRead(_)) => artifact_source(
            &cmd.manifest.executor,
        ).is_some(),
        (CommandStage::LookingAround(_), CommandEvent::Found(_, _)) => true,
        (CommandStage::Installing(_), CommandEvent::Done) => true,
        (CommandStage::Recalling(work), CommandEvent::SystemRead(built)) => {
            match &cmd.manifest.executor {
                ExecutorSpec::NixGeneration(_) => built.is_none() || !requires_reboot(
                    &work.preparation.ctx.manifest.executor,
                ) || has_deadline(now, cmd.manifest.validation.timeout_seconds),
                _ => false,
            }
        },
        (CommandStage::Securing(_) | CommandStage::Restoring(_), CommandEvent::Done) => true,
        (CommandStage::Activating(activation), CommandEvent::Done) => match &activation.outcome {
            ActivationOutcome::Complete => true,
            ActivationOutcome::AwaitReboot(_) => has_deadline(
                now,
                cmd.manifest.validation.timeout_seconds,
            ),
        },
        (CommandStage::Checking(_), CommandEvent::Probed(_)) => true,
        _ => false,
    }
}

/// Goes on with a command. `None` where the event cannot come of the action that the stage waits
/// for, or where a deadline that has to be set lies beyond the calendar.
pub fn advance_command(
    cmd: &CommandRecord,
    state_dir: &str,
    programs: &Programs,
    stage: CommandStage,
    event: CommandEvent,
) -> (r: Option<CommandNext>)
    ensures
        exists|now: Timestamp|
            {
                &&& now.in_calendar()
                &&& match r {
                    Some(next) => #[trigger] is_due(cmd@, stage@, event@, now) && next@
                        == command_advanced(
                        cmd@,
                        state_dir@,
                        programs@,
                        stage@,
                        event@,
                        now,
                    ),
                    None => !is_due(cmd@, stage@, event@, now),
                }
            },
{
    let now = utc_now();
    if due(cmd, &stage, &event, now) {
        Some(advance_command_as(cmd, state_dir, programs, stage, event, now))
    } else {
        None
    }
}

/// An action that fails ends the command with its complaint. Where it is the activation of a
/// generation of a system, what the agent knew before is stored again first, and the command ends
/// with the complaint of the activation, whatever comes of that.
pub proof fn law_failure_ends_command(
    cmd: CommandRecordView,
    state_dir: Seq<char>,
    programs: ProgramsView,
    stage: CommandStageView,
    complaint: Seq<char>,
    event: CommandEventView,
    now: Timestamp,
)
    requires
        !(stage is Restoring),
        is_due(cmd, CommandStageView::Restoring(complaint), event, now),
    ensures
        is_due(cmd, stage, CommandEventView::Failed(complaint), now),
        command_advanced(
            cmd,
            state_dir,
            programs,
            stage,
            CommandEventView::Failed(complaint),
            now,
        ) == if cmd.manifest.executor is NixGeneration && stage is Activating
            && stage->Activating_0.outcome is AwaitReboot {
            CommandNextView::Go(
                CommandStageView::Restoring(complaint),
                CommandActionView::Save(stage->Activating_0.work.state),
            )
        } else {
            failed(complaint)
        },
        command_advanced(
            cmd,
            state_dir,
            programs,
            CommandStageView::Restoring(complaint),
            event,
            now,
        ) == failed(complaint),
{
}

/// An artifact with a digest is used only after it was held against the digest and agreed with
/// it. A directory has no digest.
pub proof fn law_artifact_verified(
    cmd: CommandRecordView,
    state_dir: Seq<char>,
    programs: ProgramsView,
    stage: CommandStageView,
    event: CommandEventView,
    now: Timestamp,
)
    requires
        is_due(cmd, stage, event, now),
        artifact_of(cmd.manifest.executor) is Some,
        artifact_in(cmd).sha256 is Some,
    ensures
        ({
            let next = command_advanced(cmd, state_dir, programs, stage, event, now);
            next is Go && next->Go_0 is LookingAround ==> {
                &&& stage is Verifying
                &&& next->Go_0->LookingAround_0 == Some(stage->Verifying_0)
                &&& event is ArtifactRead
                &&& event->ArtifactRead_0 matches Some(bytes) ==> digest_verdict(
                    bytes,
                    artifact_in(cmd).sha256,
                ) is Ok
            }
        }),
{
}

/// Installing and activating come in their order, and only once each: a release is installed only
/// after the machine was looked at, and activated only after it was installed.
pub proof fn law_installed_before_activated(
    cmd: CommandRecordView,
    state_dir: Seq<char>,
    programs: ProgramsView,
    stage: CommandStageView,
    event: CommandEventView,
    now: Timestamp,
)
    requires
        is_due(cmd, stage, event, now),
    ensures
        ({
            let next = command_advanced(cmd, state_dir, programs, stage, event, now);
            &&& next is Go && next->Go_0 is Installing ==> stage is LookingAround
            &&& next is Go && next->Go_0 is Recalling ==> stage is Installing
            &&& next is Go && next->Go_0 is Securing ==> stage is Installing || stage is Recalling
            &&& next is Go && next->Go_0 is Activating ==> stage is Installing || stage is Recalling
                || stage is Securing
        }),
{
}

/// A command ends as completed only after an activation that is complete, and only where every
/// probe of its validation says what to find out and was passed: the path of the system and the
/// name of the machine, where they are expected, and the health checks.
pub proof fn law_completed_is_healthy(
    cmd: CommandRecordView,
    state_dir: Seq<char>,
    programs: ProgramsView,
    stage: CommandStageView,
    event: CommandEventView,
    now: Timestamp,
)
    requires
        is_due(cmd, stage, event, now),
        command_advanced(cmd, state_dir, programs, stage, event, now) matches CommandNextView::End(
            Ok(execution),
        ) && execution is Completed,
    ensures
        stage is Activating || stage is Checking,
        stage is Activating ==> stage->Activating_0.outcome is Complete && probes_for(cmd).len()
            == 0,
        stage is Checking ==> {
            let outcomes = stage->Checking_0.outcomes.push(event->Probed_0);
            forall|k: int|
                0 <= k < probes_for(cmd).len() ==> !((#[trigger] probes_for(cmd)[k]) is Missing) && k
                    < outcomes.len() && outcomes[k] is Ok
        },
{
    match stage {
        CommandStageView::Activating(_) => {
            law_passed(probes_for(cmd), Seq::empty(), 0);
            if probes_for(cmd).len() > 0 {
                assert(probes_for(cmd)[0] is Missing || !(probes_for(cmd)[0] is Missing));
            }
        },
        CommandStageView::Checking(checkup) => {
            law_passed(probes_for(cmd), checkup.outcomes.push(event->Probed_0), 0);
        },
        _ => {},
    }
}

/// Whether a stage is one that this command comes to: what it is carried out with is made of its
/// manifest, and what is secured is the activation of a generation of a system, which ends in a
/// new start of the machine.
pub open spec fn is_stage_of(cmd: CommandRecordView, stage: CommandStageView) -> bool {
    match stage {
        CommandStageView::Installing(work) => work.preparation.ctx.manifest == cmd.manifest,
        CommandStageView::Recalling(work) => work.preparation.ctx.manifest == cmd.manifest,
        CommandStageView::Securing(planned) => {
            &&& planned.work.preparation.ctx.manifest == cmd.manifest
            &&& planned.activation.outcome is AwaitReboot
            &&& cmd.manifest.executor is NixGeneration
        },
        CommandStageView::Activating(activation) => {
            activation.work.preparation.ctx.manifest == cmd.manifest
        },
        CommandStageView::Checking(checkup) => {
            checkup.work.preparation.ctx.manifest == cmd.manifest
        },
        CommandStageView::Restoring(_) => cmd.manifest.executor is NixGeneration,
        _ => true,
    }
}

/// A command begins at one of its stages and goes from each only to another of them.
pub proof fn law_stages_of_command(
    cmd: CommandRecordView,
    state_dir: Seq<char>,
    programs: ProgramsView,
    stage: CommandStageView,
    event: CommandEventView,
    now: Timestamp,
)
    ensures
        is_stage_of(cmd, command_begun(cmd, state_dir).0),
        is_due(cmd, stage, event, now) && is_stage_of(cmd, stage) ==> {
            let next = command_advanced(cmd, state_dir, programs, stage, event, now);
            next is Go ==> is_stage_of(cmd, next->Go_0)
        },
{
}

/// A generation of a system is activated only after it was stored what is expected of the new
/// start of the machine and how to go back. What is stored holds the system and the version from
/// before, and the way back to them. For any other release nothing is stored before the command
/// ends.
pub proof fn law_secured_before_activated(
    cmd: CommandRecordView,
    state_dir: Seq<char>,
    programs: ProgramsView,
    stage: CommandStageView,
    event: CommandEventView,
    now: Timestamp,
)
    requires
        is_due(cmd, stage, event, now),
        is_stage_of(cmd, stage),
    ensures
        !(cmd.manifest.executor is NixGeneration) ==> {
            let next = command_advanced(cmd, state_dir, programs, stage, event, now);
            next is Go ==> !(next->Go_1 is Save)
        },
        cmd.manifest.executor is NixGeneration ==> {
            let next = command_advanced(cmd, state_dir, programs, stage, event, now);
            &&& next is Go && next->Go_0 is Activating ==> stage is Securing && event is Done
                && next->Go_1 == CommandActionView::Perform(
                stage->Securing_0.activation.steps,
            )
            &&& next is Go && next->Go_0 is Securing ==> {
                let preparation = next->Go_0->Securing_0.work.preparation;
                let expected = next->Go_0->Securing_0.activation.outcome->AwaitReboot_0;
                let stored = next->Go_1->Save_0.pending_boot;
                &&& next->Go_1 is Save
                &&& stored == Some(boot_awaited(cmd, preparation, expected, now))
                &&& stored->0.previous_system_path == preparation.previous_system_path
                &&& stored->0.previous_root_device == preparation.previous_root_device
                &&& stored->0.previous_active_slot == preparation.previous_active_slot
                &&& stored->0.previous_version == preparation.previous_version
                &&& stored->0.rollback_action == preparation.rollback_action
            }
        },
{
    if cmd.manifest.executor is NixGeneration {
        match (stage, event) {
            (CommandStageView::Recalling(work), CommandEventView::SystemRead(built)) => {
                lemma_generation_reboots(cmd, work, programs, built);
            },
            _ => {},
        }
    }
}

/// A generation of a system, on a machine that runs a system at a known path: that path and the
/// way back to it are stored before the steps that activate the generation are asked for, and
/// they are known to the agent after the command.
pub proof fn law_previous_system_stored(
    cmd: CommandRecordView,
    state_dir: Seq<char>,
    programs: ProgramsView,
    state: LocalStateView,
    around: SurroundingsView,
    built: Seq<char>,
    now: Timestamp,
    later: Timestamp,
)
    requires
        cmd.manifest.executor is NixGeneration,
        around.system_path is Ok,
        around.hostname is Ok,
        deadline_exists(now, cmd.manifest.validation.timeout_seconds),
        deadline_exists(later, cmd.manifest.validation.timeout_seconds),
    ensures
        ({
            let previous = around.system_path->Ok_0;
            let back = RollbackActionView::NixGeneration { previous_system_path: previous };
            let installing = command_advanced(
                cmd,
                state_dir,
                programs,
                CommandStageView::LookingAround(None),
                CommandEventView::Found(state, around),
                now,
            );
            let work = installing->Go_0->Installing_0;
            let recalling = command_advanced(
                cmd,
                state_dir,
                programs,
                installing->Go_0,
                CommandEventView::Done,
                now,
            );
            let securing = command_advanced(
                cmd,
                state_dir,
                programs,
                recalling->Go_0,
                CommandEventView::SystemRead(Some(built)),
                now,
            );
            let activating = command_advanced(
                cmd,
                state_dir,
                programs,
                securing->Go_0,
                CommandEventView::Done,
                later,
            );
            let end = command_advanced(
                cmd,
                state_dir,
                programs,
                activating->Go_0,
                CommandEventView::Done,
                later,
            );
            let stored = securing->Go_1->Save_0.pending_boot;
            let known = end->End_0->Ok_0->Deferred_state.pending_boot;
            &&& installing is Go && installing->Go_0 is Installing
            &&& recalling is Go && recalling->Go_0 == CommandStageView::Recalling(work)
            &&& securing is Go && securing->Go_0 is Securing && securing->Go_1 is Save
            &&& stored is Some
            &&& stored->0.previous_system_path == Some(previous)
            &&& stored->0.rollback_action == Some(back)
            &&& stored->0.expected_system_path == Some(built)
            &&& activating is Go && activating->Go_0 is Activating && activating->Go_1 is Perform
            &&& end is End && end->End_0 is Ok && end->End_0->Ok_0 is Deferred
            &&& known is Some
            &&& known->0.previous_system_path == Some(previous)
            &&& known->0.rollback_action == Some(back)
        }),
{
    lemma_generation_reboots(
        cmd,
        UndertakingView {
            state,
            preparation: command_prepared(cmd, state, state_dir, None, around)->Ok_0,
        },
        programs,
        Some(built),
    );
}

/// A command ends as deferred exactly where the activation is done and the machine has to start
/// anew.
pub proof fn law_deferred_awaits_reboot(
    cmd: CommandRecordView,
    state_dir: Seq<char>,
    programs: ProgramsView,
    stage: CommandStageView,
    event: CommandEventView,
    now: Timestamp,
)
    requires
        is_due(cmd, stage, event, now),
    ensures
        (command_advanced(cmd, state_dir, programs, stage, event, now) matches CommandNextView::End(
            Ok(execution),
        ) && execution is Deferred) <==> {
            &&& event is Done
            &&& stage is Activating
            &&& stage->Activating_0.outcome is AwaitReboot
        },
{
}

} // verus!
