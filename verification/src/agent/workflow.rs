//! How an agent carries out a command, and what it makes of a start of the machine.

use crate::agent::state::{
    LocalState, LocalStateView, PendingBootPhase, PendingBootState, PendingBootStateView,
};
use crate::clock::{seconds_after, utc_now, Timestamp, LAST_SECOND};
use crate::executors::grub_ab::{grub_rollback_steps, Devices, DevicesView};
use crate::executors::nix_generation::nix_rollback_steps;
use crate::executors::plan::{Programs, ProgramsView, Step, StepView};
use crate::executors::{
    current_slot_of, detect_current_slot, rollback_action, rollback_grub_ab,
    rollback_nix_generation, rollback_of, ExecutionContext, ExecutionContextView, PendingReboot,
    PendingRebootView, RollbackAction, RollbackActionView,
};
use crate::links::{file_path, local_path, parse_url, parsed_url, Address};
use crate::paths::{join, joined, last_part_start};
use crate::text::{chars_of, coalesce, concat, same, text_between, text_read};
use crate::text_map::TextMap;
use crate::types::manifest::{
    ArtifactSource, ArtifactSourceView, ExecutorSpec, ExecutorSpecView, GrubAbBootControlView,
};
use crate::types::records::{
    AgentResultRequest, AgentResultRequestView, CommandRecord, CommandRecordView,
};
use vstd::prelude::*;

verus! {

/// What a command is carried out with.
#[derive(Debug)]
pub struct Preparation {
    pub ctx: ExecutionContext,
    pub previous_system_path: Option<String>,
    pub previous_root_device: Option<String>,
    pub previous_hostname: Option<String>,
    pub previous_version: Option<String>,
    pub previous_active_slot: Option<String>,
    pub rollback_action: Option<RollbackAction>,
}

/// The value of a [`Preparation`].
#[verifier::ext_equal]
pub struct PreparationView {
    pub ctx: ExecutionContextView,
    pub previous_system_path: Option<Seq<char>>,
    pub previous_root_device: Option<Seq<char>>,
    pub previous_hostname: Option<Seq<char>>,
    pub previous_version: Option<Seq<char>>,
    pub previous_active_slot: Option<Seq<char>>,
    pub rollback_action: Option<RollbackActionView>,
}

impl View for Preparation {
    type V = PreparationView;

    open spec fn view(&self) -> PreparationView {
        PreparationView {
            ctx: self.ctx@,
            previous_system_path: self.previous_system_path.deep_view(),
            previous_root_device: self.previous_root_device.deep_view(),
            previous_hostname: self.previous_hostname.deep_view(),
            previous_version: self.previous_version.deep_view(),
            previous_active_slot: self.previous_active_slot.deep_view(),
            rollback_action: self.rollback_action.deep_view(),
        }
    }
}

/// What an agent makes of a start of the machine.
#[derive(Debug)]
pub enum BootVerdict {
    /// No start was waited for.
    Idle,
    /// The machine may still become what is expected.
    Wait,
    /// The matter is closed, with this result.
    Report(AgentResultRequest),
    /// The machine is to go back to what it ran before.
    StartRollback(RollbackAction),
}

/// The value of a [`BootVerdict`].
#[verifier::ext_equal]
pub enum BootVerdictView {
    Idle,
    Wait,
    Report(AgentResultRequestView),
    StartRollback(RollbackActionView),
}

impl View for BootVerdict {
    type V = BootVerdictView;

    open spec fn view(&self) -> BootVerdictView {
        match self {
            BootVerdict::Idle => BootVerdictView::Idle,
            BootVerdict::Wait => BootVerdictView::Wait,
            BootVerdict::Report(req) => BootVerdictView::Report(req@),
            BootVerdict::StartRollback(action) => BootVerdictView::StartRollback(action@),
        }
    }
}

/// Whether a release that fails after a start of the machine is to be taken back.
pub open spec fn wants_rollback(pending: PendingBootStateView) -> bool {
    &&& pending.rollback.automatic
    &&& pending.rollback.on_validation_failure
    &&& pending.rollback_action is Some
}

/// Whether a release that fails after a start of the machine is to be taken back.
pub fn should_attempt_rollback(pending: &PendingBootState) -> (r: bool)
    ensures
        r == wants_rollback(pending@),
{
    pending.rollback.automatic && pending.rollback.on_validation_failure
        && pending.rollback_action.is_some()
}

/// A state in which no start of the machine is waited for.
pub open spec fn settled_state(version: Option<Seq<char>>, slot: Option<Seq<char>>) -> LocalStateView {
    LocalStateView { current_version: version, active_slot: slot, pending_boot: None }
}

/// The result of a command, with what an agent then knows of its machine.
pub open spec fn result_of(
    command_id: Seq<char>,
    asset_id: Seq<char>,
    success: bool,
    message: Seq<char>,
    state: LocalStateView,
) -> AgentResultRequestView {
    AgentResultRequestView {
        command_id,
        asset_id,
        success,
        message,
        active_slot: state.active_slot,
        booted_version: state.current_version,
    }
}

/// What an agent knows after a start of the machine, and what it makes of it. A machine that is
/// as expected runs the new release, or again what it ran before. One that is not is waited for
/// until the deadline. Then the new release is taken back if it is to be, and given up
/// otherwise.
pub open spec fn boot_resumed(
    state: LocalStateView,
    asset_id: Seq<char>,
    validation: Result<(), Seq<char>>,
    now: Timestamp,
) -> (LocalStateView, BootVerdictView) {
    match state.pending_boot {
        None => (state, BootVerdictView::Idle),
        Some(pending) => match validation {
            Ok(_) => match pending.phase {
                PendingBootPhase::Forward => {
                    let after = settled_state(
                        Some(pending.release_version),
                        pending.next_active_slot,
                    );
                    (
                        after,
                        BootVerdictView::Report(
                            result_of(
                                pending.command_id,
                                asset_id,
                                true,
                                "validated "@ + pending.release_version + " after reboot"@,
                                after,
                            ),
                        ),
                    )
                },
                PendingBootPhase::Rollback => {
                    let after = settled_state(
                        pending.previous_version,
                        pending.previous_active_slot,
                    );
                    (
                        after,
                        BootVerdictView::Report(
                            result_of(
                                pending.command_id,
                                asset_id,
                                false,
                                "post-boot validation failed for "@ + pending.release_version
                                    + "; rollback succeeded"@,
                                after,
                            ),
                        ),
                    )
                },
            },
            Err(complaint) => if now.before(pending.deadline) {
                (state, BootVerdictView::Wait)
            } else if pending.phase is Forward && wants_rollback(pending) {
                (state, BootVerdictView::StartRollback(pending.rollback_action->0))
            } else {
                let after = LocalStateView { pending_boot: None, ..state };
                let message = if pending.phase is Forward {
                    "post-boot validation failed: "@ + complaint
                } else {
                    "post-boot validation failed and rollback failed: "@ + complaint
                };
                (
                    after,
                    BootVerdictView::Report(
                        result_of(pending.command_id, asset_id, false, message, after),
                    ),
                )
            },
        },
    }
}

/// The result of a command, with what an agent then knows of its machine.
pub(crate) fn report(command_id: String, asset_id: &str, success: bool, message: String, state: &LocalState)
    -> (r: AgentResultRequest)
    ensures
        r@ == result_of(command_id@, asset_id@, success, message@, state@),
{
    AgentResultRequest {
        command_id,
        asset_id: asset_id.to_string(),
        success,
        message,
        active_slot: state.active_slot.clone(),
        booted_version: state.current_version.clone(),
    }
}

/// What an agent makes of a start of the machine at a given time.
pub fn resume_pending_boot_as(
    state: &mut LocalState,
    asset_id: &str,
    validation: Result<(), String>,
    now: Timestamp,
) -> (r: BootVerdict)
    ensures
        (final(state)@, r@) == boot_resumed(
            old(state)@,
            asset_id@,
            crate::agent::validation::judged(validation),
            now,
        ),
{
    let pending = match &state.pending_boot {
        Some(pending) => pending.clone(),
        None => {
            return BootVerdict::Idle;
        },
    };
    match validation {
        Ok(_) => {
            state.pending_boot = None;
            match pending.phase {
                PendingBootPhase::Forward => {
                    let start = concat("validated ", pending.release_version.as_str());
                    let message = concat(start.as_str(), " after reboot");
                    state.current_version = Some(pending.release_version);
                    state.active_slot = pending.next_active_slot;
                    BootVerdict::Report(report(pending.command_id, asset_id, true, message, state))
                },
                PendingBootPhase::Rollback => {
                    let start = concat(
                        "post-boot validation failed for ",
                        pending.release_version.as_str(),
                    );
                    let message = concat(start.as_str(), "; rollback succeeded");
                    state.current_version = pending.previous_version;
                    state.active_slot = pending.previous_active_slot;
                    BootVerdict::Report(report(pending.command_id, asset_id, false, message, state))
                },
            }
        },
        Err(complaint) => {
            if now.is_before(&pending.deadline) {
                return BootVerdict::Wait;
            }
            let wanted = should_attempt_rollback(&pending);
            match (pending.phase, pending.rollback_action) {
                (PendingBootPhase::Forward, Some(action)) if wanted => {
                    BootVerdict::StartRollback(action)
                },
                (PendingBootPhase::Forward, _) => {
                    state.pending_boot = None;
                    let message = concat("post-boot validation failed: ", complaint.as_str());
                    BootVerdict::Report(report(pending.command_id, asset_id, false, message, state))
                },
                (PendingBootPhase::Rollback, _) => {
                    state.pending_boot = None;
                    let message = concat(
                        "post-boot validation failed and rollback failed: ",
                        complaint.as_str(),
                    );
                    BootVerdict::Report(report(pending.command_id, asset_id, false, message, state))
                },
            }
        },
    }
}

/// What an agent makes of a start of the machine.
pub fn resume_pending_boot(
    state: &mut LocalState,
    asset_id: &str,
    validation: Result<(), String>,
) -> (r: BootVerdict)
    ensures
        exists|now: Timestamp|
            now.in_calendar() && (final(state)@, r@) == #[trigger] boot_resumed(
                old(state)@,
                asset_id@,
                crate::agent::validation::judged(validation),
                now,
            ),
{
    let now = utc_now();
    resume_pending_boot_as(state, asset_id, validation, now)
}

/// How many seconds to wait, where a number is given that may be beyond counting.
pub open spec fn waiting_time(seconds: u64) -> int {
    if seconds <= i64::MAX {
        seconds as int
    } else {
        900
    }
}

/// Whether a deadline so many seconds ahead lies in the calendar.
pub open spec fn deadline_exists(now: Timestamp, seconds: u64) -> bool {
    &&& now.in_calendar()
    &&& waiting_time(seconds) <= 9_223_372_036_854_775
    &&& now.secs + waiting_time(seconds) <= LAST_SECOND
}

/// The instant so many seconds ahead.
pub open spec fn deadline_of(now: Timestamp, seconds: u64) -> Timestamp {
    Timestamp { secs: (now.secs + waiting_time(seconds)) as i64, nanos: now.nanos }
}

/// How many seconds to wait.
fn seconds_to_wait(seconds: u64) -> (r: i64)
    ensures
        r == waiting_time(seconds),
        0 <= r,
{
    if seconds <= i64::MAX as u64 {
        seconds as i64
    } else {
        900
    }
}

/// Whether a deadline so many seconds ahead lies in the calendar.
pub(crate) fn has_deadline(now: Timestamp, seconds: u64) -> (r: bool)
    requires
        now.in_calendar(),
    ensures
        r == deadline_exists(now, seconds),
{
    let wait = seconds_to_wait(seconds);
    wait <= 9_223_372_036_854_775 && wait <= LAST_SECOND - now.secs
}

/// The instant so many seconds ahead.
fn deadline_after(now: Timestamp, seconds: u64) -> (r: Timestamp)
    requires
        deadline_exists(now, seconds),
    ensures
        r == deadline_of(now, seconds),
{
    seconds_after(now, seconds_to_wait(seconds))
}

/// What is waited for after a release was taken back: the machine is to be as it was before.
pub open spec fn rolling_back(pending: PendingBootStateView, now: Timestamp) -> PendingBootStateView {
    PendingBootStateView {
        phase: PendingBootPhase::Rollback,
        command_id: pending.command_id,
        deployment_id: pending.deployment_id,
        release_id: pending.release_id,
        release_version: pending.release_version,
        expected_system_path: pending.previous_system_path,
        expected_hostname: pending.previous_hostname,
        expected_active_slot: pending.previous_active_slot,
        expected_root_device: pending.previous_root_device,
        next_active_slot: pending.previous_active_slot,
        previous_system_path: pending.previous_system_path,
        previous_root_device: pending.previous_root_device,
        previous_hostname: None,
        previous_version: pending.previous_version,
        previous_active_slot: pending.previous_active_slot,
        rollback_action: None,
        health_checks: pending.health_checks,
        rollback: pending.rollback,
        deadline: deadline_of(now, pending.rollback.candidate_timeout_seconds),
    }
}

/// Waits for the machine to be as it was before, after a release was taken back at a given time.
pub fn begin_rollback(pending: PendingBootState, now: Timestamp) -> (r: PendingBootState)
    requires
        deadline_exists(now, pending.rollback.candidate_timeout_seconds),
    ensures
        r@ == rolling_back(pending@, now),
{
    PendingBootState {
        phase: PendingBootPhase::Rollback,
        command_id: pending.command_id,
        deployment_id: pending.deployment_id,
        release_id: pending.release_id,
        release_version: pending.release_version,
        expected_system_path: pending.previous_system_path.clone(),
        expected_hostname: pending.previous_hostname,
        expected_active_slot: pending.previous_active_slot.clone(),
        expected_root_device: pending.previous_root_device.clone(),
        next_active_slot: pending.previous_active_slot.clone(),
        previous_system_path: pending.previous_system_path,
        previous_root_device: pending.previous_root_device,
        previous_hostname: None,
        previous_version: pending.previous_version,
        previous_active_slot: pending.previous_active_slot,
        rollback_action: None,
        health_checks: pending.health_checks,
        rollback: pending.rollback,
        deadline: deadline_after(now, pending.rollback.candidate_timeout_seconds),
    }
}

/// The steps that take a release back.
pub open spec fn rollback_steps(action: RollbackActionView, programs: ProgramsView) -> Seq<StepView> {
    match action {
        RollbackActionView::NixGeneration { previous_system_path } => nix_rollback_steps(
            previous_system_path,
        ),
        RollbackActionView::GrubAb {
            authority_device,
            mountpoint,
            grubenv_relpath,
            previous_grub_menu_entry,
        } => grub_rollback_steps(
            GrubAbBootControlView { authority_device, mountpoint, grubenv_relpath },
            previous_grub_menu_entry,
            programs,
        ),
    }
}

/// The steps that take a release back.
pub fn perform_rollback(action: &RollbackAction, programs: &Programs) -> (r: Vec<Step>)
    ensures
        r.deep_view() == rollback_steps(action@, programs@),
{
    match action {
        RollbackAction::NixGeneration { previous_system_path } => rollback_nix_generation(
            previous_system_path.as_str(),
        ),
        RollbackAction::GrubAb {
            authority_device,
            mountpoint,
            grubenv_relpath,
            previous_grub_menu_entry,
        } => rollback_grub_ab(
            authority_device.as_str(),
            mountpoint.as_str(),
            grubenv_relpath.as_str(),
            previous_grub_menu_entry.as_str(),
            programs,
        ),
    }
}

/// The names of the two slots, where a release has slots.
pub open spec fn slot_pair_of(spec: ExecutorSpecView) -> Option<(Seq<char>, Seq<char>)> {
    match spec {
        ExecutorSpecView::GrubAb(grub) => match (grub.slot_pair, grub.slots) {
            (Some(pair), _) => Some((pair[0], pair[1])),
            (None, Some(slots)) => Some((slots[0].name, slots[1].name)),
            (None, None) => None,
        },
        _ => None,
    }
}

/// The names of the two slots, where a release has slots.
pub fn slot_pair(spec: &ExecutorSpec) -> (r: Option<(String, String)>)
    ensures
        match r {
            Some(pair) => slot_pair_of(spec@) == Some((pair.0@, pair.1@)),
            None => slot_pair_of(spec@) is None,
        },
{
    match spec {
        ExecutorSpec::GrubAb(grub) => match (&grub.slot_pair, &grub.slots) {
            (Some(pair), _) => Some((pair[0].clone(), pair[1].clone())),
            (None, Some(slots)) => Some((slots[0].name.clone(), slots[1].name.clone())),
            (None, None) => None,
        },
        _ => None,
    }
}

/// The slot that a release goes to.
pub open spec fn next_slot_of(current: Seq<char>, pair: Option<(Seq<char>, Seq<char>)>) -> Seq<
    char,
> {
    match pair {
        Some((a, b)) => if current == a {
            b
        } else {
            a
        },
        None => if current == "A"@ {
            "B"@
        } else {
            "A"@
        },
    }
}

/// The value of a pair of slots.
pub open spec fn pair_view(pair: Option<(String, String)>) -> Option<(Seq<char>, Seq<char>)> {
    match pair {
        Some((a, b)) => Some((a@, b@)),
        None => None,
    }
}

/// The slot that a release goes to: the one of the two that the machine does not run.
pub fn compute_next_slot(current: &str, pair: &Option<(String, String)>) -> (r: String)
    ensures
        r@ == next_slot_of(current@, pair_view(*pair)),
{
    match pair {
        Some((a, b)) => if same(current, a.as_str()) {
            b.clone()
        } else {
            a.clone()
        },
        None => if same(current, "A") {
            "B".to_string()
        } else {
            "A".to_string()
        },
    }
}

/// A machine that runs one of two different slots goes to the other, and from there back. One that
/// runs neither of them goes to the first. Where no slots are given, a machine goes from "A" to
/// "B" and from any other slot to "A".
pub proof fn law_next_slot_alternates(current: Seq<char>, a: Seq<char>, b: Seq<char>)
    ensures
        a != b && (current == a || current == b) ==> {
            let next = next_slot_of(current, Some((a, b)));
            &&& next == a || next == b
            &&& next != current
            &&& next_slot_of(next, Some((a, b))) == current
        },
        current != a && current != b ==> next_slot_of(current, Some((a, b))) == a,
        next_slot_of("A"@, None) == "B"@,
        current != "A"@ ==> next_slot_of(current, None) == "A"@,
        next_slot_of(current, None) != current,
        current == "A"@ || current == "B"@ ==> next_slot_of(
            next_slot_of(current, None),
            None,
        ) == current,
{
    reveal_strlit("A");
    reveal_strlit("B");
    assert("A"@[0] != "B"@[0]);
}

/// Whether a release is active only after the next start of the machine.
pub open spec fn needs_reboot(spec: ExecutorSpecView) -> bool {
    match spec {
        ExecutorSpecView::NixGeneration(_) => true,
        ExecutorSpecView::GrubAb(grub) => grub.slots is Some,
        _ => false,
    }
}

/// Whether a release is active only after the next start of the machine.
pub fn requires_reboot(spec: &ExecutorSpec) -> (r: bool)
    ensures
        r == needs_reboot(spec@),
{
    match spec {
        ExecutorSpec::NixGeneration(_) => true,
        ExecutorSpec::GrubAb(grub) => grub.slots.is_some(),
        _ => false,
    }
}

/// What an agent finds out about its machine before it carries out a command. What the executor
/// of the release does not ask for is not looked at.
#[derive(Debug)]
pub struct Surroundings {
    /// The devices, for a release with slots.
    pub devices: Devices,
    /// The path of the running system, for a generation of a system.
    pub system_path: Result<String, String>,
    /// The name of the machine, for a release that needs a new start of it.
    pub hostname: Result<String, String>,
    /// The device that the machine runs from, for a release with slots.
    pub root_device: Result<String, String>,
}

/// The value of [`Surroundings`].
#[verifier::ext_equal]
pub struct SurroundingsView {
    pub devices: DevicesView,
    pub system_path: Result<Seq<char>, Seq<char>>,
    pub hostname: Result<Seq<char>, Seq<char>>,
    pub root_device: Result<Seq<char>, Seq<char>>,
}

impl View for Surroundings {
    type V = SurroundingsView;

    open spec fn view(&self) -> SurroundingsView {
        SurroundingsView {
            devices: self.devices@,
            system_path: text_read(self.system_path),
            hostname: text_read(self.hostname),
            root_device: text_read(self.root_device),
        }
    }
}

/// A text that is asked for only in some cases.
pub open spec fn asked(wanted: bool, text: Result<Seq<char>, Seq<char>>) -> Result<
    Option<Seq<char>>,
    Seq<char>,
> {
    if wanted {
        match text {
            Ok(text) => Ok(Some(text)),
            Err(complaint) => Err(complaint),
        }
    } else {
        Ok(None)
    }
}

/// A text that is asked for only in some cases.
fn ask(wanted: bool, text: &Result<String, String>) -> (r: Result<Option<String>, String>)
    ensures
        match r {
            Ok(found) => asked(wanted, text_read(*text)) == Ok::<Option<Seq<char>>, Seq<char>>(
                found.deep_view(),
            ),
            Err(complaint) => asked(wanted, text_read(*text)) == Err::<
                Option<Seq<char>>,
                Seq<char>,
            >(complaint@),
        },
{
    if !wanted {
        return Ok(None);
    }
    match text {
        Ok(text) => Ok(Some(text.clone())),
        Err(complaint) => Err(complaint.clone()),
    }
}

/// The slot that a machine runs: the one that is found, or the one that the agent knows of, or
/// the first.
pub open spec fn starting_slot(
    detected: Option<Seq<char>>,
    known: Option<Seq<char>>,
    pair: Option<(Seq<char>, Seq<char>)>,
) -> Seq<char> {
    match (detected, known, pair) {
        (Some(slot), _, _) => slot,
        (None, Some(slot), _) => slot,
        (None, None, Some((first, _))) => first,
        (None, None, None) => "A"@,
    }
}

/// Whether a release has slots.
pub open spec fn has_slots(spec: ExecutorSpecView) -> bool {
    spec matches ExecutorSpecView::GrubAb(grub) && grub.slots is Some
}

/// What a command is carried out with, or why it cannot be.
pub open spec fn command_prepared(
    cmd: CommandRecordView,
    state: LocalStateView,
    state_dir: Seq<char>,
    artifact_path: Option<Seq<char>>,
    around: SurroundingsView,
) -> Result<PreparationView, Seq<char>> {
    let executor = cmd.manifest.executor;
    match current_slot_of(executor, around.devices) {
        Err(complaint) => Err(complaint),
        Ok(detected) => {
            let pair = slot_pair_of(executor);
            let current = starting_slot(detected, state.active_slot, pair);
            match (
                asked(executor is NixGeneration, around.system_path),
                asked(needs_reboot(executor), around.hostname),
                asked(has_slots(executor), around.root_device),
            ) {
                (Err(complaint), _, _) => Err(complaint),
                (_, Err(complaint), _) => Err(complaint),
                (_, _, Err(complaint)) => Err(complaint),
                (Ok(system_path), Ok(hostname), Ok(root_device)) => match rollback_of(
                    executor,
                    current,
                    system_path,
                ) {
                    Err(complaint) => Err(complaint),
                    Ok(rollback) => Ok(
                        PreparationView {
                            ctx: ExecutionContextView {
                                command_id: cmd.id,
                                artifact_path,
                                current_slot: current,
                                next_slot: next_slot_of(current, pair),
                                manifest: cmd.manifest,
                                release_version: cmd.release_version,
                                state_dir,
                            },
                            previous_system_path: system_path,
                            previous_root_device: root_device,
                            previous_hostname: hostname,
                            previous_version: state.current_version,
                            previous_active_slot: Some(current),
                            rollback_action: rollback,
                        },
                    ),
                },
            }
        },
    }
}

/// What a command is carried out with, or why it cannot be.
pub fn prepare_command(
    cmd: &CommandRecord,
    state: &LocalState,
    state_dir: &str,
    artifact_path: Option<String>,
    around: &Surroundings,
) -> (r: Result<Preparation, String>)
    ensures
        match r {
            Ok(preparation) => command_prepared(
                cmd@,
                state@,
                state_dir@,
                artifact_path.deep_view(),
                around@,
            ) == Ok::<PreparationView, Seq<char>>(preparation@),
            Err(complaint) => command_prepared(
                cmd@,
                state@,
                state_dir@,
                artifact_path.deep_view(),
                around@,
            ) == Err::<PreparationView, Seq<char>>(complaint@),
        },
{
    let executor = &cmd.manifest.executor;
    let detected = detect_current_slot(executor, &around.devices)?;
    let pair = slot_pair(executor);
    let current = match (detected, &state.active_slot, &pair) {
        (Some(slot), _, _) => slot,
        (None, Some(slot), _) => slot.clone(),
        (None, None, Some((first, _))) => first.clone(),
        (None, None, None) => "A".to_string(),
    };
    let next = compute_next_slot(current.as_str(), &pair);
    let is_nix = match executor {
        ExecutorSpec::NixGeneration(_) => true,
        _ => false,
    };
    let is_grub = match executor {
        ExecutorSpec::GrubAb(grub) => grub.slots.is_some(),
        _ => false,
    };
    let previous_system_path = ask(is_nix, &around.system_path)?;
    let previous_hostname = ask(requires_reboot(executor), &around.hostname)?;
    let previous_root_device = ask(is_grub, &around.root_device)?;
    let rollback = rollback_action(executor, current.as_str(), previous_system_path.clone())?;
    Ok(
        Preparation {
            ctx: ExecutionContext {
                command_id: cmd.id.clone(),
                artifact_path,
                current_slot: current.clone(),
                next_slot: next,
                manifest: cmd.manifest.clone(),
                release_version: cmd.release_version.clone(),
                state_dir: state_dir.to_string(),
            },
            previous_system_path,
            previous_root_device,
            previous_hostname,
            previous_version: state.current_version.clone(),
            previous_active_slot: Some(current),
            rollback_action: rollback,
        },
    )
}

/// How a command ended that did not fail.
#[derive(Debug)]
pub enum CommandExecution {
    /// The release is active.
    Completed { message: String, state: LocalState },
    /// The release is active after the next start of the machine.
    Deferred { state: LocalState },
}

/// The value of a [`CommandExecution`].
#[verifier::ext_equal]
pub enum CommandExecutionView {
    Completed { message: Seq<char>, state: LocalStateView },
    Deferred { state: LocalStateView },
}

impl View for CommandExecution {
    type V = CommandExecutionView;

    open spec fn view(&self) -> CommandExecutionView {
        match self {
            CommandExecution::Completed { message, state } => CommandExecutionView::Completed {
                message: message@,
                state: state@,
            },
            CommandExecution::Deferred { state } => CommandExecutionView::Deferred {
                state: state@,
            },
        }
    }
}

/// How a command ends whose release is active and passed its health checks.
pub open spec fn command_completed(
    cmd: CommandRecordView,
    state: LocalStateView,
    next_slot: Seq<char>,
) -> CommandExecutionView {
    CommandExecutionView::Completed {
        message: "installed "@ + cmd.release_version,
        state: LocalStateView {
            current_version: Some(cmd.release_version),
            active_slot: Some(next_slot),
            ..state
        },
    }
}

/// Ends a command whose release is active and passed its health checks.
pub fn complete_command(cmd: &CommandRecord, state: LocalState, next_slot: &str) -> (r:
    CommandExecution)
    ensures
        r@ == command_completed(cmd@, state@, next_slot@),
{
    CommandExecution::Completed {
        message: concat("installed ", cmd.release_version.as_str()),
        state: LocalState {
            current_version: Some(cmd.release_version.clone()),
            active_slot: Some(next_slot.to_string()),
            pending_boot: state.pending_boot,
        },
    }
}

/// What is waited for after a command whose release needs a new start of the machine.
pub open spec fn boot_awaited(
    cmd: CommandRecordView,
    preparation: PreparationView,
    expected: PendingRebootView,
    now: Timestamp,
) -> PendingBootStateView {
    let validation = cmd.manifest.validation;
    PendingBootStateView {
        phase: PendingBootPhase::Forward,
        command_id: cmd.id,
        deployment_id: cmd.deployment_id,
        release_id: cmd.release_id,
        release_version: cmd.release_version,
        expected_system_path: coalesce(
            expected.expected_system_path,
            validation.expected_system_path,
        ),
        expected_hostname: validation.expected_hostname,
        expected_active_slot: coalesce(
            expected.expected_active_slot,
            if cmd.manifest.executor is GrubAb {
                Some(preparation.ctx.next_slot)
            } else {
                None
            },
        ),
        expected_root_device: expected.expected_root_device,
        next_active_slot: Some(preparation.ctx.next_slot),
        previous_system_path: preparation.previous_system_path,
        previous_root_device: preparation.previous_root_device,
        previous_hostname: preparation.previous_hostname,
        previous_version: preparation.previous_version,
        previous_active_slot: preparation.previous_active_slot,
        rollback_action: preparation.rollback_action,
        health_checks: validation.health_checks,
        rollback: cmd.manifest.rollback,
        deadline: deadline_of(now, validation.timeout_seconds),
    }
}

/// What is waited for after a command whose release needs a new start of the machine.
pub(crate) fn await_boot(
    cmd: &CommandRecord,
    preparation: &Preparation,
    expected: &PendingReboot,
    now: Timestamp,
) -> (r: PendingBootState)
    requires
        deadline_exists(now, cmd.manifest.validation.timeout_seconds),
    ensures
        r@ == boot_awaited(cmd@, preparation@, expected@, now),
{
    let validation = &cmd.manifest.validation;
    let expected_system_path = match &expected.expected_system_path {
        Some(path) => Some(path.clone()),
        None => validation.expected_system_path.clone(),
    };
    let expected_active_slot = match &expected.expected_active_slot {
        Some(slot) => Some(slot.clone()),
        None => match &cmd.manifest.executor {
            ExecutorSpec::GrubAb(_) => Some(preparation.ctx.next_slot.clone()),
            _ => None,
        },
    };
    let health_checks = validation.health_checks.clone();
    assert(health_checks.deep_view() =~= validation.health_checks.deep_view());
    let rollback_action = match &preparation.rollback_action {
        Some(action) => Some(action.clone()),
        None => None,
    };
    PendingBootState {
        phase: PendingBootPhase::Forward,
        command_id: cmd.id.clone(),
        deployment_id: cmd.deployment_id.clone(),
        release_id: cmd.release_id.clone(),
        release_version: cmd.release_version.clone(),
        expected_system_path,
        expected_hostname: validation.expected_hostname.clone(),
        expected_active_slot,
        expected_root_device: expected.expected_root_device.clone(),
        next_active_slot: Some(preparation.ctx.next_slot.clone()),
        previous_system_path: preparation.previous_system_path.clone(),
        previous_root_device: preparation.previous_root_device.clone(),
        previous_hostname: preparation.previous_hostname.clone(),
        previous_version: preparation.previous_version.clone(),
        previous_active_slot: preparation.previous_active_slot.clone(),
        rollback_action,
        health_checks,
        rollback: cmd.manifest.rollback,
        deadline: deadline_after(now, validation.timeout_seconds),
    }
}

/// Ends a command whose release needs a new start of the machine, at a given time.
pub fn defer_command_as(
    cmd: &CommandRecord,
    state: LocalState,
    preparation: Preparation,
    expected: PendingReboot,
    now: Timestamp,
) -> (r: CommandExecution)
    requires
        deadline_exists(now, cmd.manifest.validation.timeout_seconds),
    ensures
        r@ == (CommandExecutionView::Deferred {
            state: LocalStateView {
                pending_boot: Some(boot_awaited(cmd@, preparation@, expected@, now)),
                ..state@
            },
        }),
{
    CommandExecution::Deferred {
        state: LocalState {
            current_version: state.current_version,
            active_slot: state.active_slot,
            pending_boot: Some(await_boot(cmd, &preparation, &expected, now)),
        },
    }
}

/// A release that was taken back is not taken back again: whatever is found after the next
/// start, the matter is waited for or closed.
pub proof fn law_one_rollback(
    state: LocalStateView,
    asset_id: Seq<char>,
    validation: Result<(), Seq<char>>,
    begun: Timestamp,
    now: Timestamp,
)
    requires
        state.pending_boot is Some,
    ensures
        ({
            let after = LocalStateView {
                pending_boot: Some(rolling_back(state.pending_boot->0, begun)),
                ..state
            };
            let (_, verdict) = boot_resumed(after, asset_id, validation, now);
            verdict is Wait || verdict is Report
        }),
{
}

/// A machine that is as it was before, after a release was taken back, runs the version and the
/// slot from before, and the command is reported as failed.
pub proof fn law_rollback_restores(
    state: LocalStateView,
    asset_id: Seq<char>,
    begun: Timestamp,
    now: Timestamp,
)
    requires
        state.pending_boot is Some,
    ensures
        ({
            let pending = state.pending_boot->0;
            let after = LocalStateView {
                pending_boot: Some(rolling_back(pending, begun)),
                ..state
            };
            let (restored, verdict) = boot_resumed(after, asset_id, Ok(()), now);
            &&& restored == settled_state(pending.previous_version, pending.previous_active_slot)
            &&& verdict is Report
            &&& !verdict->Report_0.success
            &&& verdict->Report_0.command_id == pending.command_id
            &&& verdict->Report_0.booted_version == pending.previous_version
            &&& verdict->Report_0.active_slot == pending.previous_active_slot
        }),
{
}

/// A release is taken back only where it was validated in vain past the deadline, and is to be
/// taken back.
pub proof fn law_rollback_only_when_due(
    state: LocalStateView,
    asset_id: Seq<char>,
    validation: Result<(), Seq<char>>,
    now: Timestamp,
)
    ensures
        boot_resumed(state, asset_id, validation, now).1 is StartRollback <==> {
            &&& state.pending_boot is Some
            &&& validation is Err
            &&& !now.before(state.pending_boot->0.deadline)
            &&& state.pending_boot->0.phase is Forward
            &&& wants_rollback(state.pending_boot->0)
        },
{
}

/// After a command that needs a new start of the machine, a machine that is as expected runs the
/// release of the command in the slot that it went to, and the command is reported as done.
pub proof fn law_boot_completes(
    cmd: CommandRecordView,
    state: LocalStateView,
    preparation: PreparationView,
    expected: PendingRebootView,
    asset_id: Seq<char>,
    begun: Timestamp,
    now: Timestamp,
)
    ensures
        ({
            let waiting = LocalStateView {
                pending_boot: Some(boot_awaited(cmd, preparation, expected, begun)),
                ..state
            };
            let (after, verdict) = boot_resumed(waiting, asset_id, Ok(()), now);
            &&& after == settled_state(
                Some(cmd.release_version),
                Some(preparation.ctx.next_slot),
            )
            &&& verdict is Report
            &&& verdict->Report_0.success
            &&& verdict->Report_0.command_id == cmd.id
            &&& verdict->Report_0.booted_version == Some(cmd.release_version)
        }),
{
}

/// Where artifacts are put.
pub open spec fn artifact_dir_of(state_dir: Seq<char>) -> Seq<char> {
    joined(state_dir, "artifacts"@)
}

/// Where artifacts are put.
pub fn artifact_dir(state_dir: &str) -> (r: String)
    ensures
        r@ == artifact_dir_of(state_dir@),
{
    join(state_dir, "artifacts")
}

/// The name under which an artifact is put: the last part of the path of its address.
pub open spec fn artifact_name(path: Seq<char>) -> Seq<char> {
    let last = path.skip(last_part_start(path) as int);
    if path.len() > 0 && path[0] == '/' && last.len() > 0 {
        last
    } else {
        "artifact.bin"@
    }
}

/// The name under which an artifact is put.
fn name_for(path: &str) -> (r: String)
    ensures
        r@ == artifact_name(path@),
{
    let chars = chars_of(path);
    let mut i: usize = chars.len();
    assert(chars@.take(i as int) =~= path@);
    while i > 0 && chars[i - 1] != '/'
        invariant
            i <= chars@.len(),
            chars@ == path@,
            last_part_start(chars@.take(i as int)) == last_part_start(path@),
        decreases i,
    {
        assert(chars@.take(i as int).drop_last() =~= chars@.take(i - 1));
        i -= 1;
    }
    if chars.len() > 0 && chars[0] == '/' && i < chars.len() {
        let name = text_between(&chars, i, chars.len());
        assert(name@ =~= path@.skip(i as int));
        name
    } else {
        "artifact.bin".to_string()
    }
}

/// Where an artifact comes from.
#[derive(Debug)]
pub enum ArtifactOrigin {
    /// A file or a directory of the machine, by the bytes of its path.
    Local(Vec<u8>),
    /// An address, which is asked with the given headers.
    Remote { url: String, headers: TextMap },
}

/// An artifact to fetch, and where to put it.
#[derive(Debug)]
pub struct Download {
    pub origin: ArtifactOrigin,
    pub dest: String,
}

/// The value of an [`ArtifactOrigin`].
#[verifier::ext_equal]
pub enum ArtifactOriginView {
    Local(Seq<u8>),
    Remote { url: Seq<char>, headers: Map<Seq<char>, Seq<char>> },
}

/// The value of a [`Download`].
#[verifier::ext_equal]
pub struct DownloadView {
    pub origin: ArtifactOriginView,
    pub dest: Seq<char>,
}

impl View for Download {
    type V = DownloadView;

    open spec fn view(&self) -> DownloadView {
        DownloadView {
            origin: match self.origin {
                ArtifactOrigin::Local(path) => ArtifactOriginView::Local(path@),
                ArtifactOrigin::Remote { url, headers } => ArtifactOriginView::Remote {
                    url: url@,
                    headers: headers@,
                },
            },
            dest: self.dest@,
        }
    }
}

/// How an artifact is fetched whose address has these parts, and, where it is one of a file,
/// leads to this path of the machine.
pub open spec fn download_of(
    state_dir: Seq<char>,
    artifact: ArtifactSourceView,
    address: Result<(Seq<char>, Seq<char>), Seq<char>>,
    local: Option<Seq<u8>>,
) -> Result<DownloadView, Seq<char>> {
    match address {
        Err(complaint) => Err(complaint),
        Ok((scheme, path)) => {
            let dest = joined(artifact_dir_of(state_dir), artifact_name(path));
            if scheme == "file"@ {
                match local {
                    Some(path) => Ok(
                        DownloadView { origin: ArtifactOriginView::Local(path), dest },
                    ),
                    None => Err("invalid file:// URL"@),
                }
            } else if scheme == "http"@ || scheme == "https"@ {
                Ok(
                    DownloadView {
                        origin: ArtifactOriginView::Remote {
                            url: artifact.url,
                            headers: artifact.headers,
                        },
                        dest,
                    },
                )
            } else {
                Err("unsupported artifact scheme: "@ + scheme)
            }
        },
    }
}

/// The value of a plan of a download.
pub open spec fn download_planned(r: Result<Download, String>) -> Result<DownloadView, Seq<char>> {
    match r {
        Ok(download) => Ok(download@),
        Err(complaint) => Err(complaint@),
    }
}

/// The value of the parts of an address.
pub open spec fn address_view(address: Result<Address, String>) -> Result<
    (Seq<char>, Seq<char>),
    Seq<char>,
> {
    match address {
        Ok(address) => Ok((address.scheme@, address.path@)),
        Err(complaint) => Err(complaint@),
    }
}

/// The value of the bytes of a path.
pub open spec fn local_view(local: Option<Vec<u8>>) -> Option<Seq<u8>> {
    match local {
        Some(path) => Some(path@),
        None => None,
    }
}

/// How an artifact is fetched whose address has these parts, and, where it is one of a file,
/// leads to this path of the machine.
pub fn plan_download(
    state_dir: &str,
    artifact: &ArtifactSource,
    address: Result<Address, String>,
    local: Option<Vec<u8>>,
) -> (r: Result<Download, String>)
    ensures
        download_planned(r) == download_of(
            state_dir@,
            artifact@,
            address_view(address),
            local_view(local),
        ),
{
    let address = address?;
    let name = name_for(address.path.as_str());
    let dest = join(artifact_dir(state_dir).as_str(), name.as_str());
    if same(address.scheme.as_str(), "file") {
        match local {
            Some(path) => Ok(Download { origin: ArtifactOrigin::Local(path), dest }),
            None => Err("invalid file:// URL".to_string()),
        }
    } else if same(address.scheme.as_str(), "http") || same(address.scheme.as_str(), "https") {
        Ok(
            Download {
                origin: ArtifactOrigin::Remote {
                    url: artifact.url.clone(),
                    headers: artifact.headers.clone(),
                },
                dest,
            },
        )
    } else {
        Err(concat("unsupported artifact scheme: ", address.scheme.as_str()))
    }
}

/// How an artifact is fetched.
pub fn download_artifact(state_dir: &str, artifact: &ArtifactSource) -> (r: Result<
    Download,
    String,
>)
    ensures
        download_planned(r) == download_of(
            state_dir@,
            artifact@,
            parsed_url(artifact@.url),
            file_path(artifact@.url),
        ),
{
    let address = parse_url(artifact.url.as_str());
    let local = local_path(artifact.url.as_str());
    assert(address_view(address) == parsed_url(artifact@.url));
    assert(local_view(local) == file_path(artifact@.url));
    plan_download(state_dir, artifact, address, local)
}

} // verus!
