//! The agent: rounds of checking in, asking for commands and carrying them out.

pub mod conduct;
pub mod execution;
pub mod state;
pub mod validation;
pub mod workflow;

use crate::agent::state::{LocalState, LocalStateView, PendingBootState, PendingBootStateView};
use crate::agent::validation::judged;
use crate::agent::workflow::{
    begin_rollback, boot_resumed, deadline_exists, has_deadline, report, result_of,
    resume_pending_boot_as, rolling_back, BootVerdict, BootVerdictView, CommandExecution,
    CommandExecutionView,
};
use crate::clock::{utc_now, Timestamp};
use crate::executors::{RollbackAction, RollbackActionView};
use crate::text::concat;
use crate::types::records::{
    AgentCheckinRequest, AgentCheckinRequestView, AgentPollRequest, AgentPollRequestView,
    AgentResultRequest, AgentResultRequestView, CommandRecord, CommandRecordView,
};
use crate::types::status::AssetStatus;
use vstd::prelude::*;

verus! {

/// How an agent was started.
#[derive(Debug)]
pub struct AgentConfig {
    pub server: String,
    pub asset_id: String,
    pub asset_type: String,
    pub mission_state: String,
    /// How long to sleep between two rounds.
    pub poll_seconds: u64,
    /// Where the agent keeps its files.
    pub state_dir: String,
    pub labels: Vec<String>,
}

/// The value of an [`AgentConfig`].
#[verifier::ext_equal]
pub struct AgentConfigView {
    pub server: Seq<char>,
    pub asset_id: Seq<char>,
    pub asset_type: Seq<char>,
    pub mission_state: Seq<char>,
    pub poll_seconds: u64,
    pub state_dir: Seq<char>,
    pub labels: Seq<Seq<char>>,
}

impl View for AgentConfig {
    type V = AgentConfigView;

    open spec fn view(&self) -> AgentConfigView {
        AgentConfigView {
            server: self.server@,
            asset_id: self.asset_id@,
            asset_type: self.asset_type@,
            mission_state: self.mission_state@,
            poll_seconds: self.poll_seconds,
            state_dir: self.state_dir@,
            labels: self.labels.deep_view(),
        }
    }
}

impl Clone for AgentConfig {
    fn clone(&self) -> (r: Self)
        ensures
            r@ == self@,
    {
        let labels = self.labels.clone();
        assert(labels.deep_view() =~= self.labels.deep_view());
        AgentConfig {
            server: self.server.clone(),
            asset_id: self.asset_id.clone(),
            asset_type: self.asset_type.clone(),
            mission_state: self.mission_state.clone(),
            poll_seconds: self.poll_seconds,
            state_dir: self.state_dir.clone(),
            labels,
        }
    }
}

/// Commands that are carried out one after the other.
#[derive(Debug)]
pub struct Work {
    /// What the agent knew when the round began.
    pub state: LocalState,
    pub queue: Vec<CommandRecord>,
    /// Which of them is being carried out.
    pub at: usize,
}

/// The value of a [`Work`].
#[verifier::ext_equal]
pub struct WorkView {
    pub state: LocalStateView,
    pub queue: Seq<CommandRecordView>,
    pub at: usize,
}

impl View for Work {
    type V = WorkView;

    open spec fn view(&self) -> WorkView {
        WorkView {
            state: self.state@,
            queue: self.queue.deep_view(),
            at: self.at,
        }
    }
}

/// A state to store before a result is sent, if one is.
#[derive(Debug)]
pub struct Storage {
    pub work: Work,
    pub report: Option<AgentResultRequest>,
}

/// The value of a [`Storage`].
#[verifier::ext_equal]
pub struct StorageView {
    pub work: WorkView,
    pub report: Option<AgentResultRequestView>,
}

impl View for Storage {
    type V = StorageView;

    open spec fn view(&self) -> StorageView {
        StorageView {
            work: self.work@,
            report: self.report.deep_view(),
        }
    }
}

/// How far an agent has come with a round.
#[derive(Debug)]
pub enum Stage {
    /// It loads what it knows.
    Loading,
    /// It finds out how the last start of the machine went.
    Validating(LocalState),
    /// It reports how that start went.
    Reporting(LocalState),
    /// It goes back to what the machine ran before.
    RollingBack(LocalState),
    /// It stores what it knows.
    Saving(LocalState),
    /// It checks in.
    CheckingIn(LocalState),
    /// It asks for commands.
    Polling(LocalState),
    /// It carries out a command.
    Executing(Work),
    /// It stores what it knows after a command.
    Storing(Storage),
    /// It reports the result of a command.
    Answering(Work),
    /// It sleeps.
    Resting,
}

/// The value of a [`Stage`].
#[verifier::ext_equal]
pub enum StageView {
    Loading,
    Validating(LocalStateView),
    Reporting(LocalStateView),
    RollingBack(LocalStateView),
    Saving(LocalStateView),
    CheckingIn(LocalStateView),
    Polling(LocalStateView),
    Executing(WorkView),
    Storing(StorageView),
    Answering(WorkView),
    Resting,
}

impl View for Stage {
    type V = StageView;

    open spec fn view(&self) -> StageView {
        match self {
            Stage::Loading => StageView::Loading,
            Stage::Validating(x) => StageView::Validating(x@),
            Stage::Reporting(x) => StageView::Reporting(x@),
            Stage::RollingBack(x) => StageView::RollingBack(x@),
            Stage::Saving(x) => StageView::Saving(x@),
            Stage::CheckingIn(x) => StageView::CheckingIn(x@),
            Stage::Polling(x) => StageView::Polling(x@),
            Stage::Executing(x) => StageView::Executing(x@),
            Stage::Storing(x) => StageView::Storing(x@),
            Stage::Answering(x) => StageView::Answering(x@),
            Stage::Resting => StageView::Resting,
        }
    }
}

/// What an agent does next.
#[derive(Debug)]
pub enum Action {
    /// Loads what it knows.
    Load,
    /// Finds out whether the machine is as expected after its last start.
    Validate(PendingBootState),
    /// Goes back to what the machine ran before.
    RollBack(RollbackAction),
    /// Stores what it knows.
    Save(LocalState),
    /// Checks in.
    CheckIn(AgentCheckinRequest),
    /// Asks for commands.
    Poll(AgentPollRequest),
    /// Carries out a command.
    Execute(CommandRecord),
    /// Reports a result.
    Report(AgentResultRequest),
    /// Sleeps for so many seconds.
    Sleep(u64),
}

/// The value of an [`Action`].
#[verifier::ext_equal]
pub enum ActionView {
    Load,
    Validate(PendingBootStateView),
    RollBack(RollbackActionView),
    Save(LocalStateView),
    CheckIn(AgentCheckinRequestView),
    Poll(AgentPollRequestView),
    Execute(CommandRecordView),
    Report(AgentResultRequestView),
    Sleep(u64),
}

impl View for Action {
    type V = ActionView;

    open spec fn view(&self) -> ActionView {
        match self {
            Action::Load => ActionView::Load,
            Action::Validate(x) => ActionView::Validate(x@),
            Action::RollBack(x) => ActionView::RollBack(x@),
            Action::Save(x) => ActionView::Save(x@),
            Action::CheckIn(x) => ActionView::CheckIn(x@),
            Action::Poll(x) => ActionView::Poll(x@),
            Action::Execute(x) => ActionView::Execute(x@),
            Action::Report(x) => ActionView::Report(x@),
            Action::Sleep(x) => ActionView::Sleep(*x),
        }
    }
}

/// What came of an action.
#[derive(Debug)]
pub enum Event {
    /// What the agent knows was loaded.
    Loaded(LocalState),
    /// It was found out whether the machine is as expected.
    Validated(Result<(), String>),
    /// The action was carried out.
    Done,
    /// Commands came in.
    Polled(Vec<CommandRecord>),
    /// A command was carried out, or failed.
    Executed(Result<CommandExecution, String>),
}

/// The value of an [`Event`].
#[verifier::ext_equal]
pub enum EventView {
    Loaded(LocalStateView),
    Validated(Result<(), Seq<char>>),
    Done,
    Polled(Seq<CommandRecordView>),
    Executed(Result<CommandExecutionView, Seq<char>>),
}

impl View for Event {
    type V = EventView;

    open spec fn view(&self) -> EventView {
        match self {
            Event::Loaded(state) => EventView::Loaded(state@),
            Event::Validated(outcome) => EventView::Validated(judged(*outcome)),
            Event::Done => EventView::Done,
            Event::Polled(commands) => EventView::Polled(commands.deep_view()),
            Event::Executed(outcome) => EventView::Executed(
                match outcome {
                    Ok(execution) => Ok(execution@),
                    Err(complaint) => Err(complaint@),
                },
            ),
        }
    }
}

/// The places of the control plane that an agent talks to.
#[derive(Debug, Clone, Copy, PartialEq, Eq, Structural)]
pub enum Endpoint {
    Checkin,
    Poll,
    Result,
}

impl Endpoint {
    /// The path of the place.
    pub open spec fn path(self) -> Seq<char> {
        match self {
            Endpoint::Checkin => "/v1/agent/checkin"@,
            Endpoint::Poll => "/v1/agent/poll"@,
            Endpoint::Result => "/v1/agent/result"@,
        }
    }

    /// The address of the place.
    pub fn url(self, server: &str) -> (r: String)
        ensures
            r@ == server@ + self.path(),
    {
        let path = match self {
            Endpoint::Checkin => "/v1/agent/checkin",
            Endpoint::Poll => "/v1/agent/poll",
            Endpoint::Result => "/v1/agent/result",
        };
        concat(server, path)
    }
}

/// What an agent says when it checks in.
pub open spec fn checkin_of(cfg: AgentConfigView, state: LocalStateView) -> AgentCheckinRequestView {
    AgentCheckinRequestView {
        asset_id: cfg.asset_id,
        asset_type: cfg.asset_type,
        mission_state: cfg.mission_state,
        labels: cfg.labels,
        current_version: state.current_version,
        active_slot: state.active_slot,
        status: Some(AssetStatus::Online),
    }
}

/// What an agent says when it checks in.
pub fn checkin(cfg: &AgentConfig, state: &LocalState) -> (r: AgentCheckinRequest)
    ensures
        r@ == checkin_of(cfg@, state@),
{
    let labels = cfg.labels.clone();
    assert(labels.deep_view() =~= cfg.labels.deep_view());
    AgentCheckinRequest {
        asset_id: cfg.asset_id.clone(),
        asset_type: cfg.asset_type.clone(),
        mission_state: cfg.mission_state.clone(),
        labels,
        current_version: state.current_version.clone(),
        active_slot: state.active_slot.clone(),
        status: Some(AssetStatus::Online),
    }
}

/// Whether an event can come of the action that a stage waits for, and a deadline that has to be
/// set then lies in the calendar.
pub open spec fn is_expected(stage: StageView, event: EventView, now: Timestamp) -> bool {
    match stage {
        StageView::Loading => event is Loaded,
        StageView::Validating(state) => event is Validated && state.pending_boot is Some,
        StageView::RollingBack(state) => {
            &&& event is Done
            &&& state.pending_boot is Some
            &&& deadline_exists(now, state.pending_boot->0.rollback.candidate_timeout_seconds)
        },
        StageView::Polling(_) => event is Polled,
        StageView::Executing(work) => event is Executed && work.at < work.queue.len(),
        StageView::Storing(storage) => event is Done && storage.work.at < storage.work.queue.len(),
        StageView::Answering(work) => event is Done && work.at < work.queue.len(),
        _ => event is Done,
    }
}

/// The next command, or sleep where there is none.
pub open spec fn work_continued(cfg: AgentConfigView, work: WorkView) -> (StageView, ActionView) {
    if work.at + 1 < work.queue.len() {
        let next = (work.at + 1) as usize;
        (
            StageView::Executing(WorkView { at: next, ..work }),
            ActionView::Execute(work.queue[next as int]),
        )
    } else {
        (StageView::Resting, ActionView::Sleep(cfg.poll_seconds))
    }
}

/// How a round goes on.
///
/// What the agent knows is loaded. Where a start of the machine was waited for, it is found out
/// how it went, which is then reported, or followed by going back to what the machine ran
/// before. What the agent knows is stored, and the agent checks in. While a start of the machine
/// is waited for, no commands are asked for. The commands that come in are carried out one after
/// the other. What the agent knows after a command is stored before the result is reported. The
/// result of a command whose release needs a new start of the machine comes later. A command that
/// fails is reported with what the agent knew when the round began. Then the agent sleeps.
pub open spec fn advanced(
    cfg: AgentConfigView,
    stage: StageView,
    event: EventView,
    now: Timestamp,
) -> (StageView, ActionView) {
    match (stage, event) {
        (StageView::Loading, EventView::Loaded(state)) => match state.pending_boot {
            Some(pending) => (StageView::Validating(state), ActionView::Validate(pending)),
            None => (StageView::Saving(state), ActionView::Save(state)),
        },
        (StageView::Validating(state), EventView::Validated(outcome)) => {
            let (after, verdict) = boot_resumed(state, cfg.asset_id, outcome, now);
            match verdict {
                BootVerdictView::Report(req) => (
                    StageView::Reporting(after),
                    ActionView::Report(req),
                ),
                BootVerdictView::StartRollback(action) => (
                    StageView::RollingBack(after),
                    ActionView::RollBack(action),
                ),
                _ => (StageView::Saving(after), ActionView::Save(after)),
            }
        },
        (StageView::Reporting(state), _) => (StageView::Saving(state), ActionView::Save(state)),
        (StageView::RollingBack(state), _) => {
            let after = LocalStateView {
                pending_boot: Some(rolling_back(state.pending_boot->0, now)),
                ..state
            };
            (StageView::Saving(after), ActionView::Save(after))
        },
        (StageView::Saving(state), _) => (
            StageView::CheckingIn(state),
            ActionView::CheckIn(checkin_of(cfg, state)),
        ),
        (StageView::CheckingIn(state), _) => if state.pending_boot is Some {
            (StageView::Resting, ActionView::Sleep(cfg.poll_seconds))
        } else {
            (
                StageView::Polling(state),
                ActionView::Poll(AgentPollRequestView { asset_id: cfg.asset_id }),
            )
        },
        (StageView::Polling(state), EventView::Polled(commands)) => if commands.len() == 0 {
            (StageView::Resting, ActionView::Sleep(cfg.poll_seconds))
        } else {
            (
                StageView::Executing(WorkView { state, queue: commands, at: 0 }),
                ActionView::Execute(commands[0]),
            )
        },
        (StageView::Executing(work), EventView::Executed(outcome)) => {
            let command_id = work.queue[work.at as int].id;
            match outcome {
                Ok(CommandExecutionView::Completed { message, state }) => (
                    StageView::Storing(
                        StorageView {
                            work,
                            report: Some(
                                result_of(command_id, cfg.asset_id, true, message, state),
                            ),
                        },
                    ),
                    ActionView::Save(state),
                ),
                Ok(CommandExecutionView::Deferred { state }) => (
                    StageView::Storing(StorageView { work, report: None }),
                    ActionView::Save(state),
                ),
                Err(complaint) => (
                    StageView::Answering(work),
                    ActionView::Report(
                        result_of(command_id, cfg.asset_id, false, complaint, work.state),
                    ),
                ),
            }
        },
        (StageView::Storing(storage), _) => match storage.report {
            Some(req) => (StageView::Answering(storage.work), ActionView::Report(req)),
            None => work_continued(cfg, storage.work),
        },
        (StageView::Answering(work), _) => work_continued(cfg, work),
        _ => (StageView::Loading, ActionView::Load),
    }
}

/// How the first round begins.
pub fn start() -> (r: (Stage, Action))
    ensures
        r.0@ == StageView::Loading,
        r.1@ == ActionView::Load,
{
    (Stage::Loading, Action::Load)
}

/// The next command, or sleep where there is none.
fn continue_work(cfg: &AgentConfig, work: Work) -> (r: (Stage, Action))
    requires
        work.at < work.queue@.len(),
    ensures
        (r.0@, r.1@) == work_continued(cfg@, work@),
{
    let count = work.queue.len();
    let next: usize = work.at + 1;
    if next < count {
        let command = work.queue[next].clone();
        assert(work@.queue[next as int] == work.queue@[next as int]@);
        (
            Stage::Executing(Work { state: work.state, queue: work.queue, at: next }),
            Action::Execute(command),
        )
    } else {
        (Stage::Resting, Action::Sleep(cfg.poll_seconds))
    }
}

/// How a round goes on at a given time.
pub fn advance_as(cfg: &AgentConfig, stage: Stage, event: Event, now: Timestamp) -> (r: (
    Stage,
    Action,
))
    requires
        is_expected(stage@, event@, now),
    ensures
        (r.0@, r.1@) == advanced(cfg@, stage@, event@, now),
{
    match (stage, event) {
        (Stage::Loading, Event::Loaded(state)) => match &state.pending_boot {
            Some(pending) => {
                let pending = pending.clone();
                (Stage::Validating(state), Action::Validate(pending))
            },
            None => {
                let saved = state.clone();
                (Stage::Saving(state), Action::Save(saved))
            },
        },
        (Stage::Validating(state), Event::Validated(outcome)) => {
            let mut state = state;
            match resume_pending_boot_as(&mut state, cfg.asset_id.as_str(), outcome, now) {
                BootVerdict::Report(req) => (Stage::Reporting(state), Action::Report(req)),
                BootVerdict::StartRollback(action) => (
                    Stage::RollingBack(state),
                    Action::RollBack(action),
                ),
                _ => {
                    let saved = state.clone();
                    (Stage::Saving(state), Action::Save(saved))
                },
            }
        },
        (Stage::Reporting(state), _) => {
            let saved = state.clone();
            (Stage::Saving(state), Action::Save(saved))
        },
        (Stage::RollingBack(state), _) => {
            let pending_boot = match state.pending_boot {
                Some(pending) => Some(begin_rollback(pending, now)),
                None => None,
            };
            let after = LocalState {
                current_version: state.current_version,
                active_slot: state.active_slot,
                pending_boot,
            };
            let saved = after.clone();
            (Stage::Saving(after), Action::Save(saved))
        },
        (Stage::Saving(state), _) => {
            let req = checkin(cfg, &state);
            (Stage::CheckingIn(state), Action::CheckIn(req))
        },
        (Stage::CheckingIn(state), _) => {
            if state.pending_boot.is_some() {
                (Stage::Resting, Action::Sleep(cfg.poll_seconds))
            } else {
                (
                    Stage::Polling(state),
                    Action::Poll(AgentPollRequest { asset_id: cfg.asset_id.clone() }),
                )
            }
        },
        (Stage::Polling(state), Event::Polled(commands)) => {
            if commands.len() == 0 {
                (Stage::Resting, Action::Sleep(cfg.poll_seconds))
            } else {
                let first = commands[0].clone();
                assert(commands.deep_view()[0] == commands@[0]@);
                (
                    Stage::Executing(Work { state, queue: commands, at: 0 }),
                    Action::Execute(first),
                )
            }
        },
        (Stage::Executing(work), Event::Executed(outcome)) => {
            assert(work@.queue[work.at as int] == work.queue@[work.at as int]@);
            let command_id = work.queue[work.at].id.clone();
            match outcome {
                Ok(CommandExecution::Completed { message, state }) => {
                    let req = report(command_id, cfg.asset_id.as_str(), true, message, &state);
                    (Stage::Storing(Storage { work, report: Some(req) }), Action::Save(state))
                },
                Ok(CommandExecution::Deferred { state }) => (
                    Stage::Storing(Storage { work, report: None }),
                    Action::Save(state),
                ),
                Err(complaint) => {
                    let req = report(
                        command_id,
                        cfg.asset_id.as_str(),
                        false,
                        complaint,
                        &work.state,
                    );
                    (Stage::Answering(work), Action::Report(req))
                },
            }
        },
        (Stage::Storing(storage), _) => match storage.report {
            Some(req) => (Stage::Answering(storage.work), Action::Report(req)),
            None => continue_work(cfg, storage.work),
        },
        (Stage::Answering(work), _) => continue_work(cfg, work),
        _ => (Stage::Loading, Action::Load),
    }
}

/// Whether an event can come of the action that a stage waits for, and a deadline that has to be
/// set then lies in the calendar.
fn expects(stage: &Stage, event: &Event, now: Timestamp) -> (r: bool)
    requires
        now.in_calendar(),
    ensures
        r == is_expected(stage@, event@, now),
{
    match (stage, event) {
        (Stage::Loading, Event::Loaded(_)) => true,
        (Stage::Validating(state), Event::Validated(_)) => state.pending_boot.is_some(),
        (Stage::RollingBack(state), Event::Done) => match &state.pending_boot {
            Some(pending) => has_deadline(now, pending.rollback.candidate_timeout_seconds),
            None => false,
        },
        (Stage::Polling(_), Event::Polled(_)) => true,
        (Stage::Executing(work), Event::Executed(_)) => work.at < work.queue.len(),
        (Stage::Storing(storage), Event::Done) => storage.work.at < storage.work.queue.len(),
        (Stage::Answering(work), Event::Done) => work.at < work.queue.len(),
        (
            Stage::Reporting(_) | Stage::Saving(_) | Stage::CheckingIn(_) | Stage::Resting,
            Event::Done,
        ) => true,
        _ => false,
    }
}

/// How a round goes on. `None` where the event cannot come of the action that the stage waits
/// for, or where a deadline that has to be set lies beyond the calendar.
pub fn advance(cfg: &AgentConfig, stage: Stage, event: Event) -> (r: Option<(Stage, Action)>)
    ensures
        exists|now: Timestamp|
            {
                &&& now.in_calendar()
                &&& match r {
                    Some(next) => #[trigger] is_expected(stage@, event@, now) && (
                        next.0@,
                        next.1@,
                    ) == advanced(cfg@, stage@, event@, now),
                    None => !is_expected(stage@, event@, now),
                }
            },
{
    let now = utc_now();
    if expects(&stage, &event, now) {
        Some(advance_as(cfg, stage, event, now))
    } else {
        None
    }
}

/// While a start of the machine is waited for, the agent sleeps after it has checked in, and
/// asks for no commands.
pub proof fn law_no_poll_while_waiting(
    cfg: AgentConfigView,
    state: LocalStateView,
    event: EventView,
    now: Timestamp,
)
    requires
        state.pending_boot is Some,
    ensures
        advanced(cfg, StageView::CheckingIn(state), event, now) == (
            StageView::Resting,
            ActionView::Sleep(cfg.poll_seconds),
        ),
{
}

/// Commands are asked for only after the agent has checked in, and by no stage but that.
pub proof fn law_poll_only_after_checkin(
    cfg: AgentConfigView,
    stage: StageView,
    event: EventView,
    now: Timestamp,
)
    requires
        is_expected(stage, event, now),
        advanced(cfg, stage, event, now).1 is Poll,
    ensures
        stage is CheckingIn,
        stage->CheckingIn_0.pending_boot is None,
{
}

/// What the agent knows after a command is stored before its result is reported.
pub proof fn law_stored_before_reported(
    cfg: AgentConfigView,
    work: WorkView,
    message: Seq<char>,
    state: LocalStateView,
    now: Timestamp,
    later: Timestamp,
)
    requires
        work.at < work.queue.len(),
    ensures
        ({
            let event = EventView::Executed(
                Ok(CommandExecutionView::Completed { message, state }),
            );
            let (stored, action) = advanced(cfg, StageView::Executing(work), event, now);
            &&& action == ActionView::Save(state)
            &&& is_expected(stored, EventView::Done, later)
            &&& advanced(cfg, stored, EventView::Done, later) == (
                StageView::Answering(work),
                ActionView::Report(
                    result_of(
                        work.queue[work.at as int].id,
                        cfg.asset_id,
                        true,
                        message,
                        state,
                    ),
                ),
            )
        }),
{
}

/// Every command that comes in is carried out, one after the other: after the one is done, the
/// next is carried out, and after the last the agent sleeps.
pub proof fn law_commands_in_turn(cfg: AgentConfigView, work: WorkView, now: Timestamp)
    requires
        work.at < work.queue.len(),
        work.queue.len() <= usize::MAX,
    ensures
        ({
            let (stage, action) = advanced(
                cfg,
                StageView::Answering(work),
                EventView::Done,
                now,
            );
            if work.at + 1 < work.queue.len() {
                &&& action == ActionView::Execute(work.queue[work.at + 1])
                &&& stage is Executing
                &&& stage->Executing_0.queue == work.queue
                &&& stage->Executing_0.at == work.at + 1
                &&& stage->Executing_0.state == work.state
            } else {
                stage is Resting && action == ActionView::Sleep(cfg.poll_seconds)
            }
        }),
{
}

} // verus!
