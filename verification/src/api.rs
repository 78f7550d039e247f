//! What the control plane answers to requests.

use crate::clock::{rfc3339_text, utc_now, Timestamp};
use crate::db::assets::{asset_list, asset_of, asset_upserted};
use crate::db::commands::{
    are_tickets, lemma_polled_count, poll_commands_as, polled, result_submitted, running,
    tickets_read_back, Ticket, TicketView,
};
use crate::db::deployments::{
    deployment_created, deployment_list, deployment_of, paused_status, target_list, with_status,
};
use crate::db::effects::law_running_by_fields;
use crate::db::error::{DbError, DbErrorView};
use crate::db::releases::{release_inserted, release_list, release_of};
use crate::db::tables::TablesView;
use crate::db::writes::Database;
use crate::ids::{fresh_id, is_random_uuid};
use crate::text::{contains, has_text, occurs_at};
use crate::types::manifest::{release_fault, CreateReleaseRequest, CreateReleaseRequestView};
use crate::types::records::{
    AgentCheckinRequest, AgentPollRequest, AgentPollResponse, AgentResultRequest, ApiMessage,
    AssetRecord, CommandRecordView, CreateDeploymentRequest, DeploymentRecord,
    DeploymentTargetRecord, PauseDeploymentRequest, ReleaseRecord, ReleaseRecordView,
};
use crate::types::status::{DeploymentStatus, StatusKind};
use vstd::prelude::*;

verus! {

/// Whose fault a refusal is.
#[derive(Debug, Clone, Copy, PartialEq, Eq, Structural)]
pub enum ApiErrorKind {
    /// The request makes no sense.
    Invalid,
    /// What the request is about does not exist.
    NotFound,
    /// The control plane failed.
    Internal,
}

impl ApiErrorKind {
    /// The status code of the response.
    pub open spec fn status(self) -> u16 {
        match self {
            ApiErrorKind::Invalid => 400,
            ApiErrorKind::NotFound => 404,
            ApiErrorKind::Internal => 500,
        }
    }

    /// The status code of the response.
    pub fn status_code(self) -> (r: u16)
        ensures
            r == self.status(),
    {
        match self {
            ApiErrorKind::Invalid => 400,
            ApiErrorKind::NotFound => 404,
            ApiErrorKind::Internal => 500,
        }
    }

    /// The word for the refusal in the body of the response.
    pub open spec fn word(self) -> Seq<char> {
        match self {
            ApiErrorKind::Invalid => "invalid_request"@,
            ApiErrorKind::NotFound => "not_found"@,
            ApiErrorKind::Internal => "internal_error"@,
        }
    }

    /// The word for the refusal in the body of the response.
    pub fn code(self) -> (r: &'static str)
        ensures
            r@ == self.word(),
    {
        match self {
            ApiErrorKind::Invalid => "invalid_request",
            ApiErrorKind::NotFound => "not_found",
            ApiErrorKind::Internal => "internal_error",
        }
    }
}

/// Why a request is refused.
#[derive(Debug)]
pub struct ApiError {
    pub kind: ApiErrorKind,
    pub message: String,
}

/// The value of an [`ApiError`].
#[verifier::ext_equal]
pub struct ApiErrorView {
    pub kind: ApiErrorKind,
    pub message: Seq<char>,
}

impl View for ApiError {
    type V = ApiErrorView;

    open spec fn view(&self) -> ApiErrorView {
        ApiErrorView { kind: self.kind, message: self.message@ }
    }
}

/// Whose fault a refusal with this message is.
pub open spec fn kind_of(message: Seq<char>) -> ApiErrorKind {
    if has_text(message, "not found"@) {
        ApiErrorKind::NotFound
    } else if has_text(message, "mismatch"@) || has_text(message, "invalid"@) || has_text(
        message,
        "must not"@,
    ) || has_text(message, "requires"@) || has_text(message, "unknown "@) {
        ApiErrorKind::Invalid
    } else {
        ApiErrorKind::Internal
    }
}

/// The refusal for an error of the database.
pub open spec fn refusal(e: DbErrorView) -> ApiErrorView {
    ApiErrorView { kind: kind_of(e.text()), message: e.text() }
}

/// The answer for an outcome of the database.
pub open spec fn answer<T>(r: Result<T, DbErrorView>) -> Result<T, ApiErrorView> {
    match r {
        Ok(x) => Ok(x),
        Err(e) => Err(refusal(e)),
    }
}

/// The value of an answer.
pub open spec fn shown<T: View>(r: Result<T, ApiError>) -> Result<T::V, ApiErrorView> {
    match r {
        Ok(x) => Ok(x@),
        Err(e) => Err(e@),
    }
}

/// The value of an answer that is a list.
pub open spec fn shown_list<T: DeepView>(r: Result<Vec<T>, ApiError>) -> Result<
    Seq<T::V>,
    ApiErrorView,
> {
    match r {
        Ok(x) => Ok(x.deep_view()),
        Err(e) => Err(e@),
    }
}

/// A refusal with this message.
pub fn refuse(message: String) -> (r: ApiError)
    ensures
        r.kind == kind_of(message@),
        r.message@ == message@,
{
    let kind = if contains(message.as_str(), "not found") {
        ApiErrorKind::NotFound
    } else if contains(message.as_str(), "mismatch") || contains(message.as_str(), "invalid")
        || contains(message.as_str(), "must not") || contains(message.as_str(), "requires")
        || contains(message.as_str(), "unknown ") {
        ApiErrorKind::Invalid
    } else {
        ApiErrorKind::Internal
    };
    ApiError { kind, message }
}

/// The refusal for an error of the database.
pub fn map_db_error(err: DbError) -> (r: ApiError)
    ensures
        r@ == refusal(err@),
{
    refuse(err.message())
}

/// The answer to the question whether the control plane runs.
pub fn healthz() -> (r: &'static str)
    ensures
        r@ == "ok"@,
{
    "ok"
}

/// What becomes of the rows when a release is to be created under a given identifier at a given
/// time, and the answer. A release with a fault is refused, with the text of the fault.
pub open spec fn release_requested(
    t: TablesView,
    req: CreateReleaseRequestView,
    id: Seq<char>,
    now: Timestamp,
) -> (TablesView, Result<ReleaseRecordView, ApiErrorView>) {
    match release_fault(req) {
        Some((fault, subject)) => (
            t,
            Err(ApiErrorView { kind: ApiErrorKind::Invalid, message: fault.text() + subject }),
        ),
        None => {
            let (after, outcome) = release_inserted(t, req, id, now);
            (after, answer(outcome))
        },
    }
}

/// Creates a release under a given identifier at a given time.
pub fn create_release_as(
    db: &mut Database,
    req: CreateReleaseRequest,
    id: String,
    now: Timestamp,
) -> (r: Result<ReleaseRecord, ApiError>)
    requires
        now.in_calendar(),
    ensures
        (final(db)@, shown(r)) == release_requested(old(db)@, req@, id@, now),
        final(db).continues(old(db)),
{
    match req.validate() {
        Ok(_) => {},
        Err(e) => {
            return Err(ApiError { kind: ApiErrorKind::Invalid, message: e.message() });
        },
    }
    match crate::db::releases::insert_release_as(db, req, id, now) {
        Ok(record) => Ok(record),
        Err(e) => Err(map_db_error(e)),
    }
}

/// Creates a release.
pub fn create_release(db: &mut Database, req: CreateReleaseRequest) -> (r: Result<
    ReleaseRecord,
    ApiError,
>)
    ensures
        exists|id: Seq<char>, now: Timestamp|
            is_random_uuid(id) && now.in_calendar() && (final(db)@, shown(r))
                == #[trigger] release_requested(old(db)@, req@, id, now),
        final(db).continues(old(db)),
{
    let id = fresh_id();
    let now = utc_now();
    create_release_as(db, req, id, now)
}

/// All releases, the newest first.
pub fn list_releases(db: &Database) -> (r: Result<Vec<ReleaseRecord>, ApiError>)
    ensures
        shown_list(r) == answer(release_list(db@)),
{
    match crate::db::releases::list_releases(db) {
        Ok(records) => Ok(records),
        Err(e) => Err(map_db_error(e)),
    }
}

/// The release with an identifier.
pub fn get_release(db: &Database, id: &str) -> (r: Result<ReleaseRecord, ApiError>)
    ensures
        shown(r) == answer(release_of(db@, id@)),
{
    match crate::db::releases::get_release(db, id) {
        Ok(record) => Ok(record),
        Err(e) => Err(map_db_error(e)),
    }
}

/// All assets, the one seen last first.
pub fn list_assets(db: &Database) -> (r: Result<Vec<AssetRecord>, ApiError>)
    ensures
        shown_list(r) == answer(asset_list(db@)),
{
    match crate::db::assets::list_assets(db) {
        Ok(records) => Ok(records),
        Err(e) => Err(map_db_error(e)),
    }
}

/// The asset with an identifier.
pub fn get_asset(db: &Database, id: &str) -> (r: Result<AssetRecord, ApiError>)
    ensures
        shown(r) == answer(asset_of(db@, id@)),
{
    match crate::db::assets::get_asset(db, id) {
        Ok(record) => Ok(record),
        Err(e) => Err(map_db_error(e)),
    }
}

/// Creates a deployment.
pub fn create_deployment(db: &mut Database, req: CreateDeploymentRequest) -> (r: Result<
    DeploymentRecord,
    ApiError,
>)
    ensures
        exists|id: Seq<char>, now: Timestamp|
            {
                &&& is_random_uuid(id)
                &&& now.in_calendar()
                &&& final(db)@ == (#[trigger] deployment_created(old(db)@, req@, id, now)).0
                &&& shown(r) == answer(deployment_created(old(db)@, req@, id, now).1)
            },
        final(db).continues(old(db)),
{
    match crate::db::deployments::create_deployment(db, req) {
        Ok(record) => Ok(record),
        Err(e) => Err(map_db_error(e)),
    }
}

/// All deployments, the newest first.
pub fn list_deployments(db: &Database) -> (r: Result<Vec<DeploymentRecord>, ApiError>)
    ensures
        shown_list(r) == answer(deployment_list(db@)),
{
    match crate::db::deployments::list_deployments(db) {
        Ok(records) => Ok(records),
        Err(e) => Err(map_db_error(e)),
    }
}

/// The deployment with an identifier.
pub fn get_deployment(db: &Database, id: &str) -> (r: Result<DeploymentRecord, ApiError>)
    ensures
        shown(r) == answer(deployment_of(db@, id@)),
{
    match crate::db::deployments::get_deployment(db, id) {
        Ok(record) => Ok(record),
        Err(e) => Err(map_db_error(e)),
    }
}

/// The targets of a deployment, the one that changed last first.
pub fn list_deployment_targets(db: &Database, id: &str) -> (r: Result<
    Vec<DeploymentTargetRecord>,
    ApiError,
>)
    ensures
        shown_list(r) == answer(target_list(db@, id@)),
{
    match crate::db::deployments::list_deployment_targets(db, id) {
        Ok(records) => Ok(records),
        Err(e) => Err(map_db_error(e)),
    }
}

/// Pauses a deployment, or makes it active again.
pub fn pause_deployment(db: &mut Database, id: &str, req: PauseDeploymentRequest) -> (r: Result<
    ApiMessage,
    ApiError,
>)
    ensures
        final(db)@ == with_status(old(db)@, id@, paused_status(req.paused)),
        r is Ok,
        r->Ok_0.message@ == if req.paused {
            "paused"@
        } else {
            "resumed"@
        },
        final(db).continues(old(db)),
{
    match crate::db::deployments::set_deployment_paused(db, id, req.paused) {
        Ok(_) => {},
        Err(e) => {
            return Err(map_db_error(e));
        },
    }
    let message = if req.paused {
        "paused"
    } else {
        "resumed"
    };
    Ok(ApiMessage { message: message.to_string() })
}

/// Aborts a deployment.
pub fn abort_deployment(db: &mut Database, id: &str) -> (r: Result<ApiMessage, ApiError>)
    ensures
        final(db)@ == with_status(old(db)@, id@, DeploymentStatus::Aborted),
        r is Ok,
        r->Ok_0.message@ == "aborted"@,
        final(db).continues(old(db)),
{
    match crate::db::deployments::abort_deployment(db, id) {
        Ok(_) => Ok(ApiMessage { message: "aborted".to_string() }),
        Err(e) => Err(map_db_error(e)),
    }
}

/// Takes in what an asset says of itself.
pub fn agent_checkin(db: &mut Database, req: AgentCheckinRequest) -> (r: Result<
    AssetRecord,
    ApiError,
>)
    ensures
        exists|now: Timestamp|
            {
                &&& now.in_calendar()
                &&& final(db)@ == (#[trigger] asset_upserted(old(db)@, req@, now)).0
                &&& shown(r) == answer(asset_upserted(old(db)@, req@, now).1)
            },
        final(db).continues(old(db)),
{
    match crate::db::assets::upsert_asset(db, req) {
        Ok(record) => Ok(record),
        Err(e) => Err(map_db_error(e)),
    }
}

/// The rows after commands have begun to run, one after the other.
pub open spec fn all_running(
    t: TablesView,
    commands: Seq<CommandRecordView>,
    times: Seq<Timestamp>,
) -> TablesView
    decreases commands.len(),
{
    if commands.len() == 0 {
        t
    } else {
        running(
            all_running(t, commands.drop_last(), times),
            commands.last().id,
            times[commands.len() - 1],
        )
    }
}

/// What becomes of the rows when an agent asks for commands, and the answer. The commands that
/// it gets begin to run.
pub open spec fn agent_polled(
    t: TablesView,
    asset_id: Seq<char>,
    over_limit: Seq<Seq<char>>,
    tickets: Seq<TicketView>,
    times: Seq<Timestamp>,
) -> (TablesView, Result<Seq<CommandRecordView>, ApiErrorView>) {
    let (after, outcome) = polled(t, asset_id, over_limit, tickets);
    match outcome {
        Err(e) => (after, Err(refusal(e))),
        Ok(commands) => (all_running(after, commands, times), Ok(commands)),
    }
}

/// Whether there is a time for each deployment that can be written.
pub open spec fn are_times(times: Seq<Timestamp>, deployments: nat) -> bool {
    &&& deployments <= times.len()
    &&& forall|k: int| 0 <= k < times.len() ==> (#[trigger] times[k]).in_calendar()
}

/// The value of the answer to an agent that asks for commands.
pub open spec fn shown_commands(r: Result<AgentPollResponse, ApiError>) -> Result<
    Seq<CommandRecordView>,
    ApiErrorView,
> {
    match r {
        Ok(response) => Ok(response@.commands),
        Err(e) => Err(e@),
    }
}

/// The commands that an agent gets, with given identifiers and times. The deployments that are
/// over their limit of failures are given.
pub fn agent_poll_as(
    db: &mut Database,
    req: AgentPollRequest,
    over_limit: &Vec<String>,
    tickets: &Vec<Ticket>,
    times: &Vec<Timestamp>,
) -> (r: Result<AgentPollResponse, ApiError>)
    requires
        are_tickets(tickets.deep_view(), old(db)@.deployments.len()),
        are_times(times@, old(db)@.deployments.len()),
    ensures
        (final(db)@, shown_commands(r)) == agent_polled(
            old(db)@,
            req.asset_id@,
            over_limit.deep_view(),
            tickets.deep_view(),
            times@,
        ),
        tickets_read_back(tickets.deep_view()),
        final(db).continues(old(db)),
{
    proof {
        lemma_polled_count(
            db@,
            req.asset_id@,
            over_limit.deep_view(),
            tickets.deep_view(),
        );
    }
    let commands = match poll_commands_as(db, req.asset_id.as_str(), over_limit, tickets) {
        Ok(commands) => commands,
        Err(e) => {
            return Err(map_db_error(e));
        },
    };
    let ghost after = db@;
    let ghost list = commands.deep_view();
    let mut k: usize = 0;
    assert(list.take(0) =~= Seq::empty());
    while k < commands.len()
        invariant
            k <= commands.len(),
            commands@.len() <= times@.len(),
            forall|j: int| 0 <= j < times@.len() ==> (#[trigger] times@[j]).in_calendar(),
            list == commands.deep_view(),
            db@ == all_running(after, list.take(k as int), times@),
            db.continues(old(db)),
            tickets_read_back(tickets.deep_view()),
            agent_polled(
                old(db)@,
                req.asset_id@,
                over_limit.deep_view(),
                tickets.deep_view(),
                times@,
            ) == (
                all_running(after, list, times@),
                Ok::<Seq<CommandRecordView>, ApiErrorView>(list),
            ),
        decreases commands.len() - k,
    {
        assert(list.take(k + 1).drop_last() =~= list.take(k as int));
        assert(list.take(k + 1).last() == commands@[k as int]@);
        match crate::db::commands::mark_command_running_as(
            db,
            commands[k].id.as_str(),
            times[k],
        ) {
            Ok(_) => {},
            Err(e) => {
                return Err(map_db_error(e));
            },
        }
        k += 1;
    }
    assert(list.take(k as int) =~= list);
    Ok(AgentPollResponse { commands })
}

/// The commands that an agent gets. The deployments that are over their limit of failures are
/// given.
pub fn agent_poll(db: &mut Database, req: AgentPollRequest, over_limit: &Vec<String>) -> (r: Result<
    AgentPollResponse,
    ApiError,
>)
    ensures
        exists|tickets: Seq<TicketView>, times: Seq<Timestamp>|
            {
                &&& are_tickets(tickets, old(db)@.deployments.len())
                &&& forall|k: int|
                    0 <= k < tickets.len() ==> is_random_uuid((#[trigger] tickets[k]).id)
                &&& tickets_read_back(tickets)
                &&& are_times(times, old(db)@.deployments.len())
                &&& (final(db)@, shown_commands(r)) == #[trigger] agent_polled(
                    old(db)@,
                    req.asset_id@,
                    over_limit.deep_view(),
                    tickets,
                    times,
                )
            },
        final(db).continues(old(db)),
{
    let wanted = db.tables().deployments.len();
    let tickets = crate::db::commands::draw_tickets(wanted);
    let mut times: Vec<Timestamp> = Vec::new();
    while times.len() < wanted
        invariant
            times.len() <= wanted,
            forall|k: int| 0 <= k < times@.len() ==> (#[trigger] times@[k]).in_calendar(),
        decreases wanted - times.len(),
    {
        times.push(utc_now());
    }
    agent_poll_as(db, req, over_limit, &tickets, &times)
}

/// Takes in the result of a command.
pub fn agent_result(db: &mut Database, req: AgentResultRequest) -> (r: Result<
    ApiMessage,
    ApiError,
>)
    ensures
        exists|now: Timestamp|
            now.in_calendar() && final(db)@ == (#[trigger] result_submitted(
                old(db)@,
                req@,
                now,
            )).0,
        match r {
            Ok(message) => {
                &&& crate::db::tables::command_row(old(db)@.commands, req@.command_id) is Some
                &&& message.message@ == "recorded"@
            },
            Err(e) => {
                &&& crate::db::tables::command_row(old(db)@.commands, req@.command_id) is None
                &&& e@ == refusal(DbErrorView::ForeignKey)
            },
        },
        final(db).continues(old(db)),
{
    match crate::db::commands::submit_command_result(db, req) {
        Ok(_) => Ok(ApiMessage { message: "recorded".to_string() }),
        Err(e) => Err(map_db_error(e)),
    }
}

/// Asking for a release, an asset or a deployment that is not there is answered so, whatever
/// the identifier.
pub proof fn law_unknown_is_not_found(id: Seq<char>)
    ensures
        refusal(DbErrorView::ReleaseNotFound(id)).kind is NotFound,
        refusal(DbErrorView::AssetNotFound(id)).kind is NotFound,
        refusal(DbErrorView::DeploymentNotFound(id)).kind is NotFound,
{
    reveal_strlit("not found");
    reveal_strlit("release not found: ");
    reveal_strlit("asset not found: ");
    reveal_strlit("deployment not found: ");
    assert(("release not found: "@ + id).subrange(8, 17) =~= "not found"@);
    assert(occurs_at("release not found: "@ + id, "not found"@, 8));
    assert(("asset not found: "@ + id).subrange(6, 15) =~= "not found"@);
    assert(occurs_at("asset not found: "@ + id, "not found"@, 6));
    assert(("deployment not found: "@ + id).subrange(11, 20) =~= "not found"@);
    assert(occurs_at("deployment not found: "@ + id, "not found"@, 11));
}

/// A deployment of a release for other assets than it selects is answered as invalid.
pub proof fn law_mismatch_is_invalid()
    ensures
        refusal(DbErrorView::TargetTypeMismatch).kind is Invalid,
{
    let text = "release target_type and selector target_type mismatch"@;
    reveal_strlit("release target_type and selector target_type mismatch");
    reveal_strlit("not found");
    reveal_strlit("mismatch");
    assert(text.subrange(45, 53) =~= "mismatch"@);
    assert(occurs_at(text, "mismatch"@, 45));
    assert forall|at: int| !(#[trigger] occurs_at(text, "not found"@, at)) by {
        if occurs_at(text, "not found"@, at) {
            assert(text.subrange(at, at + 9)[0] == 'n');
            assert(text.subrange(at, at + 9)[1] == 'o');
        }
    }
}

/// The result of a command that is not known is answered as a failure of the control plane.
pub proof fn law_unknown_command_is_internal()
    ensures
        refusal(DbErrorView::ForeignKey).kind is Internal,
{
    let text = "FOREIGN KEY constraint failed"@;
    reveal_strlit("FOREIGN KEY constraint failed");
    reveal_strlit("not found");
    reveal_strlit("mismatch");
    reveal_strlit("invalid");
    reveal_strlit("must not");
    reveal_strlit("requires");
    reveal_strlit("unknown ");
    assert forall|at: int| !(#[trigger] occurs_at(text, "not found"@, at)) by {
        if occurs_at(text, "not found"@, at) {
            assert(text.subrange(at, at + 9)[0] == 'n');
            assert(text.subrange(at, at + 9)[1] == 'o');
            assert(text.subrange(at, at + 9)[2] == 't');
        }
    }
    assert forall|at: int| !(#[trigger] occurs_at(text, "mismatch"@, at)) by {
        if occurs_at(text, "mismatch"@, at) {
            assert(text.subrange(at, at + 8)[0] == 'm');
            assert(text.subrange(at, at + 8)[1] == 'i');
            assert(text.subrange(at, at + 8)[2] == 's');
        }
    }
    assert forall|at: int| !(#[trigger] occurs_at(text, "invalid"@, at)) by {
        if occurs_at(text, "invalid"@, at) {
            assert(text.subrange(at, at + 7)[0] == 'i');
            assert(text.subrange(at, at + 7)[1] == 'n');
            assert(text.subrange(at, at + 7)[2] == 'v');
        }
    }
    assert forall|at: int| !(#[trigger] occurs_at(text, "must not"@, at)) by {
        if occurs_at(text, "must not"@, at) {
            assert(text.subrange(at, at + 8)[0] == 'm');
            assert(text.subrange(at, at + 8)[1] == 'u');
            assert(text.subrange(at, at + 8)[2] == 's');
        }
    }
    assert forall|at: int| !(#[trigger] occurs_at(text, "requires"@, at)) by {
        if occurs_at(text, "requires"@, at) {
            assert(text.subrange(at, at + 8)[0] == 'r');
            assert(text.subrange(at, at + 8)[1] == 'e');
            assert(text.subrange(at, at + 8)[2] == 'q');
        }
    }
    assert forall|at: int| !(#[trigger] occurs_at(text, "unknown "@, at)) by {
        if occurs_at(text, "unknown "@, at) {
            assert(text.subrange(at, at + 8)[0] == 'u');
            assert(text.subrange(at, at + 8)[1] == 'n');
            assert(text.subrange(at, at + 8)[2] == 'k');
        }
    }
}

/// How a message is answered: with 404 and `not_found` where it says that something was not found,
/// else with 400 and `invalid_request` where it says that something is a mismatch, invalid,
/// required, unknown or must not be, and with 500 and `internal_error` otherwise.
pub proof fn law_refusal_by_message(message: Seq<char>)
    ensures
        ({
            let kind = kind_of(message);
            let missing = has_text(message, "not found"@);
            let wrong = has_text(message, "mismatch"@) || has_text(message, "invalid"@) || has_text(
                message,
                "must not"@,
            ) || has_text(message, "requires"@) || has_text(message, "unknown "@);
            &&& missing ==> kind.status() == 404 && kind.word() == "not_found"@
            &&& !missing && wrong ==> kind.status() == 400 && kind.word() == "invalid_request"@
            &&& !missing && !wrong ==> kind.status() == 500 && kind.word() == "internal_error"@
        }),
{
}

/// What is refused is answered with the message of the database, unchanged, and what is not is
/// answered as it is.
pub proof fn law_answer_keeps<T>(r: Result<T, DbErrorView>)
    ensures
        r is Ok ==> answer(r) == Ok::<T, ApiErrorView>(r->Ok_0),
        r is Err ==> answer(r) is Err && answer(r)->Err_0.message == r->Err_0.text(),
{
}

/// A release with a fault is answered with 400 and changes nothing. One without is stored.
pub proof fn law_faulty_release_refused(
    t: TablesView,
    req: CreateReleaseRequestView,
    id: Seq<char>,
    now: Timestamp,
)
    ensures
        release_fault(req) is Some ==> {
            let (after, outcome) = release_requested(t, req, id, now);
            &&& after == t
            &&& outcome is Err
            &&& outcome->Err_0.kind.status() == 400
        },
        release_fault(req) is None && (forall|i: int|
            0 <= i < t.releases.len() ==> (#[trigger] t.releases[i]).id != id) ==> {
            let (after, outcome) = release_requested(t, req, id, now);
            &&& outcome is Ok
            &&& outcome->Ok_0.id == id
            &&& outcome->Ok_0.version == req.version
            &&& outcome->Ok_0.manifest == req.manifest
            &&& after.releases.len() == t.releases.len() + 1
        },
{
    crate::db::tables::lemma_release_row(t.releases, id);
}

/// What telling an agent its commands does to the rows of the commands: each that is told is
/// running since the time that belongs to it, with its other fields as they were, and each that is
/// not stays. All other rows stay.
pub proof fn law_told_commands_run(
    t: TablesView,
    commands: Seq<CommandRecordView>,
    times: Seq<Timestamp>,
)
    requires
        forall|a: int, b: int|
            0 <= a < b < commands.len() ==> (#[trigger] commands[a]).id != (
            #[trigger] commands[b]).id,
    ensures
        ({
            let after = all_running(t, commands, times);
            &&& after.commands.len() == t.commands.len()
            &&& after.deployments == t.deployments
            &&& after.targets == t.targets
            &&& after.assets == t.assets
            &&& after.releases == t.releases
            &&& after.labels == t.labels
            &&& after.results == t.results
            &&& forall|i: int|
                0 <= i < t.commands.len() ==> {
                    let was = t.commands[i];
                    let is = #[trigger] after.commands[i];
                    &&& is.id == was.id
                    &&& is.deployment_id == was.deployment_id
                    &&& is.release_id == was.release_id
                    &&& is.asset_id == was.asset_id
                    &&& is.command_type == was.command_type
                    &&& is.created_at == was.created_at
                    &&& (forall|k: int|
                        0 <= k < commands.len() ==> (#[trigger] commands[k]).id != was.id) ==> is
                        == was
                }
            &&& forall|i: int, k: int|
                0 <= i < t.commands.len() && 0 <= k < commands.len() && (
                #[trigger] commands[k]).id == t.commands[i].id ==> {
                    let is = #[trigger] after.commands[i];
                    &&& is.status == "running"@
                    &&& is.updated_at == rfc3339_text(times[k].secs, times[k].nanos)
                }
        }),
    decreases commands.len(),
{
    if commands.len() > 0 {
        let before = commands.drop_last();
        let last = commands.last();
        let at = times[commands.len() - 1];
        let earlier = all_running(t, before, times);
        assert forall|a: int, b: int| 0 <= a < b < before.len() implies (#[trigger] before[a]).id
            != (#[trigger] before[b]).id by {
            assert(commands[a].id != commands[b].id);
        }
        law_told_commands_run(t, before, times);
        law_running_by_fields(earlier, last.id, at);
        let after = all_running(t, commands, times);
        assert(after == running(earlier, last.id, at));
        assert forall|i: int| 0 <= i < t.commands.len() implies {
            let was = t.commands[i];
            let is = #[trigger] after.commands[i];
            &&& is.id == was.id
            &&& is.deployment_id == was.deployment_id
            &&& is.release_id == was.release_id
            &&& is.asset_id == was.asset_id
            &&& is.command_type == was.command_type
            &&& is.created_at == was.created_at
            &&& (forall|k: int| 0 <= k < commands.len() ==> (#[trigger] commands[k]).id != was.id)
                ==> is == was
        } by {
            let step = earlier.commands[i];
            let was = t.commands[i];
            if forall|k: int| 0 <= k < commands.len() ==> (#[trigger] commands[k]).id != was.id {
                assert forall|k: int| 0 <= k < before.len() implies (#[trigger] before[k]).id
                    != was.id by {
                    assert(before[k] == commands[k]);
                }
                assert(commands[commands.len() - 1].id != was.id);
            }
        }
        assert forall|i: int, k: int|
            0 <= i < t.commands.len() && 0 <= k < commands.len() && (#[trigger] commands[k]).id
                == t.commands[i].id implies {
            let is = #[trigger] after.commands[i];
            &&& is.status == "running"@
            &&& is.updated_at == rfc3339_text(times[k].secs, times[k].nanos)
        } by {
            let step = earlier.commands[i];
            assert(after.commands[i].id == t.commands[i].id);
            if k < commands.len() - 1 {
                assert(before[k] == commands[k]);
                assert(commands[k].id != commands[commands.len() - 1].id);
            }
        }
    }
}

/// A stored row whose state is not known is answered as a fault of the request, or as something
/// that was not found where the text of the state says so, and the answer ends in that text.
pub proof fn law_unknown_state_is_answered(kind: StatusKind, raw: Seq<char>)
    ensures
        ({
            let said = refusal(DbErrorView::Conversion(kind.complaint() + raw));
            &&& said.kind is Invalid || said.kind is NotFound
            &&& said.kind is NotFound <==> has_text(said.message, "not found"@)
            &&& raw.len() <= said.message.len()
            &&& said.message.skip(said.message.len() - raw.len()) == raw
        }),
{
    let said = refusal(DbErrorView::Conversion(kind.complaint() + raw));
    let start = "Conversion error from type Text at index: 0, "@;
    reveal_strlit("unknown ");
    reveal_strlit("unknown deployment status: ");
    reveal_strlit("unknown deployment target state: ");
    reveal_strlit("unknown asset status: ");
    assert(said.message == start + (kind.complaint() + raw));
    assert(kind.complaint().take(8) =~= "unknown "@);
    let at = start.len() as int;
    assert(said.message.subrange(at, at + 8) =~= kind.complaint().take(8));
    assert(occurs_at(said.message, "unknown "@, at));
    assert(said.message.skip(said.message.len() - raw.len()) =~= raw);
}

} // verus!
