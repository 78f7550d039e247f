use noda::api::{
    abort_deployment, agent_checkin, agent_poll, agent_poll_as, agent_result, create_deployment,
    create_release, create_release_as, get_asset, get_deployment, get_release, healthz,
    list_assets, list_deployment_targets, list_deployments, list_releases, map_db_error,
    pause_deployment, refuse, ApiErrorKind,
};
use noda::clock::Timestamp;
use noda::db::commands::Ticket;
use noda::db::error::{DbError, UniqueKey};
use noda::db::tables::Tables;
use noda::db::writes::Database;
use noda::text_map::TextMap;
use noda::types::{
    AgentCheckinRequest, AgentPollRequest, AgentResultRequest, CommandStatus,
    CreateDeploymentRequest, CreateReleaseRequest, DeploymentStatus, DeploymentTargetState,
    ExecutorSpec, FailureRate, PauseDeploymentRequest, ReleaseManifest, RollbackPolicy,
    RolloutStrategy, Selector, ValidationSpec,
};

fn empty() -> Database {
    Database::load(Tables {
        releases: Vec::new(),
        assets: Vec::new(),
        labels: Vec::new(),
        deployments: Vec::new(),
        targets: Vec::new(),
        commands: Vec::new(),
        results: Vec::new(),
    })
}

fn release(version: &str) -> CreateReleaseRequest {
    CreateReleaseRequest {
        version: version.to_string(),
        manifest: ReleaseManifest {
            target_type: "edge-linux-x86".to_string(),
            executor: ExecutorSpec::Noop,
            validation: ValidationSpec {
                expected_hostname: None,
                expected_system_path: None,
                timeout_seconds: 900,
                health_checks: Vec::new(),
            },
            rollback: RollbackPolicy::default(),
            labels: TextMap::new(),
        },
    }
}

fn deployment(release_id: &str) -> CreateDeploymentRequest {
    CreateDeploymentRequest {
        release_id: release_id.to_string(),
        rollout_name: "lab".to_string(),
        selector: Selector {
            target_type: "edge-linux-x86".to_string(),
            labels: TextMap::new(),
            mission_states: Vec::new(),
        },
        strategy: RolloutStrategy {
            canary: 0,
            batch_size: 10,
            max_parallel: 5,
            max_failure_rate: FailureRate { bits: 0.1f64.to_bits() },
            require_idle: false,
        },
    }
}

fn checkin(id: &str) -> AgentCheckinRequest {
    AgentCheckinRequest {
        asset_id: id.to_string(),
        asset_type: "edge-linux-x86".to_string(),
        mission_state: "idle".to_string(),
        labels: vec!["region=lab".to_string()],
        current_version: None,
        active_slot: None,
        status: None,
    }
}

fn ask(id: &str) -> AgentPollRequest {
    AgentPollRequest { asset_id: id.to_string() }
}

#[test]
fn refusals_have_codes() {
    assert_eq!(ApiErrorKind::Invalid.status_code(), 400);
    assert_eq!(ApiErrorKind::NotFound.status_code(), 404);
    assert_eq!(ApiErrorKind::Internal.status_code(), 500);
    assert_eq!(ApiErrorKind::Invalid.code(), "invalid_request");
    assert_eq!(ApiErrorKind::NotFound.code(), "not_found");
    assert_eq!(ApiErrorKind::Internal.code(), "internal_error");
}

#[test]
fn errors_are_told_apart_by_their_message() {
    let kind = |e: DbError| map_db_error(e).kind;
    assert_eq!(kind(DbError::ReleaseNotFound("x".to_string())), ApiErrorKind::NotFound);
    assert_eq!(kind(DbError::AssetNotFound("invalid".to_string())), ApiErrorKind::NotFound);
    assert_eq!(kind(DbError::DeploymentNotFound("".to_string())), ApiErrorKind::NotFound);
    assert_eq!(kind(DbError::TargetTypeMismatch), ApiErrorKind::Invalid);
    assert_eq!(kind(DbError::ForeignKey), ApiErrorKind::Internal);
    assert_eq!(kind(DbError::Unique(UniqueKey::Release)), ApiErrorKind::Internal);
    assert_eq!(kind(DbError::Unique(UniqueKey::AssetLabel)), ApiErrorKind::Internal);
    assert_eq!(kind(DbError::Unique(UniqueKey::Target)), ApiErrorKind::Internal);
    let read = |reason: &str| kind(DbError::Conversion(reason.to_string()));
    assert_eq!(read("unknown asset status: lost"), ApiErrorKind::Invalid);
    assert_eq!(read("input contains invalid characters"), ApiErrorKind::Invalid);
    assert_eq!(read("it must not be"), ApiErrorKind::Invalid);
    assert_eq!(read("it requires more"), ApiErrorKind::Invalid);
    assert_eq!(read("premature end of input"), ApiErrorKind::Internal);
    assert_eq!(read("unknown key not found"), ApiErrorKind::NotFound);
    let refusal = refuse("disk I/O error".to_string());
    assert_eq!(refusal.kind, ApiErrorKind::Internal);
    assert_eq!(refusal.message, "disk I/O error");
}

#[test]
fn a_release_with_a_fault_is_refused() {
    let mut db = empty();
    let e = create_release(&mut db, release("")).unwrap_err();
    assert_eq!(e.kind, ApiErrorKind::Invalid);
    assert_eq!(e.message, "release version must not be empty");
    assert!(db.writes().is_empty());
    let at = Timestamp { secs: 5, nanos: 0 };
    let made = create_release_as(&mut db, release("1"), "r".to_string(), at).unwrap();
    assert_eq!(made.id, "r");
    assert_eq!(list_releases(&db).unwrap().len(), 1);
    assert_eq!(get_release(&db, "r").unwrap().version, "1");
    let e = get_release(&db, "s").unwrap_err();
    assert_eq!(e.kind, ApiErrorKind::NotFound);
    assert_eq!(e.message, "release not found: s");
}

#[test]
fn a_mismatched_deployment_is_refused() {
    let mut db = empty();
    let made = create_release(&mut db, release("1")).unwrap();
    let mut req = deployment(&made.id);
    req.selector.target_type = "other".to_string();
    let e = create_deployment(&mut db, req).unwrap_err();
    assert_eq!(e.kind.code(), "invalid_request");
    assert_eq!(e.message, "release target_type and selector target_type mismatch");
}

#[test]
fn a_rollout_from_end_to_end() {
    let mut db = empty();
    assert_eq!(healthz(), "ok");
    let made = create_release(&mut db, release("1.0.0")).unwrap();
    let asset = agent_checkin(&mut db, checkin("node-01")).unwrap();
    assert_eq!(asset.labels, vec!["region=lab"]);
    assert_eq!(list_assets(&db).unwrap().len(), 1);
    let rollout = create_deployment(&mut db, deployment(&made.id)).unwrap();
    assert_eq!(list_deployments(&db).unwrap().len(), 1);
    let response = agent_poll(&mut db, ask("node-01"), &Vec::new()).unwrap();
    assert_eq!(response.commands.len(), 1);
    assert_eq!(response.commands[0].status, CommandStatus::Queued);
    assert_eq!(db.tables().commands[0].status, "running");
    assert!(agent_poll(&mut db, ask("node-01"), &Vec::new()).unwrap().commands.is_empty());
    let targets = list_deployment_targets(&db, &rollout.id).unwrap();
    assert_eq!(targets[0].state, DeploymentTargetState::Issued);
    let done = agent_result(
        &mut db,
        AgentResultRequest {
            command_id: response.commands[0].id.clone(),
            asset_id: "node-01".to_string(),
            success: true,
            message: "installed 1.0.0".to_string(),
            active_slot: Some("B".to_string()),
            booted_version: Some("1.0.0".to_string()),
        },
    )
    .unwrap();
    assert_eq!(done.message, "recorded");
    let targets = list_deployment_targets(&db, &rollout.id).unwrap();
    assert_eq!(targets[0].state, DeploymentTargetState::Succeeded);
    assert_eq!(get_asset(&db, "node-01").unwrap().current_version.as_deref(), Some("1.0.0"));
}

#[test]
fn deployments_are_paused_resumed_and_aborted() {
    let mut db = empty();
    let made = create_release(&mut db, release("1.0.0")).unwrap();
    let rollout = create_deployment(&mut db, deployment(&made.id)).unwrap();
    let paused =
        pause_deployment(&mut db, &rollout.id, PauseDeploymentRequest { paused: true }).unwrap();
    assert_eq!(paused.message, "paused");
    assert_eq!(get_deployment(&db, &rollout.id).unwrap().status, DeploymentStatus::Paused);
    let resumed =
        pause_deployment(&mut db, &rollout.id, PauseDeploymentRequest { paused: false }).unwrap();
    assert_eq!(resumed.message, "resumed");
    assert_eq!(get_deployment(&db, &rollout.id).unwrap().status, DeploymentStatus::Active);
    assert_eq!(abort_deployment(&mut db, &rollout.id).unwrap().message, "aborted");
    assert_eq!(get_deployment(&db, &rollout.id).unwrap().status, DeploymentStatus::Aborted);
    let e = get_deployment(&db, "x").unwrap_err();
    assert_eq!(e.message, "deployment not found: x");
}

#[test]
fn unknown_agents_and_commands_are_refused() {
    let mut db = empty();
    let e = agent_poll(&mut db, ask("node-01"), &Vec::new()).unwrap_err();
    assert_eq!(e.kind, ApiErrorKind::NotFound);
    let e = agent_result(
        &mut db,
        AgentResultRequest {
            command_id: "c".to_string(),
            asset_id: "node-01".to_string(),
            success: true,
            message: "m".to_string(),
            active_slot: None,
            booted_version: None,
        },
    )
    .unwrap_err();
    assert_eq!(e.kind, ApiErrorKind::Internal);
    assert_eq!(e.message, "FOREIGN KEY constraint failed");
    let mut twice = checkin("node-01");
    twice.labels.push("region=lab".to_string());
    let e = agent_checkin(&mut db, twice).unwrap_err();
    assert_eq!(e.kind, ApiErrorKind::Internal);
}

#[test]
fn commands_begin_to_run_at_the_given_times() {
    let mut db = empty();
    let made = create_release(&mut db, release("1.0.0")).unwrap();
    agent_checkin(&mut db, checkin("node-01")).unwrap();
    create_deployment(&mut db, deployment(&made.id)).unwrap();
    let tickets = vec![Ticket { id: "c".to_string(), at: Timestamp { secs: 0, nanos: 0 } }];
    let times = vec![Timestamp { secs: 60, nanos: 0 }];
    let got = agent_poll_as(&mut db, ask("node-01"), &Vec::new(), &tickets, &times).unwrap();
    assert_eq!(got.commands[0].id, "c");
    assert_eq!(db.tables().commands[0].created_at, "1970-01-01T00:00:00+00:00");
    assert_eq!(db.tables().commands[0].updated_at, "1970-01-01T00:01:00+00:00");
}

#[test]
fn an_agent_that_asks_again_gets_nothing() {
    let mut db = empty();
    let made = create_release(&mut db, release("1.0.0")).unwrap();
    agent_checkin(&mut db, checkin("node-01")).unwrap();
    create_deployment(&mut db, deployment(&made.id)).unwrap();
    assert_eq!(agent_poll(&mut db, ask("node-01"), &Vec::new()).unwrap().commands.len(), 1);
    let before = format!("{:?}", db.tables());
    assert!(agent_poll(&mut db, ask("node-01"), &Vec::new()).unwrap().commands.is_empty());
    assert_eq!(format!("{:?}", db.tables()), before);
}
