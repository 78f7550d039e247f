use noda::clock::{Timestamp, FIRST_SECOND, FOUR_DIGIT_END, FOUR_DIGIT_START, LAST_SECOND};
use noda::db::assets::{get_asset, list_assets, map_asset, upsert_asset, upsert_asset_as};
use noda::db::commands::{
    mark_command_running, mark_command_running_as, poll_commands, poll_commands_as,
    submit_command_result, submit_command_result_as, Ticket,
};
use noda::db::deployments::{
    abort_deployment, create_deployment, create_deployment_as, deployment_stats, get_deployment,
    list_deployment_targets, list_deployments, map_deployment, map_target,
    select_assets_for_deployment, set_deployment_paused, DeploymentStats,
};
use noda::db::error::{DbError, UniqueKey};
use noda::db::order::arrange;
use noda::db::releases::{
    get_release, insert_release, insert_release_as, list_releases, map_release,
};
use noda::db::shared::{get_asset_labels, parse_ts};
use noda::db::tables::{AssetLabelRow, AssetRow, CommandRow, Tables, TargetRow};
use noda::db::writes::{Database, Write};
use noda::text_map::TextMap;
use noda::types::{
    AgentCheckinRequest, AgentResultRequest, AssetStatus, CommandStatus, CreateDeploymentRequest,
    CreateReleaseRequest, DeploymentStatus, DeploymentTargetState, ExecutorSpec, FailureRate,
    ReleaseManifest, RollbackPolicy, RolloutStrategy, Selector, ValidationSpec,
};

fn empty_tables() -> Tables {
    Tables {
        releases: Vec::new(),
        assets: Vec::new(),
        labels: Vec::new(),
        deployments: Vec::new(),
        targets: Vec::new(),
        commands: Vec::new(),
        results: Vec::new(),
    }
}

fn at(secs: i64) -> Timestamp {
    Timestamp { secs, nanos: 0 }
}

fn request(version: &str) -> CreateReleaseRequest {
    CreateReleaseRequest {
        version: version.to_string(),
        manifest: ReleaseManifest {
            target_type: "edge-linux-x86".to_string(),
            executor: ExecutorSpec::Noop,
            validation: ValidationSpec {
                expected_hostname: None,
                expected_system_path: None,
                timeout_seconds: 900,
                health_checks: Vec::new(),
            },
            rollback: RollbackPolicy::default(),
            labels: TextMap::new(),
        },
    }
}

fn asset(id: &str, mission_state: &str, labels: &[&str]) -> AgentCheckinRequest {
    AgentCheckinRequest {
        asset_id: id.to_string(),
        asset_type: "edge-linux-x86".to_string(),
        mission_state: mission_state.to_string(),
        labels: labels.iter().map(|l| l.to_string()).collect(),
        current_version: None,
        active_slot: None,
        status: None,
    }
}

fn selector(labels: &[(&str, &str)], states: &[&str]) -> Selector {
    let mut map = TextMap::new();
    for (k, v) in labels {
        map.insert(k.to_string(), v.to_string());
    }
    Selector {
        target_type: "edge-linux-x86".to_string(),
        labels: map,
        mission_states: states.iter().map(|s| s.to_string()).collect(),
    }
}

fn strategy(canary: usize, max_parallel: usize) -> RolloutStrategy {
    RolloutStrategy {
        canary,
        batch_size: 10,
        max_parallel,
        max_failure_rate: FailureRate { bits: 0.1f64.to_bits() },
        require_idle: false,
    }
}

fn deployment(release_id: &str, strategy: RolloutStrategy) -> CreateDeploymentRequest {
    CreateDeploymentRequest {
        release_id: release_id.to_string(),
        rollout_name: "lab".to_string(),
        selector: selector(&[], &[]),
        strategy,
    }
}

fn tickets(prefix: &str, n: usize, secs: i64) -> Vec<Ticket> {
    (0..n).map(|k| Ticket { id: format!("{prefix}-{k}"), at: at(secs) }).collect()
}

fn fleet(ids: &[&str], strategy: RolloutStrategy) -> Database {
    let mut db = Database::load(empty_tables());
    insert_release_as(&mut db, request("1.0.0"), "r".to_string(), at(1_000)).unwrap();
    for (k, id) in ids.iter().enumerate() {
        upsert_asset_as(&mut db, asset(id, "idle", &[]), at(2_000 + k as i64)).unwrap();
    }
    create_deployment_as(&mut db, deployment("r", strategy), "d".to_string(), at(3_000)).unwrap();
    db
}

fn poll(db: &mut Database, id: &str, over: &[&str], ticket: &str) -> Vec<String> {
    let over: Vec<String> = over.iter().map(|o| o.to_string()).collect();
    let n = db.tables().deployments.len();
    poll_commands_as(db, id, &over, &tickets(ticket, n, 4_000))
        .unwrap()
        .iter()
        .map(|c| c.id.clone())
        .collect()
}

fn result(command: &str, success: bool) -> AgentResultRequest {
    AgentResultRequest {
        command_id: command.to_string(),
        asset_id: "unused".to_string(),
        success,
        message: if success { "fine".to_string() } else { "broken".to_string() },
        active_slot: Some("B".to_string()),
        booted_version: Some("1.0.0".to_string()),
    }
}

fn state_of(db: &Database, id: &str) -> DeploymentTargetState {
    list_deployment_targets(db, "d").unwrap().iter().find(|t| t.asset_id == id).unwrap().state
}

#[test]
fn the_calendar_is_that_of_chrono() {
    assert_eq!(FIRST_SECOND, chrono::DateTime::<chrono::Utc>::MIN_UTC.timestamp());
    assert_eq!(LAST_SECOND, chrono::DateTime::<chrono::Utc>::MAX_UTC.timestamp());
    let start = chrono::DateTime::parse_from_rfc3339("0000-01-01T00:00:00Z").unwrap();
    let end = chrono::DateTime::parse_from_rfc3339("9999-12-31T23:59:59Z").unwrap();
    assert_eq!(FOUR_DIGIT_START, start.timestamp());
    assert_eq!(FOUR_DIGIT_END, end.timestamp());
}

#[test]
fn instants_are_written_and_read_back() {
    for (secs, nanos) in [
        (0, 0),
        (1_700_000_000, 123_456_789),
        (FOUR_DIGIT_START, 0),
        (FOUR_DIGIT_END, 999_999_999),
        (1_700_000_000, 1_000),
    ] {
        let now = Timestamp { secs, nanos };
        let mut db = Database::load(empty_tables());
        insert_release_as(&mut db, request("1"), "r".to_string(), now).unwrap();
        assert_eq!(get_release(&db, "r").unwrap().created_at, now);
    }
    let mut db = Database::load(empty_tables());
    insert_release_as(&mut db, request("1"), "r".to_string(), at(1_700_000_000)).unwrap();
    assert_eq!(db.tables().releases[0].created_at, "2023-11-14T22:13:20+00:00");
    let mut db = Database::load(empty_tables());
    insert_release_as(&mut db, request("1"), "r".to_string(), at(FOUR_DIGIT_END + 1)).unwrap();
    assert!(matches!(get_release(&db, "r"), Err(DbError::ReleaseNotFound(_))));
}

#[test]
fn stored_texts_name_instants() {
    assert_eq!(parse_ts("1970-01-01T01:00:00.5+01:00").unwrap(), Timestamp {
        secs: 0,
        nanos: 500_000_000
    });
    let complaint = parse_ts("yesterday").unwrap_err();
    assert_eq!(
        complaint,
        chrono::DateTime::parse_from_rfc3339("yesterday").unwrap_err().to_string()
    );
}

#[test]
fn rows_are_listed_in_order() {
    let keys: Vec<String> = ["b", "a", "c", "a"].iter().map(|k| k.to_string()).collect();
    assert_eq!(arrange(&keys, false), vec![1, 3, 0, 2]);
    assert_eq!(arrange(&keys, true), vec![2, 0, 1, 3]);
}

#[test]
fn a_stored_release_is_found_again() {
    let mut db = Database::load(empty_tables());
    let stored = insert_release_as(&mut db, request("1"), "r1".to_string(), at(10)).unwrap();
    insert_release_as(&mut db, request("2"), "r2".to_string(), at(20)).unwrap();
    let found = get_release(&db, "r1").unwrap();
    assert_eq!(found.id, stored.id);
    assert_eq!(found.version, "1");
    assert_eq!(found.target_type, "edge-linux-x86");
    assert_eq!(found.created_at, at(10));
    let all = list_releases(&db).unwrap();
    assert_eq!(all.iter().map(|r| r.id.as_str()).collect::<Vec<_>>(), vec!["r2", "r1"]);
    let again = insert_release_as(&mut db, request("3"), "r1".to_string(), at(30)).unwrap_err();
    assert!(matches!(again, DbError::Unique(UniqueKey::Release)));
    assert_eq!(get_release(&db, "nowhere").unwrap_err().message(), "release not found: nowhere");
}

#[test]
fn new_identifiers_are_random_uuids() {
    let mut db = Database::load(empty_tables());
    let one = insert_release(&mut db, request("1")).unwrap();
    let two = insert_release(&mut db, request("1")).unwrap();
    assert_ne!(one.id, two.id);
    let parsed = uuid::Uuid::parse_str(&one.id).unwrap();
    assert_eq!(parsed.get_version_num(), 4);
    assert_eq!(parsed.to_string(), one.id);
    let now = chrono::Utc::now().timestamp();
    assert!((now - one.created_at.secs).abs() < 60);
}

#[test]
fn a_release_that_cannot_be_read_is_complained_of() {
    let mut db = Database::load(empty_tables());
    insert_release_as(&mut db, request("1"), "r".to_string(), at(10)).unwrap();
    let mut tables = empty_tables();
    tables.releases.push(noda::db::tables::ReleaseRow {
        id: "r".to_string(),
        version: "1".to_string(),
        target_type: "t".to_string(),
        manifest: Err("expected value at line 1 column 1".to_string()),
        created_at: "2023-11-14T22:13:20+00:00".to_string(),
    });
    let db = Database::load(tables);
    assert_eq!(
        list_releases(&db).unwrap_err().message(),
        "Conversion error from type Text at index: 0, expected value at line 1 column 1"
    );
    assert_eq!(get_release(&db, "r").unwrap_err().message(), "release not found: r");
}

#[test]
fn rows_are_read_with_their_times() {
    let db = fleet(&["a"], strategy(0, 1));
    let tables = db.tables();
    let lost = || Err("no time".to_string());
    let release = map_release(&tables.releases[0], Ok(at(7))).unwrap();
    assert_eq!(release.created_at, at(7));
    assert_eq!(map_release(&tables.releases[0], lost()).unwrap_err(), "no time");
    let asset = map_asset(&tables.assets[0], &tables.labels, Ok(at(7))).unwrap();
    assert_eq!((asset.asset_id.as_str(), asset.last_seen), ("a", at(7)));
    assert_eq!(map_asset(&tables.assets[0], &tables.labels, lost()).unwrap_err(), "no time");
    let deployment = map_deployment(&tables.deployments[0], Ok(at(7))).unwrap();
    assert_eq!(deployment.status, DeploymentStatus::Active);
    assert_eq!(map_deployment(&tables.deployments[0], lost()).unwrap_err(), "no time");
    let target = map_target(&tables.targets[0], Ok(at(7))).unwrap();
    assert_eq!(target.state, DeploymentTargetState::Pending);
    assert_eq!(map_target(&tables.targets[0], lost()).unwrap_err(), "no time");
}

#[test]
fn an_asset_is_answered_as_it_says_it_is() {
    let mut db = Database::load(empty_tables());
    let first =
        upsert_asset_as(&mut db, asset("n", "idle", &["b=2", "a=1"]), at(10)).unwrap();
    assert_eq!(first.labels, vec!["a=1", "b=2"]);
    assert_eq!(first.status, AssetStatus::Online);
    assert_eq!(first.current_version, None);
    assert_eq!(first.last_seen, at(10));
    let mut req = asset("n", "busy", &["c=3"]);
    req.current_version = Some("1".to_string());
    req.active_slot = Some("A".to_string());
    req.status = Some(AssetStatus::Offline);
    upsert_asset_as(&mut db, req, at(20)).unwrap();
    let third = upsert_asset_as(&mut db, asset("n", "busy", &[]), at(30)).unwrap();
    assert_eq!(third.current_version.as_deref(), Some("1"));
    assert_eq!(third.active_slot.as_deref(), Some("A"));
    assert_eq!(third.status, AssetStatus::Online);
    assert!(third.labels.is_empty());
    assert_eq!(third.mission_state, "busy");
    assert_eq!(list_assets(&db).unwrap().len(), 1);
}

#[test]
fn a_label_said_twice_is_refused() {
    let mut db = Database::load(empty_tables());
    let e = upsert_asset_as(&mut db, asset("n", "idle", &["a=1", "b=2", "a=1"]), at(10))
        .unwrap_err();
    assert_eq!(
        e.message(),
        "UNIQUE constraint failed: asset_labels.asset_id, asset_labels.label"
    );
    assert_eq!(get_asset(&db, "n").unwrap().labels, vec!["a=1", "b=2"]);
}

#[test]
fn assets_are_listed_by_when_they_were_seen() {
    let mut db = Database::load(empty_tables());
    for (id, secs) in [("a", 10), ("b", 30), ("c", 20)] {
        upsert_asset_as(&mut db, asset(id, "idle", &[]), at(secs)).unwrap();
    }
    let ids: Vec<String> =
        list_assets(&db).unwrap().iter().map(|a| a.asset_id.clone()).collect();
    assert_eq!(ids, vec!["b", "c", "a"]);
    assert_eq!(get_asset(&db, "z").unwrap_err().message(), "asset not found: z");
}

#[test]
fn an_asset_in_an_unknown_state_is_complained_of() {
    let mut tables = empty_tables();
    tables.assets.push(AssetRow {
        asset_id: "n".to_string(),
        asset_type: "t".to_string(),
        mission_state: "idle".to_string(),
        current_version: None,
        desired_version: None,
        active_slot: None,
        status: "lost".to_string(),
        last_seen: "never".to_string(),
    });
    let db = Database::load(tables);
    assert_eq!(
        list_assets(&db).unwrap_err().message(),
        "Conversion error from type Text at index: 0, unknown asset status: lost"
    );
    assert_eq!(get_asset(&db, "n").unwrap_err().message(), "asset not found: n");
}

#[test]
fn labels_are_listed_in_order() {
    let row = |asset: &str, label: &str| AssetLabelRow {
        asset_id: asset.to_string(),
        label: label.to_string(),
    };
    let rows = vec![row("n", "z"), row("m", "a"), row("n", "b")];
    assert_eq!(get_asset_labels(&rows, "n"), vec!["b", "z"]);
    assert!(get_asset_labels(&rows, "x").is_empty());
}

#[test]
fn selectors_choose_assets() {
    let mut db = Database::load(empty_tables());
    upsert_asset_as(&mut db, asset("a", "idle", &["region=lab", "row=1"]), at(1)).unwrap();
    upsert_asset_as(&mut db, asset("b", "busy", &["region=lab"]), at(2)).unwrap();
    upsert_asset_as(&mut db, asset("c", "idle", &["region=field"]), at(3)).unwrap();
    let mut other = asset("d", "idle", &["region=lab"]);
    other.asset_type = "other".to_string();
    upsert_asset_as(&mut db, other, at(4)).unwrap();
    let ids = |s: Selector, idle: bool| -> Vec<String> {
        select_assets_for_deployment(&db, &s, idle)
            .unwrap()
            .iter()
            .map(|a| a.asset_id.clone())
            .collect()
    };
    assert_eq!(ids(selector(&[], &[]), false), vec!["c", "b", "a"]);
    assert_eq!(ids(selector(&[("region", "lab")], &[]), false), vec!["b", "a"]);
    assert_eq!(ids(selector(&[("region", "lab"), ("row", "1")], &[]), false), vec!["a"]);
    assert_eq!(ids(selector(&[], &["busy"]), false), vec!["b"]);
    assert_eq!(ids(selector(&[], &["busy", "idle"]), true), vec!["c", "a"]);
    assert_eq!(ids(selector(&[("region", "lab")], &["busy"]), true), Vec::<String>::new());
}

#[test]
fn a_deployment_gets_the_assets_that_it_selects_as_targets() {
    let mut db = Database::load(empty_tables());
    insert_release_as(&mut db, request("1.0.0"), "r".to_string(), at(1)).unwrap();
    upsert_asset_as(&mut db, asset("a", "idle", &["region=lab"]), at(2)).unwrap();
    upsert_asset_as(&mut db, asset("b", "idle", &[]), at(3)).unwrap();
    let mut req = deployment("r", strategy(0, 5));
    req.selector = selector(&[("region", "lab")], &[]);
    let made = create_deployment_as(&mut db, req, "d".to_string(), at(4)).unwrap();
    assert_eq!(made.status, DeploymentStatus::Active);
    assert_eq!(made.created_at, at(4));
    assert_eq!(made.strategy.max_parallel, 5);
    let targets = list_deployment_targets(&db, "d").unwrap();
    assert_eq!(targets.len(), 1);
    assert_eq!(targets[0].asset_id, "a");
    assert_eq!(targets[0].state, DeploymentTargetState::Pending);
    assert_eq!(get_asset(&db, "a").unwrap().desired_version.as_deref(), Some("1.0.0"));
    assert_eq!(get_asset(&db, "b").unwrap().desired_version, None);
    assert_eq!(list_deployments(&db).unwrap().len(), 1);
    assert_eq!(get_deployment(&db, "d").unwrap().rollout_name, "lab");
}

#[test]
fn deployments_that_cannot_be_created() {
    let mut db = Database::load(empty_tables());
    let e = create_deployment(&mut db, deployment("r", strategy(0, 1))).unwrap_err();
    assert_eq!(e.message(), "release not found: r");
    insert_release_as(&mut db, request("1.0.0"), "r".to_string(), at(1)).unwrap();
    let mut req = deployment("r", strategy(0, 1));
    req.selector.target_type = "other".to_string();
    let e = create_deployment(&mut db, req).unwrap_err();
    assert_eq!(e.message(), "release target_type and selector target_type mismatch");
    assert!(db.tables().deployments.is_empty());
    create_deployment_as(&mut db, deployment("r", strategy(0, 1)), "d".to_string(), at(2))
        .unwrap();
    let e = create_deployment_as(&mut db, deployment("r", strategy(0, 1)), "d".to_string(), at(3))
        .unwrap_err();
    assert_eq!(e.message(), "UNIQUE constraint failed: deployments.id");
    assert_eq!(get_deployment(&db, "x").unwrap_err().message(), "deployment not found: x");
}

#[test]
fn a_command_is_handed_out_once() {
    let mut db = fleet(&["node-01"], strategy(0, 1));
    assert_eq!(poll(&mut db, "node-01", &[], "t"), vec!["t-0"]);
    assert_eq!(state_of(&db, "node-01"), DeploymentTargetState::Issued);
    assert!(poll(&mut db, "node-01", &[], "u").is_empty());
    let row = &db.tables().commands[0];
    assert_eq!(row.command_type, "install_release");
    assert_eq!(row.status, "queued");
    assert_eq!(row.release_id, "r");
    let e = poll_commands(&mut db, "stranger", &Vec::new()).unwrap_err();
    assert_eq!(e.message(), "asset not found: stranger");
}

#[test]
fn an_asset_that_is_no_target_gets_nothing() {
    let mut db = fleet(&["node-01"], strategy(0, 1));
    upsert_asset_as(&mut db, asset("late", "idle", &[]), at(5_000)).unwrap();
    assert!(poll(&mut db, "late", &[], "t").is_empty());
}

#[test]
fn commands_carry_their_release() {
    let mut db = fleet(&["node-01"], strategy(0, 1));
    let got = poll_commands(&mut db, "node-01", &Vec::new()).unwrap();
    assert_eq!(got.len(), 1);
    assert_eq!(got[0].release_version, "1.0.0");
    assert_eq!(got[0].status, CommandStatus::Queued);
    assert_eq!(got[0].deployment_id, "d");
    assert_eq!(got[0].asset_id, "node-01");
    assert_eq!(got[0].manifest.target_type, "edge-linux-x86");
    assert_eq!(uuid::Uuid::parse_str(&got[0].id).unwrap().get_version_num(), 4);
}

#[test]
fn no_more_commands_are_under_way_than_allowed() {
    let mut db = fleet(&["node-01", "node-02", "node-03"], strategy(0, 2));
    assert_eq!(poll(&mut db, "node-01", &[], "a").len(), 1);
    assert_eq!(poll(&mut db, "node-02", &[], "b").len(), 1);
    assert!(poll(&mut db, "node-03", &[], "c").is_empty());
    mark_command_running_as(&mut db, "a-0", at(4_500)).unwrap();
    assert!(poll(&mut db, "node-03", &[], "c").is_empty());
    submit_command_result_as(&mut db, result("a-0", true), at(5_000)).unwrap();
    assert_eq!(poll(&mut db, "node-03", &[], "c").len(), 1);
}

#[test]
fn canaries_come_first() {
    let mut db = fleet(&["node-03", "node-01", "node-02"], strategy(1, 3));
    assert!(poll(&mut db, "node-02", &[], "x").is_empty());
    assert!(poll(&mut db, "node-03", &[], "x").is_empty());
    assert_eq!(poll(&mut db, "node-01", &[], "a").len(), 1);
    assert!(poll(&mut db, "node-02", &[], "x").is_empty());
    submit_command_result_as(&mut db, result("a-0", true), at(5_000)).unwrap();
    assert_eq!(poll(&mut db, "node-02", &[], "b").len(), 1);
    assert_eq!(poll(&mut db, "node-03", &[], "c").len(), 1);
}

#[test]
fn more_canaries_than_targets_hold_no_one_back() {
    let mut db = fleet(&["node-01", "node-02"], strategy(7, 3));
    assert_eq!(poll(&mut db, "node-02", &[], "a").len(), 1);
    assert_eq!(poll(&mut db, "node-01", &[], "b").len(), 1);
}

#[test]
fn a_deployment_over_its_limit_is_aborted() {
    let mut db = fleet(&["node-01", "node-02", "node-03", "node-04"], strategy(0, 1));
    assert_eq!(poll(&mut db, "node-01", &[], "a").len(), 1);
    submit_command_result_as(&mut db, result("a-0", false), at(5_000)).unwrap();
    let stats = deployment_stats(&db, "d").unwrap();
    assert_eq!(stats, DeploymentStats { failed: 1, total: 4 });
    let limit = f64::from_bits(get_deployment(&db, "d").unwrap().strategy.max_failure_rate.bits);
    assert!(stats.failed as f64 / stats.total as f64 > limit);
    assert!(poll(&mut db, "node-02", &["d"], "b").is_empty());
    assert_eq!(get_deployment(&db, "d").unwrap().status, DeploymentStatus::Aborted);
    assert!(poll(&mut db, "node-03", &[], "c").is_empty());
    assert_eq!(state_of(&db, "node-02"), DeploymentTargetState::Pending);
}

#[test]
fn paused_deployments_hand_out_nothing() {
    let mut db = fleet(&["node-01"], strategy(0, 1));
    set_deployment_paused(&mut db, "d", true).unwrap();
    assert_eq!(get_deployment(&db, "d").unwrap().status, DeploymentStatus::Paused);
    assert!(poll(&mut db, "node-01", &[], "a").is_empty());
    set_deployment_paused(&mut db, "d", false).unwrap();
    assert_eq!(poll(&mut db, "node-01", &[], "a").len(), 1);
    abort_deployment(&mut db, "d").unwrap();
    assert_eq!(get_deployment(&db, "d").unwrap().status, DeploymentStatus::Aborted);
    abort_deployment(&mut db, "unknown").unwrap();
}

#[test]
fn results_are_carried_over() {
    let mut db = fleet(&["node-01", "node-02"], strategy(0, 2));
    poll(&mut db, "node-01", &[], "a");
    poll(&mut db, "node-02", &[], "b");
    submit_command_result_as(&mut db, result("a-0", true), at(5_000)).unwrap();
    assert_eq!(state_of(&db, "node-01"), DeploymentTargetState::Succeeded);
    let asset = get_asset(&db, "node-01").unwrap();
    assert_eq!(asset.current_version.as_deref(), Some("1.0.0"));
    assert_eq!(asset.active_slot.as_deref(), Some("B"));
    assert_eq!(asset.desired_version, None);
    let mut bad = result("b-0", false);
    bad.booted_version = None;
    bad.active_slot = None;
    submit_command_result_as(&mut db, bad, at(6_000)).unwrap();
    let target = list_deployment_targets(&db, "d").unwrap().remove(0);
    assert_eq!(target.asset_id, "node-02");
    assert_eq!(target.state, DeploymentTargetState::Failed);
    assert_eq!(target.last_error.as_deref(), Some("broken"));
    assert_eq!(target.current_command_id.as_deref(), Some("b-0"));
    assert_eq!(target.updated_at, at(6_000));
    assert_eq!(get_asset(&db, "node-02").unwrap().current_version, None);
    assert_eq!(db.tables().commands[0].status, "succeeded");
    assert_eq!(db.tables().commands[1].status, "failed");
    submit_command_result(&mut db, result("b-0", true)).unwrap();
    assert_eq!(state_of(&db, "node-02"), DeploymentTargetState::Succeeded);
    assert_eq!(db.tables().results.len(), 2);
}

#[test]
fn the_result_of_an_unknown_command_is_refused() {
    let mut db = fleet(&["node-01"], strategy(0, 1));
    let before = db.writes().len();
    let e = submit_command_result(&mut db, result("nothing", true)).unwrap_err();
    assert_eq!(e.message(), "FOREIGN KEY constraint failed");
    assert_eq!(db.writes().len(), before);
    mark_command_running(&mut db, "nothing").unwrap();
    assert!(db.tables().commands.is_empty());
}

#[test]
fn targets_that_cannot_be_read_are_complained_of() {
    let mut db = fleet(&["node-01"], strategy(0, 1));
    db.execute(Write::InsertTarget(TargetRow {
        deployment_id: "d".to_string(),
        asset_id: "node-01".to_string(),
        state: "pending".to_string(),
        last_error: None,
        current_command_id: None,
        updated_at: "2023-11-14T22:13:20+00:00".to_string(),
    }))
    .expect_err("a second target on one asset");
    upsert_asset(&mut db, asset("node-02", "idle", &[])).unwrap();
    db.execute(Write::InsertTarget(TargetRow {
        deployment_id: "d".to_string(),
        asset_id: "node-02".to_string(),
        state: "odd".to_string(),
        last_error: None,
        current_command_id: None,
        updated_at: "2023-11-14T22:13:20+00:00".to_string(),
    }))
    .unwrap();
    let message =
        "Conversion error from type Text at index: 0, unknown deployment target state: odd";
    assert_eq!(list_deployment_targets(&db, "d").unwrap_err().message(), message);
    assert_eq!(deployment_stats(&db, "d").unwrap_err().message(), message);
    let e = poll_commands(&mut db, "node-01", &Vec::new()).unwrap_err();
    assert_eq!(e.message(), message);
    assert_eq!(deployment_stats(&db, "none").unwrap(), DeploymentStats { failed: 0, total: 0 });
}

fn sql() -> rusqlite::Connection {
    let conn = rusqlite::Connection::open_in_memory().unwrap();
    conn.pragma_update(None, "foreign_keys", "ON").unwrap();
    conn.execute_batch(
        "CREATE TABLE releases (id TEXT PRIMARY KEY);
         CREATE TABLE assets (asset_id TEXT PRIMARY KEY);
         CREATE TABLE asset_labels (asset_id TEXT NOT NULL, label TEXT NOT NULL,
             PRIMARY KEY(asset_id, label),
             FOREIGN KEY(asset_id) REFERENCES assets(asset_id) ON DELETE CASCADE);
         CREATE TABLE deployments (id TEXT PRIMARY KEY, release_id TEXT NOT NULL,
             FOREIGN KEY(release_id) REFERENCES releases(id));
         CREATE TABLE deployment_targets (deployment_id TEXT NOT NULL, asset_id TEXT NOT NULL,
             PRIMARY KEY(deployment_id, asset_id));
         CREATE TABLE commands (id TEXT PRIMARY KEY);
         INSERT INTO releases VALUES ('r');
         INSERT INTO assets VALUES ('n');
         INSERT INTO asset_labels VALUES ('n', 'l');
         INSERT INTO deployments VALUES ('d', 'r');
         INSERT INTO deployment_targets VALUES ('d', 'n');
         INSERT INTO commands VALUES ('c');",
    )
    .unwrap();
    conn
}

#[test]
fn constraints_complain_as_sqlite_does() {
    let conn = sql();
    let complaint = |text: &str| conn.execute(text, []).unwrap_err().to_string();
    let unique = |key: UniqueKey| DbError::Unique(key).message();
    assert_eq!(complaint("INSERT INTO releases VALUES ('r')"), unique(UniqueKey::Release));
    assert_eq!(
        complaint("INSERT INTO asset_labels VALUES ('n', 'l')"),
        unique(UniqueKey::AssetLabel)
    );
    assert_eq!(
        complaint("INSERT INTO deployments VALUES ('d', 'none')"),
        unique(UniqueKey::Deployment)
    );
    assert_eq!(
        complaint("INSERT INTO deployment_targets VALUES ('d', 'n')"),
        unique(UniqueKey::Target)
    );
    assert_eq!(complaint("INSERT INTO commands VALUES ('c')"), unique(UniqueKey::Command));
    assert_eq!(
        complaint("INSERT INTO asset_labels VALUES ('m', 'l')"),
        DbError::ForeignKey.message()
    );
}

#[test]
fn statements_that_break_a_constraint_are_refused() {
    let mut db = Database::load(empty_tables());
    let command = || {
        Write::InsertCommand(CommandRow {
            id: "c".to_string(),
            deployment_id: "d".to_string(),
            release_id: "r".to_string(),
            asset_id: "node-01".to_string(),
            command_type: "install_release".to_string(),
            status: "queued".to_string(),
            created_at: "now".to_string(),
            updated_at: "now".to_string(),
        })
    };
    let e = db.execute(command()).unwrap_err();
    assert!(matches!(e, DbError::ForeignKey));
    assert!(db.writes().is_empty());
    let mut db = fleet(&["node-01"], strategy(0, 1));
    db.execute(command()).unwrap();
    let e = db.execute(command()).unwrap_err();
    assert!(matches!(e, DbError::Unique(UniqueKey::Command)));
    let e = db
        .execute(Write::InsertAssetLabel(AssetLabelRow {
            asset_id: "stranger".to_string(),
            label: "l".to_string(),
        }))
        .unwrap_err();
    assert!(matches!(e, DbError::ForeignKey));
}

#[test]
fn statements_are_recorded_in_order() {
    let db = fleet(&["node-01"], strategy(0, 1));
    let kinds: Vec<&str> = db
        .writes()
        .iter()
        .map(|w| match w {
            Write::InsertRelease(_) => "release",
            Write::UpsertAsset(_) => "asset",
            Write::ClearAssetLabels(_) => "clear",
            Write::InsertDeployment(_) => "deployment",
            Write::SetDesiredVersion(_) => "desire",
            Write::InsertTarget(_) => "target",
            _ => "other",
        })
        .collect();
    assert_eq!(kinds, vec!["release", "asset", "clear", "deployment", "desire", "target"]);
}

#[test]
fn asking_again_gives_nothing_and_changes_nothing() {
    let mut db = fleet(&["node-01", "node-02"], strategy(0, 2));
    for (id, strategy) in [("over", strategy(0, 1)), ("held", strategy(1, 1)), ("none", strategy(0, 0))] {
        create_deployment_as(&mut db, deployment("r", strategy), id.to_string(), at(3_500)).unwrap();
    }
    assert_eq!(poll(&mut db, "node-02", &["over"], "t").len(), 1);
    assert_eq!(get_deployment(&db, "over").unwrap().status, DeploymentStatus::Aborted);
    let before = format!("{:?}", db.tables());
    assert!(poll(&mut db, "node-02", &["over"], "u").is_empty());
    assert_eq!(format!("{:?}", db.tables()), before);
}

#[test]
fn each_deployment_is_decided_by_its_own_rows() {
    let mut db = fleet(&["node-01", "node-02"], strategy(0, 1));
    for (id, strategy, secs) in
        [("full", strategy(0, 1), 3_100), ("held", strategy(1, 1), 3_200), ("open", strategy(0, 1), 3_300)]
    {
        create_deployment_as(&mut db, deployment("r", strategy), id.to_string(), at(secs)).unwrap();
    }
    set_deployment_paused(&mut db, "d", true).unwrap();
    set_deployment_paused(&mut db, "held", true).unwrap();
    set_deployment_paused(&mut db, "open", true).unwrap();
    assert_eq!(poll(&mut db, "node-01", &[], "a"), vec!["a-0"]);
    for id in ["d", "held", "open"] {
        set_deployment_paused(&mut db, id, false).unwrap();
    }
    let got = poll_commands_as(&mut db, "node-02", &Vec::new(), &tickets("b", 4, 4_000)).unwrap();
    let of: Vec<&str> = got.iter().map(|c| c.deployment_id.as_str()).collect();
    assert_eq!(of, vec!["open", "d"]);
    assert_eq!(got[0].id, "b-0");
    assert_eq!(got[1].id, "b-3");
}

#[test]
fn a_deployment_above_its_limit_gets_no_more_commands() {
    let mut db = fleet(&["node-01", "node-02", "node-03"], strategy(0, 1));
    assert_eq!(poll(&mut db, "node-01", &[], "a").len(), 1);
    db.execute(Write::InsertCommand(CommandRow {
        id: "b-0".to_string(),
        deployment_id: "d".to_string(),
        release_id: "r".to_string(),
        asset_id: "node-02".to_string(),
        command_type: "install_release".to_string(),
        status: "running".to_string(),
        created_at: "1970-01-01T00:00:00+00:00".to_string(),
        updated_at: "1970-01-01T00:00:00+00:00".to_string(),
    }))
    .unwrap();
    assert!(poll(&mut db, "node-03", &[], "c").is_empty());
    assert_eq!(db.tables().commands.len(), 2);
    submit_command_result_as(&mut db, result("a-0", true), at(5_000)).unwrap();
    assert!(poll(&mut db, "node-03", &[], "d").is_empty());
    submit_command_result_as(&mut db, result("b-0", true), at(6_000)).unwrap();
    assert_eq!(poll(&mut db, "node-03", &[], "e").len(), 1);
}
