use noda::agent::state::{state_path, LocalState, PendingBootPhase, PendingBootState};
use noda::agent::validation::{
    boot_probes, digest_matches, hostname_in, judge_body, judge_command, judge_hostname,
    judge_system_path, run_health_checks, validation_probes, verify_sha256, CommandEnd, Probe,
    Progress,
};
use noda::agent::workflow::{
    artifact_dir, begin_rollback, complete_command, compute_next_slot, defer_command_as,
    download_artifact, perform_rollback, plan_download, prepare_command, requires_reboot,
    resume_pending_boot, resume_pending_boot_as, should_attempt_rollback, slot_pair,
    ArtifactOrigin, BootVerdict, CommandExecution, Surroundings,
};
use noda::agent::{advance, advance_as, checkin, start, Action, AgentConfig, Endpoint, Event, Stage};
use noda::clock::Timestamp;
use noda::executors::grub_ab::{Device, Devices};
use noda::executors::plan::{ProgramOverrides, Programs, Step};
use noda::executors::{PendingReboot, RollbackAction};
use noda::links::Address;
use noda::text_map::TextMap;
use noda::types::{
    ArtifactSource, AssetStatus, CommandRecord, CommandStatus, ExecutorSpec, GrubAbBootControl,
    GrubAbCompression, GrubAbExecutorSpec, GrubAbSlot, HealthCheck, HealthCheckKind,
    NixGenerationExecutorSpec, NixGenerationSource, ReleaseManifest, RollbackPolicy,
    ValidationSpec,
};

fn at(secs: i64) -> Timestamp {
    Timestamp { secs, nanos: 0 }
}

fn policy() -> RollbackPolicy {
    RollbackPolicy {
        automatic: true,
        on_boot_failure: true,
        on_validation_failure: true,
        candidate_timeout_seconds: 600,
    }
}

fn pending() -> PendingBootState {
    PendingBootState {
        phase: PendingBootPhase::Forward,
        command_id: "c-1".to_string(),
        deployment_id: "d-1".to_string(),
        release_id: "r-1".to_string(),
        release_version: "8.0.0".to_string(),
        expected_system_path: Some("/nix/store/new".to_string()),
        expected_hostname: Some("node-1".to_string()),
        expected_active_slot: None,
        expected_root_device: None,
        next_active_slot: Some("B".to_string()),
        previous_system_path: Some("/nix/store/old".to_string()),
        previous_root_device: None,
        previous_hostname: Some("node-0".to_string()),
        previous_version: Some("7.0.0".to_string()),
        previous_active_slot: Some("A".to_string()),
        rollback_action: Some(RollbackAction::NixGeneration {
            previous_system_path: "/nix/store/old".to_string(),
        }),
        health_checks: Vec::new(),
        rollback: policy(),
        deadline: at(1_000),
    }
}

fn waiting() -> LocalState {
    LocalState {
        current_version: Some("7.0.0".to_string()),
        active_slot: Some("A".to_string()),
        pending_boot: Some(pending()),
    }
}

fn failed() -> Result<(), String> {
    Err("hostname mismatch".to_string())
}

fn check(kind: HealthCheckKind, command: Option<&str>, url: Option<&str>) -> HealthCheck {
    HealthCheck {
        name: "ready".to_string(),
        kind,
        command: command.map(|c| c.to_string()),
        url: url.map(|u| u.to_string()),
        contains: Some("ok".to_string()),
    }
}

fn artifact(url: &str) -> ArtifactSource {
    let mut headers = TextMap::new();
    headers.insert("x-key".to_string(), "v".to_string());
    ArtifactSource { url: url.to_string(), sha256: None, headers }
}

fn grub(slots: bool) -> GrubAbExecutorSpec {
    let slot = |name: &str| GrubAbSlot {
        name: name.to_string(),
        device: format!("/dev/{name}"),
        grub_menu_entry: format!("entry-{name}"),
    };
    GrubAbExecutorSpec {
        artifact: artifact("file:///tmp/i.ext4"),
        slot_pair: None,
        slots: if slots { Some([slot("left"), slot("right")]) } else { None },
        boot_control: Some(GrubAbBootControl {
            authority_device: "/dev/left".to_string(),
            mountpoint: "/mnt".to_string(),
            grubenv_relpath: "grubenv".to_string(),
        }),
        compression: GrubAbCompression::Auto,
        activate_command: None,
    }
}

fn nix() -> ExecutorSpec {
    ExecutorSpec::NixGeneration(NixGenerationExecutorSpec {
        source: NixGenerationSource::CopyFromStore {
            copy_from: "ssh://b".to_string(),
            store_path: "/nix/store/new".to_string(),
        },
    })
}

fn command(executor: ExecutorSpec) -> CommandRecord {
    CommandRecord {
        id: "c-1".to_string(),
        deployment_id: "d-1".to_string(),
        release_id: "r-1".to_string(),
        asset_id: "node-1".to_string(),
        command_type: "install_release".to_string(),
        status: CommandStatus::Queued,
        manifest: ReleaseManifest {
            target_type: "t".to_string(),
            executor,
            validation: ValidationSpec {
                expected_hostname: Some("node-1".to_string()),
                expected_system_path: Some("/nix/store/expected".to_string()),
                timeout_seconds: 60,
                health_checks: vec![check(HealthCheckKind::AlwaysPass, None, None)],
            },
            rollback: policy(),
            labels: TextMap::new(),
        },
        release_version: "8.0.0".to_string(),
    }
}

fn device(path: &str) -> Device {
    Device { path: path.to_string(), canonical: Ok(path.to_string()) }
}

fn around() -> Surroundings {
    Surroundings {
        devices: Devices {
            root: Ok(device("/dev/right")),
            first: device("/dev/left"),
            second: device("/dev/right"),
        },
        system_path: Ok("/nix/store/old".to_string()),
        hostname: Ok("node-0".to_string()),
        root_device: Ok("/dev/right".to_string()),
    }
}

fn config() -> AgentConfig {
    AgentConfig {
        server: "http://127.0.0.1:8080".to_string(),
        asset_id: "node-1".to_string(),
        asset_type: "edge".to_string(),
        mission_state: "idle".to_string(),
        poll_seconds: 15,
        state_dir: "/var/lib/noda".to_string(),
        labels: vec!["region=lab".to_string()],
    }
}

#[test]
fn nothing_is_made_of_a_start_that_nobody_waited_for() {
    let mut state = LocalState::default();
    let verdict = resume_pending_boot(&mut state, "node-1", failed());
    assert!(matches!(verdict, BootVerdict::Idle));
}

#[test]
fn a_validated_release_runs() {
    let mut state = waiting();
    let BootVerdict::Report(req) = resume_pending_boot_as(&mut state, "node-1", Ok(()), at(9_999))
    else {
        panic!("expected a report");
    };
    assert!(req.success);
    assert_eq!(req.message, "validated 8.0.0 after reboot");
    assert_eq!(req.command_id, "c-1");
    assert_eq!(req.asset_id, "node-1");
    assert_eq!(req.booted_version.as_deref(), Some("8.0.0"));
    assert_eq!(req.active_slot.as_deref(), Some("B"));
    assert_eq!(state.current_version.as_deref(), Some("8.0.0"));
    assert!(state.pending_boot.is_none());
}

#[test]
fn a_start_is_waited_for_until_the_deadline() {
    let mut state = waiting();
    let verdict = resume_pending_boot_as(&mut state, "node-1", failed(), at(999));
    assert!(matches!(verdict, BootVerdict::Wait));
    assert!(state.pending_boot.is_some());
    let verdict = resume_pending_boot_as(&mut state, "node-1", failed(), at(1_000));
    assert!(matches!(verdict, BootVerdict::StartRollback(_)));
}

#[test]
fn a_release_is_taken_back_once() {
    let mut state = waiting();
    let BootVerdict::StartRollback(action) =
        resume_pending_boot_as(&mut state, "node-1", failed(), at(1_000))
    else {
        panic!("expected a rollback");
    };
    let programs = Programs::with_overrides(ProgramOverrides {
        grub_editenv: None,
        reboot: None,
        dd: None,
        zstd: None,
        mount: None,
        umount: None,
    });
    assert_eq!(perform_rollback(&action, &programs).len(), 3);
    let grub = RollbackAction::GrubAb {
        authority_device: "/dev/left".to_string(),
        mountpoint: "/mnt".to_string(),
        grubenv_relpath: "grubenv".to_string(),
        previous_grub_menu_entry: "entry-left".to_string(),
    };
    let steps = perform_rollback(&grub, &programs);
    assert!(matches!(&steps[0], Step::SetSavedEntry(s) if s.entry == "entry-left"));
    let back = begin_rollback(pending(), at(2_000));
    assert_eq!(back.phase, PendingBootPhase::Rollback);
    assert_eq!(back.expected_system_path.as_deref(), Some("/nix/store/old"));
    assert_eq!(back.expected_hostname.as_deref(), Some("node-0"));
    assert_eq!(back.previous_hostname, None);
    assert!(back.rollback_action.is_none());
    assert_eq!(back.deadline, at(2_600));
    state.pending_boot = Some(back.clone());
    let BootVerdict::Report(req) =
        resume_pending_boot_as(&mut state, "node-1", failed(), at(2_600))
    else {
        panic!("expected a report");
    };
    assert!(!req.success);
    assert_eq!(
        req.message,
        "post-boot validation failed and rollback failed: hostname mismatch"
    );
    let mut state = waiting();
    state.pending_boot = Some(back);
    let BootVerdict::Report(req) = resume_pending_boot_as(&mut state, "node-1", Ok(()), at(2_100))
    else {
        panic!("expected a report");
    };
    assert!(!req.success);
    assert_eq!(
        req.message,
        "post-boot validation failed for 8.0.0; rollback succeeded"
    );
    assert_eq!(state.current_version.as_deref(), Some("7.0.0"));
    assert_eq!(state.active_slot.as_deref(), Some("A"));
}

#[test]
fn a_release_that_is_not_to_be_taken_back_is_given_up() {
    for change in 0..3 {
        let mut p = pending();
        match change {
            0 => p.rollback.automatic = false,
            1 => p.rollback.on_validation_failure = false,
            _ => p.rollback_action = None,
        }
        assert!(!should_attempt_rollback(&p));
        let mut state = waiting();
        state.pending_boot = Some(p);
        let BootVerdict::Report(req) =
            resume_pending_boot_as(&mut state, "node-1", failed(), at(1_000))
        else {
            panic!("expected a report");
        };
        assert_eq!(req.message, "post-boot validation failed: hostname mismatch");
        assert_eq!(req.booted_version.as_deref(), Some("7.0.0"));
        assert!(state.pending_boot.is_none());
    }
    let mut p = pending();
    p.rollback.on_boot_failure = false;
    assert!(should_attempt_rollback(&p));
}

#[test]
fn the_other_slot_is_next() {
    let pair = Some(("A".to_string(), "B".to_string()));
    assert_eq!(compute_next_slot("A", &pair), "B");
    assert_eq!(compute_next_slot("B", &pair), "A");
    assert_eq!(compute_next_slot("C", &pair), "A");
    assert_eq!(compute_next_slot("A", &None), "B");
    assert_eq!(compute_next_slot("x", &None), "A");
    assert_eq!(
        slot_pair(&ExecutorSpec::GrubAb(grub(true))),
        Some(("left".to_string(), "right".to_string()))
    );
    let mut both = grub(true);
    both.slot_pair = Some(["x".to_string(), "y".to_string()]);
    assert_eq!(
        slot_pair(&ExecutorSpec::GrubAb(both)),
        Some(("x".to_string(), "y".to_string()))
    );
    assert_eq!(slot_pair(&ExecutorSpec::GrubAb(grub(false))), None);
    assert_eq!(slot_pair(&ExecutorSpec::Noop), None);
    assert!(requires_reboot(&nix()));
    assert!(requires_reboot(&ExecutorSpec::GrubAb(grub(true))));
    assert!(!requires_reboot(&ExecutorSpec::GrubAb(grub(false))));
    assert!(!requires_reboot(&ExecutorSpec::Noop));
}

#[test]
fn a_command_is_prepared_by_what_its_executor_asks_for() {
    let state = LocalState {
        current_version: Some("7.0.0".to_string()),
        active_slot: Some("A".to_string()),
        pending_boot: None,
    };
    let p = prepare_command(&command(nix()), &state, "/s", None, &around()).unwrap();
    assert_eq!(p.ctx.current_slot, "A");
    assert_eq!(p.ctx.next_slot, "B");
    assert_eq!(p.previous_system_path.as_deref(), Some("/nix/store/old"));
    assert_eq!(p.previous_hostname.as_deref(), Some("node-0"));
    assert_eq!(p.previous_root_device, None);
    assert_eq!(p.previous_version.as_deref(), Some("7.0.0"));
    assert!(p.rollback_action.is_some());
    let cmd = command(ExecutorSpec::GrubAb(grub(true)));
    let p = prepare_command(&cmd, &state, "/s", Some("/a".to_string()), &around()).unwrap();
    assert_eq!(p.ctx.current_slot, "right");
    assert_eq!(p.ctx.next_slot, "left");
    assert_eq!(p.previous_system_path, None);
    assert_eq!(p.previous_root_device.as_deref(), Some("/dev/right"));
    assert_eq!(p.previous_active_slot.as_deref(), Some("right"));
    let mut blind = around();
    blind.system_path = Err("no system".to_string());
    blind.hostname = Err("no name".to_string());
    blind.root_device = Err("no device".to_string());
    blind.devices.root = Err("no root".to_string());
    let p = prepare_command(&command(ExecutorSpec::Noop), &LocalState::default(), "/s", None, &blind)
        .unwrap();
    assert_eq!(p.ctx.current_slot, "A");
    let complaint = |executor: ExecutorSpec| {
        prepare_command(&command(executor), &state, "/s", None, &blind).unwrap_err()
    };
    assert_eq!(complaint(nix()), "no system");
    assert_eq!(complaint(ExecutorSpec::GrubAb(grub(true))), "no root");
    blind.devices.root = Ok(device("/dev/left"));
    let complaint = |blind: &Surroundings| {
        prepare_command(&cmd, &state, "/s", None, blind).unwrap_err()
    };
    assert_eq!(complaint(&blind), "no name");
    blind.hostname = Ok("n".to_string());
    assert_eq!(complaint(&blind), "no device");
    let mut unruled = grub(true);
    unruled.boot_control = None;
    let e = prepare_command(
        &command(ExecutorSpec::GrubAb(unruled)),
        &state,
        "/s",
        None,
        &around(),
    )
    .unwrap_err();
    assert_eq!(e, "grub_ab.boot_control is required for rollback");
}

#[test]
fn a_command_is_completed_or_deferred() {
    let cmd = command(nix());
    let CommandExecution::Completed { message, state } =
        complete_command(&cmd, LocalState::default(), "B")
    else {
        panic!("expected a completion");
    };
    assert_eq!(message, "installed 8.0.0");
    assert_eq!(state.current_version.as_deref(), Some("8.0.0"));
    assert_eq!(state.active_slot.as_deref(), Some("B"));
    let prepared =
        || prepare_command(&cmd, &LocalState::default(), "/s", None, &around()).unwrap();
    let expected = || PendingReboot {
        expected_system_path: None,
        expected_active_slot: None,
        expected_root_device: None,
    };
    let CommandExecution::Deferred { state } =
        defer_command_as(&cmd, LocalState::default(), prepared(), expected(), at(100))
    else {
        panic!("expected a deferral");
    };
    let waited = state.pending_boot.unwrap();
    assert_eq!(waited.deadline, at(160));
    assert_eq!(waited.expected_system_path.as_deref(), Some("/nix/store/expected"));
    assert_eq!(waited.expected_hostname.as_deref(), Some("node-1"));
    assert_eq!(waited.expected_active_slot, None);
    assert_eq!(waited.health_checks.len(), 1);
    let mut endless = command(nix());
    endless.manifest.validation.timeout_seconds = u64::MAX;
    let CommandExecution::Deferred { state } =
        defer_command_as(&endless, LocalState::default(), prepared(), expected(), at(100))
    else {
        panic!("expected a deferral");
    };
    assert_eq!(state.pending_boot.unwrap().deadline, at(1_000));
    let grub_cmd = command(ExecutorSpec::GrubAb(grub(true)));
    let p = prepare_command(&grub_cmd, &LocalState::default(), "/s", None, &around()).unwrap();
    let CommandExecution::Deferred { state } =
        defer_command_as(&grub_cmd, LocalState::default(), p, expected(), at(100))
    else {
        panic!("expected a deferral");
    };
    assert_eq!(state.pending_boot.unwrap().expected_active_slot.as_deref(), Some("left"));
}

#[test]
fn probes_are_asked_in_order() {
    let mut p = pending();
    p.health_checks = vec![
        check(HealthCheckKind::AlwaysPass, None, None),
        check(HealthCheckKind::CommandExitZero, Some("true"), None),
        check(HealthCheckKind::HttpGet, None, Some("http://localhost")),
    ];
    let probes = boot_probes(&p);
    assert_eq!(probes.len(), 4);
    assert!(matches!(&probes[0], Probe::SystemPath(s) if s == "/nix/store/new"));
    assert!(matches!(&probes[1], Probe::Hostname(h) if h == "node-1"));
    assert!(matches!(&probes[2], Probe::Command(c) if c.command == "true"));
    assert!(matches!(&probes[3], Probe::Fetch(f) if f.contains.as_deref() == Some("ok")));
    assert!(matches!(run_health_checks(&probes, &Vec::new()), Progress::Next(0)));
    assert!(matches!(run_health_checks(&probes, &vec![Ok(()), Ok(())]), Progress::Next(2)));
    let bad = vec![Ok(()), Err("wrong".to_string())];
    assert!(matches!(run_health_checks(&probes, &bad), Progress::Failed(m) if m == "wrong"));
    let good = vec![Ok(()), Ok(()), Ok(()), Ok(())];
    assert!(matches!(run_health_checks(&probes, &good), Progress::Passed));
    assert!(matches!(run_health_checks(&Vec::new(), &Vec::new()), Progress::Passed));
    let mut validation = ValidationSpec {
        expected_hostname: None,
        expected_system_path: None,
        timeout_seconds: 60,
        health_checks: vec![
            check(HealthCheckKind::CommandExitZero, Some("true"), None),
            check(HealthCheckKind::HttpGet, None, None),
            check(HealthCheckKind::CommandExitZero, None, None),
        ],
    };
    let broken = validation_probes(&validation);
    validation.expected_hostname = Some("node-1".to_string());
    validation.expected_system_path = Some("/nix/store/x".to_string());
    let more = validation_probes(&validation);
    assert_eq!(more.len(), 5);
    assert!(matches!(&more[0], Probe::SystemPath(path) if path == "/nix/store/x"));
    assert!(matches!(&more[1], Probe::Hostname(name) if name == "node-1"));
    assert!(matches!(&more[2], Probe::Command(c) if c.command == "true"));
    assert!(matches!(run_health_checks(&broken, &Vec::new()), Progress::Next(0)));
    assert!(matches!(
        run_health_checks(&broken, &vec![Ok(())]),
        Progress::Failed(m) if m == "missing url for http_get health check"
    ));
    assert!(matches!(
        run_health_checks(&broken[2..].iter().map(|_| Probe::Missing("m".to_string())).collect(), &Vec::new()),
        Progress::Failed(m) if m == "m"
    ));
    assert!(matches!(
        &broken[2],
        Probe::Missing(m) if m == "missing command for command_exit_zero health check"
    ));
}

#[test]
fn findings_are_judged() {
    let ok = |s: &str| Ok::<String, String>(s.to_string());
    let err = |s: &str| Err::<String, String>(s.to_string());
    assert!(judge_system_path(ok("/a"), ok("/a")).is_ok());
    assert_eq!(
        judge_system_path(ok("/a"), ok("/b")).unwrap_err(),
        "current system mismatch: expected /b, got /a"
    );
    assert_eq!(judge_system_path(err("one"), err("two")).unwrap_err(), "one");
    assert_eq!(judge_system_path(ok("/a"), err("two")).unwrap_err(), "two");
    assert!(judge_hostname("n", ok("n")).is_ok());
    assert_eq!(
        judge_hostname("n", ok("m")).unwrap_err(),
        "hostname mismatch: expected n, got m"
    );
    assert_eq!(judge_hostname("n", err("gone")).unwrap_err(), "gone");
    assert_eq!(hostname_in(" node-1\n"), "node-1");
    let end = |success: bool| Ok(CommandEnd { success, status: "exit status: 3".to_string() });
    assert!(judge_command("ready", end(true)).is_ok());
    assert_eq!(
        judge_command("ready", end(false)).unwrap_err(),
        "health check ready failed with exit status exit status: 3"
    );
    assert_eq!(judge_command("ready", Err("no shell".to_string())).unwrap_err(), "no shell");
    let wanted = Some("ok".to_string());
    assert!(judge_body("ready", &wanted, ok("all ok")).is_ok());
    assert!(judge_body("ready", &None, ok("")).is_ok());
    assert_eq!(
        judge_body("ready", &wanted, ok("no")).unwrap_err(),
        "health check ready body missing expected text"
    );
    assert_eq!(judge_body("ready", &wanted, err("refused")).unwrap_err(), "refused");
}

#[test]
fn artifacts_are_held_against_their_digest() {
    let data = b"abc".to_vec();
    let digest = "ba7816bf8f01cfea414140de5dae2223b00361a396177a9cb410ff61f20015ad";
    assert!(verify_sha256(&data, &None).is_ok());
    assert!(verify_sha256(&data, &Some(digest.to_string())).is_ok());
    assert!(verify_sha256(&data, &Some(digest.to_uppercase())).is_ok());
    let e = verify_sha256(&data, &Some("Beef".to_string())).unwrap_err();
    assert_eq!(e, format!("sha256 mismatch: expected Beef, got {digest}"));
    assert!(digest_matches(&vec![0xbe, 0xef], "BEEF").is_ok());
    assert!(digest_matches(&vec![0xbe, 0xef], "bee").is_err());
}

#[test]
fn artifacts_are_fetched_from_where_they_are() {
    let d = download_artifact("/s", &artifact("https://example.com/r/edge.ext4.zst?x=1")).unwrap();
    assert_eq!(d.dest, "/s/artifacts/edge.ext4.zst");
    let ArtifactOrigin::Remote { url, headers } = d.origin else {
        panic!("expected an address");
    };
    assert_eq!(url, "https://example.com/r/edge.ext4.zst?x=1");
    assert_eq!(headers.get("x-key").unwrap(), "v");
    let d = download_artifact("/s", &artifact("http://example.com")).unwrap();
    assert_eq!(d.dest, "/s/artifacts/artifact.bin");
    let d = download_artifact("/s", &artifact("file:///tmp/a%20b/c.bin")).unwrap();
    assert_eq!(d.dest, "/s/artifacts/c.bin");
    assert!(matches!(d.origin, ArtifactOrigin::Local(p) if p == b"/tmp/a b/c.bin".to_vec()));
    assert_eq!(
        download_artifact("/s", &artifact("ftp://example.com/x")).unwrap_err(),
        "unsupported artifact scheme: ftp"
    );
    assert_eq!(
        download_artifact("/s", &artifact("nowhere")).unwrap_err(),
        url::Url::parse("nowhere").unwrap_err().to_string()
    );
    assert_eq!(artifact_dir("/s"), "/s/artifacts");
    let address = |scheme: &str, path: &str| {
        Ok(Address { scheme: scheme.to_string(), path: path.to_string() })
    };
    let a = artifact("file://elsewhere/x");
    assert_eq!(
        plan_download("/s", &a, address("file", "/x"), None).unwrap_err(),
        "invalid file:// URL"
    );
    let d = plan_download("/s", &a, address("https", "opaque"), None).unwrap();
    assert_eq!(d.dest, "/s/artifacts/artifact.bin");
    let d = plan_download("/s", &a, address("https", "/dir/"), None).unwrap();
    assert_eq!(d.dest, "/s/artifacts/artifact.bin");
}

#[test]
fn names_of_artifacts_are_as_the_url_crate_has_them() {
    for raw in [
        "http://h/a/b.bin",
        "http://h/",
        "http://h",
        "http://h/a/",
        "http://h/a//b",
        "http://h/%2fx",
        "https://h/a/../c",
        "https://h/a.b?c/d#e/f",
    ] {
        let url = url::Url::parse(raw).unwrap();
        let name = url
            .path_segments()
            .and_then(|segments| segments.last())
            .filter(|segment| !segment.is_empty())
            .unwrap_or("artifact.bin")
            .to_string();
        let d = download_artifact("/s", &artifact(raw)).unwrap();
        assert_eq!(d.dest, format!("/s/artifacts/{name}"), "{raw}");
    }
}

#[test]
fn an_agent_checks_in_with_what_it_knows() {
    let req = checkin(&config(), &waiting());
    assert_eq!(req.asset_id, "node-1");
    assert_eq!(req.labels, vec!["region=lab"]);
    assert_eq!(req.current_version.as_deref(), Some("7.0.0"));
    assert_eq!(req.status, Some(AssetStatus::Online));
    let server = "http://s";
    assert_eq!(Endpoint::Checkin.url(server), "http://s/v1/agent/checkin");
    assert_eq!(Endpoint::Poll.url(server), "http://s/v1/agent/poll");
    assert_eq!(Endpoint::Result.url(server), "http://s/v1/agent/result");
    assert_eq!(state_path("/var/lib/noda"), "/var/lib/noda/state.json");
}

fn step(stage: Stage, event: Event, now: i64) -> (Stage, Action) {
    advance_as(&config(), stage, event, at(now))
}

#[test]
fn a_round_without_commands() {
    let (stage, action) = start();
    assert!(matches!(action, Action::Load));
    let (stage, action) = step(stage, Event::Loaded(LocalState::default()), 0);
    assert!(matches!(action, Action::Save(_)));
    let (stage, action) = step(stage, Event::Done, 0);
    assert!(matches!(action, Action::CheckIn(_)));
    let (stage, action) = step(stage, Event::Done, 0);
    assert!(matches!(action, Action::Poll(req) if req.asset_id == "node-1"));
    let (stage, action) = step(stage, Event::Polled(Vec::new()), 0);
    assert!(matches!(action, Action::Sleep(15)));
    let (_, action) = step(stage, Event::Done, 0);
    assert!(matches!(action, Action::Load));
}

#[test]
fn no_commands_are_asked_for_while_a_start_is_waited_for() {
    let (stage, _) = start();
    let (stage, action) = step(stage, Event::Loaded(waiting()), 0);
    assert!(matches!(action, Action::Validate(p) if p.command_id == "c-1"));
    let (stage, action) = step(stage, Event::Validated(failed()), 999);
    assert!(matches!(action, Action::Save(s) if s.pending_boot.is_some()));
    let (stage, _) = step(stage, Event::Done, 999);
    let (_, action) = step(stage, Event::Done, 999);
    assert!(matches!(action, Action::Sleep(15)));
}

#[test]
fn a_round_that_goes_back() {
    let (stage, _) = start();
    let (stage, _) = step(stage, Event::Loaded(waiting()), 1_000);
    let (stage, action) = step(stage, Event::Validated(failed()), 1_000);
    assert!(matches!(action, Action::RollBack(RollbackAction::NixGeneration { .. })));
    let (stage, action) = step(stage, Event::Done, 2_000);
    let Action::Save(state) = action else {
        panic!("expected to store");
    };
    assert_eq!(state.pending_boot.as_ref().unwrap().deadline, at(2_600));
    let (_, action) = step(stage, Event::Done, 2_000);
    assert!(matches!(action, Action::CheckIn(_)));
}

#[test]
fn a_round_that_closes_the_matter() {
    let (stage, _) = start();
    let (stage, _) = step(stage, Event::Loaded(waiting()), 0);
    let (stage, action) = step(stage, Event::Validated(Ok(())), 0);
    assert!(matches!(action, Action::Report(r) if r.success));
    let (_, action) = step(stage, Event::Done, 0);
    assert!(matches!(action, Action::Save(s) if s.pending_boot.is_none()));
}

#[test]
fn commands_are_carried_out_one_after_the_other() {
    let known = LocalState {
        current_version: Some("7.0.0".to_string()),
        active_slot: None,
        pending_boot: None,
    };
    let mut second = command(ExecutorSpec::Noop);
    second.id = "c-2".to_string();
    let mut third = command(ExecutorSpec::Noop);
    third.id = "c-3".to_string();
    let (stage, _) = start();
    let (stage, _) = step(stage, Event::Loaded(known), 0);
    let (stage, _) = step(stage, Event::Done, 0);
    let (stage, _) = step(stage, Event::Done, 0);
    let queue = vec![command(ExecutorSpec::Noop), second, third];
    let (stage, action) = step(stage, Event::Polled(queue), 0);
    assert!(matches!(action, Action::Execute(c) if c.id == "c-1"));
    let done = CommandExecution::Completed {
        message: "installed 8.0.0".to_string(),
        state: LocalState {
            current_version: Some("8.0.0".to_string()),
            active_slot: Some("B".to_string()),
            pending_boot: None,
        },
    };
    let (stage, action) = step(stage, Event::Executed(Ok(done)), 0);
    assert!(matches!(action, Action::Save(s) if s.current_version.as_deref() == Some("8.0.0")));
    let (stage, action) = step(stage, Event::Done, 0);
    let Action::Report(req) = action else {
        panic!("expected a report");
    };
    assert!(req.success);
    assert_eq!(req.command_id, "c-1");
    assert_eq!(req.booted_version.as_deref(), Some("8.0.0"));
    let (stage, action) = step(stage, Event::Done, 0);
    assert!(matches!(action, Action::Execute(c) if c.id == "c-2"));
    let (stage, action) = step(stage, Event::Executed(Err("boom".to_string())), 0);
    let Action::Report(req) = action else {
        panic!("expected a report");
    };
    assert!(!req.success);
    assert_eq!(req.message, "boom");
    assert_eq!(req.command_id, "c-2");
    assert_eq!(req.booted_version.as_deref(), Some("7.0.0"));
    let (stage, action) = step(stage, Event::Done, 0);
    assert!(matches!(action, Action::Execute(c) if c.id == "c-3"));
    let later = CommandExecution::Deferred { state: waiting() };
    let (stage, action) = step(stage, Event::Executed(Ok(later)), 0);
    assert!(matches!(action, Action::Save(s) if s.pending_boot.is_some()));
    let (_, action) = step(stage, Event::Done, 0);
    assert!(matches!(action, Action::Sleep(15)));
}

#[test]
fn events_that_do_not_fit_lead_nowhere() {
    let (stage, _) = start();
    assert!(advance(&config(), stage, Event::Done).is_none());
    let (stage, _) = start();
    let next = advance(&config(), stage, Event::Loaded(LocalState::default()));
    assert!(matches!(next, Some((_, Action::Save(_)))));
    let mut endless = waiting();
    if let Some(p) = &mut endless.pending_boot {
        p.rollback.candidate_timeout_seconds = 9_000_000_000_000_000;
    }
    assert!(advance(&config(), Stage::RollingBack(endless), Event::Done).is_none());
    assert!(advance(&config(), Stage::RollingBack(waiting()), Event::Done).is_some());
}
