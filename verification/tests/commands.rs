use noda::agent::execution::{
    advance_command, advance_command_as, execute_command, CommandAction, CommandEvent,
    CommandNext, CommandStage,
};
use noda::agent::state::LocalState;
use noda::agent::validation::Probe;
use noda::agent::workflow::{CommandExecution, Surroundings};
use noda::clock::Timestamp;
use noda::executors::grub_ab::{Device, Devices};
use noda::executors::plan::{ProgramOverrides, Programs, Step};
use noda::executors::RollbackAction;
use noda::text_map::TextMap;
use noda::types::{
    ArtifactSource, CommandRecord, CommandStatus, ExecutorSpec, GrubAbBootControl,
    GrubAbCompression, GrubAbExecutorSpec, GrubAbSlot, HealthCheck, HealthCheckKind,
    NixGenerationExecutorSpec, NixGenerationSource, ReleaseManifest, RollbackPolicy,
    ScriptedExecutorSpec, ValidationSpec,
};

fn programs() -> Programs {
    Programs::with_overrides(ProgramOverrides {
        grub_editenv: None,
        reboot: None,
        dd: None,
        zstd: None,
        mount: None,
        umount: None,
    })
}

fn scripted(url: &str, sha256: Option<&str>) -> ExecutorSpec {
    ExecutorSpec::Scripted(ScriptedExecutorSpec {
        artifact: ArtifactSource {
            url: url.to_string(),
            sha256: sha256.map(|d| d.to_string()),
            headers: TextMap::new(),
        },
        install_command: "install".to_string(),
        activate_command: Some("activate".to_string()),
    })
}

fn nix() -> ExecutorSpec {
    ExecutorSpec::NixGeneration(NixGenerationExecutorSpec {
        source: NixGenerationSource::CopyFromStore {
            copy_from: "ssh://b".to_string(),
            store_path: "/nix/store/new".to_string(),
        },
    })
}

fn command(executor: ExecutorSpec, checks: &[&str]) -> CommandRecord {
    CommandRecord {
        id: "c-1".to_string(),
        deployment_id: "d-1".to_string(),
        release_id: "r-1".to_string(),
        asset_id: "node-1".to_string(),
        command_type: "install_release".to_string(),
        status: CommandStatus::Queued,
        manifest: ReleaseManifest {
            target_type: "t".to_string(),
            executor,
            validation: ValidationSpec {
                expected_hostname: None,
                expected_system_path: None,
                timeout_seconds: 60,
                health_checks: checks
                    .iter()
                    .map(|command| HealthCheck {
                        name: "ready".to_string(),
                        kind: HealthCheckKind::CommandExitZero,
                        command: Some(command.to_string()),
                        url: None,
                        contains: None,
                    })
                    .collect(),
            },
            rollback: RollbackPolicy::default(),
            labels: TextMap::new(),
        },
        release_version: "8.0.0".to_string(),
    }
}

fn around() -> Surroundings {
    let device = || Device { path: String::new(), canonical: Err(String::new()) };
    Surroundings {
        devices: Devices { root: Err(String::new()), first: device(), second: device() },
        system_path: Ok("/nix/store/old".to_string()),
        hostname: Ok("node-0".to_string()),
        root_device: Err(String::new()),
    }
}

fn found() -> CommandEvent {
    CommandEvent::Found(LocalState::default(), around())
}

fn next(cmd: &CommandRecord, stage: CommandStage, event: CommandEvent) -> CommandNext {
    let now = Timestamp { secs: 100, nanos: 0 };
    advance_command_as(cmd, "/s", &programs(), stage, event, now)
}

fn go(cmd: &CommandRecord, stage: CommandStage, event: CommandEvent) -> (CommandStage, CommandAction) {
    match next(cmd, stage, event) {
        CommandNext::Go(stage, action) => (stage, action),
        CommandNext::End(outcome) => panic!("ended: {outcome:?}"),
    }
}

fn complaint(cmd: &CommandRecord, stage: CommandStage, event: CommandEvent) -> String {
    match next(cmd, stage, event) {
        CommandNext::End(Err(complaint)) => complaint,
        other => panic!("did not fail: {other:?}"),
    }
}

fn shell(action: &CommandAction) -> String {
    match action {
        CommandAction::Perform(steps) => match &steps[..] {
            [Step::Run(call)] => call.args.join(" "),
            other => panic!("unexpected steps: {other:?}"),
        },
        other => panic!("unexpected action: {other:?}"),
    }
}

#[test]
fn a_command_goes_from_its_artifact_to_its_health_checks() {
    let digest = "ba7816bf8f01cfea414140de5dae2223b00361a396177a9cb410ff61f20015ad";
    let cmd = command(scripted("https://h/x.bin", Some(digest)), &["one", "two"]);
    let (stage, action) = execute_command(&cmd, "/s");
    assert!(matches!(action, CommandAction::CreateDirs(dir) if dir == "/s/artifacts"));
    let (stage, action) = go(&cmd, stage, CommandEvent::Done);
    assert!(matches!(action, CommandAction::Fetch(d) if d.dest == "/s/artifacts/x.bin"));
    let (stage, action) = go(&cmd, stage, CommandEvent::Done);
    assert!(matches!(action, CommandAction::ReadArtifact(path) if path == "/s/artifacts/x.bin"));
    let (stage, action) = go(&cmd, stage, CommandEvent::ArtifactRead(Some(b"abc".to_vec())));
    assert!(matches!(action, CommandAction::LookAround));
    let (stage, action) = go(&cmd, stage, found());
    assert_eq!(shell(&action), "-lc install");
    let (stage, action) = go(&cmd, stage, CommandEvent::Done);
    assert_eq!(shell(&action), "-lc activate");
    let (stage, action) = go(&cmd, stage, CommandEvent::Done);
    assert!(matches!(action, CommandAction::Probe(Probe::Command(c)) if c.command == "one"));
    let (stage, action) = go(&cmd, stage, CommandEvent::Probed(Ok(())));
    assert!(matches!(action, CommandAction::Probe(Probe::Command(c)) if c.command == "two"));
    let CommandNext::End(Ok(CommandExecution::Completed { message, state })) =
        next(&cmd, stage, CommandEvent::Probed(Ok(())))
    else {
        panic!("expected a completion");
    };
    assert_eq!(message, "installed 8.0.0");
    assert_eq!(state.current_version.as_deref(), Some("8.0.0"));
    assert_eq!(state.active_slot.as_deref(), Some("B"));
}

#[test]
fn an_artifact_that_is_not_the_expected_one_is_not_installed() {
    let cmd = command(scripted("https://h/x.bin", Some("beef")), &[]);
    let verifying = || CommandStage::Verifying("/s/artifacts/x.bin".to_string());
    let e = complaint(&cmd, verifying(), CommandEvent::ArtifactRead(Some(b"abc".to_vec())));
    assert!(e.starts_with("sha256 mismatch: expected beef, got ba7816bf"));
    let (stage, _) = go(&cmd, verifying(), CommandEvent::ArtifactRead(None));
    assert!(matches!(stage, CommandStage::LookingAround(Some(path)) if path == "/s/artifacts/x.bin"));
    let unsigned = command(scripted("https://h/x.bin", None), &[]);
    let fetching = CommandStage::Fetching("/s/artifacts/x.bin".to_string());
    let (_, action) = go(&unsigned, fetching, CommandEvent::Done);
    assert!(matches!(action, CommandAction::LookAround));
    let foreign = command(scripted("ftp://h/x.bin", None), &[]);
    assert_eq!(
        complaint(&foreign, CommandStage::MakingRoom, CommandEvent::Done),
        "unsupported artifact scheme: ftp"
    );
}

#[test]
fn a_command_fails_with_what_fails() {
    let cmd = command(scripted("https://h/x.bin", None), &["one"]);
    let e = complaint(
        &cmd,
        CommandStage::MakingRoom,
        CommandEvent::Failed("disk full".to_string()),
    );
    assert_eq!(e, "disk full");
    let looking = CommandStage::LookingAround(Some("/a".to_string()));
    let (stage, _) = go(&cmd, looking, found());
    let (stage, _) = go(&cmd, stage, CommandEvent::Done);
    let (stage, _) = go(&cmd, stage, CommandEvent::Done);
    let e = complaint(&cmd, stage, CommandEvent::Probed(Err("not ready".to_string())));
    assert_eq!(e, "not ready");
    let cmd = command(nix(), &[]);
    let mut blind = around();
    blind.system_path = Err("no system".to_string());
    let e = complaint(
        &cmd,
        CommandStage::LookingAround(None),
        CommandEvent::Found(LocalState::default(), blind),
    );
    assert_eq!(e, "no system");
}

#[test]
fn a_generation_is_deferred_to_the_next_start() {
    let cmd = command(nix(), &["one"]);
    let (stage, action) = execute_command(&cmd, "/s");
    assert!(matches!(action, CommandAction::LookAround));
    let (stage, action) = go(&cmd, stage, found());
    assert!(matches!(action, CommandAction::Perform(steps) if steps.len() == 2));
    let (stage, action) = go(&cmd, stage, CommandEvent::Done);
    assert!(matches!(action, CommandAction::ReadSystem(p) if p == "/s/nix-generation-c-1.json"));
    let (stage, action) = go(
        &cmd,
        stage,
        CommandEvent::SystemRead(Some("/nix/store/new".to_string())),
    );
    let CommandAction::Save(stored) = action else {
        panic!("nothing was stored before the activation");
    };
    let stored = stored.pending_boot.unwrap();
    assert_eq!(stored.previous_system_path.as_deref(), Some("/nix/store/old"));
    assert_eq!(stored.expected_system_path.as_deref(), Some("/nix/store/new"));
    assert_eq!(stored.deadline, Timestamp { secs: 160, nanos: 0 });
    assert!(matches!(
        stored.rollback_action,
        Some(RollbackAction::NixGeneration { previous_system_path }) if previous_system_path == "/nix/store/old"
    ));
    let (stage, action) = go(&cmd, stage, CommandEvent::Done);
    assert!(matches!(action, CommandAction::Perform(steps) if steps.len() == 3));
    let CommandNext::End(Ok(CommandExecution::Deferred { state })) =
        next(&cmd, stage, CommandEvent::Done)
    else {
        panic!("expected a deferral");
    };
    let pending = state.pending_boot.unwrap();
    assert_eq!(pending.expected_system_path.as_deref(), Some("/nix/store/new"));
    assert_eq!(pending.deadline, Timestamp { secs: 160, nanos: 0 });
    let (stage, _) = go(&cmd, CommandStage::LookingAround(None), found());
    let (stage, _) = go(&cmd, stage, CommandEvent::Done);
    assert_eq!(
        complaint(&cmd, stage, CommandEvent::SystemRead(None)),
        "reading nix-generation metadata for command c-1"
    );
}

#[test]
fn a_command_without_checks_is_completed_by_its_activation() {
    let cmd = command(ExecutorSpec::Noop, &[]);
    let (stage, _) = execute_command(&cmd, "/s");
    let (stage, action) = go(&cmd, stage, found());
    assert!(matches!(action, CommandAction::Perform(steps) if steps.is_empty()));
    let (stage, _) = go(&cmd, stage, CommandEvent::Done);
    assert!(matches!(
        next(&cmd, stage, CommandEvent::Done),
        CommandNext::End(Ok(CommandExecution::Completed { .. }))
    ));
}

#[test]
fn events_that_are_not_due_lead_nowhere() {
    let advance = |cmd: &CommandRecord, stage: CommandStage, event: CommandEvent| {
        advance_command(cmd, "/s", &programs(), stage, event)
    };
    let cmd = command(nix(), &[]);
    assert!(advance(&cmd, CommandStage::LookingAround(None), CommandEvent::Done).is_none());
    assert!(advance(&cmd, CommandStage::MakingRoom, CommandEvent::Done).is_none());
    assert!(advance(&cmd, CommandStage::LookingAround(None), found()).is_some());
    let mut endless = command(nix(), &[]);
    endless.manifest.validation.timeout_seconds = 9_000_000_000_000_000;
    for (cmd, goes_on) in [(&cmd, true), (&endless, false)] {
        let (stage, _) = go(cmd, CommandStage::LookingAround(None), found());
        let (stage, _) = go(cmd, stage, CommandEvent::Done);
        let system = CommandEvent::SystemRead(Some("/nix/store/new".to_string()));
        assert_eq!(advance(cmd, stage, system).is_some(), goes_on);
    }
}

fn with_slots() -> ExecutorSpec {
    let slot = |name: &str, device: &str, entry: &str| GrubAbSlot {
        name: name.to_string(),
        device: device.to_string(),
        grub_menu_entry: entry.to_string(),
    };
    ExecutorSpec::GrubAb(GrubAbExecutorSpec {
        artifact: ArtifactSource {
            url: "https://h/x.img".to_string(),
            sha256: None,
            headers: TextMap::new(),
        },
        slot_pair: Some(["A".to_string(), "B".to_string()]),
        slots: Some([slot("A", "/dev/a", "entry-a"), slot("B", "/dev/b", "entry-b")]),
        boot_control: Some(GrubAbBootControl {
            authority_device: "/dev/a".to_string(),
            mountpoint: "/mnt".to_string(),
            grubenv_relpath: "grubenv".to_string(),
        }),
        compression: GrubAbCompression::Uncompressed,
        activate_command: None,
    })
}

fn on_first_slot() -> CommandEvent {
    let device = |path: &str| Device {
        path: path.to_string(),
        canonical: Ok(path.to_string()),
    };
    let mut found = around();
    found.devices =
        Devices { root: Ok(device("/dev/a")), first: device("/dev/a"), second: device("/dev/b") };
    found.root_device = Ok("/dev/a".to_string());
    CommandEvent::Found(LocalState::default(), found)
}

#[test]
fn a_slot_is_activated_once_it_is_installed() {
    let cmd = command(with_slots(), &[]);
    let activating = || {
        let looking = CommandStage::LookingAround(Some("/s/artifacts/x.img".to_string()));
        let (stage, action) = go(&cmd, looking, on_first_slot());
        assert!(matches!(action, CommandAction::Perform(steps) if steps.len() == 1));
        go(&cmd, stage, CommandEvent::Done)
    };
    let (stage, action) = activating();
    assert!(matches!(
        action,
        CommandAction::Perform(steps) if matches!(&steps[..], [Step::SetSavedEntry(_), Step::Run(_)])
    ));
    let CommandNext::End(Ok(CommandExecution::Deferred { state })) =
        next(&cmd, stage, CommandEvent::Done)
    else {
        panic!("expected a deferral");
    };
    let pending = state.pending_boot.unwrap();
    assert_eq!(pending.expected_active_slot.as_deref(), Some("B"));
    assert_eq!(pending.previous_active_slot.as_deref(), Some("A"));
    assert_eq!(pending.previous_root_device.as_deref(), Some("/dev/a"));
    assert!(matches!(
        pending.rollback_action,
        Some(RollbackAction::GrubAb { previous_grub_menu_entry, .. }) if previous_grub_menu_entry == "entry-a"
    ));
    let (stage, _) = activating();
    let e = complaint(&cmd, stage, CommandEvent::Failed("mount failed".to_string()));
    assert_eq!(e, "mount failed");
}

#[test]
fn an_activation_that_fails_leaves_what_was_known_before() {
    let cmd = command(nix(), &[]);
    let securing = || {
        let (stage, _) = go(&cmd, CommandStage::LookingAround(None), found());
        let (stage, _) = go(&cmd, stage, CommandEvent::Done);
        let system = CommandEvent::SystemRead(Some("/nix/store/new".to_string()));
        go(&cmd, stage, system).0
    };
    let e = complaint(&cmd, securing(), CommandEvent::Failed("disk full".to_string()));
    assert_eq!(e, "disk full");
    for end in [CommandEvent::Done, CommandEvent::Failed("disk full".to_string())] {
        let (stage, _) = go(&cmd, securing(), CommandEvent::Done);
        let (stage, action) =
            go(&cmd, stage, CommandEvent::Failed("systemctl reboot failed".to_string()));
        assert!(matches!(action, CommandAction::Save(state) if state.pending_boot.is_none()));
        assert_eq!(complaint(&cmd, stage, end), "systemctl reboot failed");
    }
}

#[test]
fn a_release_without_a_new_start_is_held_to_all_that_it_expects() {
    let mut cmd = command(scripted("https://h/x.bin", None), &["one"]);
    cmd.manifest.validation.expected_hostname = Some("node-1".to_string());
    cmd.manifest.validation.expected_system_path = Some("/nix/store/x".to_string());
    let activated = || {
        let looking = CommandStage::LookingAround(Some("/a".to_string()));
        let (stage, _) = go(&cmd, looking, found());
        let (stage, _) = go(&cmd, stage, CommandEvent::Done);
        go(&cmd, stage, CommandEvent::Done)
    };
    let (stage, action) = activated();
    assert!(matches!(action, CommandAction::Probe(Probe::SystemPath(p)) if p == "/nix/store/x"));
    let (stage, action) = go(&cmd, stage, CommandEvent::Probed(Ok(())));
    assert!(matches!(action, CommandAction::Probe(Probe::Hostname(n)) if n == "node-1"));
    let (stage, action) = go(&cmd, stage, CommandEvent::Probed(Ok(())));
    assert!(matches!(action, CommandAction::Probe(Probe::Command(c)) if c.command == "one"));
    assert!(matches!(
        next(&cmd, stage, CommandEvent::Probed(Ok(()))),
        CommandNext::End(Ok(CommandExecution::Completed { .. }))
    ));
    let wrong = || CommandEvent::Probed(Err("mismatch".to_string()));
    let (stage, _) = activated();
    assert_eq!(complaint(&cmd, stage, wrong()), "mismatch");
    let (stage, _) = activated();
    let (stage, _) = go(&cmd, stage, CommandEvent::Probed(Ok(())));
    assert_eq!(complaint(&cmd, stage, wrong()), "mismatch");
}
