use noda::agent::validation::Progress;
use noda::executors::course::{next_for_entry, next_step, EntryProgress};
use noda::executors::grub_ab::{
    detect_active_slot, normalize_relpath, ordered_slots, prepare_image, resolve_compression,
    rollback_action, root_device_in, same_device, write_saved_entry, BootAuthorityMount, Device,
    Devices, GrubAbExecutor,
};
use noda::executors::nix_generation::{built_system, metadata_path, NixGenerationExecutor};
use noda::executors::noop::NoopExecutor;
use noda::executors::plan::{
    run_shell, ProgramCall, ProgramOverrides, Programs, RunOutcome, SavedEntry, Step,
};
use noda::executors::scripted::ScriptedExecutor;
use noda::executors::{
    artifact_path, artifact_source, build, detect_current_slot, rollback_grub_ab,
    rollback_nix_generation, shell_env, ActivationOutcome, ExecutionContext, Executor,
    ReleaseExecutor, RollbackAction,
};
use noda::text_map::TextMap;
use noda::types::{
    ArtifactSource, ExecutorSpec, GrubAbBootControl, GrubAbCompression, GrubAbExecutorSpec,
    GrubAbSlot, NixGenerationExecutorSpec, NixGenerationSource, ReleaseManifest, RollbackPolicy,
    ScriptedExecutorSpec, ValidationSpec,
};

fn spec() -> GrubAbExecutorSpec {
    GrubAbExecutorSpec {
        artifact: ArtifactSource {
            url: "file:///tmp/image.ext4.zst".to_string(),
            sha256: None,
            headers: TextMap::new(),
        },
        slot_pair: Some(["A".to_string(), "B".to_string()]),
        slots: Some([
            GrubAbSlot {
                name: "A".to_string(),
                device: "/dev/disk/by-partlabel/root-a".to_string(),
                grub_menu_entry: "noda-slot-a".to_string(),
            },
            GrubAbSlot {
                name: "B".to_string(),
                device: "/dev/disk/by-partlabel/root-b".to_string(),
                grub_menu_entry: "noda-slot-b".to_string(),
            },
        ]),
        boot_control: Some(GrubAbBootControl {
            authority_device: "/dev/disk/by-partlabel/root-a".to_string(),
            mountpoint: "/mnt/noda-bootctl".to_string(),
            grubenv_relpath: "/boot/grub/grubenv".to_string(),
        }),
        compression: GrubAbCompression::Auto,
        activate_command: None,
    }
}

fn scripted(activate: Option<&str>) -> ExecutorSpec {
    ExecutorSpec::Scripted(ScriptedExecutorSpec {
        artifact: ArtifactSource {
            url: "https://example.com/update.tar.gz".to_string(),
            sha256: None,
            headers: TextMap::new(),
        },
        install_command: "install \"$ARTIFACT_PATH\"".to_string(),
        activate_command: activate.map(|a| a.to_string()),
    })
}

fn nix(source: NixGenerationSource) -> ExecutorSpec {
    ExecutorSpec::NixGeneration(NixGenerationExecutorSpec { source })
}

fn store() -> ExecutorSpec {
    nix(NixGenerationSource::CopyFromStore {
        copy_from: "ssh://b".to_string(),
        store_path: "/nix/store/x".to_string(),
    })
}

fn context(executor: ExecutorSpec) -> ExecutionContext {
    ExecutionContext {
        command_id: "c-1".to_string(),
        artifact_path: Some("/var/lib/noda/artifacts/image.ext4.zst".to_string()),
        current_slot: "A".to_string(),
        next_slot: "B".to_string(),
        manifest: ReleaseManifest {
            target_type: "t".to_string(),
            executor,
            validation: ValidationSpec {
                expected_hostname: None,
                expected_system_path: None,
                timeout_seconds: 900,
                health_checks: Vec::new(),
            },
            rollback: RollbackPolicy::default(),
            labels: TextMap::new(),
        },
        release_version: "2.4.1".to_string(),
        state_dir: "/var/lib/noda".to_string(),
    }
}

fn programs() -> Programs {
    Programs::with_overrides(ProgramOverrides {
        grub_editenv: None,
        reboot: None,
        dd: None,
        zstd: None,
        mount: None,
        umount: None,
    })
}

fn line(call: &ProgramCall) -> String {
    format!("{} {}", call.program, call.args.join(" "))
}

fn told(step: &Step) -> String {
    match step {
        Step::Run(call) => line(call),
        Step::CreateDirs(dir) => format!("mkdir {dir}"),
        Step::CopyFile(copy) => format!("copy {} {}", copy.from, copy.to),
        Step::WriteFile(file) => format!("write {} {}", file.path, file.contents),
        Step::SetSavedEntry(saved) => format!("entry {}", saved.entry),
        Step::BuildSystem(build) => format!("{} > {}", line(&build.call), build.metadata_path),
        Step::SaveSystem(record) => format!("{} > {}", record.system_path, record.metadata_path),
        Step::Fail(complaint) => format!("fail {complaint}"),
    }
}

fn all(steps: &[Step]) -> Vec<String> {
    steps.iter().map(told).collect()
}

fn device(path: &str, canonical: Result<&str, &str>) -> Device {
    Device {
        path: path.to_string(),
        canonical: canonical.map(|c| c.to_string()).map_err(|e| e.to_string()),
    }
}

fn devices(root: Result<&str, &str>) -> Devices {
    Devices {
        root: match root {
            Ok(canonical) => Ok(device("/dev/root", Ok(canonical))),
            Err(complaint) => Err(complaint.to_string()),
        },
        first: device("/dev/disk/by-partlabel/root-a", Ok("/dev/sda2")),
        second: device("/dev/disk/by-partlabel/root-b", Ok("/dev/sda3")),
    }
}

#[test]
fn rollback_action_uses_current_slot_entry() {
    let action = rollback_action(&spec(), "A").expect("rollback action");
    let RollbackAction::GrubAb {
        authority_device,
        mountpoint,
        grubenv_relpath,
        previous_grub_menu_entry,
    } = action
    else {
        panic!("expected grub rollback action");
    };
    assert_eq!(authority_device, "/dev/disk/by-partlabel/root-a");
    assert_eq!(mountpoint, "/mnt/noda-bootctl");
    assert_eq!(grubenv_relpath, "/boot/grub/grubenv");
    assert_eq!(previous_grub_menu_entry, "noda-slot-a");
}

#[test]
fn auto_compression_detects_zstd() {
    let resolved = resolve_compression(&spec(), "/tmp/rootfs.ext4.zst");
    assert!(matches!(resolved, GrubAbCompression::Zstd));
}

#[test]
fn compression_goes_by_the_name_only_where_it_is_not_given() {
    let mut s = spec();
    assert_eq!(resolve_compression(&s, "/tmp/x.ZST"), GrubAbCompression::Zstd);
    assert_eq!(resolve_compression(&s, "/tmp/x.ext4"), GrubAbCompression::Uncompressed);
    assert_eq!(resolve_compression(&s, "/tmp/.zst"), GrubAbCompression::Uncompressed);
    s.compression = GrubAbCompression::Uncompressed;
    assert_eq!(resolve_compression(&s, "/tmp/x.zst"), GrubAbCompression::Uncompressed);
    s.compression = GrubAbCompression::Zstd;
    assert_eq!(resolve_compression(&s, "/tmp/x"), GrubAbCompression::Zstd);
}

#[test]
fn rollback_needs_slots_boot_control_and_a_known_slot() {
    let mut s = spec();
    assert_eq!(rollback_action(&s, "C").unwrap_err(), "unknown current grub_ab slot: C");
    s.boot_control = None;
    assert_eq!(
        rollback_action(&s, "A").unwrap_err(),
        "grub_ab.boot_control is required for rollback"
    );
    s.slots = None;
    assert_eq!(rollback_action(&s, "A").unwrap_err(), "grub_ab.slots is required for rollback");
    let none = noda::executors::rollback_action(&ExecutorSpec::GrubAb(s), "A", None).unwrap();
    assert!(none.is_none());
}

#[test]
fn rollback_of_other_executors() {
    let action =
        noda::executors::rollback_action(&store(), "A", Some("/nix/store/old".to_string()))
            .unwrap()
            .unwrap();
    let RollbackAction::NixGeneration { previous_system_path } = action else {
        panic!("expected a system");
    };
    assert_eq!(previous_system_path, "/nix/store/old");
    assert!(noda::executors::rollback_action(&store(), "A", None).unwrap().is_none());
    assert!(noda::executors::rollback_action(&ExecutorSpec::Noop, "A", None).unwrap().is_none());
    assert!(noda::executors::rollback_action(&scripted(None), "A", None).unwrap().is_none());
}

#[test]
fn the_running_slot_is_found_by_its_device() {
    assert_eq!(detect_active_slot(&spec(), &devices(Ok("/dev/sda2"))).unwrap(), "A");
    assert_eq!(detect_active_slot(&spec(), &devices(Ok("/dev/sda3"))).unwrap(), "B");
    assert_eq!(
        detect_active_slot(&spec(), &devices(Ok("/dev/sdz9"))).unwrap_err(),
        "active root device /dev/root does not match any grub_ab slot device"
    );
    assert_eq!(detect_active_slot(&spec(), &devices(Err("no findmnt"))).unwrap_err(), "no findmnt");
    let mut s = spec();
    s.slots = None;
    assert_eq!(
        detect_active_slot(&s, &devices(Ok("/dev/sda2"))).unwrap_err(),
        "grub_ab.slots is required for active slot detection"
    );
    let grub = ExecutorSpec::GrubAb(s);
    assert_eq!(detect_current_slot(&grub, &devices(Ok("/dev/sda2"))).unwrap(), None);
    let grub = ExecutorSpec::GrubAb(spec());
    assert_eq!(
        detect_current_slot(&grub, &devices(Ok("/dev/sda3"))).unwrap().as_deref(),
        Some("B")
    );
    assert_eq!(detect_current_slot(&ExecutorSpec::Noop, &devices(Err("x"))).unwrap(), None);
    let mut broken = devices(Ok("/dev/sda3"));
    broken.first = device("a", Err("gone"));
    assert_eq!(detect_active_slot(&spec(), &broken).unwrap_err(), "gone");
}

#[test]
fn devices_are_the_same_by_where_their_links_lead() {
    let a = device("/dev/x", Ok("/dev/sda"));
    let b = device("/dev/y", Ok("/dev/sda"));
    let c = device("/dev/x", Ok("/dev/sdb"));
    assert!(same_device(&a, &b).unwrap());
    assert!(!same_device(&a, &c).unwrap());
    assert_eq!(same_device(&device("l", Err("left")), &device("r", Err("right"))).unwrap_err(), "left");
    assert_eq!(same_device(&a, &device("r", Err("right"))).unwrap_err(), "right");
    assert_eq!(root_device_in("/dev/sda2\n").unwrap(), "/dev/sda2");
    assert_eq!(
        root_device_in(" \n").unwrap_err(),
        "findmnt did not return a current root device"
    );
}

#[test]
fn slots_are_ordered() {
    let s = spec();
    let slots = s.slots.as_ref().unwrap();
    let (current, next) = ordered_slots(slots, "B", "A").unwrap();
    assert_eq!(current.name, "B");
    assert_eq!(next.name, "A");
    assert_eq!(ordered_slots(slots, "X", "A").unwrap_err(), "unknown current grub_ab slot: X");
    assert_eq!(ordered_slots(slots, "A", "X").unwrap_err(), "unknown next grub_ab slot: X");
}

#[test]
fn an_image_is_decompressed_where_it_has_to_be() {
    let image = prepare_image(&spec(), "/a/i.zst", "/s", &programs());
    assert_eq!(image.path, "/s/artifacts/grub-ab-image.ext4");
    assert_eq!(
        all(&image.steps),
        vec!["mkdir /s/artifacts", "zstd -d -f /a/i.zst -o /s/artifacts/grub-ab-image.ext4"]
    );
    let Step::Run(call) = &image.steps[1] else {
        panic!("expected a program");
    };
    assert_eq!(call.context, "running zstd to decompress /a/i.zst");
    assert_eq!(call.failure, "zstd decompression failed for /a/i.zst");
    let image = prepare_image(&spec(), "/a/i.ext4", "/s", &programs());
    assert_eq!(image.path, "/a/i.ext4");
    assert!(image.steps.is_empty());
}

#[test]
fn a_release_with_slots_goes_to_the_other_slot() {
    let mut s = spec();
    s.activate_command = Some("sync".to_string());
    let ctx = context(ExecutorSpec::GrubAb(s));
    let steps = GrubAbExecutor.install(&ctx, &programs()).unwrap();
    assert_eq!(
        all(&steps)[2],
        "dd if=/var/lib/noda/artifacts/grub-ab-image.ext4 of=/dev/disk/by-partlabel/root-b \
         bs=16M conv=fsync status=none"
    );
    let Step::Run(call) = &steps[2] else {
        panic!("expected a program");
    };
    assert_eq!(
        call.failure,
        "dd failed while writing /var/lib/noda/artifacts/grub-ab-image.ext4 to \
         /dev/disk/by-partlabel/root-b"
    );
    let activation = GrubAbExecutor.activate(&ctx, &programs(), None).unwrap();
    assert_eq!(all(&activation.steps), vec!["entry noda-slot-b", "sh -lc sync", "systemctl reboot"]);
    let ActivationOutcome::AwaitReboot(pending) = activation.outcome else {
        panic!("expected a reboot");
    };
    assert_eq!(pending.expected_active_slot.as_deref(), Some("B"));
    assert_eq!(
        pending.expected_root_device.as_deref(),
        Some("/dev/disk/by-partlabel/root-b")
    );
    assert_eq!(pending.expected_system_path, None);
}

#[test]
fn releases_with_slots_that_cannot_be_installed() {
    let mut ctx = context(ExecutorSpec::GrubAb(spec()));
    ctx.artifact_path = None;
    assert_eq!(
        GrubAbExecutor.install(&ctx, &programs()).unwrap_err(),
        "grub-ab requires a downloaded artifact path"
    );
    ctx.current_slot = "X".to_string();
    assert_eq!(
        GrubAbExecutor.install(&ctx, &programs()).unwrap_err(),
        "unknown current grub_ab slot: X"
    );
    let mut s = spec();
    s.boot_control = None;
    let ctx = context(ExecutorSpec::GrubAb(s));
    assert_eq!(
        GrubAbExecutor.activate(&ctx, &programs(), None).unwrap_err(),
        "grub_ab.boot_control is required when grub_ab.slots is configured"
    );
    let ctx = context(ExecutorSpec::Noop);
    assert_eq!(
        GrubAbExecutor.install(&ctx, &programs()).unwrap_err(),
        "executor mismatch: expected grub-ab"
    );
    assert_eq!(
        NixGenerationExecutor.install(&ctx, &programs()).unwrap_err(),
        "executor mismatch: expected nix-generation"
    );
    assert_eq!(
        ScriptedExecutor.install(&ctx, &programs()).unwrap_err(),
        "executor mismatch: expected scripted"
    );
}

#[test]
fn a_release_without_slots_is_copied() {
    let mut s = spec();
    s.slots = None;
    let mut ctx = context(ExecutorSpec::GrubAb(s.clone()));
    assert_eq!(
        all(&GrubAbExecutor.install(&ctx, &programs()).unwrap()),
        vec![
            "mkdir /var/lib/noda/slots",
            "copy /var/lib/noda/artifacts/image.ext4.zst /var/lib/noda/slots/slot-B-2.4.1"
        ]
    );
    let activation = GrubAbExecutor.activate(&ctx, &programs(), None).unwrap();
    assert_eq!(all(&activation.steps), vec!["write /var/lib/noda/next-boot-slot B"]);
    assert!(matches!(activation.outcome, ActivationOutcome::Complete));
    ctx.artifact_path = None;
    assert_eq!(
        all(&GrubAbExecutor.install(&ctx, &programs()).unwrap())[1],
        "fail grub-ab requires a downloaded artifact path"
    );
    s.activate_command = Some("flip".to_string());
    let ctx = context(ExecutorSpec::GrubAb(s));
    let activation = GrubAbExecutor.activate(&ctx, &programs(), None).unwrap();
    assert_eq!(all(&activation.steps), vec!["sh -lc flip"]);
}

fn saved() -> SavedEntry {
    SavedEntry { boot_control: spec().boot_control.unwrap(), entry: "noda-slot-b".to_string() }
}

#[test]
fn the_menu_entry_is_saved_where_the_boot_loader_looks() {
    let authority = Ok("/dev/sda2".to_string());
    let live = write_saved_entry(
        &saved(),
        &authority,
        &Some("/dev/sda2".to_string()),
        "/",
        &programs(),
    )
    .unwrap();
    assert!(live.before.is_empty());
    assert!(live.after.is_none());
    assert_eq!(line(&live.set), "grub-editenv /boot/grub/grubenv set saved_entry=noda-slot-b");
    assert_eq!(live.set.context, "running grub-editenv for /boot/grub/grubenv");
    let other = write_saved_entry(
        &saved(),
        &authority,
        &Some("/dev/sda3".to_string()),
        "/",
        &programs(),
    )
    .unwrap();
    assert_eq!(
        all(&other.before),
        vec!["mkdir /mnt/noda-bootctl", "mount /dev/sda2 /mnt/noda-bootctl"]
    );
    assert_eq!(
        line(&other.set),
        "grub-editenv /mnt/noda-bootctl/boot/grub/grubenv set saved_entry=noda-slot-b"
    );
    assert_eq!(line(&other.after.unwrap()), "umount /mnt/noda-bootctl");
    let unknown = write_saved_entry(&saved(), &authority, &None, "/", &programs()).unwrap();
    assert!(unknown.after.is_some());
    let e = write_saved_entry(&saved(), &Err("gone".to_string()), &None, "/", &programs())
        .unwrap_err();
    assert_eq!(e, "gone");
}

#[test]
fn the_environment_of_the_boot_loader_lies_under_the_root() {
    let at = |root: &str| {
        BootAuthorityMount {
            root: root.to_string(),
            grubenv_relpath: normalize_relpath("//boot/grubenv"),
            mounted: false,
        }
        .grubenv_path()
    };
    assert_eq!(at("/"), "/boot/grubenv");
    assert_eq!(at("//"), "/boot/grubenv");
    assert_eq!(at("/tmp/live"), "/tmp/live/boot/grubenv");
    assert_eq!(at("/tmp/live/"), "/tmp/live/boot/grubenv");
    let control = spec().boot_control.unwrap();
    let live = BootAuthorityMount::open(
        &control,
        "/dev/sda2",
        &Some("/dev/sda2".to_string()),
        "/tmp/live",
    );
    assert_eq!(live.root, "/tmp/live");
    assert!(!live.mounted);
}

#[test]
fn releases_are_taken_back() {
    assert_eq!(
        all(&rollback_grub_ab("/dev/a", "/mnt", "grubenv", "old", &programs())),
        vec!["entry old", "systemctl reboot"]
    );
    let steps = rollback_nix_generation("/nix/store/old");
    assert_eq!(
        all(&steps),
        vec![
            "nix-env -p /nix/var/nix/profiles/system --set /nix/store/old",
            "/nix/store/old/bin/switch-to-configuration boot",
            "systemctl reboot"
        ]
    );
    let complaints: Vec<(String, String)> = steps
        .iter()
        .map(|s| match s {
            Step::Run(call) => (call.context.clone(), call.failure.clone()),
            _ => panic!("expected a program"),
        })
        .collect();
    assert_eq!(
        complaints[0].1,
        "nix-env --set failed for rollback target /nix/store/old"
    );
    assert_eq!(complaints[1].0, "running /nix/store/old/bin/switch-to-configuration");
    assert_eq!(complaints[2].1, "systemctl reboot failed during rollback");
}

#[test]
fn a_generation_is_copied_or_built() {
    let ctx = context(store());
    assert_eq!(metadata_path(&ctx), "/var/lib/noda/nix-generation-c-1.json");
    assert_eq!(
        all(&NixGenerationExecutor.install(&ctx, &programs()).unwrap()),
        vec![
            "nix copy --from ssh://b /nix/store/x",
            "/nix/store/x > /var/lib/noda/nix-generation-c-1.json"
        ]
    );
    let flake = context(nix(NixGenerationSource::BuildFlake {
        flake: "/home/node".to_string(),
        flake_attr: "packages.system".to_string(),
    }));
    assert_eq!(
        all(&NixGenerationExecutor.install(&flake, &programs()).unwrap()),
        vec![
            "nix build --no-link --print-out-paths /home/node#packages.system > \
             /var/lib/noda/nix-generation-c-1.json"
        ]
    );
    assert_eq!(built_system("/nix/store/y\n"), "/nix/store/y");
}

#[test]
fn a_generation_is_activated_by_its_path() {
    let ctx = context(store());
    let activation = NixGenerationExecutor
        .activate(&ctx, &programs(), Some("/nix/store/x".to_string()))
        .unwrap();
    assert_eq!(activation.steps.len(), 3);
    let Step::Run(call) = &activation.steps[2] else {
        panic!("expected a program");
    };
    assert_eq!(call.context, "requesting reboot via systemctl");
    let ActivationOutcome::AwaitReboot(pending) = activation.outcome else {
        panic!("expected a reboot");
    };
    assert_eq!(pending.expected_system_path.as_deref(), Some("/nix/store/x"));
    assert_eq!(pending.expected_active_slot, None);
    assert_eq!(
        NixGenerationExecutor.activate(&ctx, &programs(), None).unwrap_err(),
        "reading nix-generation metadata for command c-1"
    );
}

#[test]
fn commands_find_the_release_in_their_environment() {
    let ctx = context(scripted(Some("restart")));
    let steps = ScriptedExecutor.install(&ctx, &programs()).unwrap();
    let Step::Run(call) = &steps[0] else {
        panic!("expected a program");
    };
    assert_eq!(call.program, "sh");
    assert_eq!(call.args, vec!["-lc", "install \"$ARTIFACT_PATH\""]);
    let var = |k: &str| call.env.get(k).cloned().unwrap();
    assert_eq!(var("ARTIFACT_PATH"), "/var/lib/noda/artifacts/image.ext4.zst");
    assert_eq!(var("ARTIFACT_URL"), "https://example.com/update.tar.gz");
    assert_eq!(var("CURRENT_SLOT"), "A");
    assert_eq!(var("NEXT_SLOT"), "B");
    assert_eq!(var("RELEASE_VERSION"), "2.4.1");
    assert_eq!(var("STATE_DIR"), "/var/lib/noda");
    assert_eq!(call.env.len(), 6);
    let extra = vec![
        ("NEXT_SLOT".to_string(), "C".to_string()),
        ("MORE".to_string(), "m".to_string()),
    ];
    let env = shell_env(&ctx, &extra);
    assert_eq!(env.get("NEXT_SLOT").unwrap(), "C");
    assert_eq!(env.get("MORE").unwrap(), "m");
    let activation = ScriptedExecutor.activate(&ctx, &programs(), None).unwrap();
    assert_eq!(all(&activation.steps), vec!["sh -lc restart"]);
    let quiet = context(scripted(None));
    assert!(ScriptedExecutor.activate(&quiet, &programs(), None).unwrap().steps.is_empty());
    let mut bare = context(ExecutorSpec::Noop);
    bare.artifact_path = None;
    let env = shell_env(&bare, &Vec::new());
    assert_eq!(env.get("ARTIFACT_PATH").unwrap(), "");
    assert_eq!(env.get("ARTIFACT_URL").unwrap(), "");
    assert!(artifact_path(&bare).is_none());
    assert!(artifact_source(&bare.manifest.executor).is_none());
}

#[test]
fn programs_are_judged_by_how_they_end() {
    let call = run_shell("false", TextMap::new());
    assert!(call.judge(RunOutcome::Succeeded).is_ok());
    assert_eq!(call.judge(RunOutcome::Failed).unwrap_err(), "command failed: false");
    assert_eq!(
        call.judge(RunOutcome::NotStarted).unwrap_err(),
        "running shell command: false"
    );
    let changed = Programs::with_overrides(ProgramOverrides {
        grub_editenv: Some("/fake/grub-editenv".to_string()),
        reboot: None,
        dd: None,
        zstd: None,
        mount: None,
        umount: None,
    });
    assert_eq!(changed.grub_editenv, "/fake/grub-editenv");
    assert_eq!(changed.reboot, "systemctl");
}

#[test]
fn executors_are_chosen_by_the_release() {
    assert!(matches!(build(&ExecutorSpec::Noop), ReleaseExecutor::Noop(_)));
    assert!(matches!(build(&scripted(None)), ReleaseExecutor::Scripted(_)));
    assert!(matches!(build(&ExecutorSpec::GrubAb(spec())), ReleaseExecutor::GrubAb(_)));
    assert!(matches!(build(&store()), ReleaseExecutor::NixGeneration(_)));
    let ctx = context(ExecutorSpec::Noop);
    let executor = build(&ctx.manifest.executor);
    assert!(executor.install(&ctx, &programs()).unwrap().is_empty());
    let activation = executor.activate(&ctx, &programs(), None).unwrap();
    assert!(matches!(activation.outcome, ActivationOutcome::Complete));
    assert!(NoopExecutor.install(&ctx, &programs()).unwrap().is_empty());
}

fn ok() -> Result<(), String> {
    Ok(())
}

fn err() -> Result<(), String> {
    Err("broken".to_string())
}

#[test]
fn steps_are_taken_up_to_the_first_that_fails() {
    let steps = rollback_nix_generation("/nix/store/old");
    assert!(matches!(next_step(&steps, &vec![]), Progress::Next(0)));
    assert!(matches!(next_step(&steps, &vec![ok()]), Progress::Next(1)));
    assert!(matches!(next_step(&steps, &vec![ok(), ok()]), Progress::Next(2)));
    assert!(matches!(next_step(&steps, &vec![ok(), ok(), ok()]), Progress::Passed));
    for outcomes in [vec![err()], vec![ok(), err()], vec![ok(), ok(), err()]] {
        assert!(matches!(next_step(&steps, &outcomes), Progress::Failed(m) if m == "broken"));
    }
    let steps = rollback_grub_ab("/dev/a", "/mnt", "grubenv", "old", &programs());
    assert!(matches!(next_step(&steps, &vec![ok()]), Progress::Next(1)));
    assert!(matches!(next_step(&steps, &vec![err()]), Progress::Failed(m) if m == "broken"));
    assert!(matches!(next_step(&steps, &vec![ok(), ok()]), Progress::Passed));
    assert!(matches!(next_step(&vec![], &vec![]), Progress::Passed));
}

#[test]
fn a_step_that_gives_up_is_not_asked_for() {
    let steps = vec![Step::CreateDirs("/a".to_string()), Step::Fail("no artifact".to_string())];
    assert!(matches!(next_step(&steps, &vec![]), Progress::Next(0)));
    assert!(matches!(next_step(&steps, &vec![ok()]), Progress::Failed(m) if m == "no artifact"));
}

#[test]
fn a_slot_is_started_only_after_its_entry_and_command() {
    let mut grub = spec();
    grub.activate_command = Some("prepare".to_string());
    let steps =
        GrubAbExecutor.activate(&context(ExecutorSpec::GrubAb(grub)), &programs(), None).unwrap().steps;
    assert_eq!(steps.len(), 3);
    assert!(matches!(next_step(&steps, &vec![err()]), Progress::Failed(_)));
    assert!(matches!(next_step(&steps, &vec![ok(), err()]), Progress::Failed(_)));
    assert!(matches!(next_step(&steps, &vec![ok(), ok()]), Progress::Next(2)));
}

#[test]
fn a_copied_system_is_expected_once_all_steps_succeeded() {
    let ctx = context(store());
    let installed = NixGenerationExecutor.install(&ctx, &programs()).unwrap();
    let [Step::Run(_), Step::SaveSystem(record)] = &installed[..] else {
        panic!("unexpected steps: {installed:?}");
    };
    let activation =
        NixGenerationExecutor.activate(&ctx, &programs(), Some(record.system_path.clone())).unwrap();
    assert!(matches!(next_step(&activation.steps, &vec![ok(), ok(), ok()]), Progress::Passed));
    assert!(matches!(
        activation.outcome,
        ActivationOutcome::AwaitReboot(expected) if expected.expected_system_path.as_ref()
            == Some(&record.system_path)
            && expected.expected_active_slot.is_none() && expected.expected_root_device.is_none()
    ));
}

#[test]
fn a_mounted_device_is_unmounted_whatever_came_of_the_entry() {
    let authority = Ok("/dev/a".to_string());
    let root = Some("/dev/b".to_string());
    let plan = write_saved_entry(&saved(), &authority, &root, "/", &programs()).unwrap();
    assert!(matches!(next_for_entry(&plan, &vec![]), EntryProgress::Before(0)));
    assert!(matches!(next_for_entry(&plan, &vec![ok()]), EntryProgress::Before(1)));
    assert!(matches!(next_for_entry(&plan, &vec![ok(), ok()]), EntryProgress::Name));
    for set in [ok(), err()] {
        assert!(matches!(next_for_entry(&plan, &vec![ok(), ok(), set]), EntryProgress::After));
    }
    for after in [ok(), err()] {
        let outcomes = vec![ok(), ok(), ok(), after];
        assert!(matches!(next_for_entry(&plan, &outcomes), EntryProgress::Passed));
    }
    let outcomes = vec![ok(), ok(), Err("no entry".to_string()), err()];
    assert!(matches!(next_for_entry(&plan, &outcomes), EntryProgress::Failed(m) if m == "no entry"));
    assert!(matches!(
        next_for_entry(&plan, &vec![ok(), err()]),
        EntryProgress::Failed(m) if m == "broken"
    ));
    let here = Some("/dev/a".to_string());
    let plan = write_saved_entry(&saved(), &authority, &here, "/", &programs()).unwrap();
    assert!(matches!(next_for_entry(&plan, &vec![]), EntryProgress::Name));
    assert!(matches!(next_for_entry(&plan, &vec![ok()]), EntryProgress::Passed));
    assert!(matches!(next_for_entry(&plan, &vec![err()]), EntryProgress::Failed(m) if m == "broken"));
}
