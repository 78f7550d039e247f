use noda::text_map::TextMap;
use noda::types::manifest::{
    default_grubenv_relpath, default_timeout_secs, default_true, default_validation,
    default_validation_timeout_secs, judge_artifact_source, validate_artifact_source,
};
use noda::types::{
    ArtifactSource, CreateReleaseRequest, ExecutorSpec, GrubAbBootControl, GrubAbCompression,
    GrubAbExecutorSpec, GrubAbSlot, HealthCheck, HealthCheckKind, ManifestFault,
    NixGenerationExecutorSpec, NixGenerationSource, ReleaseManifest, RollbackPolicy,
    ScriptedExecutorSpec, ValidationSpec,
};

fn validation() -> ValidationSpec {
    ValidationSpec {
        expected_hostname: None,
        expected_system_path: None,
        timeout_seconds: 30,
        health_checks: Vec::new(),
    }
}

fn manifest(executor: ExecutorSpec) -> ReleaseManifest {
    ReleaseManifest {
        target_type: "edge-linux-aarch64".to_string(),
        executor,
        validation: validation(),
        rollback: RollbackPolicy::default(),
        labels: TextMap::new(),
    }
}

fn nix(source: NixGenerationSource) -> ExecutorSpec {
    ExecutorSpec::NixGeneration(NixGenerationExecutorSpec { source })
}

fn valid_nix_copy_manifest() -> ReleaseManifest {
    manifest(nix(NixGenerationSource::CopyFromStore {
        copy_from: "ssh://builder@example".to_string(),
        store_path: "/nix/store/aaaaaaaaaaaaaaaaaaaaaaaaaaaaaaaa-system".to_string(),
    }))
}

fn artifact(url: &str) -> ArtifactSource {
    ArtifactSource { url: url.to_string(), sha256: None, headers: TextMap::new() }
}

fn slot(name: &str) -> GrubAbSlot {
    GrubAbSlot {
        name: name.to_string(),
        device: format!("/dev/disk/by-partlabel/root-{}", name.to_lowercase()),
        grub_menu_entry: format!("noda-slot-{}", name.to_lowercase()),
    }
}

fn boot_control() -> GrubAbBootControl {
    GrubAbBootControl {
        authority_device: "/dev/disk/by-partlabel/root-a".to_string(),
        mountpoint: "/mnt/noda-bootctl".to_string(),
        grubenv_relpath: "/boot/grub/grubenv".to_string(),
    }
}

fn grub() -> GrubAbExecutorSpec {
    GrubAbExecutorSpec {
        artifact: artifact("file:///tmp/artifact.ext4"),
        slot_pair: Some(["A".to_string(), "B".to_string()]),
        slots: Some([slot("A"), slot("B")]),
        boot_control: Some(boot_control()),
        compression: GrubAbCompression::Auto,
        activate_command: None,
    }
}

fn scripted() -> ScriptedExecutorSpec {
    ScriptedExecutorSpec {
        artifact: artifact("https://example.com/update.tar.gz"),
        install_command: "install".to_string(),
        activate_command: None,
    }
}

fn check(kind: HealthCheckKind, command: Option<&str>, url: Option<&str>) -> HealthCheck {
    HealthCheck {
        name: "probe".to_string(),
        kind,
        command: command.map(|c| c.to_string()),
        url: url.map(|u| u.to_string()),
        contains: None,
    }
}

fn fault_of(executor: ExecutorSpec) -> (ManifestFault, String) {
    let err = manifest(executor).validate().expect_err("should be refused");
    (err.fault, err.message())
}

#[test]
fn create_release_validation_accepts_valid_nix_copy_manifest() {
    let req =
        CreateReleaseRequest { version: "1.2.3".to_string(), manifest: valid_nix_copy_manifest() };

    req.validate().expect("request should validate");
}

#[test]
fn create_release_validation_rejects_invalid_store_path() {
    let mut manifest = valid_nix_copy_manifest();
    let ExecutorSpec::NixGeneration(spec) = &mut manifest.executor else {
        panic!("expected nix_generation executor");
    };
    spec.source = NixGenerationSource::CopyFromStore {
        copy_from: "ssh://builder@example".to_string(),
        store_path: "/tmp/not-a-store-path".to_string(),
    };

    let req = CreateReleaseRequest { version: "1.2.3".to_string(), manifest };

    let err = req.validate().expect_err("request should fail validation");
    assert!(err.message().contains("/nix/store"));
}

#[test]
fn validation_spec_rejects_http_check_without_url() {
    let spec = ValidationSpec {
        expected_hostname: None,
        expected_system_path: None,
        timeout_seconds: 30,
        health_checks: vec![HealthCheck {
            name: "missing-url".to_string(),
            kind: HealthCheckKind::HttpGet,
            command: None,
            url: None,
            contains: None,
        }],
    };

    let err = spec.validate().expect_err("validation should fail");
    assert!(err.message().contains("requires url"));
}

#[test]
fn create_release_validation_rejects_mismatched_grub_slot_pair() {
    let manifest = ReleaseManifest {
        target_type: "edge-linux-x86".to_string(),
        executor: ExecutorSpec::GrubAb(GrubAbExecutorSpec {
            artifact: artifact("file:///tmp/artifact.ext4"),
            slot_pair: Some(["A".to_string(), "B".to_string()]),
            slots: Some([
                GrubAbSlot {
                    name: "B".to_string(),
                    device: "/dev/disk/by-partlabel/root-b".to_string(),
                    grub_menu_entry: "noda-slot-b".to_string(),
                },
                GrubAbSlot {
                    name: "A".to_string(),
                    device: "/dev/disk/by-partlabel/root-a".to_string(),
                    grub_menu_entry: "noda-slot-a".to_string(),
                },
            ]),
            boot_control: None,
            compression: GrubAbCompression::default(),
            activate_command: None,
        }),
        validation: ValidationSpec {
            expected_hostname: None,
            expected_system_path: None,
            timeout_seconds: default_validation_timeout_secs(),
            health_checks: Vec::new(),
        },
        rollback: RollbackPolicy::default(),
        labels: TextMap::new(),
    };

    let err = manifest.validate().expect_err("validation should fail");
    assert_eq!(err.fault, ManifestFault::SlotPairOrder);
}

#[test]
fn blank_version_and_target_type_are_refused() {
    let mut req =
        CreateReleaseRequest { version: " \t".to_string(), manifest: valid_nix_copy_manifest() };
    let err = req.validate().expect_err("blank version");
    assert_eq!(err.message(), "release version must not be empty");
    req.version = "1".to_string();
    req.manifest.target_type = "\u{3000}".to_string();
    let err = req.validate().expect_err("blank target type");
    assert_eq!(err.message(), "manifest target_type must not be empty");
}

#[test]
fn validation_faults() {
    let mut spec = validation();
    spec.timeout_seconds = 0;
    assert_eq!(spec.validate().unwrap_err().fault, ManifestFault::ZeroTimeout);
    let cases = vec![
        (check(HealthCheckKind::CommandExitZero, None, None), ManifestFault::CheckWithoutCommand),
        (check(HealthCheckKind::CommandExitZero, Some(" "), None), ManifestFault::EmptyCheckCommand),
        (check(HealthCheckKind::HttpGet, None, None), ManifestFault::CheckWithoutUrl),
        (check(HealthCheckKind::HttpGet, None, Some("nowhere")), ManifestFault::InvalidCheckUrl),
    ];
    for (bad, fault) in cases {
        let mut spec = validation();
        spec.health_checks = vec![check(HealthCheckKind::AlwaysPass, None, None), bad];
        assert_eq!(spec.validate().unwrap_err().fault, fault);
    }
    let mut spec = validation();
    spec.health_checks = vec![
        check(HealthCheckKind::AlwaysPass, None, None),
        check(HealthCheckKind::CommandExitZero, Some("true"), None),
        check(HealthCheckKind::HttpGet, None, Some("http://localhost/healthz")),
    ];
    assert!(spec.validate().is_ok());
}

#[test]
fn an_address_that_is_none_is_named_in_the_complaint() {
    let mut spec = validation();
    spec.health_checks = vec![check(HealthCheckKind::HttpGet, None, Some("nowhere"))];
    assert_eq!(spec.validate().unwrap_err().message(), "invalid health check url: nowhere");
    let err = validate_artifact_source(&artifact("also nowhere")).unwrap_err();
    assert_eq!(err.message(), "invalid artifact url: also nowhere");
    let err = validate_artifact_source(&artifact("  ")).unwrap_err();
    assert_eq!(err.message(), "artifact.url must not be empty");
    assert!(validate_artifact_source(&artifact("file:///tmp/x")).is_ok());
}

#[test]
fn what_is_wrong_apart_from_the_address() {
    let given = |url: &str, readable: bool| judge_artifact_source(&artifact(url), readable);
    assert!(given("anything", true).is_ok());
    assert_eq!(given("x", false).unwrap_err().fault, ManifestFault::InvalidArtifactUrl);
    assert_eq!(given(" ", true).unwrap_err().fault, ManifestFault::EmptyArtifactUrl);
    let get = check(HealthCheckKind::HttpGet, None, Some("x"));
    assert!(get.judge(true).is_ok());
    assert_eq!(get.judge(false).unwrap_err().message(), "invalid health check url: x");
    let run = check(HealthCheckKind::CommandExitZero, Some("true"), None);
    assert!(run.judge(false).is_ok());
    assert!(scripted().validate_commands().is_ok());
    assert!(grub().validate_layout().is_ok());
    let mut alike = grub();
    alike.slot_pair = Some(["A".to_string(), "A".to_string()]);
    assert_eq!(
        alike.validate_layout().unwrap_err().fault,
        ManifestFault::EqualSlotPairEntries
    );
}

#[test]
fn scripted_faults() {
    let mut spec = scripted();
    assert!(manifest(ExecutorSpec::Scripted(spec.clone())).validate().is_ok());
    spec.install_command = "".to_string();
    assert_eq!(
        fault_of(ExecutorSpec::Scripted(spec)).1,
        "scripted.install_command must not be empty"
    );
    let mut spec = scripted();
    spec.activate_command = Some("  ".to_string());
    assert_eq!(
        fault_of(ExecutorSpec::Scripted(spec)).0,
        ManifestFault::EmptyScriptedActivateCommand
    );
    let mut spec = scripted();
    spec.artifact.url = "".to_string();
    assert_eq!(fault_of(ExecutorSpec::Scripted(spec)).0, ManifestFault::EmptyArtifactUrl);
}

#[test]
fn grub_ab_faults() {
    assert!(manifest(ExecutorSpec::GrubAb(grub())).validate().is_ok());
    let fault = |change: &dyn Fn(&mut GrubAbExecutorSpec)| {
        let mut spec = grub();
        change(&mut spec);
        fault_of(ExecutorSpec::GrubAb(spec)).0
    };
    assert_eq!(
        fault(&|s| s.artifact.url = "nowhere".to_string()),
        ManifestFault::InvalidArtifactUrl
    );
    assert_eq!(
        fault(&|s| s.slot_pair = Some(["A".to_string(), " ".to_string()])),
        ManifestFault::EmptySlotPairEntry
    );
    assert_eq!(
        fault(&|s| s.slot_pair = Some(["A".to_string(), "A".to_string()])),
        ManifestFault::EqualSlotPairEntries
    );
    assert_eq!(fault(&|s| s.slots = Some([slot(""), slot("B")])), ManifestFault::EmptySlotName);
    assert_eq!(
        fault(&|s| {
            let mut bad = slot("B");
            bad.device = "".to_string();
            s.slots = Some([slot("A"), bad]);
        }),
        ManifestFault::EmptySlotDevice
    );
    assert_eq!(
        fault(&|s| {
            let mut bad = slot("B");
            bad.grub_menu_entry = "".to_string();
            s.slots = Some([slot("A"), bad]);
        }),
        ManifestFault::EmptySlotMenuEntry
    );
    assert_eq!(fault(&|s| s.slots = Some([slot("A"), slot("A")])), ManifestFault::EqualSlotNames);
    assert_eq!(
        fault(&|s| {
            let mut bad = slot("B");
            bad.device = slot("A").device;
            s.slots = Some([slot("A"), bad]);
        }),
        ManifestFault::EqualSlotDevices
    );
    assert_eq!(fault(&|s| s.boot_control = None), ManifestFault::MissingBootControl);
    assert_eq!(
        fault(&|s| {
            let mut bad = boot_control();
            bad.authority_device = "".to_string();
            s.boot_control = Some(bad);
        }),
        ManifestFault::EmptyAuthorityDevice
    );
    assert_eq!(
        fault(&|s| {
            let mut bad = boot_control();
            bad.mountpoint = "".to_string();
            s.boot_control = Some(bad);
        }),
        ManifestFault::EmptyMountpoint
    );
    assert_eq!(
        fault(&|s| {
            let mut bad = boot_control();
            bad.grubenv_relpath = "".to_string();
            s.boot_control = Some(bad);
        }),
        ManifestFault::EmptyGrubenvRelpath
    );
    assert_eq!(
        fault(&|s| s.activate_command = Some("".to_string())),
        ManifestFault::EmptyGrubActivateCommand
    );
}

#[test]
fn nix_faults() {
    let flake = |flake: &str, attr: &str| {
        nix(NixGenerationSource::BuildFlake {
            flake: flake.to_string(),
            flake_attr: attr.to_string(),
        })
    };
    let copy = |from: &str, path: &str| {
        nix(NixGenerationSource::CopyFromStore {
            copy_from: from.to_string(),
            store_path: path.to_string(),
        })
    };
    assert!(manifest(flake("/home/node", "packages.system")).validate().is_ok());
    assert_eq!(fault_of(flake("", "x")).0, ManifestFault::EmptyFlake);
    assert_eq!(fault_of(flake("x", " ")).0, ManifestFault::EmptyFlakeAttr);
    assert_eq!(fault_of(copy("", "/nix/store/x")).0, ManifestFault::EmptyCopyFrom);
    assert_eq!(fault_of(copy("ssh://b", "")).0, ManifestFault::EmptyStorePath);
    assert_eq!(fault_of(copy("ssh://b", "/nix/storex")).0, ManifestFault::ForeignStorePath);
    assert!(manifest(ExecutorSpec::Noop).validate().is_ok());
}

#[test]
fn defaults() {
    assert_eq!(default_validation_timeout_secs(), 900);
    assert_eq!(default_validation().timeout_seconds, 900);
    assert!(default_validation().health_checks.is_empty());
    assert!(default_validation().validate().is_ok());
    assert!(ValidationSpec::default().validate().is_err());
    assert_eq!(default_grubenv_relpath(), "/boot/grub/grubenv");
    assert!(default_true());
    assert_eq!(default_timeout_secs(), 900);
    let policy = RollbackPolicy::default();
    assert_eq!(policy.candidate_timeout_seconds, 900);
    assert_eq!(GrubAbCompression::default(), GrubAbCompression::Auto);
}
