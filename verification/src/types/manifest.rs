//! The manifest of a release, and what makes one acceptable.

use crate::links::{is_url, parse_url, parsed_url};
use crate::text::{begins_with, blank, concat, is_blank, is_white_space, starts_with};
use crate::text_map::TextMap;
use vstd::prelude::*;

verus! {

/// What a release installs, on which kind of asset, and how it is checked.
#[derive(Debug)]
pub struct ReleaseManifest {
    pub target_type: String,
    pub executor: ExecutorSpec,
    pub validation: ValidationSpec,
    pub rollback: RollbackPolicy,
    pub labels: TextMap,
}

/// The value of a [`ReleaseManifest`].
#[verifier::ext_equal]
pub struct ReleaseManifestView {
    pub target_type: Seq<char>,
    pub executor: ExecutorSpecView,
    pub validation: ValidationSpecView,
    pub rollback: RollbackPolicy,
    pub labels: Map<Seq<char>, Seq<char>>,
}

impl View for ReleaseManifest {
    type V = ReleaseManifestView;

    open spec fn view(&self) -> ReleaseManifestView {
        ReleaseManifestView {
            target_type: self.target_type@,
            executor: self.executor@,
            validation: self.validation@,
            rollback: self.rollback,
            labels: self.labels@,
        }
    }
}

impl DeepView for ReleaseManifest {
    type V = ReleaseManifestView;

    open spec fn deep_view(&self) -> ReleaseManifestView {
        self@
    }
}

impl Clone for ReleaseManifest {
    fn clone(&self) -> (r: Self)
        ensures
            r@ == self@,
    {
        ReleaseManifest {
            target_type: self.target_type.clone(),
            executor: self.executor.clone(),
            validation: self.validation.clone(),
            rollback: self.rollback,
            labels: self.labels.clone(),
        }
    }
}

/// How a release is installed.
#[derive(Debug)]
pub enum ExecutorSpec {
    Noop,
    Scripted(ScriptedExecutorSpec),
    GrubAb(GrubAbExecutorSpec),
    NixGeneration(NixGenerationExecutorSpec),
}

/// The value of an [`ExecutorSpec`].
#[verifier::ext_equal]
pub enum ExecutorSpecView {
    Noop,
    Scripted(ScriptedExecutorSpecView),
    GrubAb(GrubAbExecutorSpecView),
    NixGeneration(NixGenerationExecutorSpecView),
}

impl View for ExecutorSpec {
    type V = ExecutorSpecView;

    open spec fn view(&self) -> ExecutorSpecView {
        match self {
            ExecutorSpec::Noop => ExecutorSpecView::Noop,
            ExecutorSpec::Scripted(spec) => ExecutorSpecView::Scripted(spec@),
            ExecutorSpec::GrubAb(spec) => ExecutorSpecView::GrubAb(spec@),
            ExecutorSpec::NixGeneration(spec) => ExecutorSpecView::NixGeneration(spec@),
        }
    }
}

impl Clone for ExecutorSpec {
    fn clone(&self) -> (r: Self)
        ensures
            r@ == self@,
    {
        match self {
            ExecutorSpec::Noop => ExecutorSpec::Noop,
            ExecutorSpec::Scripted(spec) => ExecutorSpec::Scripted(spec.clone()),
            ExecutorSpec::GrubAb(spec) => ExecutorSpec::GrubAb(spec.clone()),
            ExecutorSpec::NixGeneration(spec) => ExecutorSpec::NixGeneration(spec.clone()),
        }
    }
}

/// An installation by the shell commands of the release.
#[derive(Debug)]
pub struct ScriptedExecutorSpec {
    pub artifact: ArtifactSource,
    pub install_command: String,
    pub activate_command: Option<String>,
}

/// The value of a [`ScriptedExecutorSpec`].
#[verifier::ext_equal]
pub struct ScriptedExecutorSpecView {
    pub artifact: ArtifactSourceView,
    pub install_command: Seq<char>,
    pub activate_command: Option<Seq<char>>,
}

impl View for ScriptedExecutorSpec {
    type V = ScriptedExecutorSpecView;

    open spec fn view(&self) -> ScriptedExecutorSpecView {
        ScriptedExecutorSpecView {
            artifact: self.artifact@,
            install_command: self.install_command@,
            activate_command: self.activate_command.deep_view(),
        }
    }
}

impl Clone for ScriptedExecutorSpec {
    fn clone(&self) -> (r: Self)
        ensures
            r@ == self@,
    {
        ScriptedExecutorSpec {
            artifact: self.artifact.clone(),
            install_command: self.install_command.clone(),
            activate_command: self.activate_command.clone(),
        }
    }
}

/// An installation into the inactive one of two root partitions.
#[derive(Debug)]
pub struct GrubAbExecutorSpec {
    pub artifact: ArtifactSource,
    /// The names of the two slots.
    pub slot_pair: Option<[String; 2]>,
    /// The two slots, where the machine has real ones.
    pub slots: Option<[GrubAbSlot; 2]>,
    pub boot_control: Option<GrubAbBootControl>,
    pub compression: GrubAbCompression,
    pub activate_command: Option<String>,
}

/// The value of a [`GrubAbExecutorSpec`].
#[verifier::ext_equal]
pub struct GrubAbExecutorSpecView {
    pub artifact: ArtifactSourceView,
    pub slot_pair: Option<Seq<Seq<char>>>,
    pub slots: Option<Seq<GrubAbSlotView>>,
    pub boot_control: Option<GrubAbBootControlView>,
    pub compression: GrubAbCompression,
    pub activate_command: Option<Seq<char>>,
}

impl View for GrubAbExecutorSpec {
    type V = GrubAbExecutorSpecView;

    open spec fn view(&self) -> GrubAbExecutorSpecView {
        GrubAbExecutorSpecView {
            artifact: self.artifact@,
            slot_pair: self.slot_pair.deep_view(),
            slots: self.slots.deep_view(),
            boot_control: self.boot_control.deep_view(),
            compression: self.compression,
            activate_command: self.activate_command.deep_view(),
        }
    }
}

impl Clone for GrubAbExecutorSpec {
    fn clone(&self) -> (r: Self)
        ensures
            r@ == self@,
    {
        let slot_pair = match &self.slot_pair {
            Some(pair) => Some(clone_pair(pair)),
            None => None,
        };
        let slots = match &self.slots {
            Some(slots) => Some(clone_slots(slots)),
            None => None,
        };
        GrubAbExecutorSpec {
            artifact: self.artifact.clone(),
            slot_pair,
            slots,
            boot_control: self.boot_control.clone(),
            compression: self.compression,
            activate_command: self.activate_command.clone(),
        }
    }
}

/// A copy of two texts.
pub fn clone_pair(pair: &[String; 2]) -> (r: [String; 2])
    ensures
        r.deep_view() == pair.deep_view(),
{
    let r = [pair[0].clone(), pair[1].clone()];
    assert(r.deep_view() =~= pair.deep_view());
    r
}

/// A copy of two slots.
pub fn clone_slots(slots: &[GrubAbSlot; 2]) -> (r: [GrubAbSlot; 2])
    ensures
        r.deep_view() == slots.deep_view(),
{
    let r = [slots[0].clone(), slots[1].clone()];
    assert(r.deep_view() =~= slots.deep_view());
    r
}

/// One of two root partitions, and the boot menu entry that starts it.
#[derive(Debug)]
pub struct GrubAbSlot {
    pub name: String,
    pub device: String,
    pub grub_menu_entry: String,
}

/// The value of a [`GrubAbSlot`].
#[verifier::ext_equal]
pub struct GrubAbSlotView {
    pub name: Seq<char>,
    pub device: Seq<char>,
    pub grub_menu_entry: Seq<char>,
}

impl View for GrubAbSlot {
    type V = GrubAbSlotView;

    open spec fn view(&self) -> GrubAbSlotView {
        GrubAbSlotView {
            name: self.name@,
            device: self.device@,
            grub_menu_entry: self.grub_menu_entry@,
        }
    }
}

impl DeepView for GrubAbSlot {
    type V = GrubAbSlotView;

    open spec fn deep_view(&self) -> GrubAbSlotView {
        self@
    }
}

impl Clone for GrubAbSlot {
    fn clone(&self) -> (r: Self)
        ensures
            r@ == self@,
    {
        GrubAbSlot {
            name: self.name.clone(),
            device: self.device.clone(),
            grub_menu_entry: self.grub_menu_entry.clone(),
        }
    }
}

/// Where the boot loader keeps the entry that it starts next.
#[derive(Debug)]
pub struct GrubAbBootControl {
    pub authority_device: String,
    pub mountpoint: String,
    pub grubenv_relpath: String,
}

/// The value of a [`GrubAbBootControl`].
#[verifier::ext_equal]
pub struct GrubAbBootControlView {
    pub authority_device: Seq<char>,
    pub mountpoint: Seq<char>,
    pub grubenv_relpath: Seq<char>,
}

impl View for GrubAbBootControl {
    type V = GrubAbBootControlView;

    open spec fn view(&self) -> GrubAbBootControlView {
        GrubAbBootControlView {
            authority_device: self.authority_device@,
            mountpoint: self.mountpoint@,
            grubenv_relpath: self.grubenv_relpath@,
        }
    }
}

impl DeepView for GrubAbBootControl {
    type V = GrubAbBootControlView;

    open spec fn deep_view(&self) -> GrubAbBootControlView {
        self@
    }
}

impl Clone for GrubAbBootControl {
    fn clone(&self) -> (r: Self)
        ensures
            r@ == self@,
    {
        GrubAbBootControl {
            authority_device: self.authority_device.clone(),
            mountpoint: self.mountpoint.clone(),
            grubenv_relpath: self.grubenv_relpath.clone(),
        }
    }
}

/// How the image of a release is compressed.
#[derive(Debug, Clone, Copy, PartialEq, Eq, Structural)]
pub enum GrubAbCompression {
    /// The image is written as it comes.
    Uncompressed,
    Zstd,
    /// The file extension of the artifact tells.
    Auto,
}

impl Default for GrubAbCompression {
    fn default() -> (r: Self)
        ensures
            r == GrubAbCompression::Auto,
    {
        GrubAbCompression::Auto
    }
}

/// An installation of a NixOS system generation.
#[derive(Debug)]
pub struct NixGenerationExecutorSpec {
    pub source: NixGenerationSource,
}

/// The value of a [`NixGenerationExecutorSpec`].
#[verifier::ext_equal]
pub struct NixGenerationExecutorSpecView {
    pub source: NixGenerationSourceView,
}

impl View for NixGenerationExecutorSpec {
    type V = NixGenerationExecutorSpecView;

    open spec fn view(&self) -> NixGenerationExecutorSpecView {
        NixGenerationExecutorSpecView {
            source: self.source@,
        }
    }
}

impl Clone for NixGenerationExecutorSpec {
    fn clone(&self) -> (r: Self)
        ensures
            r@ == self@,
    {
        NixGenerationExecutorSpec {
            source: self.source.clone(),
        }
    }
}

/// Where a NixOS system generation comes from.
#[derive(Debug)]
pub enum NixGenerationSource {
    /// It is built on the machine.
    BuildFlake { flake: String, flake_attr: String },
    /// It is copied from another store.
    CopyFromStore { copy_from: String, store_path: String },
}

/// The value of a [`NixGenerationSource`].
#[verifier::ext_equal]
pub enum NixGenerationSourceView {
    BuildFlake { flake: Seq<char>, flake_attr: Seq<char> },
    CopyFromStore { copy_from: Seq<char>, store_path: Seq<char> },
}

impl View for NixGenerationSource {
    type V = NixGenerationSourceView;

    open spec fn view(&self) -> NixGenerationSourceView {
        match self {
            NixGenerationSource::BuildFlake { flake, flake_attr } => {
                NixGenerationSourceView::BuildFlake { flake: flake@, flake_attr: flake_attr@ }
            },
            NixGenerationSource::CopyFromStore { copy_from, store_path } => {
                NixGenerationSourceView::CopyFromStore {
                    copy_from: copy_from@,
                    store_path: store_path@,
                }
            },
        }
    }
}

impl Clone for NixGenerationSource {
    fn clone(&self) -> (r: Self)
        ensures
            r@ == self@,
    {
        match self {
            NixGenerationSource::BuildFlake { flake, flake_attr } => {
                NixGenerationSource::BuildFlake {
                    flake: flake.clone(),
                    flake_attr: flake_attr.clone(),
                }
            },
            NixGenerationSource::CopyFromStore { copy_from, store_path } => {
                NixGenerationSource::CopyFromStore {
                    copy_from: copy_from.clone(),
                    store_path: store_path.clone(),
                }
            },
        }
    }
}

/// Where the artifact of a release is fetched, and its SHA-256 digest.
#[derive(Debug)]
pub struct ArtifactSource {
    pub url: String,
    pub sha256: Option<String>,
    pub headers: TextMap,
}

/// The value of an [`ArtifactSource`].
#[verifier::ext_equal]
pub struct ArtifactSourceView {
    pub url: Seq<char>,
    pub sha256: Option<Seq<char>>,
    pub headers: Map<Seq<char>, Seq<char>>,
}

impl View for ArtifactSource {
    type V = ArtifactSourceView;

    open spec fn view(&self) -> ArtifactSourceView {
        ArtifactSourceView {
            url: self.url@,
            sha256: self.sha256.deep_view(),
            headers: self.headers@,
        }
    }
}

impl Clone for ArtifactSource {
    fn clone(&self) -> (r: Self)
        ensures
            r@ == self@,
    {
        ArtifactSource {
            url: self.url.clone(),
            sha256: self.sha256.clone(),
            headers: self.headers.clone(),
        }
    }
}

/// What must hold of a machine once a release is installed.
#[derive(Debug)]
pub struct ValidationSpec {
    pub expected_hostname: Option<String>,
    pub expected_system_path: Option<String>,
    pub timeout_seconds: u64,
    pub health_checks: Vec<HealthCheck>,
}

/// The value of a [`ValidationSpec`].
#[verifier::ext_equal]
pub struct ValidationSpecView {
    pub expected_hostname: Option<Seq<char>>,
    pub expected_system_path: Option<Seq<char>>,
    pub timeout_seconds: u64,
    pub health_checks: Seq<HealthCheckView>,
}

impl View for ValidationSpec {
    type V = ValidationSpecView;

    open spec fn view(&self) -> ValidationSpecView {
        ValidationSpecView {
            expected_hostname: self.expected_hostname.deep_view(),
            expected_system_path: self.expected_system_path.deep_view(),
            timeout_seconds: self.timeout_seconds,
            health_checks: self.health_checks.deep_view(),
        }
    }
}

impl Clone for ValidationSpec {
    fn clone(&self) -> (r: Self)
        ensures
            r@ == self@,
    {
        let health_checks = self.health_checks.clone();
        assert(health_checks.deep_view() =~= self.health_checks.deep_view());
        ValidationSpec {
            expected_hostname: self.expected_hostname.clone(),
            expected_system_path: self.expected_system_path.clone(),
            timeout_seconds: self.timeout_seconds,
            health_checks,
        }
    }
}

impl Default for ValidationSpec {
    fn default() -> (r: Self)
        ensures
            r@ == (ValidationSpecView {
                expected_hostname: None,
                expected_system_path: None,
                timeout_seconds: 0,
                health_checks: Seq::empty(),
            }),
    {
        let health_checks: Vec<HealthCheck> = Vec::new();
        assert(health_checks.deep_view() =~= Seq::empty());
        ValidationSpec {
            expected_hostname: None,
            expected_system_path: None,
            timeout_seconds: 0,
            health_checks,
        }
    }
}

/// When a failed release is undone.
#[derive(Debug, Clone, Copy, PartialEq, Eq, Structural)]
pub struct RollbackPolicy {
    pub automatic: bool,
    pub on_boot_failure: bool,
    pub on_validation_failure: bool,
    pub candidate_timeout_seconds: u64,
}

impl Default for RollbackPolicy {
    fn default() -> (r: Self)
        ensures
            r == (RollbackPolicy {
                automatic: true,
                on_boot_failure: true,
                on_validation_failure: true,
                candidate_timeout_seconds: 900,
            }),
    {
        RollbackPolicy {
            automatic: true,
            on_boot_failure: true,
            on_validation_failure: true,
            candidate_timeout_seconds: default_timeout_secs(),
        }
    }
}

/// A check that a machine passes or fails.
#[derive(Debug)]
pub struct HealthCheck {
    pub name: String,
    pub kind: HealthCheckKind,
    pub command: Option<String>,
    pub url: Option<String>,
    pub contains: Option<String>,
}

/// The value of a [`HealthCheck`].
#[verifier::ext_equal]
pub struct HealthCheckView {
    pub name: Seq<char>,
    pub kind: HealthCheckKind,
    pub command: Option<Seq<char>>,
    pub url: Option<Seq<char>>,
    pub contains: Option<Seq<char>>,
}

impl View for HealthCheck {
    type V = HealthCheckView;

    open spec fn view(&self) -> HealthCheckView {
        HealthCheckView {
            name: self.name@,
            kind: self.kind,
            command: self.command.deep_view(),
            url: self.url.deep_view(),
            contains: self.contains.deep_view(),
        }
    }
}

impl DeepView for HealthCheck {
    type V = HealthCheckView;

    open spec fn deep_view(&self) -> HealthCheckView {
        self@
    }
}

impl Clone for HealthCheck {
    fn clone(&self) -> (r: Self)
        ensures
            r@ == self@,
    {
        HealthCheck {
            name: self.name.clone(),
            kind: self.kind,
            command: self.command.clone(),
            url: self.url.clone(),
            contains: self.contains.clone(),
        }
    }
}

/// The kinds of health check.
#[derive(Debug, Clone, Copy, PartialEq, Eq, Structural)]
pub enum HealthCheckKind {
    AlwaysPass,
    CommandExitZero,
    HttpGet,
}

/// The request to create a release.
#[derive(Debug)]
pub struct CreateReleaseRequest {
    pub version: String,
    pub manifest: ReleaseManifest,
}

/// The value of a [`CreateReleaseRequest`].
#[verifier::ext_equal]
pub struct CreateReleaseRequestView {
    pub version: Seq<char>,
    pub manifest: ReleaseManifestView,
}

impl View for CreateReleaseRequest {
    type V = CreateReleaseRequestView;

    open spec fn view(&self) -> CreateReleaseRequestView {
        CreateReleaseRequestView {
            version: self.version@,
            manifest: self.manifest@,
        }
    }
}

impl Clone for CreateReleaseRequest {
    fn clone(&self) -> (r: Self)
        ensures
            r@ == self@,
    {
        CreateReleaseRequest {
            version: self.version.clone(),
            manifest: self.manifest.clone(),
        }
    }
}

/// What a manifest without a validation section asks for.
pub fn default_validation() -> (r: ValidationSpec)
    ensures
        r@ == (ValidationSpecView {
            expected_hostname: None,
            expected_system_path: None,
            timeout_seconds: 900,
            health_checks: Seq::empty(),
        }),
{
    let health_checks: Vec<HealthCheck> = Vec::new();
    assert(health_checks.deep_view() =~= Seq::empty());
    ValidationSpec {
        expected_hostname: None,
        expected_system_path: None,
        timeout_seconds: default_validation_timeout_secs(),
        health_checks,
    }
}

/// The seconds that post-boot validation may take where a manifest does not say.
pub fn default_validation_timeout_secs() -> (r: u64)
    ensures
        r == 900,
{
    900
}

/// Where the boot loader's environment lies where a manifest does not say.
pub fn default_grubenv_relpath() -> (r: String)
    ensures
        r@ == "/boot/grub/grubenv"@,
{
    "/boot/grub/grubenv".to_string()
}

/// A rollback switch is on where a manifest does not say.
pub fn default_true() -> (r: bool)
    ensures
        r,
{
    true
}

/// The seconds that a rolled back system may take to validate where a manifest does not say.
pub fn default_timeout_secs() -> (r: u64)
    ensures
        r == 900,
{
    900
}

/// What can be wrong with a request to create a release.
#[derive(Debug, Clone, Copy, PartialEq, Eq, Structural)]
pub enum ManifestFault {
    EmptyVersion,
    EmptyTargetType,
    ZeroTimeout,
    CheckWithoutCommand,
    EmptyCheckCommand,
    CheckWithoutUrl,
    InvalidCheckUrl,
    EmptyArtifactUrl,
    InvalidArtifactUrl,
    EmptyInstallCommand,
    EmptyScriptedActivateCommand,
    EmptySlotPairEntry,
    EqualSlotPairEntries,
    EmptySlotName,
    EmptySlotDevice,
    EmptySlotMenuEntry,
    EqualSlotNames,
    EqualSlotDevices,
    SlotPairOrder,
    MissingBootControl,
    EmptyAuthorityDevice,
    EmptyMountpoint,
    EmptyGrubenvRelpath,
    EmptyGrubActivateCommand,
    EmptyFlake,
    EmptyFlakeAttr,
    EmptyCopyFrom,
    EmptyStorePath,
    ForeignStorePath,
}

impl ManifestFault {
    /// The message of a fault, without the address that the fault may be about.
    pub open spec fn text(self) -> Seq<char> {
        match self {
            ManifestFault::EmptyVersion => "release version must not be empty"@,
            ManifestFault::EmptyTargetType => "manifest target_type must not be empty"@,
            ManifestFault::ZeroTimeout => "validation.timeout_seconds must be greater than zero"@,
            ManifestFault::CheckWithoutCommand => "command_exit_zero health check requires command"@,
            ManifestFault::EmptyCheckCommand => "command_exit_zero health check command must not be empty"@,
            ManifestFault::CheckWithoutUrl => "http_get health check requires url"@,
            ManifestFault::InvalidCheckUrl => "invalid health check url: "@,
            ManifestFault::EmptyArtifactUrl => "artifact.url must not be empty"@,
            ManifestFault::InvalidArtifactUrl => "invalid artifact url: "@,
            ManifestFault::EmptyInstallCommand => "scripted.install_command must not be empty"@,
            ManifestFault::EmptyScriptedActivateCommand => "scripted.activate_command must not be empty when provided"@,
            ManifestFault::EmptySlotPairEntry => "grub_ab.slot_pair entries must not be empty"@,
            ManifestFault::EqualSlotPairEntries => "grub_ab.slot_pair entries must be distinct"@,
            ManifestFault::EmptySlotName => "grub_ab.slots names must not be empty"@,
            ManifestFault::EmptySlotDevice => "grub_ab.slots devices must not be empty"@,
            ManifestFault::EmptySlotMenuEntry => "grub_ab.slots grub_menu_entry values must not be empty"@,
            ManifestFault::EqualSlotNames => "grub_ab.slots names must be distinct"@,
            ManifestFault::EqualSlotDevices => "grub_ab.slots devices must be distinct"@,
            ManifestFault::SlotPairOrder => "grub_ab.slot_pair must match grub_ab.slots order when both are provided"@,
            ManifestFault::MissingBootControl => "grub_ab.boot_control is required when grub_ab.slots is provided"@,
            ManifestFault::EmptyAuthorityDevice => "grub_ab.boot_control.authority_device must not be empty"@,
            ManifestFault::EmptyMountpoint => "grub_ab.boot_control.mountpoint must not be empty"@,
            ManifestFault::EmptyGrubenvRelpath => "grub_ab.boot_control.grubenv_relpath must not be empty"@,
            ManifestFault::EmptyGrubActivateCommand => "grub_ab.activate_command must not be empty when provided"@,
            ManifestFault::EmptyFlake => "nix_generation.build_flake.flake must not be empty"@,
            ManifestFault::EmptyFlakeAttr => "nix_generation.build_flake.flake_attr must not be empty"@,
            ManifestFault::EmptyCopyFrom => "nix_generation.copy_from_store.copy_from must not be empty"@,
            ManifestFault::EmptyStorePath => "nix_generation.copy_from_store.store_path must not be empty"@,
            ManifestFault::ForeignStorePath => "nix_generation.copy_from_store.store_path must be a /nix/store path"@,
        }
    }

    /// The message of a fault, without the address that the fault may be about.
    fn as_str(self) -> (r: &'static str)
        ensures
            r@ == self.text(),
    {
        match self {
            ManifestFault::EmptyVersion => "release version must not be empty",
            ManifestFault::EmptyTargetType => "manifest target_type must not be empty",
            ManifestFault::ZeroTimeout => "validation.timeout_seconds must be greater than zero",
            ManifestFault::CheckWithoutCommand => "command_exit_zero health check requires command",
            ManifestFault::EmptyCheckCommand => "command_exit_zero health check command must not be empty",
            ManifestFault::CheckWithoutUrl => "http_get health check requires url",
            ManifestFault::InvalidCheckUrl => "invalid health check url: ",
            ManifestFault::EmptyArtifactUrl => "artifact.url must not be empty",
            ManifestFault::InvalidArtifactUrl => "invalid artifact url: ",
            ManifestFault::EmptyInstallCommand => "scripted.install_command must not be empty",
            ManifestFault::EmptyScriptedActivateCommand => "scripted.activate_command must not be empty when provided",
            ManifestFault::EmptySlotPairEntry => "grub_ab.slot_pair entries must not be empty",
            ManifestFault::EqualSlotPairEntries => "grub_ab.slot_pair entries must be distinct",
            ManifestFault::EmptySlotName => "grub_ab.slots names must not be empty",
            ManifestFault::EmptySlotDevice => "grub_ab.slots devices must not be empty",
            ManifestFault::EmptySlotMenuEntry => "grub_ab.slots grub_menu_entry values must not be empty",
            ManifestFault::EqualSlotNames => "grub_ab.slots names must be distinct",
            ManifestFault::EqualSlotDevices => "grub_ab.slots devices must be distinct",
            ManifestFault::SlotPairOrder => "grub_ab.slot_pair must match grub_ab.slots order when both are provided",
            ManifestFault::MissingBootControl => "grub_ab.boot_control is required when grub_ab.slots is provided",
            ManifestFault::EmptyAuthorityDevice => "grub_ab.boot_control.authority_device must not be empty",
            ManifestFault::EmptyMountpoint => "grub_ab.boot_control.mountpoint must not be empty",
            ManifestFault::EmptyGrubenvRelpath => "grub_ab.boot_control.grubenv_relpath must not be empty",
            ManifestFault::EmptyGrubActivateCommand => "grub_ab.activate_command must not be empty when provided",
            ManifestFault::EmptyFlake => "nix_generation.build_flake.flake must not be empty",
            ManifestFault::EmptyFlakeAttr => "nix_generation.build_flake.flake_attr must not be empty",
            ManifestFault::EmptyCopyFrom => "nix_generation.copy_from_store.copy_from must not be empty",
            ManifestFault::EmptyStorePath => "nix_generation.copy_from_store.store_path must not be empty",
            ManifestFault::ForeignStorePath => "nix_generation.copy_from_store.store_path must be a /nix/store path",
        }
    }
}

/// Why a request to create a release is refused.
#[derive(Debug)]
pub struct ManifestError {
    pub fault: ManifestFault,
    /// The address that the fault is about; empty where it is about none.
    pub subject: String,
}

impl ManifestError {
    /// The fault and the address that it is about.
    pub open spec fn cause(&self) -> (ManifestFault, Seq<char>) {
        (self.fault, self.subject@)
    }

    /// The message of the error.
    pub fn message(&self) -> (r: String)
        ensures
            r@ == self.fault.text() + self.subject@,
    {
        concat(self.fault.as_str(), self.subject.as_str())
    }
}

/// The error of a fault that is about no address.
fn plain(fault: ManifestFault) -> (r: ManifestError)
    ensures
        r.cause() == (fault, Seq::<char>::empty()),
{
    ManifestError { fault, subject: String::new() }
}

/// A fault that is about no address.
pub open spec fn bare(fault: ManifestFault) -> Option<(ManifestFault, Seq<char>)> {
    Some((fault, Seq::empty()))
}

/// What is wrong with a health check, if anything is, where its address can be read or not.
pub open spec fn check_fault_given(check: HealthCheckView, readable: bool) -> Option<
    (ManifestFault, Seq<char>),
> {
    match check.kind {
        HealthCheckKind::AlwaysPass => None,
        HealthCheckKind::CommandExitZero => match check.command {
            None => bare(ManifestFault::CheckWithoutCommand),
            Some(command) => if is_blank(command) {
                bare(ManifestFault::EmptyCheckCommand)
            } else {
                None
            },
        },
        HealthCheckKind::HttpGet => match check.url {
            None => bare(ManifestFault::CheckWithoutUrl),
            Some(url) => if !readable {
                Some((ManifestFault::InvalidCheckUrl, url))
            } else {
                None
            },
        },
    }
}

/// What is wrong with a health check, if anything is.
pub open spec fn check_fault(check: HealthCheckView) -> Option<(ManifestFault, Seq<char>)> {
    check_fault_given(check, check.url is Some && is_url(check.url->0))
}

/// What is wrong with the first health check that something is wrong with.
pub open spec fn checks_fault(checks: Seq<HealthCheckView>) -> Option<(ManifestFault, Seq<char>)>
    decreases checks.len(),
{
    if checks.len() == 0 {
        None
    } else if check_fault(checks[0]) is Some {
        check_fault(checks[0])
    } else {
        checks_fault(checks.drop_first())
    }
}

/// What is wrong with a validation section, if anything is.
pub open spec fn validation_fault(v: ValidationSpecView) -> Option<(ManifestFault, Seq<char>)> {
    if v.timeout_seconds == 0 {
        bare(ManifestFault::ZeroTimeout)
    } else {
        checks_fault(v.health_checks)
    }
}

/// What is wrong with the source of an artifact, if anything is, where its address can be read
/// or not.
pub open spec fn artifact_fault_given(a: ArtifactSourceView, readable: bool) -> Option<
    (ManifestFault, Seq<char>),
> {
    if is_blank(a.url) {
        bare(ManifestFault::EmptyArtifactUrl)
    } else if !readable {
        Some((ManifestFault::InvalidArtifactUrl, a.url))
    } else {
        None
    }
}

/// What is wrong with the source of an artifact, if anything is.
pub open spec fn artifact_fault(a: ArtifactSourceView) -> Option<(ManifestFault, Seq<char>)> {
    artifact_fault_given(a, is_url(a.url))
}

/// The given fault, where the text is there and blank.
pub open spec fn blank_option_fault(
    text: Option<Seq<char>>,
    fault: ManifestFault,
) -> Option<(ManifestFault, Seq<char>)> {
    match text {
        Some(t) => if is_blank(t) {
            bare(fault)
        } else {
            None
        },
        None => None,
    }
}

/// What is wrong with the commands of a scripted executor, if anything is.
pub open spec fn commands_fault(s: ScriptedExecutorSpecView) -> Option<
    (ManifestFault, Seq<char>),
> {
    if is_blank(s.install_command) {
        bare(ManifestFault::EmptyInstallCommand)
    } else {
        blank_option_fault(s.activate_command, ManifestFault::EmptyScriptedActivateCommand)
    }
}

/// What is wrong with a scripted executor, if anything is.
pub open spec fn scripted_fault(s: ScriptedExecutorSpecView) -> Option<
    (ManifestFault, Seq<char>),
> {
    if artifact_fault(s.artifact) is Some {
        artifact_fault(s.artifact)
    } else {
        commands_fault(s)
    }
}

/// What is wrong with the names of a slot pair, if anything is.
pub open spec fn slot_pair_fault(pair: Option<Seq<Seq<char>>>) -> Option<
    (ManifestFault, Seq<char>),
> {
    match pair {
        Some(names) => if is_blank(names[0]) || is_blank(names[1]) {
            bare(ManifestFault::EmptySlotPairEntry)
        } else if names[0] == names[1] {
            bare(ManifestFault::EqualSlotPairEntries)
        } else {
            None
        },
        None => None,
    }
}

/// What is wrong with one slot, if anything is.
pub open spec fn slot_fault(slot: GrubAbSlotView) -> Option<(ManifestFault, Seq<char>)> {
    if is_blank(slot.name) {
        bare(ManifestFault::EmptySlotName)
    } else if is_blank(slot.device) {
        bare(ManifestFault::EmptySlotDevice)
    } else if is_blank(slot.grub_menu_entry) {
        bare(ManifestFault::EmptySlotMenuEntry)
    } else {
        None
    }
}

/// What is wrong with the slots of an A/B executor, if anything is.
pub open spec fn slots_fault(g: GrubAbExecutorSpecView) -> Option<(ManifestFault, Seq<char>)> {
    match g.slots {
        Some(slots) => if slot_fault(slots[0]) is Some {
            slot_fault(slots[0])
        } else if slot_fault(slots[1]) is Some {
            slot_fault(slots[1])
        } else if slots[0].name == slots[1].name {
            bare(ManifestFault::EqualSlotNames)
        } else if slots[0].device == slots[1].device {
            bare(ManifestFault::EqualSlotDevices)
        } else if g.slot_pair is Some && (slots[0].name != g.slot_pair->0[0] || slots[1].name
            != g.slot_pair->0[1]) {
            bare(ManifestFault::SlotPairOrder)
        } else if g.boot_control is None {
            bare(ManifestFault::MissingBootControl)
        } else {
            None
        },
        None => None,
    }
}

/// What is wrong with a boot control section, if anything is.
pub open spec fn boot_control_fault(b: Option<GrubAbBootControlView>) -> Option<
    (ManifestFault, Seq<char>),
> {
    match b {
        Some(b) => if is_blank(b.authority_device) {
            bare(ManifestFault::EmptyAuthorityDevice)
        } else if is_blank(b.mountpoint) {
            bare(ManifestFault::EmptyMountpoint)
        } else if is_blank(b.grubenv_relpath) {
            bare(ManifestFault::EmptyGrubenvRelpath)
        } else {
            None
        },
        None => None,
    }
}

/// What is wrong with the layout that an A/B executor is for, if anything is.
pub open spec fn layout_fault(g: GrubAbExecutorSpecView) -> Option<(ManifestFault, Seq<char>)> {
    if slot_pair_fault(g.slot_pair) is Some {
        slot_pair_fault(g.slot_pair)
    } else if slots_fault(g) is Some {
        slots_fault(g)
    } else if boot_control_fault(g.boot_control) is Some {
        boot_control_fault(g.boot_control)
    } else {
        blank_option_fault(g.activate_command, ManifestFault::EmptyGrubActivateCommand)
    }
}

/// What is wrong with an A/B executor, if anything is.
pub open spec fn grub_ab_fault(g: GrubAbExecutorSpecView) -> Option<(ManifestFault, Seq<char>)> {
    if artifact_fault(g.artifact) is Some {
        artifact_fault(g.artifact)
    } else {
        layout_fault(g)
    }
}

/// What is wrong with the source of a system generation, if anything is.
pub open spec fn nix_fault(source: NixGenerationSourceView) -> Option<(ManifestFault, Seq<char>)> {
    match source {
        NixGenerationSourceView::BuildFlake { flake, flake_attr } => if is_blank(flake) {
            bare(ManifestFault::EmptyFlake)
        } else if is_blank(flake_attr) {
            bare(ManifestFault::EmptyFlakeAttr)
        } else {
            None
        },
        NixGenerationSourceView::CopyFromStore { copy_from, store_path } => if is_blank(copy_from) {
            bare(ManifestFault::EmptyCopyFrom)
        } else if is_blank(store_path) {
            bare(ManifestFault::EmptyStorePath)
        } else if !begins_with(store_path, "/nix/store/"@) {
            bare(ManifestFault::ForeignStorePath)
        } else {
            None
        },
    }
}

/// What is wrong with an executor, if anything is.
pub open spec fn executor_fault(e: ExecutorSpecView) -> Option<(ManifestFault, Seq<char>)> {
    match e {
        ExecutorSpecView::Noop => None,
        ExecutorSpecView::Scripted(spec) => scripted_fault(spec),
        ExecutorSpecView::GrubAb(spec) => grub_ab_fault(spec),
        ExecutorSpecView::NixGeneration(spec) => nix_fault(spec.source),
    }
}

/// What is wrong with a manifest, if anything is.
pub open spec fn manifest_fault(m: ReleaseManifestView) -> Option<(ManifestFault, Seq<char>)> {
    if is_blank(m.target_type) {
        bare(ManifestFault::EmptyTargetType)
    } else if validation_fault(m.validation) is Some {
        validation_fault(m.validation)
    } else {
        executor_fault(m.executor)
    }
}

/// What is wrong with a request to create a release, if anything is.
pub open spec fn release_fault(r: CreateReleaseRequestView) -> Option<(ManifestFault, Seq<char>)> {
    if is_blank(r.version) {
        bare(ManifestFault::EmptyVersion)
    } else {
        manifest_fault(r.manifest)
    }
}

/// Whether an outcome reports exactly this fault.
pub open spec fn reports(
    outcome: Result<(), ManifestError>,
    fault: Option<(ManifestFault, Seq<char>)>,
) -> bool {
    match outcome {
        Ok(_) => fault is None,
        Err(e) => fault == Some(e.cause()),
    }
}

/// Refuses a text that is there and blank.
fn refuse_blank_option(text: &Option<String>, fault: ManifestFault) -> (r: Result<
    (),
    ManifestError,
>)
    ensures
        reports(r, blank_option_fault(text.deep_view(), fault)),
{
    match text {
        Some(t) => if blank(t.as_str()) {
            Err(plain(fault))
        } else {
            Ok(())
        },
        None => Ok(()),
    }
}

/// Refuses an artifact source without an address, or whose address cannot be read.
pub fn judge_artifact_source(artifact: &ArtifactSource, readable: bool) -> (r: Result<
    (),
    ManifestError,
>)
    ensures
        reports(r, artifact_fault_given(artifact@, readable)),
{
    if blank(artifact.url.as_str()) {
        Err(plain(ManifestFault::EmptyArtifactUrl))
    } else if !readable {
        Err(
            ManifestError {
                fault: ManifestFault::InvalidArtifactUrl,
                subject: artifact.url.clone(),
            },
        )
    } else {
        Ok(())
    }
}

/// Refuses an artifact source without an address that can be read.
pub fn validate_artifact_source(artifact: &ArtifactSource) -> (r: Result<(), ManifestError>)
    ensures
        reports(r, artifact_fault(artifact@)),
{
    judge_artifact_source(artifact, parse_url(artifact.url.as_str()).is_ok())
}

impl HealthCheck {
    /// Refuses a health check that lacks what its kind needs, or whose address cannot be read.
    pub fn judge(&self, readable: bool) -> (r: Result<(), ManifestError>)
        ensures
            reports(r, check_fault_given(self@, readable)),
    {
        match self.kind {
            HealthCheckKind::AlwaysPass => Ok(()),
            HealthCheckKind::CommandExitZero => match &self.command {
                None => Err(plain(ManifestFault::CheckWithoutCommand)),
                Some(command) => if blank(command.as_str()) {
                    Err(plain(ManifestFault::EmptyCheckCommand))
                } else {
                    Ok(())
                },
            },
            HealthCheckKind::HttpGet => match &self.url {
                None => Err(plain(ManifestFault::CheckWithoutUrl)),
                Some(url) => if !readable {
                    Err(
                        ManifestError {
                            fault: ManifestFault::InvalidCheckUrl,
                            subject: url.clone(),
                        },
                    )
                } else {
                    Ok(())
                },
            },
        }
    }

    /// Refuses a health check that lacks what its kind needs.
    fn validate(&self) -> (r: Result<(), ManifestError>)
        ensures
            reports(r, check_fault(self@)),
    {
        let readable = match &self.url {
            Some(url) => parse_url(url.as_str()).is_ok(),
            None => false,
        };
        self.judge(readable)
    }
}

impl ValidationSpec {
    /// Refuses a validation section without time, or with a health check that cannot run.
    pub fn validate(&self) -> (r: Result<(), ManifestError>)
        ensures
            reports(r, validation_fault(self@)),
    {
        if self.timeout_seconds == 0 {
            return Err(plain(ManifestFault::ZeroTimeout));
        }
        let ghost checks = self.health_checks.deep_view();
        let mut i: usize = 0;
        assert(checks.skip(0) =~= checks);
        while i < self.health_checks.len()
            invariant
                i <= self.health_checks.len(),
                checks == self.health_checks.deep_view(),
                checks_fault(checks.skip(i as int)) == checks_fault(checks),
                validation_fault(self@) == checks_fault(checks),
            decreases self.health_checks.len() - i,
        {
            assert(checks.skip(i as int)[0] == self.health_checks[i as int]@);
            assert(checks.skip(i as int).drop_first() =~= checks.skip(i + 1));
            self.health_checks[i].validate()?;
            i += 1;
        }
        Ok(())
    }
}

impl ScriptedExecutorSpec {
    /// Refuses a scripted executor that lacks a command.
    pub fn validate_commands(&self) -> (r: Result<(), ManifestError>)
        ensures
            reports(r, commands_fault(self@)),
    {
        if blank(self.install_command.as_str()) {
            return Err(plain(ManifestFault::EmptyInstallCommand));
        }
        refuse_blank_option(&self.activate_command, ManifestFault::EmptyScriptedActivateCommand)
    }

    /// Refuses a scripted executor that lacks a command or an artifact.
    fn validate(&self) -> (r: Result<(), ManifestError>)
        ensures
            reports(r, scripted_fault(self@)),
    {
        validate_artifact_source(&self.artifact)?;
        self.validate_commands()
    }
}

impl GrubAbSlot {
    /// Refuses a slot that lacks its name, its device or its menu entry.
    fn validate(&self) -> (r: Result<(), ManifestError>)
        ensures
            reports(r, slot_fault(self@)),
    {
        if blank(self.name.as_str()) {
            Err(plain(ManifestFault::EmptySlotName))
        } else if blank(self.device.as_str()) {
            Err(plain(ManifestFault::EmptySlotDevice))
        } else if blank(self.grub_menu_entry.as_str()) {
            Err(plain(ManifestFault::EmptySlotMenuEntry))
        } else {
            Ok(())
        }
    }
}

impl GrubAbBootControl {
    /// Refuses a boot control section that lacks one of its parts.
    fn validate(&self) -> (r: Result<(), ManifestError>)
        ensures
            reports(r, boot_control_fault(Some(self@))),
    {
        if blank(self.authority_device.as_str()) {
            Err(plain(ManifestFault::EmptyAuthorityDevice))
        } else if blank(self.mountpoint.as_str()) {
            Err(plain(ManifestFault::EmptyMountpoint))
        } else if blank(self.grubenv_relpath.as_str()) {
            Err(plain(ManifestFault::EmptyGrubenvRelpath))
        } else {
            Ok(())
        }
    }
}

impl GrubAbExecutorSpec {
    /// Refuses slots that are incomplete, alike, or out of step with the slot pair.
    fn validate_slots(&self) -> (r: Result<(), ManifestError>)
        ensures
            reports(r, slots_fault(self@)),
    {
        if let Some(slots) = &self.slots {
            slots[0].validate()?;
            slots[1].validate()?;
            if slots[0].name == slots[1].name {
                return Err(plain(ManifestFault::EqualSlotNames));
            }
            if slots[0].device == slots[1].device {
                return Err(plain(ManifestFault::EqualSlotDevices));
            }
            if let Some(pair) = &self.slot_pair {
                if slots[0].name != pair[0] || slots[1].name != pair[1] {
                    return Err(plain(ManifestFault::SlotPairOrder));
                }
            }
            if self.boot_control.is_none() {
                return Err(plain(ManifestFault::MissingBootControl));
            }
        }
        Ok(())
    }

    /// Refuses an A/B executor that could not tell its slots apart or start one.
    pub fn validate_layout(&self) -> (r: Result<(), ManifestError>)
        ensures
            reports(r, layout_fault(self@)),
    {
        if let Some(pair) = &self.slot_pair {
            if blank(pair[0].as_str()) || blank(pair[1].as_str()) {
                return Err(plain(ManifestFault::EmptySlotPairEntry));
            }
            if pair[0] == pair[1] {
                return Err(plain(ManifestFault::EqualSlotPairEntries));
            }
        }
        self.validate_slots()?;
        if let Some(boot_control) = &self.boot_control {
            boot_control.validate()?;
        }
        refuse_blank_option(&self.activate_command, ManifestFault::EmptyGrubActivateCommand)
    }

    /// Refuses an A/B executor that lacks an artifact, could not tell its slots apart, or could
    /// not start one.
    fn validate(&self) -> (r: Result<(), ManifestError>)
        ensures
            reports(r, grub_ab_fault(self@)),
    {
        validate_artifact_source(&self.artifact)?;
        self.validate_layout()
    }
}

impl NixGenerationSource {
    /// Refuses a source that lacks a part, or that lies outside the Nix store.
    fn validate(&self) -> (r: Result<(), ManifestError>)
        ensures
            reports(r, nix_fault(self@)),
    {
        match self {
            NixGenerationSource::BuildFlake { flake, flake_attr } => {
                if blank(flake.as_str()) {
                    Err(plain(ManifestFault::EmptyFlake))
                } else if blank(flake_attr.as_str()) {
                    Err(plain(ManifestFault::EmptyFlakeAttr))
                } else {
                    Ok(())
                }
            },
            NixGenerationSource::CopyFromStore { copy_from, store_path } => {
                if blank(copy_from.as_str()) {
                    Err(plain(ManifestFault::EmptyCopyFrom))
                } else if blank(store_path.as_str()) {
                    Err(plain(ManifestFault::EmptyStorePath))
                } else if !starts_with(store_path.as_str(), "/nix/store/") {
                    Err(plain(ManifestFault::ForeignStorePath))
                } else {
                    Ok(())
                }
            },
        }
    }
}

impl ReleaseManifest {
    /// Refuses a manifest that could not be installed or checked, for the first fault found.
    pub fn validate(&self) -> (r: Result<(), ManifestError>)
        ensures
            reports(r, manifest_fault(self@)),
    {
        if blank(self.target_type.as_str()) {
            return Err(plain(ManifestFault::EmptyTargetType));
        }
        self.validation.validate()?;
        match &self.executor {
            ExecutorSpec::Noop => Ok(()),
            ExecutorSpec::Scripted(spec) => spec.validate(),
            ExecutorSpec::GrubAb(spec) => spec.validate(),
            ExecutorSpec::NixGeneration(spec) => spec.source.validate(),
        }
    }
}

impl CreateReleaseRequest {
    /// Refuses a request without a version, or with a manifest that is refused.
    pub fn validate(&self) -> (r: Result<(), ManifestError>)
        ensures
            reports(r, release_fault(self@)),
    {
        if blank(self.version.as_str()) {
            return Err(plain(ManifestFault::EmptyVersion));
        }
        self.manifest.validate()
    }
}

/// Whether a text holds a character other than white space.
pub open spec fn says_something(s: Seq<char>) -> bool {
    exists|i: int| 0 <= i < s.len() && !is_white_space(#[trigger] s[i])
}

proof fn lemma_blank(s: Seq<char>)
    ensures
        is_blank(s) <==> !says_something(s),
{
    if is_blank(s) && says_something(s) {
        let i = choose|i: int| 0 <= i < s.len() && !is_white_space(#[trigger] s[i]);
        assert(is_white_space(s[i]));
    }
}

/// Health checks have no fault exactly where none of them has one.
proof fn lemma_checks_fault(checks: Seq<HealthCheckView>)
    ensures
        checks_fault(checks) is None <==> forall|k: int|
            0 <= k < checks.len() ==> check_fault(#[trigger] checks[k]) is None,
    decreases checks.len(),
{
    if checks.len() > 0 {
        let rest = checks.drop_first();
        lemma_checks_fault(rest);
        if checks_fault(checks) is None {
            assert forall|k: int| 0 <= k < checks.len() implies check_fault(
                #[trigger] checks[k],
            ) is None by {
                if k > 0 {
                    assert(rest[k - 1] == checks[k]);
                }
            }
        }
        if forall|k: int|
            0 <= k < checks.len() ==> check_fault(#[trigger] checks[k]) is None {
            assert(check_fault(checks[0]) is None);
            assert forall|k: int| 0 <= k < rest.len() implies check_fault(
                #[trigger] rest[k],
            ) is None by {
                assert(checks[k + 1] == rest[k]);
            }
        }
    }
}

/// A validation section is accepted exactly where it leaves some time, every check by a command
/// has a command that says something, and every check by an address has one that can be read.
pub proof fn law_validation_accepted(v: ValidationSpecView)
    ensures
        validation_fault(v) is None <==> {
            &&& v.timeout_seconds > 0
            &&& forall|k: int|
                0 <= k < v.health_checks.len() ==> {
                    let check = #[trigger] v.health_checks[k];
                    &&& check.kind is CommandExitZero ==> check.command is Some && says_something(
                        check.command->0,
                    )
                    &&& check.kind is HttpGet ==> check.url is Some && parsed_url(
                        check.url->0,
                    ) is Ok
                }
        },
{
    lemma_checks_fault(v.health_checks);
    assert forall|k: int| 0 <= k < v.health_checks.len() implies (check_fault(
        #[trigger] v.health_checks[k],
    ) is None <==> {
        let check = v.health_checks[k];
        &&& check.kind is CommandExitZero ==> check.command is Some && says_something(
            check.command->0,
        )
        &&& check.kind is HttpGet ==> check.url is Some && parsed_url(check.url->0) is Ok
    }) by {
        let check = v.health_checks[k];
        if check.command is Some {
            lemma_blank(check.command->0);
        }
    }
    if v.timeout_seconds > 0 && checks_fault(v.health_checks) is None {
        assert forall|k: int| 0 <= k < v.health_checks.len() implies {
            let check = #[trigger] v.health_checks[k];
            &&& check.kind is CommandExitZero ==> check.command is Some && says_something(
                check.command->0,
            )
            &&& check.kind is HttpGet ==> check.url is Some && parsed_url(check.url->0) is Ok
        } by {
            assert(check_fault(v.health_checks[k]) is None);
        }
    }
}

/// An A/B layout is accepted exactly where the names of a slot pair say something and differ; the
/// slots have names, devices and menu entries that say something, differ in names and devices,
/// stand in the order of the slot pair and come with a boot control section; what that section
/// says says something; and so does the command, each where it is there.
pub proof fn law_layout_accepted(g: GrubAbExecutorSpecView)
    ensures
        layout_fault(g) is None <==> {
            &&& g.slot_pair matches Some(pair) ==> says_something(pair[0]) && says_something(
                pair[1],
            ) && pair[0] != pair[1]
            &&& g.slots matches Some(slots) ==> {
                &&& says_something(slots[0].name)
                &&& says_something(slots[0].device)
                &&& says_something(slots[0].grub_menu_entry)
                &&& says_something(slots[1].name)
                &&& says_something(slots[1].device)
                &&& says_something(slots[1].grub_menu_entry)
                &&& slots[0].name != slots[1].name
                &&& slots[0].device != slots[1].device
                &&& g.slot_pair matches Some(pair) ==> slots[0].name == pair[0] && slots[1].name
                    == pair[1]
                &&& g.boot_control is Some
            }
            &&& g.boot_control matches Some(control) ==> says_something(control.authority_device)
                && says_something(control.mountpoint) && says_something(control.grubenv_relpath)
            &&& g.activate_command matches Some(command) ==> says_something(command)
        },
{
    if g.slot_pair is Some {
        lemma_blank(g.slot_pair->0[0]);
        lemma_blank(g.slot_pair->0[1]);
    }
    if g.slots is Some {
        lemma_blank(g.slots->0[0].name);
        lemma_blank(g.slots->0[0].device);
        lemma_blank(g.slots->0[0].grub_menu_entry);
        lemma_blank(g.slots->0[1].name);
        lemma_blank(g.slots->0[1].device);
        lemma_blank(g.slots->0[1].grub_menu_entry);
    }
    if g.boot_control is Some {
        lemma_blank(g.boot_control->0.authority_device);
        lemma_blank(g.boot_control->0.mountpoint);
        lemma_blank(g.boot_control->0.grubenv_relpath);
    }
    if g.activate_command is Some {
        lemma_blank(g.activate_command->0);
    }
}

/// An executor is accepted exactly where it has what it needs: an artifact with an address that
/// can be read and, where it runs commands, commands that say something; a layout that is
/// accepted; a flake and an attribute that say something; or a place to copy from that says
/// something and a path in the Nix store.
pub proof fn law_executor_accepted(e: ExecutorSpecView)
    ensures
        executor_fault(e) is None <==> match e {
            ExecutorSpecView::Noop => true,
            ExecutorSpecView::Scripted(s) => {
                &&& says_something(s.artifact.url)
                &&& parsed_url(s.artifact.url) is Ok
                &&& says_something(s.install_command)
                &&& s.activate_command matches Some(command) ==> says_something(command)
            },
            ExecutorSpecView::GrubAb(g) => {
                &&& says_something(g.artifact.url)
                &&& parsed_url(g.artifact.url) is Ok
                &&& layout_fault(g) is None
            },
            ExecutorSpecView::NixGeneration(n) => match n.source {
                NixGenerationSourceView::BuildFlake { flake, flake_attr } => says_something(flake)
                    && says_something(flake_attr),
                NixGenerationSourceView::CopyFromStore { copy_from, store_path } => {
                    &&& says_something(copy_from)
                    &&& says_something(store_path)
                    &&& store_path.len() >= "/nix/store/"@.len()
                    &&& store_path.take("/nix/store/"@.len() as int) == "/nix/store/"@
                },
            },
        },
{
    match e {
        ExecutorSpecView::Noop => {},
        ExecutorSpecView::Scripted(s) => {
            lemma_blank(s.artifact.url);
            lemma_blank(s.install_command);
            if s.activate_command is Some {
                lemma_blank(s.activate_command->0);
            }
        },
        ExecutorSpecView::GrubAb(g) => {
            lemma_blank(g.artifact.url);
        },
        ExecutorSpecView::NixGeneration(n) => match n.source {
            NixGenerationSourceView::BuildFlake { flake, flake_attr } => {
                lemma_blank(flake);
                lemma_blank(flake_attr);
            },
            NixGenerationSourceView::CopyFromStore { copy_from, store_path } => {
                lemma_blank(copy_from);
                lemma_blank(store_path);
                let store = "/nix/store/"@;
                if store_path.len() >= store.len() {
                    assert(store_path.take(store.len() as int) =~= store_path.subrange(
                        0,
                        store.len() as int,
                    ));
                }
            },
        },
    }
}

/// A release is accepted exactly where its version and its target type say something, and its
/// validation section and its executor are accepted.
pub proof fn law_release_accepted(r: CreateReleaseRequestView)
    ensures
        release_fault(r) is None <==> {
            &&& says_something(r.version)
            &&& says_something(r.manifest.target_type)
            &&& validation_fault(r.manifest.validation) is None
            &&& executor_fault(r.manifest.executor) is None
        },
{
    lemma_blank(r.version);
    lemma_blank(r.manifest.target_type);
}

/// The fault of health checks is that of one of them, and none before it has one.
proof fn lemma_first_check_fault(checks: Seq<HealthCheckView>) -> (at: int)
    requires
        checks_fault(checks) is Some,
    ensures
        0 <= at < checks.len(),
        checks_fault(checks) == check_fault(checks[at]),
        forall|k: int| 0 <= k < at ==> check_fault(#[trigger] checks[k]) is None,
    decreases checks.len(),
{
    if check_fault(checks[0]) is Some {
        0
    } else {
        let rest = checks.drop_first();
        let at = lemma_first_check_fault(rest);
        assert forall|k: int| 0 <= k < at + 1 implies check_fault(#[trigger] checks[k]) is None by {
            if k > 0 {
                assert(rest[k - 1] == checks[k]);
            }
        }
        assert(rest[at] == checks[at + 1]);
        at + 1
    }
}

/// What is said to be wrong with a validation section is wrong with it: there is no time; or some
/// check has no command, a command that says nothing, no address or one that cannot be read, which
/// is named.
pub proof fn law_validation_fault_holds(v: ValidationSpecView)
    requires
        validation_fault(v) is Some,
    ensures
        validation_fault(v) matches Some((fault, subject)) && {
            &&& v.timeout_seconds == 0 <==> fault is ZeroTimeout
            &&& fault is ZeroTimeout ==> subject.len() == 0
            &&& fault is ZeroTimeout || exists|k: int|
                0 <= k < v.health_checks.len() && {
                    let check = #[trigger] v.health_checks[k];
                    ||| fault is CheckWithoutCommand && check.kind is CommandExitZero
                        && check.command is None && subject.len() == 0
                    ||| fault is EmptyCheckCommand && check.kind is CommandExitZero
                        && check.command is Some && !says_something(check.command->0)
                        && subject.len() == 0
                    ||| fault is CheckWithoutUrl && check.kind is HttpGet && check.url is None
                        && subject.len() == 0
                    ||| fault is InvalidCheckUrl && check.kind is HttpGet && check.url == Some(
                        subject,
                    ) && parsed_url(subject) is Err
                }
        },
{
    if v.timeout_seconds != 0 {
        let at = lemma_first_check_fault(v.health_checks);
        let check = v.health_checks[at];
        if check.command is Some {
            lemma_blank(check.command->0);
        }
    }
}

/// What is said to be wrong with an executor is wrong with it.
pub proof fn law_executor_fault_holds(e: ExecutorSpecView)
    requires
        executor_fault(e) is Some,
    ensures
        executor_fault(e) matches Some((fault, subject)) && {
            let url = if e is Scripted {
                e->Scripted_0.artifact.url
            } else {
                e->GrubAb_0.artifact.url
            };
            let pair = e->GrubAb_0.slot_pair->0;
            let slots = e->GrubAb_0.slots->0;
            let control = e->GrubAb_0.boot_control->0;
            let source = e->NixGeneration_0.source;
            &&& fault is InvalidArtifactUrl ==> subject == url
            &&& !(fault is InvalidArtifactUrl) ==> subject.len() == 0
            &&& match fault {
                ManifestFault::EmptyArtifactUrl => (e is Scripted || e is GrubAb)
                    && !says_something(url),
                ManifestFault::InvalidArtifactUrl => (e is Scripted || e is GrubAb) && parsed_url(
                    url,
                ) is Err,
                ManifestFault::EmptyInstallCommand => e is Scripted && !says_something(
                    e->Scripted_0.install_command,
                ),
                ManifestFault::EmptyScriptedActivateCommand => e is Scripted
                    && e->Scripted_0.activate_command is Some && !says_something(
                    e->Scripted_0.activate_command->0,
                ),
                ManifestFault::EmptySlotPairEntry => e is GrubAb && e->GrubAb_0.slot_pair is Some
                    && (!says_something(pair[0]) || !says_something(pair[1])),
                ManifestFault::EqualSlotPairEntries => e is GrubAb && e->GrubAb_0.slot_pair is Some
                    && pair[0] == pair[1],
                ManifestFault::EmptySlotName => e is GrubAb && e->GrubAb_0.slots is Some && (
                !says_something(slots[0].name) || !says_something(slots[1].name)),
                ManifestFault::EmptySlotDevice => e is GrubAb && e->GrubAb_0.slots is Some && (
                !says_something(slots[0].device) || !says_something(slots[1].device)),
                ManifestFault::EmptySlotMenuEntry => e is GrubAb && e->GrubAb_0.slots is Some && (
                !says_something(slots[0].grub_menu_entry) || !says_something(
                    slots[1].grub_menu_entry,
                )),
                ManifestFault::EqualSlotNames => e is GrubAb && e->GrubAb_0.slots is Some
                    && slots[0].name == slots[1].name,
                ManifestFault::EqualSlotDevices => e is GrubAb && e->GrubAb_0.slots is Some
                    && slots[0].device == slots[1].device,
                ManifestFault::SlotPairOrder => e is GrubAb && e->GrubAb_0.slots is Some
                    && e->GrubAb_0.slot_pair is Some && (slots[0].name != pair[0] || slots[1].name
                    != pair[1]),
                ManifestFault::MissingBootControl => e is GrubAb && e->GrubAb_0.slots is Some
                    && e->GrubAb_0.boot_control is None,
                ManifestFault::EmptyAuthorityDevice => e is GrubAb && e->GrubAb_0.boot_control
                    is Some && !says_something(control.authority_device),
                ManifestFault::EmptyMountpoint => e is GrubAb && e->GrubAb_0.boot_control is Some
                    && !says_something(control.mountpoint),
                ManifestFault::EmptyGrubenvRelpath => e is GrubAb && e->GrubAb_0.boot_control
                    is Some && !says_something(control.grubenv_relpath),
                ManifestFault::EmptyGrubActivateCommand => e is GrubAb
                    && e->GrubAb_0.activate_command is Some && !says_something(
                    e->GrubAb_0.activate_command->0,
                ),
                ManifestFault::EmptyFlake => e is NixGeneration && source is BuildFlake
                    && !says_something(source->flake),
                ManifestFault::EmptyFlakeAttr => e is NixGeneration && source is BuildFlake
                    && !says_something(source->flake_attr),
                ManifestFault::EmptyCopyFrom => e is NixGeneration && source is CopyFromStore
                    && !says_something(source->copy_from),
                ManifestFault::EmptyStorePath => e is NixGeneration && source is CopyFromStore
                    && !says_something(source->store_path),
                ManifestFault::ForeignStorePath => e is NixGeneration && source is CopyFromStore
                    && says_something(source->store_path),
                _ => false,
            }
        },
{
    match e {
        ExecutorSpecView::Noop => {},
        ExecutorSpecView::Scripted(s) => {
            lemma_blank(s.artifact.url);
            lemma_blank(s.install_command);
            if s.activate_command is Some {
                lemma_blank(s.activate_command->0);
            }
        },
        ExecutorSpecView::GrubAb(g) => {
            lemma_blank(g.artifact.url);
            if g.slot_pair is Some {
                lemma_blank(g.slot_pair->0[0]);
                lemma_blank(g.slot_pair->0[1]);
            }
            if g.slots is Some {
                lemma_blank(g.slots->0[0].name);
                lemma_blank(g.slots->0[0].device);
                lemma_blank(g.slots->0[0].grub_menu_entry);
                lemma_blank(g.slots->0[1].name);
                lemma_blank(g.slots->0[1].device);
                lemma_blank(g.slots->0[1].grub_menu_entry);
            }
            if g.boot_control is Some {
                lemma_blank(g.boot_control->0.authority_device);
                lemma_blank(g.boot_control->0.mountpoint);
                lemma_blank(g.boot_control->0.grubenv_relpath);
            }
            if g.activate_command is Some {
                lemma_blank(g.activate_command->0);
            }
        },
        ExecutorSpecView::NixGeneration(n) => match n.source {
            NixGenerationSourceView::BuildFlake { flake, flake_attr } => {
                lemma_blank(flake);
                lemma_blank(flake_attr);
            },
            NixGenerationSourceView::CopyFromStore { copy_from, store_path } => {
                lemma_blank(copy_from);
                lemma_blank(store_path);
            },
        },
    }
}

/// What is said to be wrong with a release is the first thing that is: its version, else its
/// target type, else its validation section, else its executor.
pub proof fn law_first_fault_named(r: CreateReleaseRequestView)
    ensures
        ({
            let fault = release_fault(r);
            let m = r.manifest;
            &&& !says_something(r.version) ==> fault is Some && (fault->0).0 is EmptyVersion
            &&& says_something(r.version) && !says_something(m.target_type) ==> fault is Some && (
            fault->0).0 is EmptyTargetType
            &&& says_something(r.version) && says_something(m.target_type) && validation_fault(
                m.validation,
            ) is Some ==> fault == validation_fault(m.validation)
            &&& says_something(r.version) && says_something(m.target_type) && validation_fault(
                m.validation,
            ) is None ==> fault == executor_fault(m.executor)
        }),
{
    lemma_blank(r.version);
    lemma_blank(r.manifest.target_type);
}

} // verus!
