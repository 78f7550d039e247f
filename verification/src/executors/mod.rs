//! How a release is installed and activated on a machine.

pub mod choice;
pub mod course;
pub mod grub_ab;
pub mod nix_generation;
pub mod noop;
pub mod plan;
pub mod scripted;

pub use grub_ab::rollback_grub_ab;
pub use nix_generation::rollback_nix_generation;

use crate::executors::grub_ab::{
    active_slot, detect_active_slot, grub_rollback, Devices, DevicesView, GrubAbExecutor,
};
use crate::executors::nix_generation::NixGenerationExecutor;
use crate::executors::noop::NoopExecutor;
use crate::executors::plan::{planned, Programs, ProgramsView, Step, StepView};
use crate::executors::scripted::ScriptedExecutor;
use crate::text_map::TextMap;
use crate::types::manifest::{
    ArtifactSource, ArtifactSourceView, ExecutorSpec, ExecutorSpecView, GrubAbExecutorSpec,
    NixGenerationExecutorSpec, ReleaseManifest, ReleaseManifestView, ScriptedExecutorSpec,
};
use vstd::prelude::*;

verus! {

/// What an executor works with.
#[derive(Debug)]
pub struct ExecutionContext {
    pub command_id: String,
    /// Where the artifact was put, if there is one.
    pub artifact_path: Option<String>,
    /// The slot that the machine runs.
    pub current_slot: String,
    /// The slot that the release goes to.
    pub next_slot: String,
    pub manifest: ReleaseManifest,
    pub release_version: String,
    /// Where the agent keeps its files.
    pub state_dir: String,
}

/// The value of an [`ExecutionContext`].
#[verifier::ext_equal]
pub struct ExecutionContextView {
    pub command_id: Seq<char>,
    pub artifact_path: Option<Seq<char>>,
    pub current_slot: Seq<char>,
    pub next_slot: Seq<char>,
    pub manifest: ReleaseManifestView,
    pub release_version: Seq<char>,
    pub state_dir: Seq<char>,
}

impl View for ExecutionContext {
    type V = ExecutionContextView;

    open spec fn view(&self) -> ExecutionContextView {
        ExecutionContextView {
            command_id: self.command_id@,
            artifact_path: self.artifact_path.deep_view(),
            current_slot: self.current_slot@,
            next_slot: self.next_slot@,
            manifest: self.manifest@,
            release_version: self.release_version@,
            state_dir: self.state_dir@,
        }
    }
}

impl Clone for ExecutionContext {
    fn clone(&self) -> (r: Self)
        ensures
            r@ == self@,
    {
        ExecutionContext {
            command_id: self.command_id.clone(),
            artifact_path: self.artifact_path.clone(),
            current_slot: self.current_slot.clone(),
            next_slot: self.next_slot.clone(),
            manifest: self.manifest.clone(),
            release_version: self.release_version.clone(),
            state_dir: self.state_dir.clone(),
        }
    }
}

/// What is expected of the machine after its next start.
#[derive(Debug)]
pub struct PendingReboot {
    pub expected_system_path: Option<String>,
    pub expected_active_slot: Option<String>,
    pub expected_root_device: Option<String>,
}

/// The value of a [`PendingReboot`].
#[verifier::ext_equal]
pub struct PendingRebootView {
    pub expected_system_path: Option<Seq<char>>,
    pub expected_active_slot: Option<Seq<char>>,
    pub expected_root_device: Option<Seq<char>>,
}

impl View for PendingReboot {
    type V = PendingRebootView;

    open spec fn view(&self) -> PendingRebootView {
        PendingRebootView {
            expected_system_path: self.expected_system_path.deep_view(),
            expected_active_slot: self.expected_active_slot.deep_view(),
            expected_root_device: self.expected_root_device.deep_view(),
        }
    }
}

impl Clone for PendingReboot {
    fn clone(&self) -> (r: Self)
        ensures
            r@ == self@,
    {
        PendingReboot {
            expected_system_path: self.expected_system_path.clone(),
            expected_active_slot: self.expected_active_slot.clone(),
            expected_root_device: self.expected_root_device.clone(),
        }
    }
}

/// What activating a release leads to.
#[derive(Debug)]
pub enum ActivationOutcome {
    /// The release is active.
    Complete,
    /// The release is active after the next start of the machine.
    AwaitReboot(PendingReboot),
}

/// The value of an [`ActivationOutcome`].
#[verifier::ext_equal]
pub enum ActivationOutcomeView {
    Complete,
    AwaitReboot(PendingRebootView),
}

impl View for ActivationOutcome {
    type V = ActivationOutcomeView;

    open spec fn view(&self) -> ActivationOutcomeView {
        match self {
            ActivationOutcome::Complete => ActivationOutcomeView::Complete,
            ActivationOutcome::AwaitReboot(pending) => ActivationOutcomeView::AwaitReboot(pending@),
        }
    }
}

impl Clone for ActivationOutcome {
    fn clone(&self) -> (r: Self)
        ensures
            r@ == self@,
    {
        match self {
            ActivationOutcome::Complete => ActivationOutcome::Complete,
            ActivationOutcome::AwaitReboot(pending) => ActivationOutcome::AwaitReboot(
                pending.clone(),
            ),
        }
    }
}

/// How to go back to what the machine ran before.
#[derive(Debug)]
pub enum RollbackAction {
    NixGeneration { previous_system_path: String },
    GrubAb {
        authority_device: String,
        mountpoint: String,
        grubenv_relpath: String,
        previous_grub_menu_entry: String,
    },
}

/// The value of a [`RollbackAction`].
#[verifier::ext_equal]
pub enum RollbackActionView {
    NixGeneration { previous_system_path: Seq<char> },
    GrubAb {
        authority_device: Seq<char>,
        mountpoint: Seq<char>,
        grubenv_relpath: Seq<char>,
        previous_grub_menu_entry: Seq<char>,
    },
}

impl View for RollbackAction {
    type V = RollbackActionView;

    open spec fn view(&self) -> RollbackActionView {
        match self {
            RollbackAction::NixGeneration { previous_system_path } =>
                RollbackActionView::NixGeneration { previous_system_path: previous_system_path@ },
            RollbackAction::GrubAb {
                authority_device,
                mountpoint,
                grubenv_relpath,
                previous_grub_menu_entry,
            } => RollbackActionView::GrubAb {
                authority_device: authority_device@,
                mountpoint: mountpoint@,
                grubenv_relpath: grubenv_relpath@,
                previous_grub_menu_entry: previous_grub_menu_entry@,
            },
        }
    }
}

impl DeepView for RollbackAction {
    type V = RollbackActionView;

    open spec fn deep_view(&self) -> RollbackActionView {
        self@
    }
}

impl Clone for RollbackAction {
    fn clone(&self) -> (r: Self)
        ensures
            r@ == self@,
    {
        match self {
            RollbackAction::NixGeneration { previous_system_path } =>
                RollbackAction::NixGeneration {
                    previous_system_path: previous_system_path.clone(),
                },
            RollbackAction::GrubAb {
                authority_device,
                mountpoint,
                grubenv_relpath,
                previous_grub_menu_entry,
            } => RollbackAction::GrubAb {
                authority_device: authority_device.clone(),
                mountpoint: mountpoint.clone(),
                grubenv_relpath: grubenv_relpath.clone(),
                previous_grub_menu_entry: previous_grub_menu_entry.clone(),
            },
        }
    }
}

/// The steps that activate a release, and what they lead to.
#[derive(Debug)]
pub struct Activation {
    pub steps: Vec<Step>,
    pub outcome: ActivationOutcome,
}

/// The value of an [`Activation`].
#[verifier::ext_equal]
pub struct ActivationView {
    pub steps: Seq<StepView>,
    pub outcome: ActivationOutcomeView,
}

impl View for Activation {
    type V = ActivationView;

    open spec fn view(&self) -> ActivationView {
        ActivationView { steps: self.steps.deep_view(), outcome: self.outcome@ }
    }
}

/// The value of a plan of an activation.
pub open spec fn activation_planned(r: Result<Activation, String>) -> Result<
    ActivationView,
    Seq<char>,
> {
    match r {
        Ok(activation) => Ok(activation@),
        Err(complaint) => Err(complaint@),
    }
}

/// A way to install and activate releases. An executor only plans: the steps that it asks for
/// are carried out one after the other, up to the first that fails, as
/// [`next_step`](course::next_step) says.
pub trait Executor {
    /// The steps that install a release.
    spec fn installs(&self, ctx: ExecutionContextView, programs: ProgramsView) -> Result<
        Seq<StepView>,
        Seq<char>,
    >;

    /// The steps that activate a release, and what they lead to. Where a system was built, its
    /// path is given.
    spec fn activates(
        &self,
        ctx: ExecutionContextView,
        programs: ProgramsView,
        built: Option<Seq<char>>,
    ) -> Result<ActivationView, Seq<char>>;

    /// Plans the installation of a release.
    fn install(&self, ctx: &ExecutionContext, programs: &Programs) -> (r: Result<Vec<Step>, String>)
        ensures
            planned(r) == self.installs(ctx@, programs@),
    ;

    /// Plans the activation of a release. Where a system was built, its path is given.
    fn activate(
        &self,
        ctx: &ExecutionContext,
        programs: &Programs,
        built: Option<String>,
    ) -> (r: Result<Activation, String>)
        ensures
            activation_planned(r) == self.activates(ctx@, programs@, built.deep_view()),
    ;
}

/// The executor of a release.
#[derive(Debug)]
pub enum ReleaseExecutor {
    Scripted(ScriptedExecutor),
    GrubAb(GrubAbExecutor),
    NixGeneration(NixGenerationExecutor),
    Noop(NoopExecutor),
}

impl Executor for ReleaseExecutor {
    open spec fn installs(&self, ctx: ExecutionContextView, programs: ProgramsView) -> Result<
        Seq<StepView>,
        Seq<char>,
    > {
        match self {
            ReleaseExecutor::Scripted(executor) => executor.installs(ctx, programs),
            ReleaseExecutor::GrubAb(executor) => executor.installs(ctx, programs),
            ReleaseExecutor::NixGeneration(executor) => executor.installs(ctx, programs),
            ReleaseExecutor::Noop(executor) => executor.installs(ctx, programs),
        }
    }

    open spec fn activates(
        &self,
        ctx: ExecutionContextView,
        programs: ProgramsView,
        built: Option<Seq<char>>,
    ) -> Result<ActivationView, Seq<char>> {
        match self {
            ReleaseExecutor::Scripted(executor) => executor.activates(ctx, programs, built),
            ReleaseExecutor::GrubAb(executor) => executor.activates(ctx, programs, built),
            ReleaseExecutor::NixGeneration(executor) => executor.activates(ctx, programs, built),
            ReleaseExecutor::Noop(executor) => executor.activates(ctx, programs, built),
        }
    }

    fn install(&self, ctx: &ExecutionContext, programs: &Programs) -> (r: Result<
        Vec<Step>,
        String,
    >) {
        match self {
            ReleaseExecutor::Scripted(executor) => executor.install(ctx, programs),
            ReleaseExecutor::GrubAb(executor) => executor.install(ctx, programs),
            ReleaseExecutor::NixGeneration(executor) => executor.install(ctx, programs),
            ReleaseExecutor::Noop(executor) => executor.install(ctx, programs),
        }
    }

    fn activate(
        &self,
        ctx: &ExecutionContext,
        programs: &Programs,
        built: Option<String>,
    ) -> (r: Result<Activation, String>) {
        match self {
            ReleaseExecutor::Scripted(executor) => executor.activate(ctx, programs, built),
            ReleaseExecutor::GrubAb(executor) => executor.activate(ctx, programs, built),
            ReleaseExecutor::NixGeneration(executor) => executor.activate(ctx, programs, built),
            ReleaseExecutor::Noop(executor) => executor.activate(ctx, programs, built),
        }
    }
}

/// The executor that a release asks for.
pub open spec fn executor_of(spec: ExecutorSpecView) -> ReleaseExecutor {
    match spec {
        ExecutorSpecView::Scripted(_) => ReleaseExecutor::Scripted(ScriptedExecutor),
        ExecutorSpecView::GrubAb(_) => ReleaseExecutor::GrubAb(GrubAbExecutor),
        ExecutorSpecView::NixGeneration(_) => ReleaseExecutor::NixGeneration(NixGenerationExecutor),
        ExecutorSpecView::Noop => ReleaseExecutor::Noop(NoopExecutor),
    }
}

/// The executor that a release asks for.
pub fn build(spec: &ExecutorSpec) -> (r: ReleaseExecutor)
    ensures
        r == executor_of(spec@),
{
    match spec {
        ExecutorSpec::Scripted(_) => ReleaseExecutor::Scripted(ScriptedExecutor),
        ExecutorSpec::GrubAb(_) => ReleaseExecutor::GrubAb(GrubAbExecutor),
        ExecutorSpec::NixGeneration(_) => ReleaseExecutor::NixGeneration(NixGenerationExecutor),
        ExecutorSpec::Noop => ReleaseExecutor::Noop(NoopExecutor),
    }
}

/// The slot that a machine runs, where the executor can tell.
pub open spec fn current_slot_of(spec: ExecutorSpecView, devices: DevicesView) -> Result<
    Option<Seq<char>>,
    Seq<char>,
> {
    match spec {
        ExecutorSpecView::GrubAb(grub) => if grub.slots is Some {
            match active_slot(grub, devices) {
                Ok(slot) => Ok(Some(slot)),
                Err(complaint) => Err(complaint),
            }
        } else {
            Ok(None)
        },
        _ => Ok(None),
    }
}

/// The slot that a machine runs, where the executor can tell. The devices are looked at only by
/// an executor with slots.
pub fn detect_current_slot(spec: &ExecutorSpec, devices: &Devices) -> (r: Result<
    Option<String>,
    String,
>)
    ensures
        match r {
            Ok(slot) => current_slot_of(spec@, devices@) == Ok::<Option<Seq<char>>, Seq<char>>(
                slot.deep_view(),
            ),
            Err(complaint) => current_slot_of(spec@, devices@) == Err::<
                Option<Seq<char>>,
                Seq<char>,
            >(complaint@),
        },
{
    match spec {
        ExecutorSpec::GrubAb(grub) => {
            if grub.slots.is_some() {
                match detect_active_slot(grub, devices) {
                    Ok(slot) => Ok(Some(slot)),
                    Err(complaint) => Err(complaint),
                }
            } else {
                Ok(None)
            }
        },
        _ => Ok(None),
    }
}

/// How to go back from a release, where its executor can.
pub open spec fn rollback_of(
    spec: ExecutorSpecView,
    current_slot: Seq<char>,
    previous_system_path: Option<Seq<char>>,
) -> Result<Option<RollbackActionView>, Seq<char>> {
    match spec {
        ExecutorSpecView::NixGeneration(_) => match previous_system_path {
            Some(path) => Ok(
                Some(RollbackActionView::NixGeneration { previous_system_path: path }),
            ),
            None => Ok(None),
        },
        ExecutorSpecView::GrubAb(grub) => if grub.slots is Some {
            match grub_rollback(grub, current_slot) {
                Ok(action) => Ok(Some(action)),
                Err(complaint) => Err(complaint),
            }
        } else {
            Ok(None)
        },
        _ => Ok(None),
    }
}

/// How to go back from a release, where its executor can.
pub fn rollback_action(
    spec: &ExecutorSpec,
    current_slot: &str,
    previous_system_path: Option<String>,
) -> (r: Result<Option<RollbackAction>, String>)
    ensures
        match r {
            Ok(action) => rollback_of(
                spec@,
                current_slot@,
                previous_system_path.deep_view(),
            ) == Ok::<Option<RollbackActionView>, Seq<char>>(action.deep_view()),
            Err(complaint) => rollback_of(
                spec@,
                current_slot@,
                previous_system_path.deep_view(),
            ) == Err::<Option<RollbackActionView>, Seq<char>>(complaint@),
        },
{
    match spec {
        ExecutorSpec::NixGeneration(_) => match previous_system_path {
            Some(path) => Ok(Some(RollbackAction::NixGeneration { previous_system_path: path })),
            None => Ok(None),
        },
        ExecutorSpec::GrubAb(grub) => {
            if grub.slots.is_some() {
                match grub_ab::rollback_action(grub, current_slot) {
                    Ok(action) => Ok(Some(action)),
                    Err(complaint) => Err(complaint),
                }
            } else {
                Ok(None)
            }
        },
        _ => Ok(None),
    }
}

/// What a scripted release asks for.
pub(crate) fn scripted_spec(ctx: &ExecutionContext) -> (r: Result<&ScriptedExecutorSpec, String>)
    ensures
        match r {
            Ok(spec) => ctx@.manifest.executor == ExecutorSpecView::Scripted(spec@),
            Err(complaint) => !(ctx@.manifest.executor is Scripted) && complaint@
                == "executor mismatch: expected scripted"@,
        },
{
    match &ctx.manifest.executor {
        ExecutorSpec::Scripted(spec) => Ok(spec),
        _ => Err("executor mismatch: expected scripted".to_string()),
    }
}

/// What a release for two slots asks for.
pub(crate) fn grub_ab_spec(ctx: &ExecutionContext) -> (r: Result<&GrubAbExecutorSpec, String>)
    ensures
        match r {
            Ok(spec) => ctx@.manifest.executor == ExecutorSpecView::GrubAb(spec@),
            Err(complaint) => !(ctx@.manifest.executor is GrubAb) && complaint@
                == "executor mismatch: expected grub-ab"@,
        },
{
    match &ctx.manifest.executor {
        ExecutorSpec::GrubAb(spec) => Ok(spec),
        _ => Err("executor mismatch: expected grub-ab".to_string()),
    }
}

/// What a release of a system generation asks for.
pub(crate) fn nix_spec(ctx: &ExecutionContext) -> (r: Result<&NixGenerationExecutorSpec, String>)
    ensures
        match r {
            Ok(spec) => ctx@.manifest.executor == ExecutorSpecView::NixGeneration(spec@),
            Err(complaint) => !(ctx@.manifest.executor is NixGeneration) && complaint@
                == "executor mismatch: expected nix-generation"@,
        },
{
    match &ctx.manifest.executor {
        ExecutorSpec::NixGeneration(spec) => Ok(spec),
        _ => Err("executor mismatch: expected nix-generation".to_string()),
    }
}

/// A text that may be missing, as a possibly empty text.
pub open spec fn or_empty(text: Option<Seq<char>>) -> Seq<char> {
    match text {
        Some(text) => text,
        None => Seq::empty(),
    }
}

/// The variables that commands of a release find in their environment.
pub open spec fn release_env(ctx: ExecutionContextView) -> Map<Seq<char>, Seq<char>> {
    Map::empty().insert("ARTIFACT_PATH"@, or_empty(ctx.artifact_path)).insert(
        "ARTIFACT_URL"@,
        match artifact_of(ctx.manifest.executor) {
            Some(artifact) => artifact.url,
            None => Seq::empty(),
        },
    ).insert("CURRENT_SLOT"@, ctx.current_slot).insert("NEXT_SLOT"@, ctx.next_slot).insert(
        "RELEASE_VERSION"@,
        ctx.release_version,
    ).insert("STATE_DIR"@, ctx.state_dir)
}

/// A map with pairs added one after the other.
pub open spec fn with_pairs(
    map: Map<Seq<char>, Seq<char>>,
    pairs: Seq<(Seq<char>, Seq<char>)>,
) -> Map<Seq<char>, Seq<char>>
    decreases pairs.len(),
{
    if pairs.len() == 0 {
        map
    } else {
        with_pairs(map, pairs.drop_last()).insert(pairs.last().0, pairs.last().1)
    }
}

/// The variables that commands of a release find in their environment, and more.
pub fn shell_env(ctx: &ExecutionContext, extra: &Vec<(String, String)>) -> (r: TextMap)
    ensures
        r@ == with_pairs(release_env(ctx@), extra.deep_view()),
{
    let path = match &ctx.artifact_path {
        Some(path) => path.clone(),
        None => String::new(),
    };
    let url = match artifact_source(&ctx.manifest.executor) {
        Some(artifact) => artifact.url.clone(),
        None => String::new(),
    };
    assert(path@ =~= or_empty(ctx@.artifact_path));
    let mut env = TextMap::new();
    env.insert("ARTIFACT_PATH".to_string(), path);
    env.insert("ARTIFACT_URL".to_string(), url);
    env.insert("CURRENT_SLOT".to_string(), ctx.current_slot.clone());
    env.insert("NEXT_SLOT".to_string(), ctx.next_slot.clone());
    env.insert("RELEASE_VERSION".to_string(), ctx.release_version.clone());
    env.insert("STATE_DIR".to_string(), ctx.state_dir.clone());
    assert(env@ =~= release_env(ctx@));
    let ghost pairs = extra.deep_view();
    let mut i: usize = 0;
    assert(pairs.take(0) =~= Seq::empty());
    while i < extra.len()
        invariant
            i <= extra.len(),
            pairs == extra.deep_view(),
            env@ == with_pairs(release_env(ctx@), pairs.take(i as int)),
        decreases extra.len() - i,
    {
        assert(pairs.take(i + 1).drop_last() =~= pairs.take(i as int));
        assert(pairs.take(i + 1).last() == pairs[i as int]);
        env.insert(extra[i].0.clone(), extra[i].1.clone());
        i += 1;
    }
    assert(pairs.take(i as int) =~= pairs);
    env
}

/// The artifact that a release is made of, if it has one.
pub open spec fn artifact_of(spec: ExecutorSpecView) -> Option<ArtifactSourceView> {
    match spec {
        ExecutorSpecView::Scripted(scripted) => Some(scripted.artifact),
        ExecutorSpecView::GrubAb(grub) => Some(grub.artifact),
        _ => None,
    }
}

/// The artifact that a release is made of, if it has one.
pub fn artifact_source(spec: &ExecutorSpec) -> (r: Option<&ArtifactSource>)
    ensures
        match r {
            Some(artifact) => artifact_of(spec@) == Some(artifact@),
            None => artifact_of(spec@) is None,
        },
{
    match spec {
        ExecutorSpec::Scripted(scripted) => Some(&scripted.artifact),
        ExecutorSpec::GrubAb(grub) => Some(&grub.artifact),
        _ => None,
    }
}

/// Where the artifact of a release was put, if it has one.
pub fn artifact_path(ctx: &ExecutionContext) -> (r: Option<&String>)
    ensures
        match r {
            Some(path) => ctx@.artifact_path == Some(path@),
            None => ctx@.artifact_path is None,
        },
{
    match &ctx.artifact_path {
        Some(path) => Some(path),
        None => None,
    }
}

} // verus!
