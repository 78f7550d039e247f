//! Requests and records.

use crate::clock::Timestamp;
use crate::text_map::TextMap;
use crate::types::manifest::{ReleaseManifest, ReleaseManifestView};
use crate::types::status::{AssetStatus, CommandStatus, DeploymentStatus, DeploymentTargetState};
use vstd::prelude::*;

verus! {

/// A release that the control plane knows.
#[derive(Debug)]
pub struct ReleaseRecord {
    pub id: String,
    pub version: String,
    pub target_type: String,
    pub manifest: ReleaseManifest,
    pub created_at: Timestamp,
}

/// The value of a [`ReleaseRecord`].
#[verifier::ext_equal]
pub struct ReleaseRecordView {
    pub id: Seq<char>,
    pub version: Seq<char>,
    pub target_type: Seq<char>,
    pub manifest: ReleaseManifestView,
    pub created_at: Timestamp,
}

impl View for ReleaseRecord {
    type V = ReleaseRecordView;

    open spec fn view(&self) -> ReleaseRecordView {
        ReleaseRecordView {
            id: self.id@,
            version: self.version@,
            target_type: self.target_type@,
            manifest: self.manifest@,
            created_at: self.created_at,
        }
    }
}

impl DeepView for ReleaseRecord {
    type V = ReleaseRecordView;

    open spec fn deep_view(&self) -> ReleaseRecordView {
        self@
    }
}

impl Clone for ReleaseRecord {
    fn clone(&self) -> (r: Self)
        ensures
            r@ == self@,
    {
        ReleaseRecord {
            id: self.id.clone(),
            version: self.version.clone(),
            target_type: self.target_type.clone(),
            manifest: self.manifest.clone(),
            created_at: self.created_at,
        }
    }
}

/// Which assets a deployment is for.
#[derive(Debug)]
pub struct Selector {
    pub target_type: String,
    /// Labels that an asset must have, each as `key=value`.
    pub labels: TextMap,
    /// Mission states of which an asset must have one, unless the list is empty.
    pub mission_states: Vec<String>,
}

/// The value of a [`Selector`].
#[verifier::ext_equal]
pub struct SelectorView {
    pub target_type: Seq<char>,
    pub labels: Map<Seq<char>, Seq<char>>,
    pub mission_states: Seq<Seq<char>>,
}

impl View for Selector {
    type V = SelectorView;

    open spec fn view(&self) -> SelectorView {
        SelectorView {
            target_type: self.target_type@,
            labels: self.labels@,
            mission_states: self.mission_states.deep_view(),
        }
    }
}

impl Clone for Selector {
    fn clone(&self) -> (r: Self)
        ensures
            r@ == self@,
    {
        let mission_states = self.mission_states.clone();
        assert(mission_states.deep_view() =~= self.mission_states.deep_view());
        Selector {
            target_type: self.target_type.clone(),
            labels: self.labels.clone(),
            mission_states,
        }
    }
}

/// A share of failures, kept as the bits of an IEEE 754 double.
#[derive(Debug, Clone, Copy, PartialEq, Eq, Structural)]
pub struct FailureRate {
    pub bits: u64,
}

/// How a deployment proceeds over its assets.
#[derive(Debug, Clone, Copy, PartialEq, Eq, Structural)]
pub struct RolloutStrategy {
    /// How many assets come first, in the order of their identifiers.
    pub canary: usize,
    pub batch_size: usize,
    /// How many commands may be under way at once.
    pub max_parallel: usize,
    /// The share of failed assets above which the deployment is aborted.
    pub max_failure_rate: FailureRate,
    /// Whether only idle assets take part.
    pub require_idle: bool,
}

impl View for RolloutStrategy {
    type V = RolloutStrategy;

    open spec fn view(&self) -> RolloutStrategy {
        *self
    }
}

impl Default for RolloutStrategy {
    fn default() -> (r: Self)
        ensures
            r == (RolloutStrategy {
                canary: 0,
                batch_size: 0,
                max_parallel: 0,
                max_failure_rate: FailureRate { bits: 0 },
                require_idle: false,
            }),
    {
        RolloutStrategy {
            canary: 0,
            batch_size: 0,
            max_parallel: 0,
            max_failure_rate: FailureRate { bits: 0 },
            require_idle: false,
        }
    }
}

/// The batch size where a request does not say.
pub fn default_batch_size() -> (r: usize)
    ensures
        r == 10,
{
    10
}

/// The number of commands under way at once where a request does not say.
pub fn default_max_parallel() -> (r: usize)
    ensures
        r == 5,
{
    5
}

/// The tolerated share of failures where a request does not say: a tenth.
pub fn default_failure_rate() -> (r: FailureRate)
    ensures
        r.bits == 0x3fb9_9999_9999_999a,
{
    FailureRate { bits: 0x3fb9_9999_9999_999a }
}

/// The request to deploy a release.
#[derive(Debug)]
pub struct CreateDeploymentRequest {
    pub release_id: String,
    pub rollout_name: String,
    pub selector: Selector,
    pub strategy: RolloutStrategy,
}

/// The value of a [`CreateDeploymentRequest`].
#[verifier::ext_equal]
pub struct CreateDeploymentRequestView {
    pub release_id: Seq<char>,
    pub rollout_name: Seq<char>,
    pub selector: SelectorView,
    pub strategy: RolloutStrategy,
}

impl View for CreateDeploymentRequest {
    type V = CreateDeploymentRequestView;

    open spec fn view(&self) -> CreateDeploymentRequestView {
        CreateDeploymentRequestView {
            release_id: self.release_id@,
            rollout_name: self.rollout_name@,
            selector: self.selector@,
            strategy: self.strategy,
        }
    }
}

impl Clone for CreateDeploymentRequest {
    fn clone(&self) -> (r: Self)
        ensures
            r@ == self@,
    {
        CreateDeploymentRequest {
            release_id: self.release_id.clone(),
            rollout_name: self.rollout_name.clone(),
            selector: self.selector.clone(),
            strategy: self.strategy,
        }
    }
}

/// A deployment that the control plane knows.
#[derive(Debug)]
pub struct DeploymentRecord {
    pub id: String,
    pub release_id: String,
    pub rollout_name: String,
    pub status: DeploymentStatus,
    pub selector: Selector,
    pub strategy: RolloutStrategy,
    pub created_at: Timestamp,
}

/// The value of a [`DeploymentRecord`].
#[verifier::ext_equal]
pub struct DeploymentRecordView {
    pub id: Seq<char>,
    pub release_id: Seq<char>,
    pub rollout_name: Seq<char>,
    pub status: DeploymentStatus,
    pub selector: SelectorView,
    pub strategy: RolloutStrategy,
    pub created_at: Timestamp,
}

impl View for DeploymentRecord {
    type V = DeploymentRecordView;

    open spec fn view(&self) -> DeploymentRecordView {
        DeploymentRecordView {
            id: self.id@,
            release_id: self.release_id@,
            rollout_name: self.rollout_name@,
            status: self.status,
            selector: self.selector@,
            strategy: self.strategy,
            created_at: self.created_at,
        }
    }
}

impl DeepView for DeploymentRecord {
    type V = DeploymentRecordView;

    open spec fn deep_view(&self) -> DeploymentRecordView {
        self@
    }
}

impl Clone for DeploymentRecord {
    fn clone(&self) -> (r: Self)
        ensures
            r@ == self@,
    {
        DeploymentRecord {
            id: self.id.clone(),
            release_id: self.release_id.clone(),
            rollout_name: self.rollout_name.clone(),
            status: self.status,
            selector: self.selector.clone(),
            strategy: self.strategy,
            created_at: self.created_at,
        }
    }
}

/// How far a deployment has come on one asset.
#[derive(Debug)]
pub struct DeploymentTargetRecord {
    pub deployment_id: String,
    pub asset_id: String,
    pub state: DeploymentTargetState,
    pub last_error: Option<String>,
    pub current_command_id: Option<String>,
    pub updated_at: Timestamp,
}

/// The value of a [`DeploymentTargetRecord`].
#[verifier::ext_equal]
pub struct DeploymentTargetRecordView {
    pub deployment_id: Seq<char>,
    pub asset_id: Seq<char>,
    pub state: DeploymentTargetState,
    pub last_error: Option<Seq<char>>,
    pub current_command_id: Option<Seq<char>>,
    pub updated_at: Timestamp,
}

impl View for DeploymentTargetRecord {
    type V = DeploymentTargetRecordView;

    open spec fn view(&self) -> DeploymentTargetRecordView {
        DeploymentTargetRecordView {
            deployment_id: self.deployment_id@,
            asset_id: self.asset_id@,
            state: self.state,
            last_error: self.last_error.deep_view(),
            current_command_id: self.current_command_id.deep_view(),
            updated_at: self.updated_at,
        }
    }
}

impl DeepView for DeploymentTargetRecord {
    type V = DeploymentTargetRecordView;

    open spec fn deep_view(&self) -> DeploymentTargetRecordView {
        self@
    }
}

impl Clone for DeploymentTargetRecord {
    fn clone(&self) -> (r: Self)
        ensures
            r@ == self@,
    {
        DeploymentTargetRecord {
            deployment_id: self.deployment_id.clone(),
            asset_id: self.asset_id.clone(),
            state: self.state,
            last_error: self.last_error.clone(),
            current_command_id: self.current_command_id.clone(),
            updated_at: self.updated_at,
        }
    }
}

/// What an agent says of its asset when it checks in.
#[derive(Debug)]
pub struct AgentCheckinRequest {
    pub asset_id: String,
    pub asset_type: String,
    pub mission_state: String,
    pub labels: Vec<String>,
    pub current_version: Option<String>,
    pub active_slot: Option<String>,
    pub status: Option<AssetStatus>,
}

/// The value of an [`AgentCheckinRequest`].
#[verifier::ext_equal]
pub struct AgentCheckinRequestView {
    pub asset_id: Seq<char>,
    pub asset_type: Seq<char>,
    pub mission_state: Seq<char>,
    pub labels: Seq<Seq<char>>,
    pub current_version: Option<Seq<char>>,
    pub active_slot: Option<Seq<char>>,
    pub status: Option<AssetStatus>,
}

impl View for AgentCheckinRequest {
    type V = AgentCheckinRequestView;

    open spec fn view(&self) -> AgentCheckinRequestView {
        AgentCheckinRequestView {
            asset_id: self.asset_id@,
            asset_type: self.asset_type@,
            mission_state: self.mission_state@,
            labels: self.labels.deep_view(),
            current_version: self.current_version.deep_view(),
            active_slot: self.active_slot.deep_view(),
            status: self.status,
        }
    }
}

impl Clone for AgentCheckinRequest {
    fn clone(&self) -> (r: Self)
        ensures
            r@ == self@,
    {
        let labels = self.labels.clone();
        assert(labels.deep_view() =~= self.labels.deep_view());
        AgentCheckinRequest {
            asset_id: self.asset_id.clone(),
            asset_type: self.asset_type.clone(),
            mission_state: self.mission_state.clone(),
            labels,
            current_version: self.current_version.clone(),
            active_slot: self.active_slot.clone(),
            status: self.status,
        }
    }
}

/// An asset that the control plane knows.
#[derive(Debug)]
pub struct AssetRecord {
    pub asset_id: String,
    pub asset_type: String,
    pub mission_state: String,
    pub current_version: Option<String>,
    pub desired_version: Option<String>,
    pub active_slot: Option<String>,
    pub status: AssetStatus,
    pub last_seen: Timestamp,
    pub labels: Vec<String>,
}

/// The value of an [`AssetRecord`].
#[verifier::ext_equal]
pub struct AssetRecordView {
    pub asset_id: Seq<char>,
    pub asset_type: Seq<char>,
    pub mission_state: Seq<char>,
    pub current_version: Option<Seq<char>>,
    pub desired_version: Option<Seq<char>>,
    pub active_slot: Option<Seq<char>>,
    pub status: AssetStatus,
    pub last_seen: Timestamp,
    pub labels: Seq<Seq<char>>,
}

impl View for AssetRecord {
    type V = AssetRecordView;

    open spec fn view(&self) -> AssetRecordView {
        AssetRecordView {
            asset_id: self.asset_id@,
            asset_type: self.asset_type@,
            mission_state: self.mission_state@,
            current_version: self.current_version.deep_view(),
            desired_version: self.desired_version.deep_view(),
            active_slot: self.active_slot.deep_view(),
            status: self.status,
            last_seen: self.last_seen,
            labels: self.labels.deep_view(),
        }
    }
}

impl DeepView for AssetRecord {
    type V = AssetRecordView;

    open spec fn deep_view(&self) -> AssetRecordView {
        self@
    }
}

impl Clone for AssetRecord {
    fn clone(&self) -> (r: Self)
        ensures
            r@ == self@,
    {
        let labels = self.labels.clone();
        assert(labels.deep_view() =~= self.labels.deep_view());
        AssetRecord {
            asset_id: self.asset_id.clone(),
            asset_type: self.asset_type.clone(),
            mission_state: self.mission_state.clone(),
            current_version: self.current_version.clone(),
            desired_version: self.desired_version.clone(),
            active_slot: self.active_slot.clone(),
            status: self.status,
            last_seen: self.last_seen,
            labels,
        }
    }
}

/// The request of an agent for commands.
#[derive(Debug)]
pub struct AgentPollRequest {
    pub asset_id: String,
}

/// The value of an [`AgentPollRequest`].
#[verifier::ext_equal]
pub struct AgentPollRequestView {
    pub asset_id: Seq<char>,
}

impl View for AgentPollRequest {
    type V = AgentPollRequestView;

    open spec fn view(&self) -> AgentPollRequestView {
        AgentPollRequestView {
            asset_id: self.asset_id@,
        }
    }
}

impl Clone for AgentPollRequest {
    fn clone(&self) -> (r: Self)
        ensures
            r@ == self@,
    {
        AgentPollRequest {
            asset_id: self.asset_id.clone(),
        }
    }
}

/// The commands for an agent.
#[derive(Debug)]
pub struct AgentPollResponse {
    pub commands: Vec<CommandRecord>,
}

/// The value of an [`AgentPollResponse`].
#[verifier::ext_equal]
pub struct AgentPollResponseView {
    pub commands: Seq<CommandRecordView>,
}

impl View for AgentPollResponse {
    type V = AgentPollResponseView;

    open spec fn view(&self) -> AgentPollResponseView {
        AgentPollResponseView {
            commands: self.commands.deep_view(),
        }
    }
}

impl Clone for AgentPollResponse {
    fn clone(&self) -> (r: Self)
        ensures
            r@ == self@,
    {
        let commands = self.commands.clone();
        assert(commands.deep_view() =~= self.commands.deep_view());
        AgentPollResponse {
            commands,
        }
    }
}

/// A command to install a release on an asset.
#[derive(Debug)]
pub struct CommandRecord {
    pub id: String,
    pub deployment_id: String,
    pub release_id: String,
    pub asset_id: String,
    pub command_type: String,
    pub status: CommandStatus,
    pub manifest: ReleaseManifest,
    pub release_version: String,
}

/// The value of a [`CommandRecord`].
#[verifier::ext_equal]
pub struct CommandRecordView {
    pub id: Seq<char>,
    pub deployment_id: Seq<char>,
    pub release_id: Seq<char>,
    pub asset_id: Seq<char>,
    pub command_type: Seq<char>,
    pub status: CommandStatus,
    pub manifest: ReleaseManifestView,
    pub release_version: Seq<char>,
}

impl View for CommandRecord {
    type V = CommandRecordView;

    open spec fn view(&self) -> CommandRecordView {
        CommandRecordView {
            id: self.id@,
            deployment_id: self.deployment_id@,
            release_id: self.release_id@,
            asset_id: self.asset_id@,
            command_type: self.command_type@,
            status: self.status,
            manifest: self.manifest@,
            release_version: self.release_version@,
        }
    }
}

impl DeepView for CommandRecord {
    type V = CommandRecordView;

    open spec fn deep_view(&self) -> CommandRecordView {
        self@
    }
}

impl Clone for CommandRecord {
    fn clone(&self) -> (r: Self)
        ensures
            r@ == self@,
    {
        CommandRecord {
            id: self.id.clone(),
            deployment_id: self.deployment_id.clone(),
            release_id: self.release_id.clone(),
            asset_id: self.asset_id.clone(),
            command_type: self.command_type.clone(),
            status: self.status,
            manifest: self.manifest.clone(),
            release_version: self.release_version.clone(),
        }
    }
}

/// What an agent reports of a command.
#[derive(Debug)]
pub struct AgentResultRequest {
    pub command_id: String,
    pub asset_id: String,
    pub success: bool,
    pub message: String,
    pub active_slot: Option<String>,
    pub booted_version: Option<String>,
}

/// The value of an [`AgentResultRequest`].
#[verifier::ext_equal]
pub struct AgentResultRequestView {
    pub command_id: Seq<char>,
    pub asset_id: Seq<char>,
    pub success: bool,
    pub message: Seq<char>,
    pub active_slot: Option<Seq<char>>,
    pub booted_version: Option<Seq<char>>,
}

impl View for AgentResultRequest {
    type V = AgentResultRequestView;

    open spec fn view(&self) -> AgentResultRequestView {
        AgentResultRequestView {
            command_id: self.command_id@,
            asset_id: self.asset_id@,
            success: self.success,
            message: self.message@,
            active_slot: self.active_slot.deep_view(),
            booted_version: self.booted_version.deep_view(),
        }
    }
}

impl DeepView for AgentResultRequest {
    type V = AgentResultRequestView;

    open spec fn deep_view(&self) -> AgentResultRequestView {
        self@
    }
}

impl Clone for AgentResultRequest {
    fn clone(&self) -> (r: Self)
        ensures
            r@ == self@,
    {
        AgentResultRequest {
            command_id: self.command_id.clone(),
            asset_id: self.asset_id.clone(),
            success: self.success,
            message: self.message.clone(),
            active_slot: self.active_slot.clone(),
            booted_version: self.booted_version.clone(),
        }
    }
}

/// The request to pause a deployment, or to resume it.
#[derive(Debug, Clone, Copy, PartialEq, Eq, Structural)]
pub struct PauseDeploymentRequest {
    pub paused: bool,
}

/// A short answer to a request.
#[derive(Debug)]
pub struct ApiMessage {
    pub message: String,
}

/// The value of an [`ApiMessage`].
#[verifier::ext_equal]
pub struct ApiMessageView {
    pub message: Seq<char>,
}

impl View for ApiMessage {
    type V = ApiMessageView;

    open spec fn view(&self) -> ApiMessageView {
        ApiMessageView {
            message: self.message@,
        }
    }
}

impl Clone for ApiMessage {
    fn clone(&self) -> (r: Self)
        ensures
            r@ == self@,
    {
        ApiMessage {
            message: self.message.clone(),
        }
    }
}

} // verus!
