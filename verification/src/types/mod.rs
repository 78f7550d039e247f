//! The records, requests and manifests that the control plane and its agents exchange.

pub mod manifest;
pub mod records;
pub mod status;

pub use manifest::{
    ArtifactSource, CreateReleaseRequest, ExecutorSpec, GrubAbBootControl, GrubAbCompression,
    GrubAbExecutorSpec, GrubAbSlot, HealthCheck, HealthCheckKind, ManifestError, ManifestFault,
    NixGenerationExecutorSpec, NixGenerationSource, ReleaseManifest, RollbackPolicy,
    ScriptedExecutorSpec, ValidationSpec,
};
pub use records::{
    AgentCheckinRequest, AgentPollRequest, AgentPollResponse, AgentResultRequest, ApiMessage,
    AssetRecord, CommandRecord, CreateDeploymentRequest, DeploymentRecord, DeploymentTargetRecord,
    FailureRate, PauseDeploymentRequest, ReleaseRecord, RolloutStrategy, Selector,
};
pub use status::{
    AssetStatus, CommandStatus, DeploymentStatus, DeploymentTargetState, StatusKind, UnknownStatus,
};
