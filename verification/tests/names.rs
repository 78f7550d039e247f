use noda::types::{
    AssetStatus, CommandStatus, DeploymentStatus, DeploymentTargetState, StatusKind,
};

#[test]
fn deployment_target_state_serializes_as_snake_case() {
    let encoded = format!("\"{}\"", DeploymentTargetState::RolledBack.as_str());
    assert_eq!(encoded, "\"rolled_back\"");
}

#[test]
fn names_are_read_back() {
    for state in [
        DeploymentTargetState::Pending,
        DeploymentTargetState::Issued,
        DeploymentTargetState::Retry,
        DeploymentTargetState::Succeeded,
        DeploymentTargetState::Failed,
        DeploymentTargetState::RolledBack,
    ] {
        assert_eq!(DeploymentTargetState::parse(state.as_str()).unwrap(), state);
    }
    for status in [DeploymentStatus::Active, DeploymentStatus::Paused, DeploymentStatus::Aborted] {
        assert_eq!(DeploymentStatus::parse(status.as_str()).unwrap(), status);
    }
    for status in [AssetStatus::Online, AssetStatus::Offline] {
        assert_eq!(AssetStatus::parse(status.as_str()).unwrap(), status);
    }
}

#[test]
fn names_of_commands() {
    assert_eq!(CommandStatus::Queued.as_str(), "queued");
    assert_eq!(CommandStatus::Running.as_str(), "running");
    assert_eq!(CommandStatus::Succeeded.as_str(), "succeeded");
    assert_eq!(CommandStatus::Failed.as_str(), "failed");
}

#[test]
fn unknown_names_are_complained_of() {
    let e = DeploymentTargetState::parse("Pending").unwrap_err();
    assert_eq!(e.kind, StatusKind::DeploymentTarget);
    assert_eq!(e.message(), "unknown deployment target state: Pending");
    let e = DeploymentStatus::parse("").unwrap_err();
    assert_eq!(e.message(), "unknown deployment status: ");
    let e = AssetStatus::parse("lost").unwrap_err();
    assert_eq!(e.message(), "unknown asset status: lost");
}
