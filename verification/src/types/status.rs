//! The states that records go through, and their names in storage.

use crate::text::{concat, same};
use vstd::prelude::*;

verus! {

/// The kinds of name that storage may hold and that may turn out to be unknown.
#[derive(Debug, Clone, Copy, PartialEq, Eq, Structural)]
pub enum StatusKind {
    Deployment,
    DeploymentTarget,
    Asset,
}

/// A name that stands for no state.
#[derive(Debug)]
pub struct UnknownStatus {
    pub kind: StatusKind,
    pub raw: String,
}

impl StatusKind {
    /// What the message about an unknown name begins with.
    pub open spec fn complaint(self) -> Seq<char> {
        match self {
            StatusKind::Deployment => "unknown deployment status: "@,
            StatusKind::DeploymentTarget => "unknown deployment target state: "@,
            StatusKind::Asset => "unknown asset status: "@,
        }
    }
}

impl UnknownStatus {
    /// The message of the error.
    pub fn message(&self) -> (r: String)
        ensures
            r@ == self.kind.complaint() + self.raw@,
    {
        let complaint = match self.kind {
            StatusKind::Deployment => "unknown deployment status: ",
            StatusKind::DeploymentTarget => "unknown deployment target state: ",
            StatusKind::Asset => "unknown asset status: ",
        };
        concat(complaint, self.raw.as_str())
    }
}

/// Whether a deployment hands out commands.
#[derive(Debug, Clone, Copy, PartialEq, Eq, Structural)]
pub enum DeploymentStatus {
    Active,
    Paused,
    Aborted,
}

impl DeploymentStatus {
    /// The name of a state in storage.
    pub open spec fn name(self) -> Seq<char> {
        match self {
            DeploymentStatus::Active => "active"@,
            DeploymentStatus::Paused => "paused"@,
            DeploymentStatus::Aborted => "aborted"@,
        }
    }

    /// The state with a given name, if there is one.
    pub open spec fn named(raw: Seq<char>) -> Option<DeploymentStatus> {
        if raw == "active"@ {
            Some(DeploymentStatus::Active)
        } else if raw == "paused"@ {
            Some(DeploymentStatus::Paused)
        } else if raw == "aborted"@ {
            Some(DeploymentStatus::Aborted)
        } else {
            None
        }
    }

    /// The name of a state in storage.
    pub fn as_str(self) -> (r: &'static str)
        ensures
            r@ == self.name(),
    {
        match self {
            DeploymentStatus::Active => "active",
            DeploymentStatus::Paused => "paused",
            DeploymentStatus::Aborted => "aborted",
        }
    }

    /// The state with a given name.
    pub fn parse(raw: &str) -> (r: Result<DeploymentStatus, UnknownStatus>)
        ensures
            match r {
                Ok(state) => DeploymentStatus::named(raw@) == Some(state),
                Err(e) => {
                    &&& DeploymentStatus::named(raw@) is None
                    &&& e.kind == StatusKind::Deployment
                    &&& e.raw@ == raw@
                },
            },
    {
        if same(raw, "active") {
            Ok(DeploymentStatus::Active)
        } else if same(raw, "paused") {
            Ok(DeploymentStatus::Paused)
        } else if same(raw, "aborted") {
            Ok(DeploymentStatus::Aborted)
        } else {
            Err(UnknownStatus { kind: StatusKind::Deployment, raw: raw.to_string() })
        }
    }
}

/// How far a deployment has come on one asset.
#[derive(Debug, Clone, Copy, PartialEq, Eq, Structural)]
pub enum DeploymentTargetState {
    Pending,
    Issued,
    Retry,
    Succeeded,
    Failed,
    RolledBack,
}

impl DeploymentTargetState {
    /// The name of a state in storage.
    pub open spec fn name(self) -> Seq<char> {
        match self {
            DeploymentTargetState::Pending => "pending"@,
            DeploymentTargetState::Issued => "issued"@,
            DeploymentTargetState::Retry => "retry"@,
            DeploymentTargetState::Succeeded => "succeeded"@,
            DeploymentTargetState::Failed => "failed"@,
            DeploymentTargetState::RolledBack => "rolled_back"@,
        }
    }

    /// The state with a given name, if there is one.
    pub open spec fn named(raw: Seq<char>) -> Option<DeploymentTargetState> {
        if raw == "pending"@ {
            Some(DeploymentTargetState::Pending)
        } else if raw == "issued"@ {
            Some(DeploymentTargetState::Issued)
        } else if raw == "retry"@ {
            Some(DeploymentTargetState::Retry)
        } else if raw == "succeeded"@ {
            Some(DeploymentTargetState::Succeeded)
        } else if raw == "failed"@ {
            Some(DeploymentTargetState::Failed)
        } else if raw == "rolled_back"@ {
            Some(DeploymentTargetState::RolledBack)
        } else {
            None
        }
    }

    /// The name of a state in storage.
    pub fn as_str(self) -> (r: &'static str)
        ensures
            r@ == self.name(),
    {
        match self {
            DeploymentTargetState::Pending => "pending",
            DeploymentTargetState::Issued => "issued",
            DeploymentTargetState::Retry => "retry",
            DeploymentTargetState::Succeeded => "succeeded",
            DeploymentTargetState::Failed => "failed",
            DeploymentTargetState::RolledBack => "rolled_back",
        }
    }

    /// The state with a given name.
    pub fn parse(raw: &str) -> (r: Result<DeploymentTargetState, UnknownStatus>)
        ensures
            match r {
                Ok(state) => DeploymentTargetState::named(raw@) == Some(state),
                Err(e) => {
                    &&& DeploymentTargetState::named(raw@) is None
                    &&& e.kind == StatusKind::DeploymentTarget
                    &&& e.raw@ == raw@
                },
            },
    {
        if same(raw, "pending") {
            Ok(DeploymentTargetState::Pending)
        } else if same(raw, "issued") {
            Ok(DeploymentTargetState::Issued)
        } else if same(raw, "retry") {
            Ok(DeploymentTargetState::Retry)
        } else if same(raw, "succeeded") {
            Ok(DeploymentTargetState::Succeeded)
        } else if same(raw, "failed") {
            Ok(DeploymentTargetState::Failed)
        } else if same(raw, "rolled_back") {
            Ok(DeploymentTargetState::RolledBack)
        } else {
            Err(UnknownStatus { kind: StatusKind::DeploymentTarget, raw: raw.to_string() })
        }
    }
}

/// How far an agent has come with a command.
#[derive(Debug, Clone, Copy, PartialEq, Eq, Structural)]
pub enum CommandStatus {
    Queued,
    Running,
    Succeeded,
    Failed,
}

impl CommandStatus {
    /// The name of a state in storage.
    pub open spec fn name(self) -> Seq<char> {
        match self {
            CommandStatus::Queued => "queued"@,
            CommandStatus::Running => "running"@,
            CommandStatus::Succeeded => "succeeded"@,
            CommandStatus::Failed => "failed"@,
        }
    }

    /// The name of a state in storage.
    pub fn as_str(self) -> (r: &'static str)
        ensures
            r@ == self.name(),
    {
        match self {
            CommandStatus::Queued => "queued",
            CommandStatus::Running => "running",
            CommandStatus::Succeeded => "succeeded",
            CommandStatus::Failed => "failed",
        }
    }
}

/// Whether an asset can be reached.
#[derive(Debug, Clone, Copy, PartialEq, Eq, Structural)]
pub enum AssetStatus {
    Online,
    Offline,
}

impl AssetStatus {
    /// The name of a state in storage.
    pub open spec fn name(self) -> Seq<char> {
        match self {
            AssetStatus::Online => "online"@,
            AssetStatus::Offline => "offline"@,
        }
    }

    /// The state with a given name, if there is one.
    pub open spec fn named(raw: Seq<char>) -> Option<AssetStatus> {
        if raw == "online"@ {
            Some(AssetStatus::Online)
        } else if raw == "offline"@ {
            Some(AssetStatus::Offline)
        } else {
            None
        }
    }

    /// The name of a state in storage.
    pub fn as_str(self) -> (r: &'static str)
        ensures
            r@ == self.name(),
    {
        match self {
            AssetStatus::Online => "online",
            AssetStatus::Offline => "offline",
        }
    }

    /// The state with a given name.
    pub fn parse(raw: &str) -> (r: Result<AssetStatus, UnknownStatus>)
        ensures
            match r {
                Ok(state) => AssetStatus::named(raw@) == Some(state),
                Err(e) => {
                    &&& AssetStatus::named(raw@) is None
                    &&& e.kind == StatusKind::Asset
                    &&& e.raw@ == raw@
                },
            },
    {
        if same(raw, "online") {
            Ok(AssetStatus::Online)
        } else if same(raw, "offline") {
            Ok(AssetStatus::Offline)
        } else {
            Err(UnknownStatus { kind: StatusKind::Asset, raw: raw.to_string() })
        }
    }
}

/// Each state is read back from its name.
pub proof fn law_deployment_status_round_trip(state: DeploymentStatus)
    ensures
        DeploymentStatus::named(state.name()) == Some(state),
{
    reveal_strlit("active");
    reveal_strlit("paused");
    reveal_strlit("aborted");
    assert("active"@.len() == 6 && "active"@[0] == 'a');
    assert("paused"@.len() == 6 && "paused"@[0] == 'p');
    assert("aborted"@.len() == 7 && "aborted"@[0] == 'a');
}

/// A name that is read as a state is the name of that state.
pub proof fn law_deployment_status_names(raw: Seq<char>)
    requires
        DeploymentStatus::named(raw) is Some,
    ensures
        DeploymentStatus::named(raw)->0.name() == raw,
{
}

/// Each state is read back from its name.
pub proof fn law_target_state_round_trip(state: DeploymentTargetState)
    ensures
        DeploymentTargetState::named(state.name()) == Some(state),
{
    reveal_strlit("pending");
    reveal_strlit("issued");
    reveal_strlit("retry");
    reveal_strlit("succeeded");
    reveal_strlit("failed");
    reveal_strlit("rolled_back");
    assert("pending"@.len() == 7 && "pending"@[0] == 'p');
    assert("issued"@.len() == 6 && "issued"@[0] == 'i');
    assert("retry"@.len() == 5 && "retry"@[0] == 'r');
    assert("succeeded"@.len() == 9 && "succeeded"@[0] == 's');
    assert("failed"@.len() == 6 && "failed"@[0] == 'f');
    assert("rolled_back"@.len() == 11 && "rolled_back"@[0] == 'r');
}

/// A name that is read as a state is the name of that state.
pub proof fn law_target_state_names(raw: Seq<char>)
    requires
        DeploymentTargetState::named(raw) is Some,
    ensures
        DeploymentTargetState::named(raw)->0.name() == raw,
{
}

/// Each state is read back from its name.
pub proof fn law_asset_status_round_trip(state: AssetStatus)
    ensures
        AssetStatus::named(state.name()) == Some(state),
{
    reveal_strlit("online");
    reveal_strlit("offline");
    assert("online"@.len() == 6 && "online"@[0] == 'o');
    assert("offline"@.len() == 7 && "offline"@[0] == 'o');
}

/// A name that is read as a state is the name of that state.
pub proof fn law_asset_status_names(raw: Seq<char>)
    requires
        AssetStatus::named(raw) is Some,
    ensures
        AssetStatus::named(raw)->0.name() == raw,
{
}

} // verus!
