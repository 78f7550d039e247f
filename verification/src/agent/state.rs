//! What an agent keeps between its runs.

use crate::clock::Timestamp;
use crate::executors::{RollbackAction, RollbackActionView};
use crate::paths::{join, joined};
use crate::types::manifest::{HealthCheck, HealthCheckView, RollbackPolicy};
use vstd::prelude::*;

verus! {

/// What the next start of the machine is to show.
#[derive(Debug, Clone, Copy, PartialEq, Eq, Structural)]
pub enum PendingBootPhase {
    /// Whether the new release runs.
    Forward,
    /// Whether the machine is back at what it ran before.
    Rollback,
}

/// A release that the machine has to be started anew for.
#[derive(Debug)]
pub struct PendingBootState {
    pub phase: PendingBootPhase,
    pub command_id: String,
    pub deployment_id: String,
    pub release_id: String,
    pub release_version: String,
    pub expected_system_path: Option<String>,
    pub expected_hostname: Option<String>,
    pub expected_active_slot: Option<String>,
    pub expected_root_device: Option<String>,
    pub next_active_slot: Option<String>,
    pub previous_system_path: Option<String>,
    pub previous_root_device: Option<String>,
    pub previous_hostname: Option<String>,
    pub previous_version: Option<String>,
    pub previous_active_slot: Option<String>,
    pub rollback_action: Option<RollbackAction>,
    pub health_checks: Vec<HealthCheck>,
    pub rollback: RollbackPolicy,
    /// Until when what is expected may still come true.
    pub deadline: Timestamp,
}

/// The value of a [`PendingBootState`].
#[verifier::ext_equal]
pub struct PendingBootStateView {
    pub phase: PendingBootPhase,
    pub command_id: Seq<char>,
    pub deployment_id: Seq<char>,
    pub release_id: Seq<char>,
    pub release_version: Seq<char>,
    pub expected_system_path: Option<Seq<char>>,
    pub expected_hostname: Option<Seq<char>>,
    pub expected_active_slot: Option<Seq<char>>,
    pub expected_root_device: Option<Seq<char>>,
    pub next_active_slot: Option<Seq<char>>,
    pub previous_system_path: Option<Seq<char>>,
    pub previous_root_device: Option<Seq<char>>,
    pub previous_hostname: Option<Seq<char>>,
    pub previous_version: Option<Seq<char>>,
    pub previous_active_slot: Option<Seq<char>>,
    pub rollback_action: Option<RollbackActionView>,
    pub health_checks: Seq<HealthCheckView>,
    pub rollback: RollbackPolicy,
    pub deadline: Timestamp,
}

impl View for PendingBootState {
    type V = PendingBootStateView;

    open spec fn view(&self) -> PendingBootStateView {
        PendingBootStateView {
            phase: self.phase,
            command_id: self.command_id@,
            deployment_id: self.deployment_id@,
            release_id: self.release_id@,
            release_version: self.release_version@,
            expected_system_path: self.expected_system_path.deep_view(),
            expected_hostname: self.expected_hostname.deep_view(),
            expected_active_slot: self.expected_active_slot.deep_view(),
            expected_root_device: self.expected_root_device.deep_view(),
            next_active_slot: self.next_active_slot.deep_view(),
            previous_system_path: self.previous_system_path.deep_view(),
            previous_root_device: self.previous_root_device.deep_view(),
            previous_hostname: self.previous_hostname.deep_view(),
            previous_version: self.previous_version.deep_view(),
            previous_active_slot: self.previous_active_slot.deep_view(),
            rollback_action: self.rollback_action.deep_view(),
            health_checks: self.health_checks.deep_view(),
            rollback: self.rollback,
            deadline: self.deadline,
        }
    }
}

impl DeepView for PendingBootState {
    type V = PendingBootStateView;

    open spec fn deep_view(&self) -> PendingBootStateView {
        self@
    }
}

impl Clone for PendingBootState {
    fn clone(&self) -> (r: Self)
        ensures
            r@ == self@,
    {
        let health_checks = self.health_checks.clone();
        assert(health_checks.deep_view() =~= self.health_checks.deep_view());
        PendingBootState {
            phase: self.phase,
            command_id: self.command_id.clone(),
            deployment_id: self.deployment_id.clone(),
            release_id: self.release_id.clone(),
            release_version: self.release_version.clone(),
            expected_system_path: self.expected_system_path.clone(),
            expected_hostname: self.expected_hostname.clone(),
            expected_active_slot: self.expected_active_slot.clone(),
            expected_root_device: self.expected_root_device.clone(),
            next_active_slot: self.next_active_slot.clone(),
            previous_system_path: self.previous_system_path.clone(),
            previous_root_device: self.previous_root_device.clone(),
            previous_hostname: self.previous_hostname.clone(),
            previous_version: self.previous_version.clone(),
            previous_active_slot: self.previous_active_slot.clone(),
            rollback_action: match &self.rollback_action {
                Some(x) => Some(x.clone()),
                None => None,
            },
            health_checks,
            rollback: self.rollback,
            deadline: self.deadline,
        }
    }
}

/// What an agent knows of its machine.
#[derive(Debug)]
pub struct LocalState {
    pub current_version: Option<String>,
    pub active_slot: Option<String>,
    pub pending_boot: Option<PendingBootState>,
}

/// The value of a [`LocalState`].
#[verifier::ext_equal]
pub struct LocalStateView {
    pub current_version: Option<Seq<char>>,
    pub active_slot: Option<Seq<char>>,
    pub pending_boot: Option<PendingBootStateView>,
}

impl View for LocalState {
    type V = LocalStateView;

    open spec fn view(&self) -> LocalStateView {
        LocalStateView {
            current_version: self.current_version.deep_view(),
            active_slot: self.active_slot.deep_view(),
            pending_boot: self.pending_boot.deep_view(),
        }
    }
}

impl DeepView for LocalState {
    type V = LocalStateView;

    open spec fn deep_view(&self) -> LocalStateView {
        self@
    }
}

impl Clone for LocalState {
    fn clone(&self) -> (r: Self)
        ensures
            r@ == self@,
    {
        LocalState {
            current_version: self.current_version.clone(),
            active_slot: self.active_slot.clone(),
            pending_boot: match &self.pending_boot {
                Some(x) => Some(x.clone()),
                None => None,
            },
        }
    }
}

impl Default for LocalState {
    fn default() -> (r: Self)
        ensures
            r@ == (LocalStateView { current_version: None, active_slot: None, pending_boot: None }),
    {
        LocalState { current_version: None, active_slot: None, pending_boot: None }
    }
}

/// Where an agent stores what it knows.
pub fn state_path(dir: &str) -> (r: String)
    ensures
        r@ == joined(dir@, "state.json"@),
{
    join(dir, "state.json")
}

} // verus!
