//! The records of the control plane.

pub mod assets;
pub mod commands;
pub mod counts;
pub mod deployments;
pub mod effects;
pub mod error;
pub mod independence;
pub mod integrity;
pub mod limits;
pub mod listings;
pub mod lookup;
pub mod order;
pub mod releases;
pub mod repeat;
pub mod rollout;
pub mod selection;
pub mod shared;
pub mod statements;
pub mod tables;
pub mod writes;

pub use assets::{get_asset, list_assets, upsert_asset};
pub use commands::{mark_command_running, poll_commands, submit_command_result};
pub use deployments::{
    abort_deployment, create_deployment, get_deployment, list_deployment_targets, list_deployments,
    set_deployment_paused,
};
pub use error::DbError;
pub use releases::{get_release, insert_release, list_releases};
pub use tables::Tables;
pub use writes::{Database, Write};
