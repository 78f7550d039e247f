//! Why an operation on the records fails.

use crate::text::concat;
use vstd::prelude::*;

verus! {

/// The keys that no two rows of a table may share.
#[derive(Debug, Clone, Copy, PartialEq, Eq, Structural)]
pub enum UniqueKey {
    Release,
    AssetLabel,
    Deployment,
    Target,
    Command,
}

impl UniqueKey {
    /// The columns of the key, as the message about it names them.
    pub open spec fn columns(self) -> Seq<char> {
        match self {
            UniqueKey::Release => "releases.id"@,
            UniqueKey::AssetLabel => "asset_labels.asset_id, asset_labels.label"@,
            UniqueKey::Deployment => "deployments.id"@,
            UniqueKey::Target => "deployment_targets.deployment_id, deployment_targets.asset_id"@,
            UniqueKey::Command => "commands.id"@,
        }
    }

    /// The columns of the key, as the message about it names them.
    fn as_str(self) -> (r: &'static str)
        ensures
            r@ == self.columns(),
    {
        match self {
            UniqueKey::Release => "releases.id",
            UniqueKey::AssetLabel => "asset_labels.asset_id, asset_labels.label",
            UniqueKey::Deployment => "deployments.id",
            UniqueKey::Target => "deployment_targets.deployment_id, deployment_targets.asset_id",
            UniqueKey::Command => "commands.id",
        }
    }
}

/// Why an operation on the records fails.
#[derive(Debug)]
pub enum DbError {
    /// No readable release has this identifier.
    ReleaseNotFound(String),
    /// No readable asset has this identifier.
    AssetNotFound(String),
    /// No readable deployment has this identifier.
    DeploymentNotFound(String),
    /// A deployment selects assets of another type than its release is for.
    TargetTypeMismatch,
    /// A stored value cannot be read, for the reason given.
    Conversion(String),
    /// A row with the same key exists.
    Unique(UniqueKey),
    /// A row would refer to a row that does not exist.
    ForeignKey,
}

/// The value of a [`DbError`].
#[verifier::ext_equal]
pub enum DbErrorView {
    ReleaseNotFound(Seq<char>),
    AssetNotFound(Seq<char>),
    DeploymentNotFound(Seq<char>),
    TargetTypeMismatch,
    Conversion(Seq<char>),
    Unique(UniqueKey),
    ForeignKey,
}

impl View for DbError {
    type V = DbErrorView;

    open spec fn view(&self) -> DbErrorView {
        match self {
            DbError::ReleaseNotFound(id) => DbErrorView::ReleaseNotFound(id@),
            DbError::AssetNotFound(id) => DbErrorView::AssetNotFound(id@),
            DbError::DeploymentNotFound(id) => DbErrorView::DeploymentNotFound(id@),
            DbError::TargetTypeMismatch => DbErrorView::TargetTypeMismatch,
            DbError::Conversion(reason) => DbErrorView::Conversion(reason@),
            DbError::Unique(key) => DbErrorView::Unique(*key),
            DbError::ForeignKey => DbErrorView::ForeignKey,
        }
    }
}

impl DbErrorView {
    /// The message of the error.
    pub open spec fn text(self) -> Seq<char> {
        match self {
            DbErrorView::ReleaseNotFound(id) => "release not found: "@ + id,
            DbErrorView::AssetNotFound(id) => "asset not found: "@ + id,
            DbErrorView::DeploymentNotFound(id) => "deployment not found: "@ + id,
            DbErrorView::TargetTypeMismatch =>
                "release target_type and selector target_type mismatch"@,
            DbErrorView::Conversion(reason) => conversion_text(reason),
            DbErrorView::Unique(key) => "UNIQUE constraint failed: "@ + key.columns(),
            DbErrorView::ForeignKey => "FOREIGN KEY constraint failed"@,
        }
    }
}

/// The message about a stored value that cannot be read.
pub open spec fn conversion_text(reason: Seq<char>) -> Seq<char> {
    "Conversion error from type Text at index: 0, "@ + reason
}

/// `rusqlite::Error::FromSqlConversionFailure` for the first column, a text, with the given
/// reason, as its `Display` writes it: a fixed beginning and the reason.
#[verifier::external_body]
fn to_sql_err(reason: &str) -> (r: String)
    ensures
        r@ == conversion_text(reason@),
{
    rusqlite::Error::FromSqlConversionFailure(
        0,
        rusqlite::types::Type::Text,
        Box::new(std::io::Error::new(std::io::ErrorKind::InvalidData, reason.to_string())),
    ).to_string()
}

impl DbError {
    /// The message of the error.
    pub fn message(&self) -> (r: String)
        ensures
            r@ == self@.text(),
    {
        match self {
            DbError::ReleaseNotFound(id) => concat("release not found: ", id.as_str()),
            DbError::AssetNotFound(id) => concat("asset not found: ", id.as_str()),
            DbError::DeploymentNotFound(id) => concat("deployment not found: ", id.as_str()),
            DbError::TargetTypeMismatch =>
                "release target_type and selector target_type mismatch".to_string(),
            DbError::Conversion(reason) => to_sql_err(reason.as_str()),
            DbError::Unique(key) => concat("UNIQUE constraint failed: ", key.as_str()),
            DbError::ForeignKey => "FOREIGN KEY constraint failed".to_string(),
        }
    }
}

/// What is said of a failure. Of what was not found it names the kind and ends in the identifier
/// that was asked for; of what cannot be read it ends in the reason; of a key that exists it ends
/// in the columns of the table in question.
pub proof fn law_error_texts(id: Seq<char>)
    ensures
        DbErrorView::ReleaseNotFound(id).text() == "release not found: "@ + id,
        DbErrorView::AssetNotFound(id).text() == "asset not found: "@ + id,
        DbErrorView::DeploymentNotFound(id).text() == "deployment not found: "@ + id,
        DbErrorView::Conversion(id).text() == "Conversion error from type Text at index: 0, "@ + id,
        DbErrorView::TargetTypeMismatch.text()
            == "release target_type and selector target_type mismatch"@,
        DbErrorView::ForeignKey.text() == "FOREIGN KEY constraint failed"@,
        forall|key: UniqueKey|
            (#[trigger] DbErrorView::Unique(key).text()) == "UNIQUE constraint failed: "@
                + match key {
                UniqueKey::Release => "releases.id"@,
                UniqueKey::AssetLabel => "asset_labels.asset_id, asset_labels.label"@,
                UniqueKey::Deployment => "deployments.id"@,
                UniqueKey::Target =>
                    "deployment_targets.deployment_id, deployment_targets.asset_id"@,
                UniqueKey::Command => "commands.id"@,
            },
{
}

} // verus!
