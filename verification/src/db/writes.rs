//! The statements that change the stored rows, and what each of them does.

use crate::db::error::{DbError, DbErrorView, UniqueKey};
use crate::db::tables::{
    asset_row, command_row, deployment_row, find_asset, find_command, find_deployment, find_label,
    find_release, find_target, label_row, release_row, target_row, AssetLabelRow,
    AssetLabelRowView, AssetRow, AssetRowView, CommandResultRow, CommandResultRowView, CommandRow,
    CommandRowView, DeploymentRow, DeploymentRowView, ReleaseRow, ReleaseRowView, Tables,
    TablesView, TargetRow, TargetRowView,
};
use crate::text::{coalesce, same};
use crate::types::manifest::{ReleaseManifest, ReleaseManifestView};
use crate::types::records::{RolloutStrategy, Selector, SelectorView};
use vstd::prelude::*;

verus! {

/// A release to store.
#[derive(Debug)]
pub struct NewRelease {
    pub id: String,
    pub version: String,
    pub target_type: String,
    pub manifest: ReleaseManifest,
    pub created_at: String,
}

/// The value of a [`NewRelease`].
#[verifier::ext_equal]
pub struct NewReleaseView {
    pub id: Seq<char>,
    pub version: Seq<char>,
    pub target_type: Seq<char>,
    pub manifest: ReleaseManifestView,
    pub created_at: Seq<char>,
}

impl View for NewRelease {
    type V = NewReleaseView;

    open spec fn view(&self) -> NewReleaseView {
        NewReleaseView {
            id: self.id@,
            version: self.version@,
            target_type: self.target_type@,
            manifest: self.manifest@,
            created_at: self.created_at@,
        }
    }
}

/// What an asset says of itself.
#[derive(Debug)]
pub struct AssetCheckin {
    pub asset_id: String,
    pub asset_type: String,
    pub mission_state: String,
    pub current_version: Option<String>,
    pub active_slot: Option<String>,
    pub status: String,
    pub last_seen: String,
}

/// The value of an [`AssetCheckin`].
#[verifier::ext_equal]
pub struct AssetCheckinView {
    pub asset_id: Seq<char>,
    pub asset_type: Seq<char>,
    pub mission_state: Seq<char>,
    pub current_version: Option<Seq<char>>,
    pub active_slot: Option<Seq<char>>,
    pub status: Seq<char>,
    pub last_seen: Seq<char>,
}

impl View for AssetCheckin {
    type V = AssetCheckinView;

    open spec fn view(&self) -> AssetCheckinView {
        AssetCheckinView {
            asset_id: self.asset_id@,
            asset_type: self.asset_type@,
            mission_state: self.mission_state@,
            current_version: self.current_version.deep_view(),
            active_slot: self.active_slot.deep_view(),
            status: self.status@,
            last_seen: self.last_seen@,
        }
    }
}

/// A deployment to store.
#[derive(Debug)]
pub struct NewDeployment {
    pub id: String,
    pub release_id: String,
    pub rollout_name: String,
    pub status: String,
    pub selector: Selector,
    pub strategy: RolloutStrategy,
    pub created_at: String,
}

/// The value of a [`NewDeployment`].
#[verifier::ext_equal]
pub struct NewDeploymentView {
    pub id: Seq<char>,
    pub release_id: Seq<char>,
    pub rollout_name: Seq<char>,
    pub status: Seq<char>,
    pub selector: SelectorView,
    pub strategy: RolloutStrategy,
    pub created_at: Seq<char>,
}

impl View for NewDeployment {
    type V = NewDeploymentView;

    open spec fn view(&self) -> NewDeploymentView {
        NewDeploymentView {
            id: self.id@,
            release_id: self.release_id@,
            rollout_name: self.rollout_name@,
            status: self.status@,
            selector: self.selector@,
            strategy: self.strategy,
            created_at: self.created_at@,
        }
    }
}

/// The version that an asset is to run.
#[derive(Debug)]
pub struct DesiredVersion {
    pub asset_id: String,
    pub version: String,
}

/// The value of a [`DesiredVersion`].
#[verifier::ext_equal]
pub struct DesiredVersionView {
    pub asset_id: Seq<char>,
    pub version: Seq<char>,
}

impl View for DesiredVersion {
    type V = DesiredVersionView;

    open spec fn view(&self) -> DesiredVersionView {
        DesiredVersionView {
            asset_id: self.asset_id@,
            version: self.version@,
        }
    }
}

/// A new state of a deployment.
#[derive(Debug)]
pub struct DeploymentChange {
    pub id: String,
    pub status: String,
}

/// The value of a [`DeploymentChange`].
#[verifier::ext_equal]
pub struct DeploymentChangeView {
    pub id: Seq<char>,
    pub status: Seq<char>,
}

impl View for DeploymentChange {
    type V = DeploymentChangeView;

    open spec fn view(&self) -> DeploymentChangeView {
        DeploymentChangeView {
            id: self.id@,
            status: self.status@,
        }
    }
}

/// A command handed out for a target.
#[derive(Debug)]
pub struct TargetIssue {
    pub deployment_id: String,
    pub asset_id: String,
    pub state: String,
    pub command_id: String,
    pub updated_at: String,
}

/// The value of a [`TargetIssue`].
#[verifier::ext_equal]
pub struct TargetIssueView {
    pub deployment_id: Seq<char>,
    pub asset_id: Seq<char>,
    pub state: Seq<char>,
    pub command_id: Seq<char>,
    pub updated_at: Seq<char>,
}

impl View for TargetIssue {
    type V = TargetIssueView;

    open spec fn view(&self) -> TargetIssueView {
        TargetIssueView {
            deployment_id: self.deployment_id@,
            asset_id: self.asset_id@,
            state: self.state@,
            command_id: self.command_id@,
            updated_at: self.updated_at@,
        }
    }
}

/// A new state of a command.
#[derive(Debug)]
pub struct CommandChange {
    pub id: String,
    pub status: String,
    pub updated_at: String,
}

/// The value of a [`CommandChange`].
#[verifier::ext_equal]
pub struct CommandChangeView {
    pub id: Seq<char>,
    pub status: Seq<char>,
    pub updated_at: Seq<char>,
}

impl View for CommandChange {
    type V = CommandChangeView;

    open spec fn view(&self) -> CommandChangeView {
        CommandChangeView {
            id: self.id@,
            status: self.status@,
            updated_at: self.updated_at@,
        }
    }
}

/// How a command for a target ended.
#[derive(Debug)]
pub struct TargetOutcome {
    pub deployment_id: String,
    pub asset_id: String,
    pub state: String,
    pub last_error: Option<String>,
    pub updated_at: String,
}

/// The value of a [`TargetOutcome`].
#[verifier::ext_equal]
pub struct TargetOutcomeView {
    pub deployment_id: Seq<char>,
    pub asset_id: Seq<char>,
    pub state: Seq<char>,
    pub last_error: Option<Seq<char>>,
    pub updated_at: Seq<char>,
}

impl View for TargetOutcome {
    type V = TargetOutcomeView;

    open spec fn view(&self) -> TargetOutcomeView {
        TargetOutcomeView {
            deployment_id: self.deployment_id@,
            asset_id: self.asset_id@,
            state: self.state@,
            last_error: self.last_error.deep_view(),
            updated_at: self.updated_at@,
        }
    }
}

/// What an asset runs after a command.
#[derive(Debug)]
pub struct AssetOutcome {
    pub asset_id: String,
    pub booted_version: Option<String>,
    pub active_slot: Option<String>,
}

/// The value of an [`AssetOutcome`].
#[verifier::ext_equal]
pub struct AssetOutcomeView {
    pub asset_id: Seq<char>,
    pub booted_version: Option<Seq<char>>,
    pub active_slot: Option<Seq<char>>,
}

impl View for AssetOutcome {
    type V = AssetOutcomeView;

    open spec fn view(&self) -> AssetOutcomeView {
        AssetOutcomeView {
            asset_id: self.asset_id@,
            booted_version: self.booted_version.deep_view(),
            active_slot: self.active_slot.deep_view(),
        }
    }
}

/// A statement that changes the stored rows.
#[derive(Debug)]
pub enum Write {
    /// Stores a release.
    InsertRelease(NewRelease),
    /// Stores or updates an asset.
    UpsertAsset(AssetCheckin),
    /// Removes the labels of an asset.
    ClearAssetLabels(String),
    /// Stores a label of an asset.
    InsertAssetLabel(AssetLabelRow),
    /// Stores a deployment.
    InsertDeployment(NewDeployment),
    /// Says which version an asset is to run.
    SetDesiredVersion(DesiredVersion),
    /// Stores a target of a deployment.
    InsertTarget(TargetRow),
    /// Changes the state of a deployment.
    SetDeploymentStatus(DeploymentChange),
    /// Stores a command.
    InsertCommand(CommandRow),
    /// Notes that a command was handed out for a target.
    IssueTarget(TargetIssue),
    /// Changes the state of a command.
    SetCommandStatus(CommandChange),
    /// Stores the result of a command in place of an earlier one.
    ReplaceCommandResult(CommandResultRow),
    /// Notes how the command for a target ended.
    CompleteTarget(TargetOutcome),
    /// Notes what an asset runs after a command.
    CompleteAsset(AssetOutcome),
}

/// The value of a [`Write`].
#[verifier::ext_equal]
pub enum WriteView {
    InsertRelease(NewReleaseView),
    UpsertAsset(AssetCheckinView),
    ClearAssetLabels(Seq<char>),
    InsertAssetLabel(AssetLabelRowView),
    InsertDeployment(NewDeploymentView),
    SetDesiredVersion(DesiredVersionView),
    InsertTarget(TargetRowView),
    SetDeploymentStatus(DeploymentChangeView),
    InsertCommand(CommandRowView),
    IssueTarget(TargetIssueView),
    SetCommandStatus(CommandChangeView),
    ReplaceCommandResult(CommandResultRowView),
    CompleteTarget(TargetOutcomeView),
    CompleteAsset(AssetOutcomeView),
}

impl View for Write {
    type V = WriteView;

    open spec fn view(&self) -> WriteView {
        match self {
            Write::InsertRelease(x) => WriteView::InsertRelease(x@),
            Write::UpsertAsset(x) => WriteView::UpsertAsset(x@),
            Write::ClearAssetLabels(x) => WriteView::ClearAssetLabels(x@),
            Write::InsertAssetLabel(x) => WriteView::InsertAssetLabel(x@),
            Write::InsertDeployment(x) => WriteView::InsertDeployment(x@),
            Write::SetDesiredVersion(x) => WriteView::SetDesiredVersion(x@),
            Write::InsertTarget(x) => WriteView::InsertTarget(x@),
            Write::SetDeploymentStatus(x) => WriteView::SetDeploymentStatus(x@),
            Write::InsertCommand(x) => WriteView::InsertCommand(x@),
            Write::IssueTarget(x) => WriteView::IssueTarget(x@),
            Write::SetCommandStatus(x) => WriteView::SetCommandStatus(x@),
            Write::ReplaceCommandResult(x) => WriteView::ReplaceCommandResult(x@),
            Write::CompleteTarget(x) => WriteView::CompleteTarget(x@),
            Write::CompleteAsset(x) => WriteView::CompleteAsset(x@),
        }
    }
}

impl DeepView for Write {
    type V = WriteView;

    open spec fn deep_view(&self) -> WriteView {
        self@
    }
}

/// The assets after one of them that is known has checked in.
pub open spec fn checked_in_row(row: AssetRowView, c: AssetCheckinView) -> AssetRowView {
    if row.asset_id == c.asset_id {
        AssetRowView {
            asset_type: c.asset_type,
            mission_state: c.mission_state,
            current_version: coalesce(c.current_version, row.current_version),
            active_slot: coalesce(c.active_slot, row.active_slot),
            status: c.status,
            last_seen: c.last_seen,
            ..row
        }
    } else {
        row
    }
}

/// The assets after one of them that is known has checked in.
pub open spec fn checked_in(rows: Seq<AssetRowView>, c: AssetCheckinView) -> Seq<AssetRowView> {
    rows.map_values(|row: AssetRowView| checked_in_row(row, c))
}

fn check_in(rows: &mut Vec<AssetRow>, c: &AssetCheckin)
    ensures
        final(rows).deep_view() == checked_in(old(rows).deep_view(), c@),
{
    let ghost before = rows.deep_view();
    let mut i: usize = 0;
    while i < rows.len()
        invariant
            i <= rows.len(),
            rows@.len() == before.len(),
            forall|j: int| 0 <= j < i ==> #[trigger] rows@[j]@ == checked_in_row(before[j], c@),
            forall|j: int| i <= j < rows@.len() ==> #[trigger] rows@[j]@ == before[j],
        decreases rows.len() - i,
    {
        assert(rows@[i as int]@ == before[i as int]);
        if same(rows[i].asset_id.as_str(), c.asset_id.as_str()) {
            rows[i].asset_type = c.asset_type.clone();
            rows[i].mission_state = c.mission_state.clone();
            if c.current_version.is_some() {
                rows[i].current_version = c.current_version.clone();
            }
            if c.active_slot.is_some() {
                rows[i].active_slot = c.active_slot.clone();
            }
            rows[i].status = c.status.clone();
            rows[i].last_seen = c.last_seen.clone();
        }
        i += 1;
    }
    assert(rows.deep_view() =~= checked_in(before, c@));
}

/// The assets after one of them has been told which version to run.
pub open spec fn desiring_row(row: AssetRowView, c: DesiredVersionView) -> AssetRowView {
    if row.asset_id == c.asset_id {
        AssetRowView {
            desired_version: Some(c.version),
            ..row
        }
    } else {
        row
    }
}

/// The assets after one of them has been told which version to run.
pub open spec fn desiring(rows: Seq<AssetRowView>, c: DesiredVersionView) -> Seq<AssetRowView> {
    rows.map_values(|row: AssetRowView| desiring_row(row, c))
}

fn set_desired(rows: &mut Vec<AssetRow>, c: &DesiredVersion)
    ensures
        final(rows).deep_view() == desiring(old(rows).deep_view(), c@),
{
    let ghost before = rows.deep_view();
    let mut i: usize = 0;
    while i < rows.len()
        invariant
            i <= rows.len(),
            rows@.len() == before.len(),
            forall|j: int| 0 <= j < i ==> #[trigger] rows@[j]@ == desiring_row(before[j], c@),
            forall|j: int| i <= j < rows@.len() ==> #[trigger] rows@[j]@ == before[j],
        decreases rows.len() - i,
    {
        assert(rows@[i as int]@ == before[i as int]);
        if same(rows[i].asset_id.as_str(), c.asset_id.as_str()) {
            rows[i].desired_version = Some(c.version.clone());
        }
        i += 1;
    }
    assert(rows.deep_view() =~= desiring(before, c@));
}

/// The deployments after one of them has got a new state.
pub open spec fn changed_row(row: DeploymentRowView, c: DeploymentChangeView) -> DeploymentRowView {
    if row.id == c.id {
        DeploymentRowView {
            status: c.status,
            ..row
        }
    } else {
        row
    }
}

/// The deployments after one of them has got a new state.
pub open spec fn changed(rows: Seq<DeploymentRowView>, c: DeploymentChangeView) -> Seq<DeploymentRowView> {
    rows.map_values(|row: DeploymentRowView| changed_row(row, c))
}

fn change(rows: &mut Vec<DeploymentRow>, c: &DeploymentChange)
    ensures
        final(rows).deep_view() == changed(old(rows).deep_view(), c@),
{
    let ghost before = rows.deep_view();
    let mut i: usize = 0;
    while i < rows.len()
        invariant
            i <= rows.len(),
            rows@.len() == before.len(),
            forall|j: int| 0 <= j < i ==> #[trigger] rows@[j]@ == changed_row(before[j], c@),
            forall|j: int| i <= j < rows@.len() ==> #[trigger] rows@[j]@ == before[j],
        decreases rows.len() - i,
    {
        assert(rows@[i as int]@ == before[i as int]);
        if same(rows[i].id.as_str(), c.id.as_str()) {
            rows[i].status = c.status.clone();
        }
        i += 1;
    }
    assert(rows.deep_view() =~= changed(before, c@));
}

/// The targets after a command has been handed out for one of them.
pub open spec fn issued_row(row: TargetRowView, c: TargetIssueView) -> TargetRowView {
    if row.deployment_id == c.deployment_id && row.asset_id == c.asset_id {
        TargetRowView {
            state: c.state,
            current_command_id: Some(c.command_id),
            updated_at: c.updated_at,
            ..row
        }
    } else {
        row
    }
}

/// The targets after a command has been handed out for one of them.
pub open spec fn issued(rows: Seq<TargetRowView>, c: TargetIssueView) -> Seq<TargetRowView> {
    rows.map_values(|row: TargetRowView| issued_row(row, c))
}

fn issue(rows: &mut Vec<TargetRow>, c: &TargetIssue)
    ensures
        final(rows).deep_view() == issued(old(rows).deep_view(), c@),
{
    let ghost before = rows.deep_view();
    let mut i: usize = 0;
    while i < rows.len()
        invariant
            i <= rows.len(),
            rows@.len() == before.len(),
            forall|j: int| 0 <= j < i ==> #[trigger] rows@[j]@ == issued_row(before[j], c@),
            forall|j: int| i <= j < rows@.len() ==> #[trigger] rows@[j]@ == before[j],
        decreases rows.len() - i,
    {
        assert(rows@[i as int]@ == before[i as int]);
        if same(rows[i].deployment_id.as_str(), c.deployment_id.as_str()) && same(rows[i].asset_id.as_str(), c.asset_id.as_str()) {
            rows[i].state = c.state.clone();
            rows[i].current_command_id = Some(c.command_id.clone());
            rows[i].updated_at = c.updated_at.clone();
        }
        i += 1;
    }
    assert(rows.deep_view() =~= issued(before, c@));
}

/// The commands after one of them has got a new state.
pub open spec fn moved_row(row: CommandRowView, c: CommandChangeView) -> CommandRowView {
    if row.id == c.id {
        CommandRowView {
            status: c.status,
            updated_at: c.updated_at,
            ..row
        }
    } else {
        row
    }
}

/// The commands after one of them has got a new state.
pub open spec fn moved(rows: Seq<CommandRowView>, c: CommandChangeView) -> Seq<CommandRowView> {
    rows.map_values(|row: CommandRowView| moved_row(row, c))
}

fn move_on(rows: &mut Vec<CommandRow>, c: &CommandChange)
    ensures
        final(rows).deep_view() == moved(old(rows).deep_view(), c@),
{
    let ghost before = rows.deep_view();
    let mut i: usize = 0;
    while i < rows.len()
        invariant
            i <= rows.len(),
            rows@.len() == before.len(),
            forall|j: int| 0 <= j < i ==> #[trigger] rows@[j]@ == moved_row(before[j], c@),
            forall|j: int| i <= j < rows@.len() ==> #[trigger] rows@[j]@ == before[j],
        decreases rows.len() - i,
    {
        assert(rows@[i as int]@ == before[i as int]);
        if same(rows[i].id.as_str(), c.id.as_str()) {
            rows[i].status = c.status.clone();
            rows[i].updated_at = c.updated_at.clone();
        }
        i += 1;
    }
    assert(rows.deep_view() =~= moved(before, c@));
}

/// The targets after the command for one of them has ended.
pub open spec fn ended_row(row: TargetRowView, c: TargetOutcomeView) -> TargetRowView {
    if row.deployment_id == c.deployment_id && row.asset_id == c.asset_id {
        TargetRowView {
            state: c.state,
            last_error: c.last_error,
            updated_at: c.updated_at,
            ..row
        }
    } else {
        row
    }
}

/// The targets after the command for one of them has ended.
pub open spec fn ended(rows: Seq<TargetRowView>, c: TargetOutcomeView) -> Seq<TargetRowView> {
    rows.map_values(|row: TargetRowView| ended_row(row, c))
}

fn end(rows: &mut Vec<TargetRow>, c: &TargetOutcome)
    ensures
        final(rows).deep_view() == ended(old(rows).deep_view(), c@),
{
    let ghost before = rows.deep_view();
    let mut i: usize = 0;
    while i < rows.len()
        invariant
            i <= rows.len(),
            rows@.len() == before.len(),
            forall|j: int| 0 <= j < i ==> #[trigger] rows@[j]@ == ended_row(before[j], c@),
            forall|j: int| i <= j < rows@.len() ==> #[trigger] rows@[j]@ == before[j],
        decreases rows.len() - i,
    {
        assert(rows@[i as int]@ == before[i as int]);
        if same(rows[i].deployment_id.as_str(), c.deployment_id.as_str()) && same(rows[i].asset_id.as_str(), c.asset_id.as_str()) {
            rows[i].state = c.state.clone();
            rows[i].last_error = c.last_error.clone();
            rows[i].updated_at = c.updated_at.clone();
        }
        i += 1;
    }
    assert(rows.deep_view() =~= ended(before, c@));
}

/// The assets after a command for one of them has ended.
pub open spec fn settled_row(row: AssetRowView, c: AssetOutcomeView) -> AssetRowView {
    if row.asset_id == c.asset_id {
        AssetRowView {
            current_version: coalesce(c.booted_version, row.current_version),
            active_slot: coalesce(c.active_slot, row.active_slot),
            desired_version: None,
            ..row
        }
    } else {
        row
    }
}

/// The assets after a command for one of them has ended.
pub open spec fn settled(rows: Seq<AssetRowView>, c: AssetOutcomeView) -> Seq<AssetRowView> {
    rows.map_values(|row: AssetRowView| settled_row(row, c))
}

fn settle(rows: &mut Vec<AssetRow>, c: &AssetOutcome)
    ensures
        final(rows).deep_view() == settled(old(rows).deep_view(), c@),
{
    let ghost before = rows.deep_view();
    let mut i: usize = 0;
    while i < rows.len()
        invariant
            i <= rows.len(),
            rows@.len() == before.len(),
            forall|j: int| 0 <= j < i ==> #[trigger] rows@[j]@ == settled_row(before[j], c@),
            forall|j: int| i <= j < rows@.len() ==> #[trigger] rows@[j]@ == before[j],
        decreases rows.len() - i,
    {
        assert(rows@[i as int]@ == before[i as int]);
        if same(rows[i].asset_id.as_str(), c.asset_id.as_str()) {
            if c.booted_version.is_some() {
                rows[i].current_version = c.booted_version.clone();
            }
            if c.active_slot.is_some() {
                rows[i].active_slot = c.active_slot.clone();
            }
            rows[i].desired_version = None;
        }
        i += 1;
    }
    assert(rows.deep_view() =~= settled(before, c@));
}

/// The labels of the other assets.
pub open spec fn labels_of_others(rows: Seq<AssetLabelRowView>, asset_id: Seq<char>) -> Seq<
    AssetLabelRowView,
> {
    rows.filter(|row: AssetLabelRowView| row.asset_id != asset_id)
}

fn clear_labels(rows: &Vec<AssetLabelRow>, asset_id: &str) -> (r: Vec<AssetLabelRow>)
    ensures
        r.deep_view() == labels_of_others(rows.deep_view(), asset_id@),
{
    let ghost view = rows.deep_view();
    let ghost other = |row: AssetLabelRowView| row.asset_id != asset_id@;
    let mut kept: Vec<AssetLabelRow> = Vec::new();
    let mut i: usize = 0;
    assert(kept.deep_view() =~= view.take(0).filter(other)) by {
        reveal(Seq::filter);
    }
    while i < rows.len()
        invariant
            i <= rows.len(),
            view == rows.deep_view(),
            other == (|row: AssetLabelRowView| row.asset_id != asset_id@),
            kept.deep_view() == view.take(i as int).filter(other),
        decreases rows.len() - i,
    {
        let ghost before = kept.deep_view();
        assert(view.take(i + 1).drop_last() =~= view.take(i as int));
        if !same(rows[i].asset_id.as_str(), asset_id) {
            kept.push(rows[i].clone());
            assert(kept.deep_view() =~= before.push(view[i as int]));
        }
        assert(kept.deep_view() == view.take(i + 1).filter(other)) by {
            reveal(Seq::filter);
        }
        i += 1;
    }
    assert(view.take(i as int) =~= view);
    kept
}

/// The results of the other commands.
pub open spec fn results_of_others(
    rows: Seq<CommandResultRowView>,
    command_id: Seq<char>,
) -> Seq<CommandResultRowView> {
    rows.filter(|row: CommandResultRowView| row.command_id != command_id)
}

fn clear_result(rows: &Vec<CommandResultRow>, command_id: &str) -> (r: Vec<CommandResultRow>)
    ensures
        r.deep_view() == results_of_others(rows.deep_view(), command_id@),
{
    let ghost view = rows.deep_view();
    let ghost other = |row: CommandResultRowView| row.command_id != command_id@;
    let mut kept: Vec<CommandResultRow> = Vec::new();
    let mut i: usize = 0;
    assert(kept.deep_view() =~= view.take(0).filter(other)) by {
        reveal(Seq::filter);
    }
    while i < rows.len()
        invariant
            i <= rows.len(),
            view == rows.deep_view(),
            other == (|row: CommandResultRowView| row.command_id != command_id@),
            kept.deep_view() == view.take(i as int).filter(other),
        decreases rows.len() - i,
    {
        let ghost before = kept.deep_view();
        assert(view.take(i + 1).drop_last() =~= view.take(i as int));
        if !same(rows[i].command_id.as_str(), command_id) {
            kept.push(rows[i].clone());
            assert(kept.deep_view() =~= before.push(view[i as int]));
        }
        assert(kept.deep_view() == view.take(i + 1).filter(other)) by {
            reveal(Seq::filter);
        }
        i += 1;
    }
    assert(view.take(i as int) =~= view);
    kept
}

/// The assets after one of them, known or not, has checked in.
pub open spec fn assets_after(rows: Seq<AssetRowView>, c: AssetCheckinView) -> Seq<AssetRowView> {
    if asset_row(rows, c.asset_id) is Some {
        checked_in(rows, c)
    } else {
        rows.push(
            AssetRowView {
                asset_id: c.asset_id,
                asset_type: c.asset_type,
                mission_state: c.mission_state,
                current_version: c.current_version,
                desired_version: None,
                active_slot: c.active_slot,
                status: c.status,
                last_seen: c.last_seen,
            },
        )
    }
}

/// The rows after a statement, or why it fails. A row with the key of another is refused, and
/// so is a row that refers to one that does not exist.
pub open spec fn step(t: TablesView, w: WriteView) -> Result<TablesView, DbErrorView> {
    match w {
        WriteView::InsertRelease(x) => if release_row(t.releases, x.id) is Some {
            Err(DbErrorView::Unique(UniqueKey::Release))
        } else {
            Ok(
                TablesView {
                    releases: t.releases.push(
                        ReleaseRowView {
                            id: x.id,
                            version: x.version,
                            target_type: x.target_type,
                            manifest: Ok(x.manifest),
                            created_at: x.created_at,
                        },
                    ),
                    ..t
                },
            )
        },
        WriteView::UpsertAsset(x) => Ok(TablesView { assets: assets_after(t.assets, x), ..t }),
        WriteView::ClearAssetLabels(asset_id) => Ok(
            TablesView { labels: labels_of_others(t.labels, asset_id), ..t },
        ),
        WriteView::InsertAssetLabel(x) => if label_row(t.labels, x.asset_id, x.label) is Some {
            Err(DbErrorView::Unique(UniqueKey::AssetLabel))
        } else if asset_row(t.assets, x.asset_id) is None {
            Err(DbErrorView::ForeignKey)
        } else {
            Ok(TablesView { labels: t.labels.push(x), ..t })
        },
        WriteView::InsertDeployment(x) => if deployment_row(t.deployments, x.id) is Some {
            Err(DbErrorView::Unique(UniqueKey::Deployment))
        } else if release_row(t.releases, x.release_id) is None {
            Err(DbErrorView::ForeignKey)
        } else {
            Ok(
                TablesView {
                    deployments: t.deployments.push(
                        DeploymentRowView {
                            id: x.id,
                            release_id: x.release_id,
                            rollout_name: x.rollout_name,
                            status: x.status,
                            selector: Ok(x.selector),
                            strategy: Ok(x.strategy),
                            created_at: x.created_at,
                        },
                    ),
                    ..t
                },
            )
        },
        WriteView::SetDesiredVersion(x) => Ok(TablesView { assets: desiring(t.assets, x), ..t }),
        WriteView::InsertTarget(x) => if target_row(t.targets, x.deployment_id, x.asset_id)
            is Some {
            Err(DbErrorView::Unique(UniqueKey::Target))
        } else if deployment_row(t.deployments, x.deployment_id) is None || asset_row(
            t.assets,
            x.asset_id,
        ) is None {
            Err(DbErrorView::ForeignKey)
        } else {
            Ok(TablesView { targets: t.targets.push(x), ..t })
        },
        WriteView::SetDeploymentStatus(x) => Ok(
            TablesView { deployments: changed(t.deployments, x), ..t },
        ),
        WriteView::InsertCommand(x) => if command_row(t.commands, x.id) is Some {
            Err(DbErrorView::Unique(UniqueKey::Command))
        } else if deployment_row(t.deployments, x.deployment_id) is None || release_row(
            t.releases,
            x.release_id,
        ) is None || asset_row(t.assets, x.asset_id) is None {
            Err(DbErrorView::ForeignKey)
        } else {
            Ok(TablesView { commands: t.commands.push(x), ..t })
        },
        WriteView::IssueTarget(x) => Ok(TablesView { targets: issued(t.targets, x), ..t }),
        WriteView::SetCommandStatus(x) => Ok(TablesView { commands: moved(t.commands, x), ..t }),
        WriteView::ReplaceCommandResult(x) => if command_row(t.commands, x.command_id) is None {
            Err(DbErrorView::ForeignKey)
        } else {
            Ok(
                TablesView { results: results_of_others(t.results, x.command_id).push(x), ..t },
            )
        },
        WriteView::CompleteTarget(x) => Ok(TablesView { targets: ended(t.targets, x), ..t }),
        WriteView::CompleteAsset(x) => Ok(TablesView { assets: settled(t.assets, x), ..t }),
    }
}

/// The rows after statements that are carried out one after the other up to the first that
/// fails, and the error of that one.
pub open spec fn performed(t: TablesView, ws: Seq<WriteView>) -> (
    TablesView,
    Result<(), DbErrorView>,
)
    decreases ws.len(),
{
    if ws.len() == 0 {
        (t, Ok(()))
    } else {
        match step(t, ws[0]) {
            Ok(after) => performed(after, ws.skip(1)),
            Err(e) => (t, Err(e)),
        }
    }
}

/// The rows to which statements lead that all succeed.
pub open spec fn replayed(t: TablesView, ws: Seq<WriteView>) -> Result<TablesView, DbErrorView>
    decreases ws.len(),
{
    if ws.len() == 0 {
        Ok(t)
    } else {
        match replayed(t, ws.drop_last()) {
            Ok(after) => step(after, ws.last()),
            Err(e) => Err(e),
        }
    }
}

/// The rows of the control plane as they are now, and the statements that led here from the
/// rows that were loaded.
pub struct Database {
    tables: Tables,
    writes: Vec<Write>,
    origin: Ghost<TablesView>,
}

impl View for Database {
    type V = TablesView;

    closed spec fn view(&self) -> TablesView {
        self.tables@
    }
}

impl Database {
    /// The rows that were loaded.
    pub closed spec fn loaded(&self) -> TablesView {
        self.origin@
    }

    /// The statements carried out since then.
    pub closed spec fn log(&self) -> Seq<WriteView> {
        self.writes.deep_view()
    }

    /// Whether the statements carried out lead from the rows that were loaded to the rows as
    /// they are now.
    pub open spec fn recorded(&self) -> bool {
        replayed(self.loaded(), self.log()) == Ok::<TablesView, DbErrorView>(self@)
    }

    /// Whether this is a later state of `earlier` that has kept its record.
    pub open spec fn continues(&self, earlier: &Database) -> bool {
        &&& self.loaded() == earlier.loaded()
        &&& earlier.log().is_prefix_of(self.log())
        &&& earlier.recorded() ==> self.recorded()
    }

    /// Starts from rows that were loaded.
    pub fn load(tables: Tables) -> (r: Database)
        ensures
            r@ == tables@,
            r.loaded() == tables@,
            r.log() == Seq::<WriteView>::empty(),
            r.recorded(),
    {
        let r = Database { tables, writes: Vec::new(), origin: Ghost(tables@) };
        assert(r.writes.deep_view() =~= Seq::<WriteView>::empty());
        r
    }

    /// The rows as they are now.
    pub fn tables(&self) -> (r: &Tables)
        ensures
            r@ == self@,
    {
        &self.tables
    }

    /// The statements carried out since the rows were loaded.
    pub fn writes(&self) -> (r: &Vec<Write>)
        ensures
            r.deep_view() == self.log(),
    {
        &self.writes
    }

    /// Carries out a statement.
    pub fn execute(&mut self, w: Write) -> (r: Result<(), DbError>)
        ensures
            match r {
                Ok(_) => {
                    &&& step(old(self)@, w@) == Ok::<TablesView, DbErrorView>(final(self)@)
                    &&& final(self).log() == old(self).log().push(w@)
                },
                Err(e) => {
                    &&& step(old(self)@, w@) == Err::<TablesView, DbErrorView>(e@)
                    &&& final(self)@ == old(self)@
                    &&& final(self).log() == old(self).log()
                },
            },
            final(self).continues(old(self)),
    {
        let ghost before = self.tables@;
        match &w {
            Write::InsertRelease(x) => {
                if find_release(&self.tables.releases, x.id.as_str()).is_some() {
                    return Err(DbError::Unique(UniqueKey::Release));
                }
                self.tables.releases.push(
                    ReleaseRow {
                        id: x.id.clone(),
                        version: x.version.clone(),
                        target_type: x.target_type.clone(),
                        manifest: Ok(x.manifest.clone()),
                        created_at: x.created_at.clone(),
                    },
                );
                assert(self.tables.releases.deep_view() =~= before.releases.push(
                    self.tables.releases@.last()@,
                ));
            },
            Write::UpsertAsset(x) => {
                if find_asset(&self.tables.assets, x.asset_id.as_str()).is_some() {
                    check_in(&mut self.tables.assets, x);
                } else {
                    self.tables.assets.push(
                        AssetRow {
                            asset_id: x.asset_id.clone(),
                            asset_type: x.asset_type.clone(),
                            mission_state: x.mission_state.clone(),
                            current_version: x.current_version.clone(),
                            desired_version: None,
                            active_slot: x.active_slot.clone(),
                            status: x.status.clone(),
                            last_seen: x.last_seen.clone(),
                        },
                    );
                    assert(self.tables.assets.deep_view() =~= before.assets.push(
                        self.tables.assets@.last()@,
                    ));
                }
            },
            Write::ClearAssetLabels(asset_id) => {
                self.tables.labels = clear_labels(&self.tables.labels, asset_id.as_str());
            },
            Write::InsertAssetLabel(x) => {
                if find_label(
                    &self.tables.labels,
                    x.asset_id.as_str(),
                    x.label.as_str(),
                ).is_some() {
                    return Err(DbError::Unique(UniqueKey::AssetLabel));
                }
                if find_asset(&self.tables.assets, x.asset_id.as_str()).is_none() {
                    return Err(DbError::ForeignKey);
                }
                self.tables.labels.push(x.clone());
                assert(self.tables.labels.deep_view() =~= before.labels.push(
                    self.tables.labels@.last()@,
                ));
            },
            Write::InsertDeployment(x) => {
                if find_deployment(&self.tables.deployments, x.id.as_str()).is_some() {
                    return Err(DbError::Unique(UniqueKey::Deployment));
                }
                if find_release(&self.tables.releases, x.release_id.as_str()).is_none() {
                    return Err(DbError::ForeignKey);
                }
                self.tables.deployments.push(
                    DeploymentRow {
                        id: x.id.clone(),
                        release_id: x.release_id.clone(),
                        rollout_name: x.rollout_name.clone(),
                        status: x.status.clone(),
                        selector: Ok(x.selector.clone()),
                        strategy: Ok(x.strategy),
                        created_at: x.created_at.clone(),
                    },
                );
                assert(self.tables.deployments.deep_view() =~= before.deployments.push(
                    self.tables.deployments@.last()@,
                ));
            },
            Write::SetDesiredVersion(x) => {
                set_desired(&mut self.tables.assets, x);
            },
            Write::InsertTarget(x) => {
                if find_target(
                    &self.tables.targets,
                    x.deployment_id.as_str(),
                    x.asset_id.as_str(),
                ).is_some() {
                    return Err(DbError::Unique(UniqueKey::Target));
                }
                if find_deployment(&self.tables.deployments, x.deployment_id.as_str()).is_none()
                    || find_asset(&self.tables.assets, x.asset_id.as_str()).is_none() {
                    return Err(DbError::ForeignKey);
                }
                self.tables.targets.push(x.clone());
                assert(self.tables.targets.deep_view() =~= before.targets.push(
                    self.tables.targets@.last()@,
                ));
            },
            Write::SetDeploymentStatus(x) => {
                change(&mut self.tables.deployments, x);
            },
            Write::InsertCommand(x) => {
                if find_command(&self.tables.commands, x.id.as_str()).is_some() {
                    return Err(DbError::Unique(UniqueKey::Command));
                }
                if find_deployment(&self.tables.deployments, x.deployment_id.as_str()).is_none()
                    || find_release(&self.tables.releases, x.release_id.as_str()).is_none()
                    || find_asset(&self.tables.assets, x.asset_id.as_str()).is_none() {
                    return Err(DbError::ForeignKey);
                }
                self.tables.commands.push(x.clone());
                assert(self.tables.commands.deep_view() =~= before.commands.push(
                    self.tables.commands@.last()@,
                ));
            },
            Write::IssueTarget(x) => {
                issue(&mut self.tables.targets, x);
            },
            Write::SetCommandStatus(x) => {
                move_on(&mut self.tables.commands, x);
            },
            Write::ReplaceCommandResult(x) => {
                if find_command(&self.tables.commands, x.command_id.as_str()).is_none() {
                    return Err(DbError::ForeignKey);
                }
                let mut kept = clear_result(&self.tables.results, x.command_id.as_str());
                let ghost others = kept.deep_view();
                kept.push(x.clone());
                assert(kept.deep_view() =~= others.push(x@));
                self.tables.results = kept;
            },
            Write::CompleteTarget(x) => {
                end(&mut self.tables.targets, x);
            },
            Write::CompleteAsset(x) => {
                settle(&mut self.tables.assets, x);
            },
        }
        assert(step(before, w@) == Ok::<TablesView, DbErrorView>(self.tables@));
        let ghost log = self.writes.deep_view();
        self.writes.push(w);
        proof {
            assert(self.writes.deep_view() =~= log.push(w@));
            assert(log.push(w@).drop_last() =~= log);
        }
        Ok(())
    }
}

/// Carrying out statements and then one more is carrying out all of them.
pub proof fn lemma_performed_push(t: TablesView, ws: Seq<WriteView>, w: WriteView)
    ensures
        performed(t, ws).1 is Ok ==> performed(t, ws.push(w)) == match step(
            performed(t, ws).0,
            w,
        ) {
            Ok(after) => (after, Ok(())),
            Err(e) => (performed(t, ws).0, Err(e)),
        },
        performed(t, ws).1 is Err ==> performed(t, ws.push(w)) == performed(t, ws),
    decreases ws.len(),
{
    if ws.len() == 0 {
        assert(ws.push(w).skip(1) =~= Seq::<WriteView>::empty());
        assert(ws.push(w)[0] == w);
        match step(t, w) {
            Ok(after) => {
                assert(performed(after, ws.push(w).skip(1)) == (after, Ok::<(), DbErrorView>(())));
            },
            Err(e) => {},
        }
    } else {
        assert(ws.push(w)[0] == ws[0]);
        assert(ws.push(w).skip(1) =~= ws.skip(1).push(w));
        match step(t, ws[0]) {
            Ok(after) => {
                lemma_performed_push(after, ws.skip(1), w);
            },
            Err(e) => {},
        }
    }
}

/// What stops the first statements stops all of them.
pub proof fn lemma_performed_stops(t: TablesView, ws: Seq<WriteView>, k: int)
    requires
        0 <= k <= ws.len(),
        performed(t, ws.take(k)).1 is Err,
    ensures
        performed(t, ws) == performed(t, ws.take(k)),
    decreases ws.len(),
{
    if k > 0 {
        assert(ws.take(k)[0] == ws[0]);
        assert(ws.take(k).skip(1) =~= ws.skip(1).take(k - 1));
        match step(t, ws[0]) {
            Ok(after) => {
                lemma_performed_stops(after, ws.skip(1), k - 1);
            },
            Err(e) => {},
        }
    }
}

/// Carrying out statements in two parts is carrying out all of them.
pub proof fn lemma_performed_add(t: TablesView, first: Seq<WriteView>, rest: Seq<WriteView>)
    requires
        performed(t, first).1 is Ok,
    ensures
        performed(t, first + rest) == performed(performed(t, first).0, rest),
    decreases first.len(),
{
    if first.len() == 0 {
        assert(first + rest =~= rest);
    } else {
        assert((first + rest)[0] == first[0]);
        assert((first + rest).skip(1) =~= first.skip(1) + rest);
        match step(t, first[0]) {
            Ok(after) => {
                lemma_performed_add(after, first.skip(1), rest);
            },
            Err(e) => {},
        }
    }
}

} // verus!
