//! The rows that the control plane stores.

use crate::text::same;
use crate::types::manifest::{ReleaseManifest, ReleaseManifestView};
use crate::types::records::{RolloutStrategy, Selector, SelectorView};
use vstd::prelude::*;

verus! {

/// The value of a column that holds a document: the document, or why it cannot be read.
pub open spec fn column<T: View>(c: Result<T, String>) -> Result<T::V, Seq<char>> {
    match c {
        Ok(document) => Ok(document@),
        Err(reason) => Err(reason@),
    }
}

/// A row of the table of releases.
#[derive(Debug)]
pub struct ReleaseRow {
    pub id: String,
    pub version: String,
    pub target_type: String,
    pub manifest: Result<ReleaseManifest, String>,
    pub created_at: String,
}

/// The value of a [`ReleaseRow`].
#[verifier::ext_equal]
pub struct ReleaseRowView {
    pub id: Seq<char>,
    pub version: Seq<char>,
    pub target_type: Seq<char>,
    pub manifest: Result<ReleaseManifestView, Seq<char>>,
    pub created_at: Seq<char>,
}

impl View for ReleaseRow {
    type V = ReleaseRowView;

    open spec fn view(&self) -> ReleaseRowView {
        ReleaseRowView {
            id: self.id@,
            version: self.version@,
            target_type: self.target_type@,
            manifest: column(self.manifest),
            created_at: self.created_at@,
        }
    }
}

impl DeepView for ReleaseRow {
    type V = ReleaseRowView;

    open spec fn deep_view(&self) -> ReleaseRowView {
        self@
    }
}

/// A row of the table of assets.
#[derive(Debug)]
pub struct AssetRow {
    pub asset_id: String,
    pub asset_type: String,
    pub mission_state: String,
    pub current_version: Option<String>,
    pub desired_version: Option<String>,
    pub active_slot: Option<String>,
    pub status: String,
    pub last_seen: String,
}

/// The value of an [`AssetRow`].
#[verifier::ext_equal]
pub struct AssetRowView {
    pub asset_id: Seq<char>,
    pub asset_type: Seq<char>,
    pub mission_state: Seq<char>,
    pub current_version: Option<Seq<char>>,
    pub desired_version: Option<Seq<char>>,
    pub active_slot: Option<Seq<char>>,
    pub status: Seq<char>,
    pub last_seen: Seq<char>,
}

impl View for AssetRow {
    type V = AssetRowView;

    open spec fn view(&self) -> AssetRowView {
        AssetRowView {
            asset_id: self.asset_id@,
            asset_type: self.asset_type@,
            mission_state: self.mission_state@,
            current_version: self.current_version.deep_view(),
            desired_version: self.desired_version.deep_view(),
            active_slot: self.active_slot.deep_view(),
            status: self.status@,
            last_seen: self.last_seen@,
        }
    }
}

impl DeepView for AssetRow {
    type V = AssetRowView;

    open spec fn deep_view(&self) -> AssetRowView {
        self@
    }
}

/// A row of the table of labels.
#[derive(Debug)]
pub struct AssetLabelRow {
    pub asset_id: String,
    pub label: String,
}

/// The value of an [`AssetLabelRow`].
#[verifier::ext_equal]
pub struct AssetLabelRowView {
    pub asset_id: Seq<char>,
    pub label: Seq<char>,
}

impl View for AssetLabelRow {
    type V = AssetLabelRowView;

    open spec fn view(&self) -> AssetLabelRowView {
        AssetLabelRowView {
            asset_id: self.asset_id@,
            label: self.label@,
        }
    }
}

impl DeepView for AssetLabelRow {
    type V = AssetLabelRowView;

    open spec fn deep_view(&self) -> AssetLabelRowView {
        self@
    }
}

impl Clone for AssetLabelRow {
    fn clone(&self) -> (r: Self)
        ensures
            r@ == self@,
    {
        AssetLabelRow {
            asset_id: self.asset_id.clone(),
            label: self.label.clone(),
        }
    }
}

/// A row of the table of deployments.
#[derive(Debug)]
pub struct DeploymentRow {
    pub id: String,
    pub release_id: String,
    pub rollout_name: String,
    pub status: String,
    pub selector: Result<Selector, String>,
    pub strategy: Result<RolloutStrategy, String>,
    pub created_at: String,
}

/// The value of a [`DeploymentRow`].
#[verifier::ext_equal]
pub struct DeploymentRowView {
    pub id: Seq<char>,
    pub release_id: Seq<char>,
    pub rollout_name: Seq<char>,
    pub status: Seq<char>,
    pub selector: Result<SelectorView, Seq<char>>,
    pub strategy: Result<RolloutStrategy, Seq<char>>,
    pub created_at: Seq<char>,
}

impl View for DeploymentRow {
    type V = DeploymentRowView;

    open spec fn view(&self) -> DeploymentRowView {
        DeploymentRowView {
            id: self.id@,
            release_id: self.release_id@,
            rollout_name: self.rollout_name@,
            status: self.status@,
            selector: column(self.selector),
            strategy: column(self.strategy),
            created_at: self.created_at@,
        }
    }
}

impl DeepView for DeploymentRow {
    type V = DeploymentRowView;

    open spec fn deep_view(&self) -> DeploymentRowView {
        self@
    }
}

/// A row of the table of deployment targets.
#[derive(Debug)]
pub struct TargetRow {
    pub deployment_id: String,
    pub asset_id: String,
    pub state: String,
    pub last_error: Option<String>,
    pub current_command_id: Option<String>,
    pub updated_at: String,
}

/// The value of a [`TargetRow`].
#[verifier::ext_equal]
pub struct TargetRowView {
    pub deployment_id: Seq<char>,
    pub asset_id: Seq<char>,
    pub state: Seq<char>,
    pub last_error: Option<Seq<char>>,
    pub current_command_id: Option<Seq<char>>,
    pub updated_at: Seq<char>,
}

impl View for TargetRow {
    type V = TargetRowView;

    open spec fn view(&self) -> TargetRowView {
        TargetRowView {
            deployment_id: self.deployment_id@,
            asset_id: self.asset_id@,
            state: self.state@,
            last_error: self.last_error.deep_view(),
            current_command_id: self.current_command_id.deep_view(),
            updated_at: self.updated_at@,
        }
    }
}

impl DeepView for TargetRow {
    type V = TargetRowView;

    open spec fn deep_view(&self) -> TargetRowView {
        self@
    }
}

impl Clone for TargetRow {
    fn clone(&self) -> (r: Self)
        ensures
            r@ == self@,
    {
        TargetRow {
            deployment_id: self.deployment_id.clone(),
            asset_id: self.asset_id.clone(),
            state: self.state.clone(),
            last_error: self.last_error.clone(),
            current_command_id: self.current_command_id.clone(),
            updated_at: self.updated_at.clone(),
        }
    }
}

/// A row of the table of commands.
#[derive(Debug)]
pub struct CommandRow {
    pub id: String,
    pub deployment_id: String,
    pub release_id: String,
    pub asset_id: String,
    pub command_type: String,
    pub status: String,
    pub created_at: String,
    pub updated_at: String,
}

/// The value of a [`CommandRow`].
#[verifier::ext_equal]
pub struct CommandRowView {
    pub id: Seq<char>,
    pub deployment_id: Seq<char>,
    pub release_id: Seq<char>,
    pub asset_id: Seq<char>,
    pub command_type: Seq<char>,
    pub status: Seq<char>,
    pub created_at: Seq<char>,
    pub updated_at: Seq<char>,
}

impl View for CommandRow {
    type V = CommandRowView;

    open spec fn view(&self) -> CommandRowView {
        CommandRowView {
            id: self.id@,
            deployment_id: self.deployment_id@,
            release_id: self.release_id@,
            asset_id: self.asset_id@,
            command_type: self.command_type@,
            status: self.status@,
            created_at: self.created_at@,
            updated_at: self.updated_at@,
        }
    }
}

impl DeepView for CommandRow {
    type V = CommandRowView;

    open spec fn deep_view(&self) -> CommandRowView {
        self@
    }
}

impl Clone for CommandRow {
    fn clone(&self) -> (r: Self)
        ensures
            r@ == self@,
    {
        CommandRow {
            id: self.id.clone(),
            deployment_id: self.deployment_id.clone(),
            release_id: self.release_id.clone(),
            asset_id: self.asset_id.clone(),
            command_type: self.command_type.clone(),
            status: self.status.clone(),
            created_at: self.created_at.clone(),
            updated_at: self.updated_at.clone(),
        }
    }
}

/// A row of the table of results.
#[derive(Debug)]
pub struct CommandResultRow {
    pub command_id: String,
    pub success: bool,
    pub message: String,
    pub active_slot: Option<String>,
    pub booted_version: Option<String>,
    pub created_at: String,
}

/// The value of a [`CommandResultRow`].
#[verifier::ext_equal]
pub struct CommandResultRowView {
    pub command_id: Seq<char>,
    pub success: bool,
    pub message: Seq<char>,
    pub active_slot: Option<Seq<char>>,
    pub booted_version: Option<Seq<char>>,
    pub created_at: Seq<char>,
}

impl View for CommandResultRow {
    type V = CommandResultRowView;

    open spec fn view(&self) -> CommandResultRowView {
        CommandResultRowView {
            command_id: self.command_id@,
            success: self.success,
            message: self.message@,
            active_slot: self.active_slot.deep_view(),
            booted_version: self.booted_version.deep_view(),
            created_at: self.created_at@,
        }
    }
}

impl DeepView for CommandResultRow {
    type V = CommandResultRowView;

    open spec fn deep_view(&self) -> CommandResultRowView {
        self@
    }
}

impl Clone for CommandResultRow {
    fn clone(&self) -> (r: Self)
        ensures
            r@ == self@,
    {
        CommandResultRow {
            command_id: self.command_id.clone(),
            success: self.success,
            message: self.message.clone(),
            active_slot: self.active_slot.clone(),
            booted_version: self.booted_version.clone(),
            created_at: self.created_at.clone(),
        }
    }
}

/// All rows, each table in the order in which its rows are stored.
#[derive(Debug)]
pub struct Tables {
    pub releases: Vec<ReleaseRow>,
    pub assets: Vec<AssetRow>,
    pub labels: Vec<AssetLabelRow>,
    pub deployments: Vec<DeploymentRow>,
    pub targets: Vec<TargetRow>,
    pub commands: Vec<CommandRow>,
    pub results: Vec<CommandResultRow>,
}

/// The value of a [`Tables`].
#[verifier::ext_equal]
pub struct TablesView {
    pub releases: Seq<ReleaseRowView>,
    pub assets: Seq<AssetRowView>,
    pub labels: Seq<AssetLabelRowView>,
    pub deployments: Seq<DeploymentRowView>,
    pub targets: Seq<TargetRowView>,
    pub commands: Seq<CommandRowView>,
    pub results: Seq<CommandResultRowView>,
}

impl View for Tables {
    type V = TablesView;

    open spec fn view(&self) -> TablesView {
        TablesView {
            releases: self.releases.deep_view(),
            assets: self.assets.deep_view(),
            labels: self.labels.deep_view(),
            deployments: self.deployments.deep_view(),
            targets: self.targets.deep_view(),
            commands: self.commands.deep_view(),
            results: self.results.deep_view(),
        }
    }
}


/// The first release with this identifier.
pub open spec fn release_row(rows: Seq<ReleaseRowView>, id: Seq<char>) -> Option<ReleaseRowView>
    decreases rows.len(),
{
    if rows.len() == 0 {
        None
    } else if rows[0].id == id {
        Some(rows[0])
    } else {
        release_row(rows.skip(1), id)
    }
}

/// What is found is there, and what is not found is not.
pub proof fn lemma_release_row(rows: Seq<ReleaseRowView>, id: Seq<char>)
    ensures
        match release_row(rows, id) {
            Some(row) => row.id == id && rows.contains(row),
            None => forall|i: int| 0 <= i < rows.len() ==> #[trigger] rows[i].id != id,
        },
    decreases rows.len(),
{
    if rows.len() > 0 && !(rows[0].id == id) {
        let rest = rows.skip(1);
        lemma_release_row(rest, id);
        match release_row(rest, id) {
            Some(row) => {
                let i = choose|i: int| 0 <= i < rest.len() && rest[i] == row;
                assert(rows[i + 1] == row);
            },
            None => {
                assert forall|i: int| 0 <= i < rows.len() implies #[trigger] rows[i].id != id by {
                    if i > 0 {
                        assert(rest[i - 1] == rows[i]);
                    }
                }
            },
        }
    }
}

/// The position of the first release with this identifier.
pub fn find_release(rows: &Vec<ReleaseRow>, id: &str) -> (r: Option<usize>)
    ensures
        match r {
            Some(i) => i < rows@.len() && release_row(rows.deep_view(), id@) == Some(
                rows@[i as int]@,
            ),
            None => release_row(rows.deep_view(), id@) is None,
        },
{
    let ghost view = rows.deep_view();
    assert(view.skip(0) =~= view);
    let mut i: usize = 0;
    while i < rows.len()
        invariant
            i <= rows.len(),
            view == rows.deep_view(),
            release_row(view.skip(i as int), id@) == release_row(view, id@),
        decreases rows.len() - i,
    {
        assert(view.skip(i as int)[0] == rows@[i as int]@);
        if same(rows[i].id.as_str(), id) {
            return Some(i);
        }
        assert(view.skip(i as int).skip(1) =~= view.skip(i + 1));
        i += 1;
    }
    None
}

/// The first asset with this identifier.
pub open spec fn asset_row(rows: Seq<AssetRowView>, asset_id: Seq<char>) -> Option<AssetRowView>
    decreases rows.len(),
{
    if rows.len() == 0 {
        None
    } else if rows[0].asset_id == asset_id {
        Some(rows[0])
    } else {
        asset_row(rows.skip(1), asset_id)
    }
}

/// What is found is there, and what is not found is not.
pub proof fn lemma_asset_row(rows: Seq<AssetRowView>, asset_id: Seq<char>)
    ensures
        match asset_row(rows, asset_id) {
            Some(row) => row.asset_id == asset_id && rows.contains(row),
            None => forall|i: int| 0 <= i < rows.len() ==> #[trigger] rows[i].asset_id != asset_id,
        },
    decreases rows.len(),
{
    if rows.len() > 0 && !(rows[0].asset_id == asset_id) {
        let rest = rows.skip(1);
        lemma_asset_row(rest, asset_id);
        match asset_row(rest, asset_id) {
            Some(row) => {
                let i = choose|i: int| 0 <= i < rest.len() && rest[i] == row;
                assert(rows[i + 1] == row);
            },
            None => {
                assert forall|i: int| 0 <= i < rows.len() implies #[trigger] rows[i].asset_id != asset_id by {
                    if i > 0 {
                        assert(rest[i - 1] == rows[i]);
                    }
                }
            },
        }
    }
}

/// The position of the first asset with this identifier.
pub fn find_asset(rows: &Vec<AssetRow>, asset_id: &str) -> (r: Option<usize>)
    ensures
        match r {
            Some(i) => i < rows@.len() && asset_row(rows.deep_view(), asset_id@) == Some(
                rows@[i as int]@,
            ),
            None => asset_row(rows.deep_view(), asset_id@) is None,
        },
{
    let ghost view = rows.deep_view();
    assert(view.skip(0) =~= view);
    let mut i: usize = 0;
    while i < rows.len()
        invariant
            i <= rows.len(),
            view == rows.deep_view(),
            asset_row(view.skip(i as int), asset_id@) == asset_row(view, asset_id@),
        decreases rows.len() - i,
    {
        assert(view.skip(i as int)[0] == rows@[i as int]@);
        if same(rows[i].asset_id.as_str(), asset_id) {
            return Some(i);
        }
        assert(view.skip(i as int).skip(1) =~= view.skip(i + 1));
        i += 1;
    }
    None
}

/// The first row with this label of this asset.
pub open spec fn label_row(rows: Seq<AssetLabelRowView>, asset_id: Seq<char>, label: Seq<char>) -> Option<AssetLabelRowView>
    decreases rows.len(),
{
    if rows.len() == 0 {
        None
    } else if rows[0].asset_id == asset_id && rows[0].label == label {
        Some(rows[0])
    } else {
        label_row(rows.skip(1), asset_id, label)
    }
}

/// What is found is there, and what is not found is not.
pub proof fn lemma_label_row(rows: Seq<AssetLabelRowView>, asset_id: Seq<char>, label: Seq<char>)
    ensures
        match label_row(rows, asset_id, label) {
            Some(row) => row.asset_id == asset_id && row.label == label && rows.contains(row),
            None => forall|i: int| 0 <= i < rows.len() ==> !(#[trigger] rows[i].asset_id == asset_id && rows[i].label == label),
        },
    decreases rows.len(),
{
    if rows.len() > 0 && !(rows[0].asset_id == asset_id && rows[0].label == label) {
        let rest = rows.skip(1);
        lemma_label_row(rest, asset_id, label);
        match label_row(rest, asset_id, label) {
            Some(row) => {
                let i = choose|i: int| 0 <= i < rest.len() && rest[i] == row;
                assert(rows[i + 1] == row);
            },
            None => {
                assert forall|i: int| 0 <= i < rows.len() implies !(#[trigger] rows[i].asset_id == asset_id && rows[i].label == label) by {
                    if i > 0 {
                        assert(rest[i - 1] == rows[i]);
                    }
                }
            },
        }
    }
}

/// The position of the first row with this label of this asset.
pub fn find_label(rows: &Vec<AssetLabelRow>, asset_id: &str, label: &str) -> (r: Option<usize>)
    ensures
        match r {
            Some(i) => i < rows@.len() && label_row(rows.deep_view(), asset_id@, label@) == Some(
                rows@[i as int]@,
            ),
            None => label_row(rows.deep_view(), asset_id@, label@) is None,
        },
{
    let ghost view = rows.deep_view();
    assert(view.skip(0) =~= view);
    let mut i: usize = 0;
    while i < rows.len()
        invariant
            i <= rows.len(),
            view == rows.deep_view(),
            label_row(view.skip(i as int), asset_id@, label@) == label_row(view, asset_id@, label@),
        decreases rows.len() - i,
    {
        assert(view.skip(i as int)[0] == rows@[i as int]@);
        if same(rows[i].asset_id.as_str(), asset_id) && same(rows[i].label.as_str(), label) {
            return Some(i);
        }
        assert(view.skip(i as int).skip(1) =~= view.skip(i + 1));
        i += 1;
    }
    None
}

/// The first deployment with this identifier.
pub open spec fn deployment_row(rows: Seq<DeploymentRowView>, id: Seq<char>) -> Option<DeploymentRowView>
    decreases rows.len(),
{
    if rows.len() == 0 {
        None
    } else if rows[0].id == id {
        Some(rows[0])
    } else {
        deployment_row(rows.skip(1), id)
    }
}

/// What is found is there, and what is not found is not.
pub proof fn lemma_deployment_row(rows: Seq<DeploymentRowView>, id: Seq<char>)
    ensures
        match deployment_row(rows, id) {
            Some(row) => row.id == id && rows.contains(row),
            None => forall|i: int| 0 <= i < rows.len() ==> #[trigger] rows[i].id != id,
        },
    decreases rows.len(),
{
    if rows.len() > 0 && !(rows[0].id == id) {
        let rest = rows.skip(1);
        lemma_deployment_row(rest, id);
        match deployment_row(rest, id) {
            Some(row) => {
                let i = choose|i: int| 0 <= i < rest.len() && rest[i] == row;
                assert(rows[i + 1] == row);
            },
            None => {
                assert forall|i: int| 0 <= i < rows.len() implies #[trigger] rows[i].id != id by {
                    if i > 0 {
                        assert(rest[i - 1] == rows[i]);
                    }
                }
            },
        }
    }
}

/// The position of the first deployment with this identifier.
pub fn find_deployment(rows: &Vec<DeploymentRow>, id: &str) -> (r: Option<usize>)
    ensures
        match r {
            Some(i) => i < rows@.len() && deployment_row(rows.deep_view(), id@) == Some(
                rows@[i as int]@,
            ),
            None => deployment_row(rows.deep_view(), id@) is None,
        },
{
    let ghost view = rows.deep_view();
    assert(view.skip(0) =~= view);
    let mut i: usize = 0;
    while i < rows.len()
        invariant
            i <= rows.len(),
            view == rows.deep_view(),
            deployment_row(view.skip(i as int), id@) == deployment_row(view, id@),
        decreases rows.len() - i,
    {
        assert(view.skip(i as int)[0] == rows@[i as int]@);
        if same(rows[i].id.as_str(), id) {
            return Some(i);
        }
        assert(view.skip(i as int).skip(1) =~= view.skip(i + 1));
        i += 1;
    }
    None
}

/// The first target of this deployment on this asset.
pub open spec fn target_row(rows: Seq<TargetRowView>, deployment_id: Seq<char>, asset_id: Seq<char>) -> Option<TargetRowView>
    decreases rows.len(),
{
    if rows.len() == 0 {
        None
    } else if rows[0].deployment_id == deployment_id && rows[0].asset_id == asset_id {
        Some(rows[0])
    } else {
        target_row(rows.skip(1), deployment_id, asset_id)
    }
}

/// What is found is there, and what is not found is not.
pub proof fn lemma_target_row(rows: Seq<TargetRowView>, deployment_id: Seq<char>, asset_id: Seq<char>)
    ensures
        match target_row(rows, deployment_id, asset_id) {
            Some(row) => row.deployment_id == deployment_id && row.asset_id == asset_id && rows.contains(row),
            None => forall|i: int| 0 <= i < rows.len() ==> !(#[trigger] rows[i].deployment_id == deployment_id && rows[i].asset_id == asset_id),
        },
    decreases rows.len(),
{
    if rows.len() > 0 && !(rows[0].deployment_id == deployment_id && rows[0].asset_id == asset_id) {
        let rest = rows.skip(1);
        lemma_target_row(rest, deployment_id, asset_id);
        match target_row(rest, deployment_id, asset_id) {
            Some(row) => {
                let i = choose|i: int| 0 <= i < rest.len() && rest[i] == row;
                assert(rows[i + 1] == row);
            },
            None => {
                assert forall|i: int| 0 <= i < rows.len() implies !(#[trigger] rows[i].deployment_id == deployment_id && rows[i].asset_id == asset_id) by {
                    if i > 0 {
                        assert(rest[i - 1] == rows[i]);
                    }
                }
            },
        }
    }
}

/// The position of the first target of this deployment on this asset.
pub fn find_target(rows: &Vec<TargetRow>, deployment_id: &str, asset_id: &str) -> (r: Option<usize>)
    ensures
        match r {
            Some(i) => i < rows@.len() && target_row(rows.deep_view(), deployment_id@, asset_id@) == Some(
                rows@[i as int]@,
            ),
            None => target_row(rows.deep_view(), deployment_id@, asset_id@) is None,
        },
{
    let ghost view = rows.deep_view();
    assert(view.skip(0) =~= view);
    let mut i: usize = 0;
    while i < rows.len()
        invariant
            i <= rows.len(),
            view == rows.deep_view(),
            target_row(view.skip(i as int), deployment_id@, asset_id@) == target_row(view, deployment_id@, asset_id@),
        decreases rows.len() - i,
    {
        assert(view.skip(i as int)[0] == rows@[i as int]@);
        if same(rows[i].deployment_id.as_str(), deployment_id) && same(rows[i].asset_id.as_str(), asset_id) {
            return Some(i);
        }
        assert(view.skip(i as int).skip(1) =~= view.skip(i + 1));
        i += 1;
    }
    None
}

/// The first command with this identifier.
pub open spec fn command_row(rows: Seq<CommandRowView>, id: Seq<char>) -> Option<CommandRowView>
    decreases rows.len(),
{
    if rows.len() == 0 {
        None
    } else if rows[0].id == id {
        Some(rows[0])
    } else {
        command_row(rows.skip(1), id)
    }
}

/// What is found is there, and what is not found is not.
pub proof fn lemma_command_row(rows: Seq<CommandRowView>, id: Seq<char>)
    ensures
        match command_row(rows, id) {
            Some(row) => row.id == id && rows.contains(row),
            None => forall|i: int| 0 <= i < rows.len() ==> #[trigger] rows[i].id != id,
        },
    decreases rows.len(),
{
    if rows.len() > 0 && !(rows[0].id == id) {
        let rest = rows.skip(1);
        lemma_command_row(rest, id);
        match command_row(rest, id) {
            Some(row) => {
                let i = choose|i: int| 0 <= i < rest.len() && rest[i] == row;
                assert(rows[i + 1] == row);
            },
            None => {
                assert forall|i: int| 0 <= i < rows.len() implies #[trigger] rows[i].id != id by {
                    if i > 0 {
                        assert(rest[i - 1] == rows[i]);
                    }
                }
            },
        }
    }
}

/// The position of the first command with this identifier.
pub fn find_command(rows: &Vec<CommandRow>, id: &str) -> (r: Option<usize>)
    ensures
        match r {
            Some(i) => i < rows@.len() && command_row(rows.deep_view(), id@) == Some(
                rows@[i as int]@,
            ),
            None => command_row(rows.deep_view(), id@) is None,
        },
{
    let ghost view = rows.deep_view();
    assert(view.skip(0) =~= view);
    let mut i: usize = 0;
    while i < rows.len()
        invariant
            i <= rows.len(),
            view == rows.deep_view(),
            command_row(view.skip(i as int), id@) == command_row(view, id@),
        decreases rows.len() - i,
    {
        assert(view.skip(i as int)[0] == rows@[i as int]@);
        if same(rows[i].id.as_str(), id) {
            return Some(i);
        }
        assert(view.skip(i as int).skip(1) =~= view.skip(i + 1));
        i += 1;
    }
    None
}

} // verus!
