//! The executor of releases for two slots, of which the boot loader starts one.

use crate::agent::workflow::{next_slot_of, slot_pair_of};
use crate::executors::course::{is_in_order, law_sure_steps_in_order};
use crate::executors::plan::{
    call, plain_call, run_shell, shell_call_of, FileCopy, FileCopyView, FileText, FileTextView,
    ProgramCall, ProgramCallView, Programs, ProgramsView, SavedEntry, SavedEntryView, Step,
    StepView,
};
use crate::executors::{
    artifact_path, grub_ab_spec, release_env, shell_env, Activation, ActivationOutcome,
    ActivationOutcomeView, ActivationView, ExecutionContext, ExecutionContextView, Executor,
    PendingReboot, PendingRebootView, RollbackAction, RollbackActionView,
};
use crate::paths::{
    extension, extension_of, is_root, join, joined, last_part_start, law_last_part, leads_to_root,
    names_nothing, trim_leading_slashes, without_leading_slashes,
};
use crate::text::{
    ascii_lowercase, blank, concat, is_blank, lowered, same, text_read, trim, trimmed,
};
use crate::types::manifest::{
    layout_fault, ExecutorSpecView, GrubAbBootControl, GrubAbBootControlView, GrubAbCompression,
    GrubAbExecutorSpec, GrubAbExecutorSpecView, GrubAbSlot, GrubAbSlotView,
};
use vstd::prelude::*;

verus! {

/// A device: its name, and the name that links to it resolve to, or why they do not.
#[derive(Debug)]
pub struct Device {
    pub path: String,
    pub canonical: Result<String, String>,
}

/// The value of a [`Device`].
#[verifier::ext_equal]
pub struct DeviceView {
    pub path: Seq<char>,
    pub canonical: Result<Seq<char>, Seq<char>>,
}

impl View for Device {
    type V = DeviceView;

    open spec fn view(&self) -> DeviceView {
        DeviceView { path: self.path@, canonical: text_read(self.canonical) }
    }
}

/// The device that the machine runs from, if it is known, and the devices of the two slots.
#[derive(Debug)]
pub struct Devices {
    pub root: Result<Device, String>,
    pub first: Device,
    pub second: Device,
}

/// The value of [`Devices`].
#[verifier::ext_equal]
pub struct DevicesView {
    pub root: Result<DeviceView, Seq<char>>,
    pub first: DeviceView,
    pub second: DeviceView,
}

impl View for Devices {
    type V = DevicesView;

    open spec fn view(&self) -> DevicesView {
        DevicesView {
            root: match self.root {
                Ok(device) => Ok(device@),
                Err(complaint) => Err(complaint@),
            },
            first: self.first@,
            second: self.second@,
        }
    }
}

/// Whether two devices are the same, by the names that links to them resolve to.
pub open spec fn devices_agree(left: DeviceView, right: DeviceView) -> Result<bool, Seq<char>> {
    match (left.canonical, right.canonical) {
        (Err(complaint), _) => Err(complaint),
        (_, Err(complaint)) => Err(complaint),
        (Ok(left), Ok(right)) => Ok(left == right),
    }
}

/// Whether two devices are the same, by the names that links to them resolve to.
pub fn same_device(left: &Device, right: &Device) -> (r: Result<bool, String>)
    ensures
        match r {
            Ok(agree) => devices_agree(left@, right@) == Ok::<bool, Seq<char>>(agree),
            Err(complaint) => devices_agree(left@, right@) == Err::<bool, Seq<char>>(complaint@),
        },
{
    match (&left.canonical, &right.canonical) {
        (Err(complaint), _) => Err(complaint.clone()),
        (_, Err(complaint)) => Err(complaint.clone()),
        (Ok(left), Ok(right)) => Ok(same(left.as_str(), right.as_str())),
    }
}

/// The slot whose device the machine runs from.
pub open spec fn active_slot(spec: GrubAbExecutorSpecView, devices: DevicesView) -> Result<
    Seq<char>,
    Seq<char>,
> {
    match (spec.slots, devices.root) {
        (None, _) => Err("grub_ab.slots is required for active slot detection"@),
        (_, Err(complaint)) => Err(complaint),
        (Some(slots), Ok(root)) => match devices_agree(root, devices.first) {
            Err(complaint) => Err(complaint),
            Ok(true) => Ok(slots[0].name),
            Ok(false) => match devices_agree(root, devices.second) {
                Err(complaint) => Err(complaint),
                Ok(true) => Ok(slots[1].name),
                Ok(false) => Err(
                    "active root device "@ + root.path
                        + " does not match any grub_ab slot device"@,
                ),
            },
        },
    }
}

/// The slot whose device the machine runs from.
pub fn detect_active_slot(spec: &GrubAbExecutorSpec, devices: &Devices) -> (r: Result<
    String,
    String,
>)
    ensures
        text_read(r) == active_slot(spec@, devices@),
{
    let slots = match &spec.slots {
        Some(slots) => slots,
        None => {
            return Err("grub_ab.slots is required for active slot detection".to_string());
        },
    };
    let root = match &devices.root {
        Ok(root) => root,
        Err(complaint) => {
            return Err(complaint.clone());
        },
    };
    if same_device(root, &devices.first)? {
        return Ok(slots[0].name.clone());
    }
    if same_device(root, &devices.second)? {
        return Ok(slots[1].name.clone());
    }
    let start = concat("active root device ", root.path.as_str());
    Err(concat(start.as_str(), " does not match any grub_ab slot device"))
}

/// The slot with a name.
pub open spec fn slot_named(slots: Seq<GrubAbSlotView>, name: Seq<char>) -> Option<GrubAbSlotView> {
    if slots[0].name == name {
        Some(slots[0])
    } else if slots[1].name == name {
        Some(slots[1])
    } else {
        None
    }
}

/// The slot with a name.
fn find_slot<'a>(slots: &'a [GrubAbSlot; 2], name: &str) -> (r: Option<&'a GrubAbSlot>)
    ensures
        match r {
            Some(slot) => slot_named(slots.deep_view(), name@) == Some(slot@),
            None => slot_named(slots.deep_view(), name@) is None,
        },
{
    assert(slots.deep_view()[0] == slots@[0]@);
    assert(slots.deep_view()[1] == slots@[1]@);
    if same(slots[0].name.as_str(), name) {
        Some(&slots[0])
    } else if same(slots[1].name.as_str(), name) {
        Some(&slots[1])
    } else {
        None
    }
}

/// How to go back to the slot that the machine runs.
pub open spec fn grub_rollback(spec: GrubAbExecutorSpecView, current_slot: Seq<char>) -> Result<
    RollbackActionView,
    Seq<char>,
> {
    match (spec.slots, spec.boot_control) {
        (None, _) => Err("grub_ab.slots is required for rollback"@),
        (_, None) => Err("grub_ab.boot_control is required for rollback"@),
        (Some(slots), Some(boot_control)) => match slot_named(slots, current_slot) {
            None => Err("unknown current grub_ab slot: "@ + current_slot),
            Some(slot) => Ok(
                RollbackActionView::GrubAb {
                    authority_device: boot_control.authority_device,
                    mountpoint: boot_control.mountpoint,
                    grubenv_relpath: boot_control.grubenv_relpath,
                    previous_grub_menu_entry: slot.grub_menu_entry,
                },
            ),
        },
    }
}

/// How to go back to the slot that the machine runs.
pub fn rollback_action(spec: &GrubAbExecutorSpec, current_slot: &str) -> (r: Result<
    RollbackAction,
    String,
>)
    ensures
        match r {
            Ok(action) => grub_rollback(spec@, current_slot@) == Ok::<
                RollbackActionView,
                Seq<char>,
            >(action@),
            Err(complaint) => grub_rollback(spec@, current_slot@) == Err::<
                RollbackActionView,
                Seq<char>,
            >(complaint@),
        },
{
    let slots = match &spec.slots {
        Some(slots) => slots,
        None => {
            return Err("grub_ab.slots is required for rollback".to_string());
        },
    };
    let boot_control = match &spec.boot_control {
        Some(boot_control) => boot_control,
        None => {
            return Err("grub_ab.boot_control is required for rollback".to_string());
        },
    };
    match find_slot(slots, current_slot) {
        None => Err(concat("unknown current grub_ab slot: ", current_slot)),
        Some(slot) => Ok(
            RollbackAction::GrubAb {
                authority_device: boot_control.authority_device.clone(),
                mountpoint: boot_control.mountpoint.clone(),
                grubenv_relpath: boot_control.grubenv_relpath.clone(),
                previous_grub_menu_entry: slot.grub_menu_entry.clone(),
            },
        ),
    }
}

/// The slot that the machine runs, and the one that a release goes to.
pub open spec fn slots_in_order(
    slots: Seq<GrubAbSlotView>,
    current_slot: Seq<char>,
    next_slot: Seq<char>,
) -> Result<(GrubAbSlotView, GrubAbSlotView), Seq<char>> {
    match (slot_named(slots, current_slot), slot_named(slots, next_slot)) {
        (None, _) => Err("unknown current grub_ab slot: "@ + current_slot),
        (_, None) => Err("unknown next grub_ab slot: "@ + next_slot),
        (Some(current), Some(next)) => Ok((current, next)),
    }
}

/// The slot that the machine runs, and the one that a release goes to.
pub fn ordered_slots<'a>(
    slots: &'a [GrubAbSlot; 2],
    current_slot: &str,
    next_slot: &str,
) -> (r: Result<(&'a GrubAbSlot, &'a GrubAbSlot), String>)
    ensures
        match r {
            Ok(pair) => slots_in_order(slots.deep_view(), current_slot@, next_slot@) == Ok::<
                (GrubAbSlotView, GrubAbSlotView),
                Seq<char>,
            >((pair.0@, pair.1@)),
            Err(complaint) => slots_in_order(slots.deep_view(), current_slot@, next_slot@) == Err::<
                (GrubAbSlotView, GrubAbSlotView),
                Seq<char>,
            >(complaint@),
        },
{
    let current = match find_slot(slots, current_slot) {
        Some(slot) => slot,
        None => {
            return Err(concat("unknown current grub_ab slot: ", current_slot));
        },
    };
    let next = match find_slot(slots, next_slot) {
        Some(slot) => slot,
        None => {
            return Err(concat("unknown next grub_ab slot: ", next_slot));
        },
    };
    Ok((current, next))
}

/// How an artifact is compressed, by its name where the release does not say.
pub open spec fn compression_of(
    compression: GrubAbCompression,
    artifact_path: Seq<char>,
) -> GrubAbCompression {
    if compression is Auto {
        match extension_of(artifact_path) {
            Some(ext) => if lowered(ext) == "zst"@ {
                GrubAbCompression::Zstd
            } else {
                GrubAbCompression::Uncompressed
            },
            None => GrubAbCompression::Uncompressed,
        }
    } else {
        compression
    }
}

/// How an artifact is compressed, by its name where the release does not say.
pub fn resolve_compression(spec: &GrubAbExecutorSpec, artifact_path: &str) -> (r: GrubAbCompression)
    ensures
        r == compression_of(spec.compression, artifact_path@),
        !(r is Auto),
{
    match spec.compression {
        GrubAbCompression::Auto => match extension(artifact_path) {
            Some(ext) => if same(ascii_lowercase(ext.as_str()).as_str(), "zst") {
                GrubAbCompression::Zstd
            } else {
                GrubAbCompression::Uncompressed
            },
            None => GrubAbCompression::Uncompressed,
        },
        compression => compression,
    }
}

/// Where an image is put that was decompressed.
pub open spec fn decompressed_image(state_dir: Seq<char>) -> Seq<char> {
    joined(joined(state_dir, "artifacts"@), "grub-ab-image.ext4"@)
}

/// The steps that make an image of an artifact.
pub open spec fn image_steps(
    compression: GrubAbCompression,
    artifact_path: Seq<char>,
    state_dir: Seq<char>,
    programs: ProgramsView,
) -> Seq<StepView> {
    if compression is Zstd {
        seq![
            StepView::CreateDirs(joined(state_dir, "artifacts"@)),
            StepView::Run(
                plain_call(
                    programs.zstd,
                    seq!["-d"@, "-f"@, artifact_path, "-o"@, decompressed_image(state_dir)],
                    "running zstd to decompress "@ + artifact_path,
                    "zstd decompression failed for "@ + artifact_path,
                ),
            ),
        ]
    } else {
        Seq::empty()
    }
}

/// The image that is made of an artifact.
pub open spec fn image_of(
    compression: GrubAbCompression,
    artifact_path: Seq<char>,
    state_dir: Seq<char>,
) -> Seq<char> {
    if compression is Zstd {
        decompressed_image(state_dir)
    } else {
        artifact_path
    }
}

/// The steps that make an image of an artifact, and where it is then.
#[derive(Debug)]
pub struct Image {
    pub steps: Vec<Step>,
    pub path: String,
}

/// The steps that make an image of an artifact, and where it is then.
pub fn prepare_image(
    spec: &GrubAbExecutorSpec,
    artifact_path: &str,
    state_dir: &str,
    programs: &Programs,
) -> (r: Image)
    ensures
        ({
            let compression = compression_of(spec.compression, artifact_path@);
            &&& r.steps.deep_view() == image_steps(
                compression,
                artifact_path@,
                state_dir@,
                programs@,
            )
            &&& r.path@ == image_of(compression, artifact_path@, state_dir@)
        }),
{
    match resolve_compression(spec, artifact_path) {
        GrubAbCompression::Zstd => {
            let dir = join(state_dir, "artifacts");
            let dest = join(dir.as_str(), "grub-ab-image.ext4");
            let args: Vec<String> = vec![
                "-d".to_string(),
                "-f".to_string(),
                artifact_path.to_string(),
                "-o".to_string(),
                dest.clone(),
            ];
            assert(args.deep_view() =~= seq![
                "-d"@,
                "-f"@,
                artifact_path@,
                "-o"@,
                decompressed_image(state_dir@),
            ]);
            let mut steps: Vec<Step> = Vec::new();
            steps.push(Step::CreateDirs(dir));
            steps.push(
                Step::Run(
                    call(
                        programs.zstd.as_str(),
                        args,
                        concat("running zstd to decompress ", artifact_path),
                        concat("zstd decompression failed for ", artifact_path),
                    ),
                ),
            );
            assert(steps.deep_view() =~= seq![steps@[0]@, steps@[1]@]);
            Image { steps, path: dest }
        },
        _ => {
            let steps: Vec<Step> = Vec::new();
            assert(steps.deep_view() =~= Seq::empty());
            Image { steps, path: artifact_path.to_string() }
        },
    }
}

/// The call that writes an image to a device.
pub open spec fn image_write(image: Seq<char>, device: Seq<char>, programs: ProgramsView) -> ProgramCallView {
    plain_call(
        programs.dd,
        seq!["if="@ + image, "of="@ + device, "bs=16M"@, "conv=fsync"@, "status=none"@],
        "writing "@ + image + " to "@ + device,
        "dd failed while writing "@ + image + " to "@ + device,
    )
}

/// The call that writes an image to a device.
fn write_image_to_device(image: &str, device: &str, programs: &Programs) -> (r: ProgramCall)
    ensures
        r@ == image_write(image@, device@, programs@),
{
    let args: Vec<String> = vec![
        concat("if=", image),
        concat("of=", device),
        "bs=16M".to_string(),
        "conv=fsync".to_string(),
        "status=none".to_string(),
    ];
    assert(args.deep_view() =~= seq![
        "if="@ + image@,
        "of="@ + device@,
        "bs=16M"@,
        "conv=fsync"@,
        "status=none"@,
    ]);
    let pair = concat(concat(image, " to ").as_str(), device);
    let context = concat("writing ", pair.as_str());
    let failure = concat("dd failed while writing ", pair.as_str());
    assert(context@ =~= "writing "@ + image@ + " to "@ + device@);
    assert(failure@ =~= "dd failed while writing "@ + image@ + " to "@ + device@);
    call(programs.dd.as_str(), args, context, failure)
}

/// The call that starts the machine anew.
pub open spec fn reboot_call(programs: ProgramsView) -> ProgramCallView {
    plain_call(
        programs.reboot,
        seq!["reboot"@],
        "requesting reboot"@,
        "reboot command failed"@,
    )
}

/// The call that starts the machine anew.
fn request_reboot(programs: &Programs) -> (r: ProgramCall)
    ensures
        r@ == reboot_call(programs@),
{
    let args: Vec<String> = vec!["reboot".to_string()];
    assert(args.deep_view() =~= seq!["reboot"@]);
    call(
        programs.reboot.as_str(),
        args,
        "requesting reboot".to_string(),
        "reboot command failed".to_string(),
    )
}

/// Where the environment of the boot loader lies.
#[derive(Debug)]
pub struct BootAuthorityMount {
    pub root: String,
    pub grubenv_relpath: String,
    /// Whether it has to be mounted first.
    pub mounted: bool,
}

/// The value of a [`BootAuthorityMount`].
#[verifier::ext_equal]
pub struct BootAuthorityMountView {
    pub root: Seq<char>,
    pub grubenv_relpath: Seq<char>,
    pub mounted: bool,
}

impl View for BootAuthorityMount {
    type V = BootAuthorityMountView;

    open spec fn view(&self) -> BootAuthorityMountView {
        BootAuthorityMountView {
            root: self.root@,
            grubenv_relpath: self.grubenv_relpath@,
            mounted: self.mounted,
        }
    }
}

/// Where the environment of the boot loader lies: where the machine runs, if that is on the
/// device that holds it, or on that device, which is then mounted.
pub open spec fn authority_mount(
    boot_control: GrubAbBootControlView,
    authority: Seq<char>,
    current_root: Option<Seq<char>>,
    live_root: Seq<char>,
) -> BootAuthorityMountView {
    if current_root == Some(authority) {
        BootAuthorityMountView {
            root: live_root,
            grubenv_relpath: without_leading_slashes(boot_control.grubenv_relpath),
            mounted: false,
        }
    } else {
        BootAuthorityMountView {
            root: boot_control.mountpoint,
            grubenv_relpath: without_leading_slashes(boot_control.grubenv_relpath),
            mounted: true,
        }
    }
}

/// A path that starts at another place than the root.
pub fn normalize_relpath(path: &str) -> (r: String)
    ensures
        r@ == without_leading_slashes(path@),
{
    trim_leading_slashes(path)
}

impl BootAuthorityMountView {
    /// The file with the environment of the boot loader.
    pub open spec fn grubenv(self) -> Seq<char> {
        if is_root(self.root) {
            joined("/"@, self.grubenv_relpath)
        } else {
            joined(self.root, self.grubenv_relpath)
        }
    }
}

impl BootAuthorityMount {
    /// Where the environment of the boot loader lies. The devices are given by the names that
    /// links to them resolve to, and the one that the machine runs from only where it is known.
    pub fn open(
        boot_control: &GrubAbBootControl,
        authority: &str,
        current_root: &Option<String>,
        live_root: &str,
    ) -> (r: BootAuthorityMount)
        ensures
            r@ == authority_mount(
                boot_control@,
                authority@,
                current_root.deep_view(),
                live_root@,
            ),
    {
        let is_live = match current_root {
            Some(device) => same(device.as_str(), authority),
            None => false,
        };
        let root = if is_live {
            live_root.to_string()
        } else {
            boot_control.mountpoint.clone()
        };
        BootAuthorityMount {
            root,
            grubenv_relpath: normalize_relpath(boot_control.grubenv_relpath.as_str()),
            mounted: !is_live,
        }
    }

    /// The file with the environment of the boot loader.
    pub fn grubenv_path(&self) -> (r: String)
        ensures
            r@ == self@.grubenv(),
    {
        if leads_to_root(self.root.as_str()) {
            join("/", self.grubenv_relpath.as_str())
        } else {
            join(self.root.as_str(), self.grubenv_relpath.as_str())
        }
    }
}

/// How to say which menu entry the boot loader is to start next.
#[derive(Debug)]
pub struct SavedEntryPlan {
    /// What comes first.
    pub before: Vec<Step>,
    /// The call that says it.
    pub set: ProgramCall,
    /// What comes last, whether or not the call succeeds, and whether or not this does.
    pub after: Option<ProgramCall>,
}

/// The value of a [`SavedEntryPlan`].
#[verifier::ext_equal]
pub struct SavedEntryPlanView {
    pub before: Seq<StepView>,
    pub set: ProgramCallView,
    pub after: Option<ProgramCallView>,
}

impl View for SavedEntryPlan {
    type V = SavedEntryPlanView;

    open spec fn view(&self) -> SavedEntryPlanView {
        SavedEntryPlanView {
            before: self.before.deep_view(),
            set: self.set@,
            after: self.after.deep_view(),
        }
    }
}

/// How to say which menu entry the boot loader is to start next: the device with its environment
/// is mounted if it has to be, the environment is changed, and the device is unmounted again.
pub open spec fn saved_entry_plan(
    mount: BootAuthorityMountView,
    authority: Seq<char>,
    entry: Seq<char>,
    programs: ProgramsView,
) -> SavedEntryPlanView {
    SavedEntryPlanView {
        before: if mount.mounted {
            seq![
                StepView::CreateDirs(mount.root),
                StepView::Run(
                    plain_call(
                        programs.mount,
                        seq![authority, mount.root],
                        "mounting "@ + authority + " at "@ + mount.root,
                        "mount failed for authority device "@ + authority,
                    ),
                ),
            ]
        } else {
            Seq::empty()
        },
        set: plain_call(
            programs.grub_editenv,
            seq![mount.grubenv(), "set"@, "saved_entry="@ + entry],
            "running grub-editenv for "@ + mount.grubenv(),
            "grub-editenv failed while setting saved_entry="@ + entry,
        ),
        after: if mount.mounted {
            Some(plain_call(programs.umount, seq![mount.root], Seq::empty(), Seq::empty()))
        } else {
            None
        },
    }
}

/// How to say which menu entry the boot loader is to start next. The device with its environment
/// and the one that the machine runs from are given by the names that links to them resolve to,
/// the latter only where it is known.
pub fn write_saved_entry(
    saved: &SavedEntry,
    authority: &Result<String, String>,
    current_root: &Option<String>,
    live_root: &str,
    programs: &Programs,
) -> (r: Result<SavedEntryPlan, String>)
    ensures
        match (r, authority) {
            (Ok(plan), Ok(device)) => plan@ == saved_entry_plan(
                authority_mount(
                    saved@.boot_control,
                    device@,
                    current_root.deep_view(),
                    live_root@,
                ),
                device@,
                saved@.entry,
                programs@,
            ),
            (Err(complaint), Err(reason)) => complaint@ == reason@,
            _ => false,
        },
{
    let authority = match authority {
        Ok(authority) => authority,
        Err(reason) => {
            return Err(reason.clone());
        },
    };
    let mount = BootAuthorityMount::open(
        &saved.boot_control,
        authority.as_str(),
        current_root,
        live_root,
    );
    let mut before: Vec<Step> = Vec::new();
    if mount.mounted {
        let args: Vec<String> = vec![authority.clone(), mount.root.clone()];
        assert(args.deep_view() =~= seq![authority@, mount.root@]);
        let context = concat(
            concat("mounting ", authority.as_str()).as_str(),
            concat(" at ", mount.root.as_str()).as_str(),
        );
        assert(context@ =~= "mounting "@ + authority@ + " at "@ + mount.root@);
        before.push(Step::CreateDirs(mount.root.clone()));
        before.push(
            Step::Run(
                call(
                    programs.mount.as_str(),
                    args,
                    context,
                    concat("mount failed for authority device ", authority.as_str()),
                ),
            ),
        );
        assert(before.deep_view() =~= seq![before@[0]@, before@[1]@]);
    } else {
        assert(before.deep_view() =~= Seq::empty());
    }
    let grubenv = mount.grubenv_path();
    let args: Vec<String> = vec![
        grubenv.clone(),
        "set".to_string(),
        concat("saved_entry=", saved.entry.as_str()),
    ];
    assert(args.deep_view() =~= seq![grubenv@, "set"@, "saved_entry="@ + saved.entry@]);
    let set = call(
        programs.grub_editenv.as_str(),
        args,
        concat("running grub-editenv for ", grubenv.as_str()),
        concat("grub-editenv failed while setting saved_entry=", saved.entry.as_str()),
    );
    let after = if mount.mounted {
        let args: Vec<String> = vec![mount.root.clone()];
        assert(args.deep_view() =~= seq![mount.root@]);
        let unmount = call(programs.umount.as_str(), args, String::new(), String::new());
        assert(unmount@ =~= plain_call(
            programs@.umount,
            seq![mount.root@],
            Seq::empty(),
            Seq::empty(),
        ));
        Some(unmount)
    } else {
        None
    };
    Ok(SavedEntryPlan { before, set, after })
}

/// The steps that go back to the slot of a menu entry.
pub open spec fn grub_rollback_steps(
    boot_control: GrubAbBootControlView,
    entry: Seq<char>,
    programs: ProgramsView,
) -> Seq<StepView> {
    seq![
        StepView::SetSavedEntry(SavedEntryView { boot_control, entry }),
        StepView::Run(reboot_call(programs)),
    ]
}

/// The steps that go back to the slot of a menu entry.
pub fn rollback_grub_ab(
    authority_device: &str,
    mountpoint: &str,
    grubenv_relpath: &str,
    previous_grub_menu_entry: &str,
    programs: &Programs,
) -> (r: Vec<Step>)
    ensures
        r.deep_view() == grub_rollback_steps(
            GrubAbBootControlView {
                authority_device: authority_device@,
                mountpoint: mountpoint@,
                grubenv_relpath: grubenv_relpath@,
            },
            previous_grub_menu_entry@,
            programs@,
        ),
{
    let boot_control = GrubAbBootControl {
        authority_device: authority_device.to_string(),
        mountpoint: mountpoint.to_string(),
        grubenv_relpath: grubenv_relpath.to_string(),
    };
    let mut steps: Vec<Step> = Vec::new();
    steps.push(
        Step::SetSavedEntry(
            SavedEntry { boot_control, entry: previous_grub_menu_entry.to_string() },
        ),
    );
    steps.push(Step::Run(request_reboot(programs)));
    assert(steps.deep_view() =~= seq![steps@[0]@, steps@[1]@]);
    steps
}

/// Where an image is put on a machine whose slots are not known.
pub open spec fn slot_copy(ctx: ExecutionContextView) -> Seq<char> {
    joined(
        joined(ctx.state_dir, "slots"@),
        "slot-"@ + ctx.next_slot + "-"@ + ctx.release_version,
    )
}

/// The executor of releases for two slots.
#[derive(Debug)]
pub struct GrubAbExecutor;

impl Executor for GrubAbExecutor {
    open spec fn installs(&self, ctx: ExecutionContextView, programs: ProgramsView) -> Result<
        Seq<StepView>,
        Seq<char>,
    > {
        match ctx.manifest.executor {
            ExecutorSpecView::GrubAb(spec) => match spec.slots {
                Some(slots) => match slots_in_order(slots, ctx.current_slot, ctx.next_slot) {
                    Err(complaint) => Err(complaint),
                    Ok((_, next)) => match ctx.artifact_path {
                        None => Err("grub-ab requires a downloaded artifact path"@),
                        Some(artifact) => {
                            let compression = compression_of(spec.compression, artifact);
                            Ok(
                                image_steps(compression, artifact, ctx.state_dir, programs).push(
                                    StepView::Run(
                                        image_write(
                                            image_of(compression, artifact, ctx.state_dir),
                                            next.device,
                                            programs,
                                        ),
                                    ),
                                ),
                            )
                        },
                    },
                },
                None => Ok(
                    seq![
                        StepView::CreateDirs(joined(ctx.state_dir, "slots"@)),
                        match ctx.artifact_path {
                            None => StepView::Fail(
                                "grub-ab requires a downloaded artifact path"@,
                            ),
                            Some(artifact) => StepView::CopyFile(
                                FileCopyView { from: artifact, to: slot_copy(ctx) },
                            ),
                        },
                    ],
                ),
            },
            _ => Err("executor mismatch: expected grub-ab"@),
        }
    }

    open spec fn activates(
        &self,
        ctx: ExecutionContextView,
        programs: ProgramsView,
        built: Option<Seq<char>>,
    ) -> Result<ActivationView, Seq<char>> {
        match ctx.manifest.executor {
            ExecutorSpecView::GrubAb(spec) => {
                let commands = match spec.activate_command {
                    Some(command) => seq![StepView::Run(shell_call_of(command, release_env(ctx)))],
                    None => Seq::empty(),
                };
                match spec.slots {
                    Some(slots) => match (
                        slots_in_order(slots, ctx.current_slot, ctx.next_slot),
                        spec.boot_control,
                    ) {
                        (Err(complaint), _) => Err(complaint),
                        (_, None) => Err(
                            "grub_ab.boot_control is required when grub_ab.slots is configured"@,
                        ),
                        (Ok((_, next)), Some(boot_control)) => Ok(
                            ActivationView {
                                steps: seq![
                                    StepView::SetSavedEntry(
                                        SavedEntryView {
                                            boot_control,
                                            entry: next.grub_menu_entry,
                                        },
                                    ),
                                ] + commands + seq![StepView::Run(reboot_call(programs))],
                                outcome: ActivationOutcomeView::AwaitReboot(
                                    PendingRebootView {
                                        expected_system_path: None,
                                        expected_active_slot: Some(next.name),
                                        expected_root_device: Some(next.device),
                                    },
                                ),
                            },
                        ),
                    },
                    None => Ok(
                        ActivationView {
                            steps: if spec.activate_command is Some {
                                commands
                            } else {
                                seq![
                                    StepView::WriteFile(
                                        FileTextView {
                                            path: joined(ctx.state_dir, "next-boot-slot"@),
                                            contents: ctx.next_slot,
                                        },
                                    ),
                                ]
                            },
                            outcome: ActivationOutcomeView::Complete,
                        },
                    ),
                }
            },
            _ => Err("executor mismatch: expected grub-ab"@),
        }
    }

    fn install(&self, ctx: &ExecutionContext, programs: &Programs) -> (r: Result<
        Vec<Step>,
        String,
    >) {
        let spec = grub_ab_spec(ctx)?;
        if let Some(slots) = &spec.slots {
            let (_, next) = ordered_slots(
                slots,
                ctx.current_slot.as_str(),
                ctx.next_slot.as_str(),
            )?;
            let artifact = match artifact_path(ctx) {
                Some(artifact) => artifact,
                None => {
                    return Err("grub-ab requires a downloaded artifact path".to_string());
                },
            };
            let image = prepare_image(spec, artifact.as_str(), ctx.state_dir.as_str(), programs);
            let mut steps = image.steps;
            let ghost before = steps.deep_view();
            let write = write_image_to_device(
                image.path.as_str(),
                next.device.as_str(),
                programs,
            );
            steps.push(Step::Run(write));
            assert(steps.deep_view() =~= before.push(StepView::Run(write@)));
            Ok(steps)
        } else {
            let slots_dir = join(ctx.state_dir.as_str(), "slots");
            let mut steps: Vec<Step> = Vec::new();
            steps.push(Step::CreateDirs(slots_dir.clone()));
            match artifact_path(ctx) {
                Some(artifact) => {
                    let start = concat("slot-", ctx.next_slot.as_str());
                    let name = concat(
                        concat(start.as_str(), "-").as_str(),
                        ctx.release_version.as_str(),
                    );
                    let dest = join(slots_dir.as_str(), name.as_str());
                    steps.push(Step::CopyFile(FileCopy { from: artifact.clone(), to: dest }));
                    assert(steps@[1]@ == StepView::CopyFile(
                        FileCopyView { from: artifact@, to: slot_copy(ctx@) },
                    ));
                },
                None => {
                    steps.push(
                        Step::Fail("grub-ab requires a downloaded artifact path".to_string()),
                    );
                },
            }
            assert(steps@[0]@ == StepView::CreateDirs(slots_dir@));
            assert(steps.deep_view() =~= self.installs(ctx@, programs@)->Ok_0);
            Ok(steps)
        }
    }

    fn activate(
        &self,
        ctx: &ExecutionContext,
        programs: &Programs,
        _built: Option<String>,
    ) -> (r: Result<Activation, String>) {
        let spec = grub_ab_spec(ctx)?;
        let mut steps: Vec<Step> = Vec::new();
        if let Some(slots) = &spec.slots {
            let (_, next) = ordered_slots(
                slots,
                ctx.current_slot.as_str(),
                ctx.next_slot.as_str(),
            )?;
            let boot_control = match &spec.boot_control {
                Some(boot_control) => boot_control,
                None => {
                    return Err(
                        "grub_ab.boot_control is required when grub_ab.slots is configured".to_string(),
                    );
                },
            };
            steps.push(
                Step::SetSavedEntry(
                    SavedEntry {
                        boot_control: boot_control.clone(),
                        entry: next.grub_menu_entry.clone(),
                    },
                ),
            );
            if let Some(command) = &spec.activate_command {
                let env = shell_env(ctx, &Vec::new());
                steps.push(Step::Run(run_shell(command.as_str(), env)));
            }
            steps.push(Step::Run(request_reboot(programs)));
            proof {
                let commands = match spec@.activate_command {
                    Some(command) => seq![
                        StepView::Run(shell_call_of(command, release_env(ctx@))),
                    ],
                    None => Seq::empty(),
                };
                assert(steps.deep_view() =~= seq![
                    StepView::SetSavedEntry(
                        SavedEntryView {
                            boot_control: boot_control@,
                            entry: next@.grub_menu_entry,
                        },
                    ),
                ] + commands + seq![StepView::Run(reboot_call(programs@))]);
            }
            Ok(
                Activation {
                    steps,
                    outcome: ActivationOutcome::AwaitReboot(
                        PendingReboot {
                            expected_system_path: None,
                            expected_active_slot: Some(next.name.clone()),
                            expected_root_device: Some(next.device.clone()),
                        },
                    ),
                },
            )
        } else {
            match &spec.activate_command {
                Some(command) => {
                    let env = shell_env(ctx, &Vec::new());
                    steps.push(Step::Run(run_shell(command.as_str(), env)));
                },
                None => {
                    steps.push(
                        Step::WriteFile(
                            FileText {
                                path: join(ctx.state_dir.as_str(), "next-boot-slot"),
                                contents: ctx.next_slot.clone(),
                            },
                        ),
                    );
                },
            }
            assert(steps.deep_view() =~= seq![steps@[0]@]);
            Ok(Activation { steps, outcome: ActivationOutcome::Complete })
        }
    }
}

/// The device that a machine runs from, out of what `findmnt` printed.
pub fn root_device_in(output: &str) -> (r: Result<String, String>)
    ensures
        text_read(r) == if is_blank(output@) {
            Err("findmnt did not return a current root device"@)
        } else {
            Ok(trimmed(output@))
        },
{
    if blank(output) {
        Err("findmnt did not return a current root device".to_string())
    } else {
        Ok(trim(output))
    }
}

/// A release with slots whose layout has no fault, on a machine that runs one of its slots: the
/// image is written to the device of the other slot and to no other, the boot loader is told to
/// start that slot next, and going back tells it to start the slot that the machine ran.
pub proof fn law_running_slot_spared(
    executor: GrubAbExecutor,
    spec: GrubAbExecutorSpecView,
    ctx: ExecutionContextView,
    programs: ProgramsView,
)
    requires
        ctx.manifest.executor == ExecutorSpecView::GrubAb(spec),
        layout_fault(spec) is None,
        spec.slots is Some,
        ctx.artifact_path is Some,
        slot_named(spec.slots->0, ctx.current_slot) is Some,
        ctx.next_slot == next_slot_of(ctx.current_slot, slot_pair_of(ctx.manifest.executor)),
    ensures
        ({
            let slots = spec.slots->0;
            let running = slot_named(slots, ctx.current_slot)->0;
            let other = if running == slots[0] {
                slots[1]
            } else {
                slots[0]
            };
            let compression = compression_of(spec.compression, ctx.artifact_path->0);
            let image = image_of(compression, ctx.artifact_path->0, ctx.state_dir);
            let installed = executor.installs(ctx, programs);
            let activated = executor.activates(ctx, programs, None);
            &&& other.name == ctx.next_slot
            &&& other.device != running.device
            &&& installed is Ok
            &&& installed->Ok_0 == image_steps(
                compression,
                ctx.artifact_path->0,
                ctx.state_dir,
                programs,
            ).push(StepView::Run(image_write(image, other.device, programs)))
            &&& activated is Ok
            &&& activated->Ok_0.steps[0] == StepView::SetSavedEntry(
                SavedEntryView {
                    boot_control: spec.boot_control->0,
                    entry: other.grub_menu_entry,
                },
            )
            &&& activated->Ok_0.steps.last() == StepView::Run(reboot_call(programs))
            &&& activated->Ok_0.outcome is AwaitReboot
            &&& grub_rollback(spec, ctx.current_slot) == Ok::<RollbackActionView, Seq<char>>(
                RollbackActionView::GrubAb {
                    authority_device: spec.boot_control->0.authority_device,
                    mountpoint: spec.boot_control->0.mountpoint,
                    grubenv_relpath: spec.boot_control->0.grubenv_relpath,
                    previous_grub_menu_entry: running.grub_menu_entry,
                },
            )
        }),
{
}

/// Going back to the slot of a menu entry goes in order: the machine starts anew only where the
/// boot loader was told the entry. It succeeds exactly where both do.
pub proof fn law_grub_rollback_in_order(
    boot_control: GrubAbBootControlView,
    entry: Seq<char>,
    programs: ProgramsView,
    outcomes: Seq<Result<(), Seq<char>>>,
)
    ensures
        ({
            let steps = grub_rollback_steps(boot_control, entry, programs);
            &&& steps == seq![
                StepView::SetSavedEntry(SavedEntryView { boot_control, entry }),
                StepView::Run(reboot_call(programs)),
            ]
            &&& is_in_order(steps, outcomes)
        }),
{
    law_sure_steps_in_order(grub_rollback_steps(boot_control, entry, programs), outcomes);
}

/// A release with slots is activated in order: the boot loader is told the menu entry of the slot
/// that the release went to, the command of the release is run if there is one, and the machine
/// starts anew, once, each only where what comes before it succeeded.
pub proof fn law_grub_activation_in_order(
    executor: GrubAbExecutor,
    spec: GrubAbExecutorSpecView,
    ctx: ExecutionContextView,
    programs: ProgramsView,
    outcomes: Seq<Result<(), Seq<char>>>,
)
    requires
        ctx.manifest.executor == ExecutorSpecView::GrubAb(spec),
        spec.slots is Some,
        spec.boot_control is Some,
        slots_in_order(spec.slots->0, ctx.current_slot, ctx.next_slot) is Ok,
    ensures
        ({
            let next = slots_in_order(spec.slots->0, ctx.current_slot, ctx.next_slot)->Ok_0.1;
            let activated = executor.activates(ctx, programs, None);
            let steps = activated->Ok_0.steps;
            let told = StepView::SetSavedEntry(
                SavedEntryView { boot_control: spec.boot_control->0, entry: next.grub_menu_entry },
            );
            let reboot = StepView::Run(reboot_call(programs));
            &&& activated is Ok
            &&& steps == match spec.activate_command {
                Some(command) => seq![
                    told,
                    StepView::Run(shell_call_of(command, release_env(ctx))),
                    reboot,
                ],
                None => seq![told, reboot],
            }
            &&& is_in_order(steps, outcomes)
            &&& activated->Ok_0.outcome == ActivationOutcomeView::AwaitReboot(
                PendingRebootView {
                    expected_system_path: None,
                    expected_active_slot: Some(next.name),
                    expected_root_device: Some(next.device),
                },
            )
        }),
{
    let steps = executor.activates(ctx, programs, None)->Ok_0.steps;
    let next = slots_in_order(spec.slots->0, ctx.current_slot, ctx.next_slot)->Ok_0.1;
    let told = StepView::SetSavedEntry(
        SavedEntryView { boot_control: spec.boot_control->0, entry: next.grub_menu_entry },
    );
    let reboot = StepView::Run(reboot_call(programs));
    match spec.activate_command {
        Some(command) => {
            assert(steps =~= seq![
                told,
                StepView::Run(shell_call_of(command, release_env(ctx))),
                reboot,
            ]);
        },
        None => {
            assert(steps =~= seq![told, reboot]);
        },
    }
    law_sure_steps_in_order(steps, outcomes);
}

/// The slot that a machine runs is the one whose device resolves to the same name as the device
/// that it runs from, the first before the second. Where neither does, or a name cannot be
/// resolved that is asked for, it is not known.
pub proof fn law_running_slot(spec: GrubAbExecutorSpecView, devices: DevicesView)
    requires
        spec.slots is Some,
        devices.root is Ok,
    ensures
        ({
            let slots = spec.slots->0;
            let root = devices.root->Ok_0.canonical;
            let first = devices.first.canonical;
            let second = devices.second.canonical;
            let found = active_slot(spec, devices);
            &&& root is Ok && first is Ok && root->Ok_0 == first->Ok_0 ==> found == Ok::<
                Seq<char>,
                Seq<char>,
            >(slots[0].name)
            &&& root is Ok && first is Ok && second is Ok && root->Ok_0 != first->Ok_0
                && root->Ok_0 == second->Ok_0 ==> found == Ok::<Seq<char>, Seq<char>>(
                slots[1].name,
            )
            &&& root is Ok && first is Ok && second is Ok && root->Ok_0 != first->Ok_0
                && root->Ok_0 != second->Ok_0 ==> found is Err
            &&& root is Err || first is Err ==> found is Err
        }),
{
}

/// An image is taken as compressed exactly where the release says so, or where it leaves that open
/// and the name of the artifact ends in `zst`, in either case. It is decompressed before it is
/// written exactly then.
pub proof fn law_compression_resolved(
    compression: GrubAbCompression,
    artifact: Seq<char>,
    state_dir: Seq<char>,
    programs: ProgramsView,
)
    ensures
        ({
            let resolved = compression_of(compression, artifact);
            let named = extension_of(artifact) matches Some(ext) && lowered(ext) == "zst"@;
            let is_zstd = compression is Zstd || compression is Auto && named;
            &&& resolved is Zstd <==> is_zstd
            &&& !(resolved is Auto)
            &&& is_zstd ==> {
                let steps = image_steps(resolved, artifact, state_dir, programs);
                &&& steps.len() == 2
                &&& steps[1] is Run
                &&& steps[1]->Run_0.program == programs.zstd
                &&& steps[1]->Run_0.args.contains(artifact)
                &&& steps[1]->Run_0.args.contains(image_of(resolved, artifact, state_dir))
                &&& steps[1]->Run_0.args[0] == "-d"@
                &&& image_of(resolved, artifact, state_dir) == joined(
                    joined(state_dir, "artifacts"@),
                    "grub-ab-image.ext4"@,
                )
            }
            &&& !is_zstd ==> {
                &&& image_steps(resolved, artifact, state_dir, programs).len() == 0
                &&& image_of(resolved, artifact, state_dir) == artifact
            }
        }),
{
    let resolved = compression_of(compression, artifact);
    if resolved is Zstd {
        let args = image_steps(resolved, artifact, state_dir, programs)[1]->Run_0.args;
        assert(args[2] == artifact);
        assert(args[4] == image_of(resolved, artifact, state_dir));
    }
}

/// An image is written by `dd`, from that image to that device.
pub proof fn law_image_written(image: Seq<char>, device: Seq<char>, programs: ProgramsView)
    ensures
        ({
            let call = image_write(image, device, programs);
            &&& call.program == programs.dd
            &&& call.args[0] == "if="@ + image
            &&& call.args[1] == "of="@ + device
            &&& forall|i: int|
                2 <= i < call.args.len() ==> {
                    ||| #[trigger] call.args[i] == "bs=16M"@
                    ||| call.args[i] == "conv=fsync"@
                    ||| call.args[i] == "status=none"@
                }
            &&& call.args.contains("conv=fsync"@)
        }),
{
    let args = image_write(image, device, programs).args;
    assert(args[3] == "conv=fsync"@);
}

/// The boot loader is told the given entry, in its environment on the given device. The device is
/// mounted first, and unmounted last, exactly where the machine does not run from it.
pub proof fn law_entry_told(
    boot_control: GrubAbBootControlView,
    authority: Seq<char>,
    current_root: Option<Seq<char>>,
    live_root: Seq<char>,
    entry: Seq<char>,
    programs: ProgramsView,
)
    ensures
        ({
            let mount = authority_mount(boot_control, authority, current_root, live_root);
            let plan = saved_entry_plan(mount, authority, entry, programs);
            let is_live = current_root is Some && current_root->0 == authority;
            let root = if is_live {
                live_root
            } else {
                boot_control.mountpoint
            };
            &&& mount.root == root
            &&& mount.grubenv_relpath == without_leading_slashes(boot_control.grubenv_relpath)
            &&& plan.set.program == programs.grub_editenv
            &&& plan.set.args.len() == 3
            &&& plan.set.args[0] == mount.grubenv()
            &&& plan.set.args[1] == "set"@
            &&& plan.set.args[2] == "saved_entry="@ + entry
            &&& is_live ==> plan.before.len() == 0 && plan.after is None
            &&& !is_live ==> {
                &&& plan.before.len() == 2
                &&& plan.before[0] == StepView::CreateDirs(root)
                &&& plan.before[1] is Run
                &&& plan.before[1]->Run_0.program == programs.mount
                &&& plan.before[1]->Run_0.args.len() == 2
                &&& plan.before[1]->Run_0.args[0] == authority
                &&& plan.before[1]->Run_0.args[1] == root
                &&& plan.after is Some
                &&& plan.after->0.program == programs.umount
                &&& plan.after->0.args.len() == 1
                &&& plan.after->0.args[0] == root
            }
        }),
{
}

/// The way back to the slot that a machine runs leads to the menu entry of that slot, by the boot
/// control section of the release.
pub proof fn law_way_back(spec: GrubAbExecutorSpecView, current: Seq<char>)
    requires
        spec.slots is Some,
        spec.boot_control is Some,
        spec.slots->0[0].name != spec.slots->0[1].name,
    ensures
        ({
            let slots = spec.slots->0;
            let back = grub_rollback(spec, current);
            &&& back is Ok <==> current == slots[0].name || current == slots[1].name
            &&& back is Ok ==> {
                &&& back->Ok_0 is GrubAb
                &&& back->Ok_0->authority_device == spec.boot_control->0.authority_device
                &&& back->Ok_0->mountpoint == spec.boot_control->0.mountpoint
                &&& back->Ok_0->grubenv_relpath == spec.boot_control->0.grubenv_relpath
            }
            &&& current == slots[0].name ==> back->Ok_0->previous_grub_menu_entry
                == slots[0].grub_menu_entry
            &&& current == slots[1].name ==> back->Ok_0->previous_grub_menu_entry
                == slots[1].grub_menu_entry
        }),
{
}

/// The environment of the boot loader stands below the root that it is on: its path is that root,
/// a slash and the path from there.
pub proof fn law_environment_place(mount: BootAuthorityMountView)
    requires
        mount.root.len() > 0,
        mount.grubenv_relpath.len() > 0,
        mount.grubenv_relpath[0] != '/',
    ensures
        mount.root == "/"@ ==> mount.grubenv() == "/"@ + mount.grubenv_relpath,
        mount.root[mount.root.len() - 1] != '/' && mount.root[mount.root.len() - 1] != '.'
            ==> mount.grubenv() == mount.root + "/"@ + mount.grubenv_relpath,
{
    reveal_strlit("/");
    if mount.root[mount.root.len() - 1] != '/' && mount.root[mount.root.len() - 1] != '.' {
        law_last_part(mount.root);
        let part = mount.root.skip(last_part_start(mount.root) as int);
        assert(part.len() > 0) by {
            if part.len() == 0 {
                assert(mount.root[mount.root.len() - 1] == '/');
            }
        }
        assert(part.last() == mount.root[mount.root.len() - 1]);
        assert(!names_nothing(mount.root)) by {
            if part == seq!['.'] {
                assert(part.last() == '.');
            }
        }
    }
}

} // verus!
