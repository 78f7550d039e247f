//! What each kind of release leads to, said of the fields of its manifest.

use crate::executors::grub_ab::{DevicesView, GrubAbExecutor};
use crate::executors::plan::{ProgramsView, StepView};
use crate::executors::{
    artifact_of, current_slot_of, executor_of, release_env, rollback_of, ExecutionContextView,
    Executor, RollbackActionView,
};
use crate::paths::joined;
use crate::types::manifest::{ExecutorSpecView, GrubAbExecutorSpecView};
use vstd::prelude::*;

verus! {

/// The executor of a release goes by the kind of the release, so none refuses a release as one of
/// another kind. One with its own commands runs them by the shell. One that does nothing has no
/// steps and is active at once. A generation of a system is built or copied by nix.
pub proof fn law_executor_by_kind(ctx: ExecutionContextView, programs: ProgramsView)
    ensures
        ({
            let spec = ctx.manifest.executor;
            let installed = executor_of(spec).installs(ctx, programs);
            let activated = executor_of(spec).activates(ctx, programs, None);
            let first = installed->Ok_0[0];
            &&& spec is Noop ==> {
                &&& installed is Ok
                &&& installed->Ok_0.len() == 0
                &&& activated is Ok
                &&& activated->Ok_0.steps.len() == 0
                &&& activated->Ok_0.outcome is Complete
            }
            &&& spec is Scripted ==> {
                &&& installed is Ok
                &&& first is Run
                &&& first->Run_0.program == "sh"@
                &&& first->Run_0.args[1] == spec->Scripted_0.install_command
                &&& activated is Ok
                &&& activated->Ok_0.outcome is Complete
            }
            &&& spec is NixGeneration ==> {
                &&& installed is Ok
                &&& spec->NixGeneration_0.source is BuildFlake ==> first is BuildSystem
                &&& spec->NixGeneration_0.source is CopyFromStore ==> first is Run
                    && first->Run_0.program == "nix"@
                &&& activated is Err
                &&& forall|system: Seq<char>|
                    {
                        let built = #[trigger] executor_of(spec).activates(
                            ctx,
                            programs,
                            Some(system),
                        );
                        &&& built is Ok
                        &&& built->Ok_0.outcome is AwaitReboot
                        &&& built->Ok_0.outcome->AwaitReboot_0.expected_system_path == Some(system)
                        &&& built->Ok_0.outcome->AwaitReboot_0.expected_active_slot is None
                        &&& built->Ok_0.outcome->AwaitReboot_0.expected_root_device is None
                    }
            }
            &&& spec is GrubAb && spec->GrubAb_0.slots is None ==> installed is Ok && first
                is CreateDirs && activated is Ok && activated->Ok_0.outcome is Complete
        }),
{
}

/// A release brings an artifact exactly where it has its own commands or an image for a slot.
pub proof fn law_artifact_by_kind(spec: ExecutorSpecView)
    ensures
        artifact_of(spec) is Some <==> spec is Scripted || spec is GrubAb,
        spec is Scripted ==> artifact_of(spec) == Some(spec->Scripted_0.artifact),
        spec is GrubAb ==> artifact_of(spec) == Some(spec->GrubAb_0.artifact),
{
}

/// What a command of a release is told: where its artifact is and where it came from, both empty
/// where there is none, the slots, the version and the directory of the agent, and nothing else.
pub proof fn law_release_env(ctx: ExecutionContextView)
    ensures
        ({
            let env = release_env(ctx);
            let spec = ctx.manifest.executor;
            &&& forall|key: Seq<char>| #[trigger]
                env.dom().contains(key) <==> {
                    ||| key == "ARTIFACT_PATH"@
                    ||| key == "ARTIFACT_URL"@
                    ||| key == "CURRENT_SLOT"@
                    ||| key == "NEXT_SLOT"@
                    ||| key == "RELEASE_VERSION"@
                    ||| key == "STATE_DIR"@
                }
            &&& ctx.artifact_path is Some ==> env["ARTIFACT_PATH"@] == ctx.artifact_path->0
            &&& ctx.artifact_path is None ==> env["ARTIFACT_PATH"@].len() == 0
            &&& spec is Scripted ==> env["ARTIFACT_URL"@] == spec->Scripted_0.artifact.url
            &&& spec is GrubAb ==> env["ARTIFACT_URL"@] == spec->GrubAb_0.artifact.url
            &&& !(spec is Scripted) && !(spec is GrubAb) ==> env["ARTIFACT_URL"@].len() == 0
            &&& env["CURRENT_SLOT"@] == ctx.current_slot
            &&& env["NEXT_SLOT"@] == ctx.next_slot
            &&& env["RELEASE_VERSION"@] == ctx.release_version
            &&& env["STATE_DIR"@] == ctx.state_dir
        }),
{
    reveal_strlit("ARTIFACT_PATH");
    reveal_strlit("ARTIFACT_URL");
    reveal_strlit("CURRENT_SLOT");
    reveal_strlit("NEXT_SLOT");
    reveal_strlit("RELEASE_VERSION");
    reveal_strlit("STATE_DIR");
    assert("ARTIFACT_URL"@[0] == 'A' && "CURRENT_SLOT"@[0] == 'C' && "NEXT_SLOT"@[0] == 'N');
    assert("ARTIFACT_PATH"@[9] == 'P' && "ARTIFACT_URL"@[9] == 'U');
    assert("RELEASE_VERSION"@[0] == 'R' && "STATE_DIR"@[0] == 'S');
}

/// An image for a slot that is only named, and has no device, is copied: into a file of the
/// directory of slots that is called after the slot and the version. Without an artifact the
/// installation fails after the directory was made. It is activated by its own command, if there
/// is one, and otherwise by a file that names the slot. Either way it is active then.
pub proof fn law_named_slots(
    executor: GrubAbExecutor,
    spec: GrubAbExecutorSpecView,
    ctx: ExecutionContextView,
    programs: ProgramsView,
)
    requires
        ctx.manifest.executor == ExecutorSpecView::GrubAb(spec),
        spec.slots is None,
    ensures
        ({
            let installed = executor.installs(ctx, programs);
            let activated = executor.activates(ctx, programs, None);
            let steps = installed->Ok_0;
            let last = activated->Ok_0.steps;
            let dir = joined(ctx.state_dir, "slots"@);
            &&& installed is Ok
            &&& steps.len() == 2
            &&& steps[0] == StepView::CreateDirs(dir)
            &&& ctx.artifact_path is None ==> steps[1] is Fail
            &&& ctx.artifact_path is Some ==> {
                &&& steps[1] is CopyFile
                &&& steps[1]->CopyFile_0.from == ctx.artifact_path->0
                &&& steps[1]->CopyFile_0.to == joined(
                    dir,
                    "slot-"@ + ctx.next_slot + "-"@ + ctx.release_version,
                )
            }
            &&& activated is Ok
            &&& activated->Ok_0.outcome is Complete
            &&& last.len() == 1
            &&& spec.activate_command is Some ==> {
                &&& last[0] is Run
                &&& last[0]->Run_0.program == "sh"@
                &&& last[0]->Run_0.args.len() == 2
                &&& last[0]->Run_0.args[0] == "-lc"@
                &&& last[0]->Run_0.args[1] == spec.activate_command->0
                &&& last[0]->Run_0.env == release_env(ctx)
            }
            &&& spec.activate_command is None ==> {
                &&& last[0] is WriteFile
                &&& last[0]->WriteFile_0.path == joined(ctx.state_dir, "next-boot-slot"@)
                &&& last[0]->WriteFile_0.contents == ctx.next_slot
            }
        }),
{
}

/// An image for a slot with a device is activated in this order: the boot loader is told the menu
/// entry of the slot that the image went to, the command of the release is run, if there is one,
/// and the machine is started anew. What is expected then is that slot and its device.
pub proof fn law_slots_activated(
    executor: GrubAbExecutor,
    spec: GrubAbExecutorSpecView,
    ctx: ExecutionContextView,
    programs: ProgramsView,
    next: int,
)
    requires
        ctx.manifest.executor == ExecutorSpecView::GrubAb(spec),
        spec.slots is Some,
        spec.boot_control is Some,
        spec.slots->0[0].name != spec.slots->0[1].name,
        next == 0 || next == 1,
        ctx.next_slot == spec.slots->0[next].name,
        ctx.current_slot == spec.slots->0[1 - next].name,
    ensures
        ({
            let slot = spec.slots->0[next];
            let activated = executor.activates(ctx, programs, None);
            let steps = activated->Ok_0.steps;
            let count: int = if spec.activate_command is Some {
                3
            } else {
                2
            };
            let expected = activated->Ok_0.outcome->AwaitReboot_0;
            &&& activated is Ok
            &&& steps.len() == count
            &&& steps[0] is SetSavedEntry
            &&& steps[0]->SetSavedEntry_0.boot_control == spec.boot_control->0
            &&& steps[0]->SetSavedEntry_0.entry == slot.grub_menu_entry
            &&& spec.activate_command is Some ==> {
                &&& steps[1] is Run
                &&& steps[1]->Run_0.program == "sh"@
                &&& steps[1]->Run_0.args.len() == 2
                &&& steps[1]->Run_0.args[0] == "-lc"@
                &&& steps[1]->Run_0.args[1] == spec.activate_command->0
                &&& steps[1]->Run_0.env == release_env(ctx)
            }
            &&& steps[count - 1] is Run
            &&& steps[count - 1]->Run_0.program == programs.reboot
            &&& steps[count - 1]->Run_0.args.len() == 1
            &&& steps[count - 1]->Run_0.args[0] == "reboot"@
            &&& activated->Ok_0.outcome is AwaitReboot
            &&& expected.expected_system_path is None
            &&& expected.expected_active_slot == Some(slot.name)
            &&& expected.expected_root_device == Some(slot.device)
        }),
{
}

/// The image goes to the device of the slot that the machine does not run, as it was fetched or
/// decompressed. Without an artifact, or where a slot is not one of the release, nothing is
/// installed.
pub proof fn law_slots_installed(
    executor: GrubAbExecutor,
    spec: GrubAbExecutorSpecView,
    ctx: ExecutionContextView,
    programs: ProgramsView,
    next: int,
)
    requires
        ctx.manifest.executor == ExecutorSpecView::GrubAb(spec),
        spec.slots is Some,
        spec.slots->0[0].name != spec.slots->0[1].name,
        next == 0 || next == 1,
        ctx.current_slot == spec.slots->0[1 - next].name,
    ensures
        ({
            let installed = executor.installs(ctx, programs);
            let last = installed->Ok_0.last();
            let is_known = ctx.next_slot == spec.slots->0[0].name || ctx.next_slot
                == spec.slots->0[1].name;
            &&& installed is Ok <==> is_known && ctx.artifact_path is Some
            &&& installed is Ok && ctx.next_slot == spec.slots->0[next].name ==> {
                &&& last is Run
                &&& last->Run_0.program == programs.dd
                &&& last->Run_0.args[1] == "of="@ + spec.slots->0[next].device
                &&& spec.compression is Uncompressed ==> installed->Ok_0.len() == 1
                    && last->Run_0.args[0] == "if="@ + ctx.artifact_path->0
                &&& spec.compression is Zstd ==> installed->Ok_0.len() == 3
                    && installed->Ok_0[1]->Run_0.program == programs.zstd
                    && installed->Ok_0[1]->Run_0.args[2] == ctx.artifact_path->0
                    && last->Run_0.args[0] == "if="@ + installed->Ok_0[1]->Run_0.args[4]
            }
        }),
{
}

/// The slot that a machine runs is found out only for a release with devices for its slots, and
/// there is a way back only for such a release and for a generation of a system.
pub proof fn law_way_back_by_kind(
    spec: ExecutorSpecView,
    devices: DevicesView,
    slot: Seq<char>,
    system: Option<Seq<char>>,
)
    ensures
        !(spec is GrubAb && spec->GrubAb_0.slots is Some) ==> current_slot_of(spec, devices) == Ok::<
            Option<Seq<char>>,
            Seq<char>,
        >(None),
        spec is GrubAb && spec->GrubAb_0.slots is Some && current_slot_of(spec, devices) is Ok
            ==> current_slot_of(spec, devices)->Ok_0 is Some,
        spec is Scripted || spec is Noop || spec is GrubAb && spec->GrubAb_0.slots is None
            ==> rollback_of(spec, slot, system) == Ok::<Option<RollbackActionView>, Seq<char>>(None),
        spec is NixGeneration && system is None ==> rollback_of(spec, slot, system) == Ok::<
            Option<RollbackActionView>,
            Seq<char>,
        >(None),
        spec is NixGeneration && system is Some ==> rollback_of(spec, slot, system) == Ok::<
            Option<RollbackActionView>,
            Seq<char>,
        >(Some(RollbackActionView::NixGeneration { previous_system_path: system->0 })),
        spec is GrubAb && spec->GrubAb_0.slots is Some && rollback_of(spec, slot, system) is Ok
            ==> rollback_of(spec, slot, system)->Ok_0 is Some && rollback_of(
            spec,
            slot,
            system,
        )->Ok_0->0 is GrubAb,
{
}

} // verus!
