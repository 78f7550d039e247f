//! The executor of releases that are generations of a NixOS system.

use crate::executors::course::{is_in_order, law_sure_steps_in_order};
use crate::executors::plan::{
    call, plain_call, ProgramCallView, Programs, ProgramsView, Step, StepView, SystemBuild,
    SystemBuildView, SystemRecord, SystemRecordView,
};
use crate::executors::{
    nix_spec, Activation, ActivationOutcome, ActivationOutcomeView, ActivationView,
    ExecutionContext, ExecutionContextView, Executor, PendingReboot, PendingRebootView,
};
use crate::paths::{join, joined, law_joined};
use crate::text::{concat, trim, trimmed};
use crate::types::manifest::{ExecutorSpecView, NixGenerationSource, NixGenerationSourceView};
use vstd::prelude::*;

verus! {

/// Where the path of the system of a command is noted.
pub open spec fn metadata_file(ctx: ExecutionContextView) -> Seq<char> {
    joined(ctx.state_dir, "nix-generation-"@ + ctx.command_id + ".json"@)
}

/// Where the path of the system of a command is noted.
pub fn metadata_path(ctx: &ExecutionContext) -> (r: String)
    ensures
        r@ == metadata_file(ctx@),
{
    let start = concat("nix-generation-", ctx.command_id.as_str());
    let name = concat(start.as_str(), ".json");
    join(ctx.state_dir.as_str(), name.as_str())
}

/// The path of a system out of what building it printed.
pub fn built_system(output: &str) -> (r: String)
    ensures
        r@ == trimmed(output@),
{
    trim(output)
}

/// The flake and the attribute in it, as they are given to `nix`.
pub open spec fn installable(flake: Seq<char>, flake_attr: Seq<char>) -> Seq<char> {
    flake + "#"@ + flake_attr
}

/// The call that builds a system.
pub open spec fn build_call(target: Seq<char>) -> ProgramCallView {
    plain_call(
        "nix"@,
        seq!["build"@, "--no-link"@, "--print-out-paths"@, target],
        "running nix build "@ + target,
        "nix build failed for "@ + target,
    )
}

/// The call that copies a system from a store.
pub open spec fn copy_call(copy_from: Seq<char>, store_path: Seq<char>) -> ProgramCallView {
    plain_call(
        "nix"@,
        seq!["copy"@, "--from"@, copy_from, store_path],
        "running nix copy --from "@ + copy_from + " "@ + store_path,
        "nix copy failed for "@ + store_path + " from "@ + copy_from,
    )
}

/// The steps that make a system the one that the machine starts next, with what is said where
/// they fail.
pub open spec fn switch_steps(
    system_path: Seq<char>,
    register_context: Seq<char>,
    register_failure: Seq<char>,
    switch_failure: Seq<char>,
    reboot_context: Seq<char>,
    reboot_failure: Seq<char>,
) -> Seq<StepView> {
    let switch = joined(system_path, "bin/switch-to-configuration"@);
    seq![
        StepView::Run(
            plain_call(
                "nix-env"@,
                seq!["-p"@, "/nix/var/nix/profiles/system"@, "--set"@, system_path],
                register_context,
                register_failure,
            ),
        ),
        StepView::Run(
            plain_call(switch, seq!["boot"@], "running "@ + switch, switch_failure),
        ),
        StepView::Run(
            plain_call("systemctl"@, seq!["reboot"@], reboot_context, reboot_failure),
        ),
    ]
}

/// The steps that make a system the one that the machine starts next, with what is said where
/// they fail.
fn switch_to(
    system_path: &str,
    register_context: String,
    register_failure: String,
    switch_failure: String,
    reboot_context: String,
    reboot_failure: String,
) -> (r: Vec<Step>)
    ensures
        r.deep_view() == switch_steps(
            system_path@,
            register_context@,
            register_failure@,
            switch_failure@,
            reboot_context@,
            reboot_failure@,
        ),
{
    let switch = join(system_path, "bin/switch-to-configuration");
    let register_args: Vec<String> = vec![
        "-p".to_string(),
        "/nix/var/nix/profiles/system".to_string(),
        "--set".to_string(),
        system_path.to_string(),
    ];
    let switch_args: Vec<String> = vec!["boot".to_string()];
    let reboot_args: Vec<String> = vec!["reboot".to_string()];
    assert(register_args.deep_view() =~= seq![
        "-p"@,
        "/nix/var/nix/profiles/system"@,
        "--set"@,
        system_path@,
    ]);
    assert(switch_args.deep_view() =~= seq!["boot"@]);
    assert(reboot_args.deep_view() =~= seq!["reboot"@]);
    let mut steps: Vec<Step> = Vec::new();
    steps.push(Step::Run(call("nix-env", register_args, register_context, register_failure)));
    steps.push(
        Step::Run(
            call(
                switch.as_str(),
                switch_args,
                concat("running ", switch.as_str()),
                switch_failure,
            ),
        ),
    );
    steps.push(Step::Run(call("systemctl", reboot_args, reboot_context, reboot_failure)));
    assert(steps.deep_view() =~= seq![steps@[0]@, steps@[1]@, steps@[2]@]);
    steps
}

/// The steps that go back to a system.
pub open spec fn nix_rollback_steps(previous_system_path: Seq<char>) -> Seq<StepView> {
    switch_steps(
        previous_system_path,
        "registering rollback system profile for "@ + previous_system_path,
        "nix-env --set failed for rollback target "@ + previous_system_path,
        "switch-to-configuration boot failed for rollback target "@ + previous_system_path,
        "requesting rollback reboot via systemctl"@,
        "systemctl reboot failed during rollback"@,
    )
}

/// The steps that go back to a system.
pub fn rollback_nix_generation(previous_system_path: &str) -> (r: Vec<Step>)
    ensures
        r.deep_view() == nix_rollback_steps(previous_system_path@),
{
    switch_to(
        previous_system_path,
        concat("registering rollback system profile for ", previous_system_path),
        concat("nix-env --set failed for rollback target ", previous_system_path),
        concat("switch-to-configuration boot failed for rollback target ", previous_system_path),
        "requesting rollback reboot via systemctl".to_string(),
        "systemctl reboot failed during rollback".to_string(),
    )
}

/// The executor of releases that are generations of a NixOS system.
#[derive(Debug)]
pub struct NixGenerationExecutor;

impl Executor for NixGenerationExecutor {
    open spec fn installs(&self, ctx: ExecutionContextView, programs: ProgramsView) -> Result<
        Seq<StepView>,
        Seq<char>,
    > {
        match ctx.manifest.executor {
            ExecutorSpecView::NixGeneration(spec) => match spec.source {
                NixGenerationSourceView::BuildFlake { flake, flake_attr } => Ok(
                    seq![
                        StepView::BuildSystem(
                            SystemBuildView {
                                call: build_call(installable(flake, flake_attr)),
                                metadata_path: metadata_file(ctx),
                            },
                        ),
                    ],
                ),
                NixGenerationSourceView::CopyFromStore { copy_from, store_path } => Ok(
                    seq![
                        StepView::Run(copy_call(copy_from, store_path)),
                        StepView::SaveSystem(
                            SystemRecordView {
                                metadata_path: metadata_file(ctx),
                                system_path: store_path,
                            },
                        ),
                    ],
                ),
            },
            _ => Err("executor mismatch: expected nix-generation"@),
        }
    }

    open spec fn activates(
        &self,
        ctx: ExecutionContextView,
        programs: ProgramsView,
        built: Option<Seq<char>>,
    ) -> Result<ActivationView, Seq<char>> {
        match (ctx.manifest.executor, built) {
            (ExecutorSpecView::NixGeneration(_), Some(system_path)) => Ok(
                ActivationView {
                    steps: switch_steps(
                        system_path,
                        "registering system profile for "@ + system_path,
                        "nix-env --set failed for "@ + system_path,
                        "switch-to-configuration boot failed for "@ + system_path,
                        "requesting reboot via systemctl"@,
                        "systemctl reboot failed"@,
                    ),
                    outcome: ActivationOutcomeView::AwaitReboot(
                        PendingRebootView {
                            expected_system_path: Some(system_path),
                            expected_active_slot: None,
                            expected_root_device: None,
                        },
                    ),
                },
            ),
            (ExecutorSpecView::NixGeneration(_), None) => Err(
                "reading nix-generation metadata for command "@ + ctx.command_id,
            ),
            _ => Err("executor mismatch: expected nix-generation"@),
        }
    }

    fn install(&self, ctx: &ExecutionContext, _programs: &Programs) -> (r: Result<
        Vec<Step>,
        String,
    >) {
        let spec = nix_spec(ctx)?;
        let mut steps: Vec<Step> = Vec::new();
        match &spec.source {
            NixGenerationSource::BuildFlake { flake, flake_attr } => {
                let target = concat(
                    concat(flake.as_str(), "#").as_str(),
                    flake_attr.as_str(),
                );
                let args: Vec<String> = vec![
                    "build".to_string(),
                    "--no-link".to_string(),
                    "--print-out-paths".to_string(),
                    target.clone(),
                ];
                assert(args.deep_view() =~= seq![
                    "build"@,
                    "--no-link"@,
                    "--print-out-paths"@,
                    target@,
                ]);
                steps.push(
                    Step::BuildSystem(
                        SystemBuild {
                            call: call(
                                "nix",
                                args,
                                concat("running nix build ", target.as_str()),
                                concat("nix build failed for ", target.as_str()),
                            ),
                            metadata_path: metadata_path(ctx),
                        },
                    ),
                );
                assert(steps.deep_view() =~= seq![steps@[0]@]);
            },
            NixGenerationSource::CopyFromStore { copy_from, store_path } => {
                let args: Vec<String> = vec![
                    "copy".to_string(),
                    "--from".to_string(),
                    copy_from.clone(),
                    store_path.clone(),
                ];
                assert(args.deep_view() =~= seq![
                    "copy"@,
                    "--from"@,
                    copy_from@,
                    store_path@,
                ]);
                let context = concat(
                    concat("running nix copy --from ", copy_from.as_str()).as_str(),
                    concat(" ", store_path.as_str()).as_str(),
                );
                let failure = concat(
                    concat("nix copy failed for ", store_path.as_str()).as_str(),
                    concat(" from ", copy_from.as_str()).as_str(),
                );
                assert(context@ =~= "running nix copy --from "@ + copy_from@ + " "@ + store_path@);
                assert(failure@ =~= "nix copy failed for "@ + store_path@ + " from "@
                    + copy_from@);
                steps.push(Step::Run(call("nix", args, context, failure)));
                steps.push(
                    Step::SaveSystem(
                        SystemRecord {
                            metadata_path: metadata_path(ctx),
                            system_path: store_path.clone(),
                        },
                    ),
                );
                assert(steps.deep_view() =~= seq![steps@[0]@, steps@[1]@]);
            },
        }
        Ok(steps)
    }

    fn activate(
        &self,
        ctx: &ExecutionContext,
        _programs: &Programs,
        built: Option<String>,
    ) -> (r: Result<Activation, String>) {
        let _spec = nix_spec(ctx)?;
        let system_path = match built {
            Some(system_path) => system_path,
            None => {
                return Err(
                    concat(
                        "reading nix-generation metadata for command ",
                        ctx.command_id.as_str(),
                    ),
                );
            },
        };
        let steps = switch_to(
            system_path.as_str(),
            concat("registering system profile for ", system_path.as_str()),
            concat("nix-env --set failed for ", system_path.as_str()),
            concat("switch-to-configuration boot failed for ", system_path.as_str()),
            "requesting reboot via systemctl".to_string(),
            "systemctl reboot failed".to_string(),
        );
        Ok(
            Activation {
                steps,
                outcome: ActivationOutcome::AwaitReboot(
                    PendingReboot {
                        expected_system_path: Some(system_path),
                        expected_active_slot: None,
                        expected_root_device: None,
                    },
                ),
            },
        )
    }
}

/// Whether a step starts the machine anew.
pub open spec fn is_reboot(step: StepView) -> bool {
    step matches StepView::Run(call) && call.program == "systemctl"@ && call.args == seq![
        "reboot"@,
    ]
}

/// A switch to a system goes in order: the machine starts anew only where the system was
/// registered and its `switch-to-configuration` succeeded before, and only by the last step.
pub proof fn law_switch_in_order(
    system_path: Seq<char>,
    register_context: Seq<char>,
    register_failure: Seq<char>,
    switch_failure: Seq<char>,
    reboot_context: Seq<char>,
    reboot_failure: Seq<char>,
    outcomes: Seq<Result<(), Seq<char>>>,
)
    ensures
        ({
            let steps = switch_steps(
                system_path,
                register_context,
                register_failure,
                switch_failure,
                reboot_context,
                reboot_failure,
            );
            &&& steps.len() == 3
            &&& is_in_order(steps, outcomes)
            &&& !is_reboot(steps[0])
            &&& !is_reboot(steps[1])
            &&& is_reboot(steps[2])
        }),
{
    let steps = switch_steps(
        system_path,
        register_context,
        register_failure,
        switch_failure,
        reboot_context,
        reboot_failure,
    );
    law_sure_steps_in_order(steps, outcomes);
    reveal_strlit("boot");
    reveal_strlit("reboot");
    assert(steps[0]->Run_0.args.len() == 4);
    assert(steps[1]->Run_0.args[0] == "boot"@);
    assert(seq!["reboot"@][0] == "reboot"@);
}

/// Going back to a system goes in order: it is registered, its `switch-to-configuration` is run
/// and the machine starts anew, each only where what comes before it succeeded. It succeeds
/// exactly where all three do.
pub proof fn law_nix_rollback_in_order(
    previous_system_path: Seq<char>,
    outcomes: Seq<Result<(), Seq<char>>>,
)
    ensures
        ({
            let steps = nix_rollback_steps(previous_system_path);
            &&& steps.len() == 3
            &&& is_in_order(steps, outcomes)
            &&& !is_reboot(steps[0])
            &&& !is_reboot(steps[1])
            &&& is_reboot(steps[2])
        }),
{
    law_switch_in_order(
        previous_system_path,
        "registering rollback system profile for "@ + previous_system_path,
        "nix-env --set failed for rollback target "@ + previous_system_path,
        "switch-to-configuration boot failed for rollback target "@ + previous_system_path,
        "requesting rollback reboot via systemctl"@,
        "systemctl reboot failed during rollback"@,
        outcomes,
    );
}

/// The system of a release is activated in order: it is registered, its `switch-to-configuration`
/// is run and the machine starts anew, each only where what comes before it succeeded. Where all
/// three succeed, that system is expected after the next start, and nothing else is.
pub proof fn law_nix_activation_in_order(
    executor: NixGenerationExecutor,
    ctx: ExecutionContextView,
    programs: ProgramsView,
    system_path: Seq<char>,
    outcomes: Seq<Result<(), Seq<char>>>,
)
    requires
        ctx.manifest.executor is NixGeneration,
    ensures
        ({
            let activated = executor.activates(ctx, programs, Some(system_path));
            let steps = activated->Ok_0.steps;
            &&& activated is Ok
            &&& activated->Ok_0.outcome == ActivationOutcomeView::AwaitReboot(
                PendingRebootView {
                    expected_system_path: Some(system_path),
                    expected_active_slot: None,
                    expected_root_device: None,
                },
            )
            &&& steps.len() == 3
            &&& is_in_order(steps, outcomes)
            &&& !is_reboot(steps[0])
            &&& !is_reboot(steps[1])
            &&& is_reboot(steps[2])
        }),
{
    law_switch_in_order(
        system_path,
        "registering system profile for "@ + system_path,
        "nix-env --set failed for "@ + system_path,
        "switch-to-configuration boot failed for "@ + system_path,
        "requesting reboot via systemctl"@,
        "systemctl reboot failed"@,
        outcomes,
    );
}

/// A release that is copied from a store: its path is noted only where the copy succeeded, the
/// system at that path is the one that is activated, and it is expected after the next start.
pub proof fn law_copied_system_activated(
    executor: NixGenerationExecutor,
    ctx: ExecutionContextView,
    programs: ProgramsView,
    copy_from: Seq<char>,
    store_path: Seq<char>,
    outcomes: Seq<Result<(), Seq<char>>>,
)
    requires
        ctx.manifest.executor matches ExecutorSpecView::NixGeneration(spec) && spec.source == (
        NixGenerationSourceView::CopyFromStore { copy_from, store_path }),
    ensures
        ({
            let installed = executor.installs(ctx, programs);
            let activated = executor.activates(ctx, programs, Some(store_path));
            &&& installed is Ok
            &&& installed->Ok_0 == seq![
                StepView::Run(copy_call(copy_from, store_path)),
                StepView::SaveSystem(
                    SystemRecordView {
                        metadata_path: metadata_file(ctx),
                        system_path: store_path,
                    },
                ),
            ]
            &&& is_in_order(installed->Ok_0, outcomes)
            &&& activated is Ok
            &&& activated->Ok_0.outcome == ActivationOutcomeView::AwaitReboot(
                PendingRebootView {
                    expected_system_path: Some(store_path),
                    expected_active_slot: None,
                    expected_root_device: None,
                },
            )
            &&& is_in_order(activated->Ok_0.steps, outcomes)
        }),
{
    law_sure_steps_in_order(executor.installs(ctx, programs)->Ok_0, outcomes);
    law_nix_activation_in_order(executor, ctx, programs, store_path, outcomes);
}

/// A switch to a system registers that system in the system profile and runs its own
/// `switch-to-configuration boot`, whatever is said where a step fails.
pub proof fn law_switch_is_to_system(
    system_path: Seq<char>,
    register_context: Seq<char>,
    register_failure: Seq<char>,
    switch_failure: Seq<char>,
    reboot_context: Seq<char>,
    reboot_failure: Seq<char>,
)
    ensures
        ({
            let steps = switch_steps(
                system_path,
                register_context,
                register_failure,
                switch_failure,
                reboot_context,
                reboot_failure,
            );
            let register = steps[0]->Run_0;
            let switch = steps[1]->Run_0;
            &&& steps[0] is Run && steps[1] is Run && steps[2] is Run
            &&& register.program == "nix-env"@
            &&& register.args.len() == 4
            &&& register.args[0] == "-p"@
            &&& register.args[1] == "/nix/var/nix/profiles/system"@
            &&& register.args[2] == "--set"@
            &&& register.args[3] == system_path
            &&& switch.program == joined(system_path, "bin/switch-to-configuration"@)
            &&& switch.args.len() == 1
            &&& switch.args[0] == "boot"@
            &&& steps.len() == 3
            &&& steps[2]->Run_0.program == "systemctl"@
            &&& steps[2]->Run_0.args.len() == 1
            &&& steps[2]->Run_0.args[0] == "reboot"@
        }),
{
}

/// A system is built from the given flake and attribute, and one that is copied is copied from the
/// given place by the given path. Its path is noted in a file of that command alone.
pub proof fn law_system_installed(
    executor: NixGenerationExecutor,
    ctx: ExecutionContextView,
    programs: ProgramsView,
)
    requires
        ctx.manifest.executor is NixGeneration,
    ensures
        ({
            let source = ctx.manifest.executor->NixGeneration_0.source;
            let steps = executor.installs(ctx, programs)->Ok_0;
            &&& executor.installs(ctx, programs) is Ok
            &&& source matches NixGenerationSourceView::BuildFlake { flake, flake_attr } ==> {
                &&& steps.len() == 1
                &&& steps[0] is BuildSystem
                &&& steps[0]->BuildSystem_0.call.program == "nix"@
                &&& steps[0]->BuildSystem_0.call.args[0] == "build"@
                &&& steps[0]->BuildSystem_0.call.args.last() == flake + "#"@ + flake_attr
                &&& steps[0]->BuildSystem_0.metadata_path == metadata_file(ctx)
            }
            &&& source matches NixGenerationSourceView::CopyFromStore { copy_from, store_path } ==> {
                &&& steps.len() == 2
                &&& steps[0] is Run
                &&& steps[0]->Run_0.program == "nix"@
                &&& steps[0]->Run_0.args.len() == 4
                &&& steps[0]->Run_0.args[0] == "copy"@
                &&& steps[0]->Run_0.args[1] == "--from"@
                &&& steps[0]->Run_0.args[2] == copy_from
                &&& steps[0]->Run_0.args[3] == store_path
                &&& steps[1] is SaveSystem
                &&& steps[1]->SaveSystem_0.system_path == store_path
                &&& steps[1]->SaveSystem_0.metadata_path == metadata_file(ctx)
            }
        }),
{
}

/// The system of a command is noted in the directory of the agent, in a file that is called after
/// the command, so two commands never share one.
pub proof fn law_noted_apart(ctx: ExecutionContextView, other: ExecutionContextView)
    requires
        ctx.state_dir == other.state_dir,
    ensures
        ctx.command_id != other.command_id ==> metadata_file(ctx) != metadata_file(other),
        metadata_file(ctx) == joined(
            ctx.state_dir,
            "nix-generation-"@ + ctx.command_id + ".json"@,
        ),
{
    reveal_strlit("nix-generation-");
    reveal_strlit(".json");
    let start = "nix-generation-"@;
    let end = ".json"@;
    let name = start + ctx.command_id + end;
    let other_name = start + other.command_id + end;
    law_joined(ctx.state_dir, name);
    law_joined(other.state_dir, other_name);
    if metadata_file(ctx) == metadata_file(other) {
        assert(name[0] == 'n' && other_name[0] == 'n');
        assert(name == other_name);
        assert(ctx.command_id.len() == other.command_id.len());
        assert forall|i: int| 0 <= i < ctx.command_id.len() implies ctx.command_id[i]
            == other.command_id[i] by {
            assert(name[start.len() + i] == ctx.command_id[i]);
            assert(other_name[start.len() + i] == other.command_id[i]);
        }
        assert(ctx.command_id =~= other.command_id);
    }
}

} // verus!
