//! The executor of releases that bring their own commands.

use crate::executors::plan::{
    run_shell, shell_call_of, Programs, ProgramsView, Step, StepView,
};
use crate::executors::{
    release_env, scripted_spec, shell_env, Activation, ActivationOutcome, ActivationOutcomeView,
    ActivationView, ExecutionContext, ExecutionContextView, Executor,
};
use crate::types::manifest::ExecutorSpecView;
use vstd::prelude::*;

verus! {

/// Runs the commands of a release.
#[derive(Debug)]
pub struct ScriptedExecutor;

impl Executor for ScriptedExecutor {
    open spec fn installs(&self, ctx: ExecutionContextView, programs: ProgramsView) -> Result<
        Seq<StepView>,
        Seq<char>,
    > {
        match ctx.manifest.executor {
            ExecutorSpecView::Scripted(spec) => Ok(
                seq![StepView::Run(shell_call_of(spec.install_command, release_env(ctx)))],
            ),
            _ => Err("executor mismatch: expected scripted"@),
        }
    }

    open spec fn activates(
        &self,
        ctx: ExecutionContextView,
        programs: ProgramsView,
        built: Option<Seq<char>>,
    ) -> Result<ActivationView, Seq<char>> {
        match ctx.manifest.executor {
            ExecutorSpecView::Scripted(spec) => Ok(
                ActivationView {
                    steps: match spec.activate_command {
                        Some(command) => seq![
                            StepView::Run(shell_call_of(command, release_env(ctx))),
                        ],
                        None => Seq::empty(),
                    },
                    outcome: ActivationOutcomeView::Complete,
                },
            ),
            _ => Err("executor mismatch: expected scripted"@),
        }
    }

    fn install(&self, ctx: &ExecutionContext, _programs: &Programs) -> (r: Result<
        Vec<Step>,
        String,
    >) {
        let spec = scripted_spec(ctx)?;
        let env = shell_env(ctx, &Vec::new());
        let mut steps: Vec<Step> = Vec::new();
        steps.push(Step::Run(run_shell(spec.install_command.as_str(), env)));
        assert(steps.deep_view() =~= seq![steps@[0]@]);
        Ok(steps)
    }

    fn activate(
        &self,
        ctx: &ExecutionContext,
        _programs: &Programs,
        _built: Option<String>,
    ) -> (r: Result<Activation, String>) {
        let spec = scripted_spec(ctx)?;
        let mut steps: Vec<Step> = Vec::new();
        match &spec.activate_command {
            Some(command) => {
                let env = shell_env(ctx, &Vec::new());
                steps.push(Step::Run(run_shell(command.as_str(), env)));
                assert(steps.deep_view() =~= seq![steps@[0]@]);
            },
            None => {
                assert(steps.deep_view() =~= Seq::empty());
            },
        }
        Ok(Activation { steps, outcome: ActivationOutcome::Complete })
    }
}

/// A release that brings its own commands is installed by the one and activated by the other, if
/// there is one, each run by the shell with what the command may want to know: the artifact and
/// its address, the slots, the version and the directory of the agent. It is active then.
pub proof fn law_scripted_by_commands(
    executor: ScriptedExecutor,
    ctx: ExecutionContextView,
    programs: ProgramsView,
)
    requires
        ctx.manifest.executor is Scripted,
    ensures
        ({
            let spec = ctx.manifest.executor->Scripted_0;
            let installed = executor.installs(ctx, programs);
            let activated = executor.activates(ctx, programs, None);
            let run = installed->Ok_0[0]->Run_0;
            let steps = activated->Ok_0.steps;
            &&& installed is Ok
            &&& installed->Ok_0.len() == 1
            &&& installed->Ok_0[0] is Run
            &&& run.program == "sh"@
            &&& run.args.len() == 2
            &&& run.args[0] == "-lc"@
            &&& run.args[1] == spec.install_command
            &&& run.env.dom().contains("ARTIFACT_URL"@) && run.env["ARTIFACT_URL"@]
                == spec.artifact.url
            &&& ctx.artifact_path is Some ==> run.env.dom().contains("ARTIFACT_PATH"@)
                && run.env["ARTIFACT_PATH"@] == ctx.artifact_path->0
            &&& run.env.dom().contains("CURRENT_SLOT"@) && run.env["CURRENT_SLOT"@]
                == ctx.current_slot
            &&& run.env.dom().contains("NEXT_SLOT"@) && run.env["NEXT_SLOT"@] == ctx.next_slot
            &&& run.env.dom().contains("RELEASE_VERSION"@) && run.env["RELEASE_VERSION"@]
                == ctx.release_version
            &&& run.env.dom().contains("STATE_DIR"@) && run.env["STATE_DIR"@] == ctx.state_dir
            &&& activated is Ok
            &&& activated->Ok_0.outcome is Complete
            &&& spec.activate_command is None ==> steps.len() == 0
            &&& spec.activate_command is Some ==> {
                &&& steps.len() == 1
                &&& steps[0] is Run
                &&& steps[0]->Run_0.program == "sh"@
                &&& steps[0]->Run_0.args.len() == 2
                &&& steps[0]->Run_0.args[0] == "-lc"@
                &&& steps[0]->Run_0.args[1] == spec.activate_command->0
                &&& steps[0]->Run_0.env == run.env
            }
        }),
{
    reveal_strlit("ARTIFACT_PATH");
    reveal_strlit("ARTIFACT_URL");
    reveal_strlit("CURRENT_SLOT");
    reveal_strlit("NEXT_SLOT");
    reveal_strlit("RELEASE_VERSION");
    reveal_strlit("STATE_DIR");
    assert("ARTIFACT_URL"@[0] == 'A' && "CURRENT_SLOT"@[0] == 'C' && "NEXT_SLOT"@[0] == 'N');
    assert("ARTIFACT_PATH"@[9] == 'P' && "ARTIFACT_URL"@[9] == 'U');
    assert("RELEASE_VERSION"@[0] == 'R' && "STATE_DIR"@[0] == 'S');
}

} // verus!
