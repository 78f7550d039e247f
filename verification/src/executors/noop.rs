//! The executor of releases that change nothing.

use crate::executors::plan::{Programs, ProgramsView, Step, StepView};
use crate::executors::{
    Activation, ActivationOutcome, ActivationOutcomeView, ActivationView, ExecutionContext,
    ExecutionContextView, Executor,
};
use vstd::prelude::*;

verus! {

/// Installs and activates nothing.
#[derive(Debug)]
pub struct NoopExecutor;

impl Executor for NoopExecutor {
    open spec fn installs(&self, ctx: ExecutionContextView, programs: ProgramsView) -> Result<
        Seq<StepView>,
        Seq<char>,
    > {
        Ok(Seq::empty())
    }

    open spec fn activates(
        &self,
        ctx: ExecutionContextView,
        programs: ProgramsView,
        built: Option<Seq<char>>,
    ) -> Result<ActivationView, Seq<char>> {
        Ok(ActivationView { steps: Seq::empty(), outcome: ActivationOutcomeView::Complete })
    }

    fn install(&self, _ctx: &ExecutionContext, _programs: &Programs) -> (r: Result<
        Vec<Step>,
        String,
    >) {
        let steps: Vec<Step> = Vec::new();
        assert(steps.deep_view() =~= Seq::empty());
        Ok(steps)
    }

    fn activate(
        &self,
        _ctx: &ExecutionContext,
        _programs: &Programs,
        _built: Option<String>,
    ) -> (r: Result<Activation, String>) {
        let steps: Vec<Step> = Vec::new();
        assert(steps.deep_view() =~= Seq::empty());
        Ok(Activation { steps, outcome: ActivationOutcome::Complete })
    }
}

} // verus!
