//! The order in which steps are carried out, and where they end.

use crate::agent::validation::{all_judged, judged, Progress, ProgressView};
use crate::executors::grub_ab::{SavedEntryPlan, SavedEntryPlanView};
use crate::executors::plan::{Step, StepView};
use vstd::prelude::*;

verus! {

/// How far steps have come, from a step on: the first that fails ends them, and the first of
/// which nothing is known yet is next.
pub open spec fn steps_progress(
    steps: Seq<StepView>,
    outcomes: Seq<Result<(), Seq<char>>>,
    at: int,
) -> ProgressView
    decreases steps.len() - at,
{
    if at >= steps.len() {
        ProgressView::Passed
    } else {
        match steps[at] {
            StepView::Fail(complaint) => ProgressView::Failed(complaint),
            _ => if at >= outcomes.len() {
                ProgressView::Next(at)
            } else {
                match outcomes[at] {
                    Err(complaint) => ProgressView::Failed(complaint),
                    Ok(_) => steps_progress(steps, outcomes, at + 1),
                }
            },
        }
    }
}

/// How far steps have come, by what came of the first of them.
pub fn next_step(steps: &Vec<Step>, outcomes: &Vec<Result<(), String>>) -> (r: Progress)
    ensures
        r@ == steps_progress(steps.deep_view(), all_judged(outcomes@), 0),
        r matches Progress::Next(at) ==> at < steps@.len(),
{
    let ghost view = steps.deep_view();
    let ghost found = all_judged(outcomes@);
    let mut i: usize = 0;
    while i < steps.len()
        invariant
            i <= steps.len(),
            view == steps.deep_view(),
            found == all_judged(outcomes@),
            steps_progress(view, found, i as int) == steps_progress(view, found, 0),
        decreases steps.len() - i,
    {
        assert(view[i as int] == steps@[i as int]@);
        match &steps[i] {
            Step::Fail(complaint) => {
                return Progress::Failed(complaint.clone());
            },
            _ => {},
        }
        if i >= outcomes.len() {
            return Progress::Next(i);
        }
        assert(found[i as int] == judged(outcomes@[i as int]));
        match &outcomes[i] {
            Ok(_) => {},
            Err(complaint) => {
                return Progress::Failed(complaint.clone());
            },
        }
        i += 1;
    }
    Progress::Passed
}

/// Whether the steps from one up to another can succeed, and did.
pub open spec fn all_succeeded(
    steps: Seq<StepView>,
    outcomes: Seq<Result<(), Seq<char>>>,
    from: int,
    to: int,
) -> bool {
    forall|k: int|
        from <= k < to ==> !((#[trigger] steps[k]) is Fail) && k < outcomes.len()
            && outcomes[k] is Ok
}

/// Steps are done exactly where every one of them succeeded. A step is asked for only where every
/// one before it succeeded, and only once. After the first that fails none is asked for: the steps
/// have failed, with its complaint.
pub proof fn law_steps_in_order(
    steps: Seq<StepView>,
    outcomes: Seq<Result<(), Seq<char>>>,
    from: int,
)
    requires
        0 <= from <= steps.len(),
        from <= outcomes.len(),
    ensures
        steps_progress(steps, outcomes, from) is Passed <==> all_succeeded(
            steps,
            outcomes,
            from,
            steps.len() as int,
        ),
        steps_progress(steps, outcomes, from) matches ProgressView::Next(at) ==> {
            &&& at == outcomes.len()
            &&& at < steps.len()
            &&& all_succeeded(steps, outcomes, from, at)
        },
        forall|k: int|
            #![trigger steps[k]]
            from <= k < steps.len() && all_succeeded(steps, outcomes, from, k) && !(
            steps[k] is Fail) && k < outcomes.len() && outcomes[k] is Err ==> steps_progress(
                steps,
                outcomes,
                from,
            ) == ProgressView::Failed(outcomes[k]->Err_0),
    decreases steps.len() - from,
{
    if from < steps.len() {
        if !(steps[from] is Fail) && from < outcomes.len() && outcomes[from] is Ok {
            law_steps_in_order(steps, outcomes, from + 1);
            assert forall|to: int| #[trigger]
                all_succeeded(steps, outcomes, from + 1, to) implies all_succeeded(
                steps,
                outcomes,
                from,
                to,
            ) by {}
            assert(all_succeeded(steps, outcomes, from, steps.len() as int) ==> all_succeeded(
                steps,
                outcomes,
                from + 1,
                steps.len() as int,
            ));
        } else {
            assert(!all_succeeded(steps, outcomes, from, steps.len() as int)) by {
                if all_succeeded(steps, outcomes, from, steps.len() as int) {
                    assert(!(steps[from] is Fail));
                }
            }
        }
        assert forall|k: int|
            #![trigger steps[k]]
            from <= k < steps.len() && all_succeeded(steps, outcomes, from, k) && !(
            steps[k] is Fail) && k < outcomes.len() && outcomes[k] is Err implies steps_progress(
            steps,
            outcomes,
            from,
        ) == ProgressView::Failed(outcomes[k]->Err_0) by {
            if k > from {
                assert(!(steps[from] is Fail));
                assert(all_succeeded(steps, outcomes, from + 1, k));
            }
        }
    }
}

/// Whether the first outcomes, up to a number of them, are there and are successes.
pub open spec fn first_succeeded(outcomes: Seq<Result<(), Seq<char>>>, count: int) -> bool {
    &&& count <= outcomes.len()
    &&& forall|k: int| 0 <= k < count ==> #[trigger] outcomes[k] is Ok
}

/// Whether steps are done exactly where all of them succeeded, each is asked for exactly where
/// those before it succeeded and nothing is known of it yet, and the first that fails makes all
/// of them fail with its complaint.
pub open spec fn is_in_order(steps: Seq<StepView>, outcomes: Seq<Result<(), Seq<char>>>) -> bool {
    let progress = steps_progress(steps, outcomes, 0);
    &&& progress is Passed <==> first_succeeded(outcomes, steps.len() as int)
    &&& progress is Next <==> outcomes.len() < steps.len() && first_succeeded(
        outcomes,
        outcomes.len() as int,
    )
    &&& progress is Next ==> progress->Next_0 == outcomes.len()
    &&& forall|k: int|
        0 <= k < steps.len() && k < outcomes.len() && first_succeeded(outcomes, k) && (
        #[trigger] outcomes[k]) is Err ==> progress == ProgressView::Failed(outcomes[k]->Err_0)
}

/// Steps that do not give up go in order.
pub proof fn law_sure_steps_in_order(steps: Seq<StepView>, outcomes: Seq<Result<(), Seq<char>>>)
    requires
        forall|k: int| 0 <= k < steps.len() ==> !((#[trigger] steps[k]) is Fail),
    ensures
        is_in_order(steps, outcomes),
{
    law_steps_in_order(steps, outcomes, 0);
    let progress = steps_progress(steps, outcomes, 0);
    assert forall|k: int| 0 <= k <= steps.len() && k <= outcomes.len() implies (
    #[trigger] first_succeeded(outcomes, k) <==> all_succeeded(steps, outcomes, 0, k)) by {
        if all_succeeded(steps, outcomes, 0, k) {
            assert forall|i: int| 0 <= i < k implies #[trigger] outcomes[i] is Ok by {
                assert(!(steps[i] is Fail));
            }
        }
    }
    if all_succeeded(steps, outcomes, 0, steps.len() as int) && steps.len() > 0 {
        assert(!(steps[steps.len() - 1] is Fail));
    }
    if outcomes.len() < steps.len() && first_succeeded(outcomes, outcomes.len() as int) {
        lemma_next_is_first_open(steps, outcomes, 0);
    }
    assert forall|k: int|
        0 <= k < steps.len() && k < outcomes.len() && first_succeeded(outcomes, k) && (
        #[trigger] outcomes[k]) is Err implies progress == ProgressView::Failed(
        outcomes[k]->Err_0,
    ) by {
        assert(!(steps[k] is Fail));
    }
}

/// Where all that is known of steps is that they succeeded, the next of them is next.
proof fn lemma_next_is_first_open(
    steps: Seq<StepView>,
    outcomes: Seq<Result<(), Seq<char>>>,
    from: int,
)
    requires
        0 <= from <= outcomes.len() < steps.len(),
        forall|k: int| 0 <= k < steps.len() ==> !((#[trigger] steps[k]) is Fail),
        forall|k: int| from <= k < outcomes.len() ==> #[trigger] outcomes[k] is Ok,
    ensures
        steps_progress(steps, outcomes, from) == ProgressView::Next(outcomes.len() as int),
    decreases outcomes.len() - from,
{
    assert(!(steps[from] is Fail));
    if from < outcomes.len() {
        lemma_next_is_first_open(steps, outcomes, from + 1);
    }
}

/// How far it has come to say which menu entry the boot loader is to start next.
#[derive(Debug)]
pub enum EntryProgress {
    /// This step of what comes first is next.
    Before(usize),
    /// The call that says it is next.
    Name,
    /// What comes last is next.
    After,
    /// It was not said, with the complaint.
    Failed(String),
    /// It was said.
    Passed,
}

/// The value of an [`EntryProgress`].
#[verifier::ext_equal]
pub enum EntryProgressView {
    Before(int),
    Name,
    After,
    Failed(Seq<char>),
    Passed,
}

impl View for EntryProgress {
    type V = EntryProgressView;

    open spec fn view(&self) -> EntryProgressView {
        match self {
            EntryProgress::Before(at) => EntryProgressView::Before(*at as int),
            EntryProgress::Name => EntryProgressView::Name,
            EntryProgress::After => EntryProgressView::After,
            EntryProgress::Failed(complaint) => EntryProgressView::Failed(complaint@),
            EntryProgress::Passed => EntryProgressView::Passed,
        }
    }
}

/// How far it has come to say which menu entry the boot loader is to start next. What comes first
/// is to succeed. Then the call is made, and what comes last comes whether or not the call
/// succeeded. What is said of the whole is what came of the call.
pub open spec fn entry_progress(
    plan: SavedEntryPlanView,
    outcomes: Seq<Result<(), Seq<char>>>,
) -> EntryProgressView {
    let count = plan.before.len() as int;
    match steps_progress(plan.before, outcomes, 0) {
        ProgressView::Failed(complaint) => EntryProgressView::Failed(complaint),
        ProgressView::Next(at) => EntryProgressView::Before(at),
        ProgressView::Passed => if outcomes.len() <= count {
            EntryProgressView::Name
        } else if plan.after is Some && outcomes.len() == count + 1 {
            EntryProgressView::After
        } else {
            match outcomes[count] {
                Ok(_) => EntryProgressView::Passed,
                Err(complaint) => EntryProgressView::Failed(complaint),
            }
        },
    }
}

/// How far it has come to say which menu entry the boot loader is to start next, by what came of
/// what was done so far.
pub fn next_for_entry(plan: &SavedEntryPlan, outcomes: &Vec<Result<(), String>>) -> (r:
    EntryProgress)
    ensures
        r@ == entry_progress(plan@, all_judged(outcomes@)),
        r matches EntryProgress::Before(at) ==> at < plan.before@.len(),
        r is After ==> plan.after is Some,
{
    match next_step(&plan.before, outcomes) {
        Progress::Failed(complaint) => EntryProgress::Failed(complaint),
        Progress::Next(at) => EntryProgress::Before(at),
        Progress::Passed => {
            let count = plan.before.len();
            if outcomes.len() <= count {
                return EntryProgress::Name;
            }
            if plan.after.is_some() && outcomes.len() - count == 1 {
                return EntryProgress::After;
            }
            assert(all_judged(outcomes@)[count as int] == judged(outcomes@[count as int]));
            match &outcomes[count] {
                Ok(_) => EntryProgress::Passed,
                Err(complaint) => EntryProgress::Failed(complaint.clone()),
            }
        },
    }
}

/// The call that says which menu entry is next is made only where all that comes first succeeded.
/// Once it was made, what comes last comes, whatever came of the call. Then the whole has
/// succeeded exactly where the call did, and otherwise has failed with the call's complaint. Where
/// something that comes first fails, neither the call nor what comes last is asked for.
pub proof fn law_entry_in_order(plan: SavedEntryPlanView, outcomes: Seq<Result<(), Seq<char>>>)
    ensures
        ({
            let count = plan.before.len() as int;
            let progress = entry_progress(plan, outcomes);
            let ready = all_succeeded(plan.before, outcomes, 0, count);
            &&& progress is Name <==> ready && outcomes.len() == count
            &&& progress is After <==> ready && outcomes.len() == count + 1 && plan.after is Some
            &&& progress is Passed ==> ready && outcomes.len() > count && outcomes[count] is Ok
            &&& ready && outcomes.len() == count + 2 ==> progress == match outcomes[count] {
                Ok(_) => EntryProgressView::Passed,
                Err(complaint) => EntryProgressView::Failed(complaint),
            }
            &&& ready && outcomes.len() == count + 1 && plan.after is None ==> progress
                == match outcomes[count] {
                Ok(_) => EntryProgressView::Passed,
                Err(complaint) => EntryProgressView::Failed(complaint),
            }
        }),
{
    let count = plan.before.len() as int;
    law_steps_in_order(plan.before, outcomes, 0);
    if all_succeeded(plan.before, outcomes, 0, count) && count > 0 {
        assert(!(plan.before[count - 1] is Fail));
    }
}

} // verus!
