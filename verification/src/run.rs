//! Whole runs of a workflow, whatever the host answers.
use crate::cmd::Outcome;
use crate::config::Host;
use crate::error::Error;
use crate::plan;
use crate::plan::{OnFailure, StepView, Topic};
use crate::workflow;
use crate::workflow::{Awaiting, ProgressView, WorkflowView};
use vstd::prelude::*;

verus! {

/// What a caller reports, call by call: the outcome that is handed to the call
/// of `advance` with this number. The first is not looked at.
pub type World = spec_fn(nat) -> Outcome<Seq<char>>;

/// How far a workflow has come with the call of `advance` number `n`, and its
/// state after that call.
pub open spec fn run_at(host: Host, plan: Seq<StepView>, world: World, n: nat) -> (
    ProgressView,
    WorkflowView,
)
    decreases n,
{
    if n == 0 {
        workflow::transition(
            host,
            WorkflowView { pending: plan, awaiting: Awaiting::Nothing },
            world(0),
        )
    } else {
        workflow::transition(host, run_at(host, plan, world, (n - 1) as nat).1, world(n))
    }
}

/// The steps that are left when the call of `advance` number `n` begins the
/// next one, or the error that it reports.
pub open spec fn left_at(host: Host, plan: Seq<StepView>, world: World, n: nat) -> Result<
    Seq<StepView>,
    Error<Seq<char>>,
> {
    if n == 0 {
        Ok(plan)
    } else {
        let state = run_at(host, plan, world, (n - 1) as nat).1;
        match workflow::resolved(host, state.awaiting, world(n)) {
            Ok(more) => Ok(more + state.pending),
            Err(error) => Err(error),
        }
    }
}

/// A call of `advance` begins the steps that are left.
pub proof fn lemma_run_begins(host: Host, plan: Seq<StepView>, world: World, n: nat)
    ensures
        match left_at(host, plan, world, n) {
            Ok(steps) => run_at(host, plan, world, n) == workflow::begun(host.root, steps),
            Err(error) => run_at(host, plan, world, n) == (
                ProgressView::Stopped(error),
                workflow::idle(),
            ),
        },
{
    if n == 0 {
        assert(Seq::<StepView>::empty() + plan =~= plan);
    }
}

/// After a step, what it leads to comes first, and then the steps behind it.
pub proof fn lemma_left_next(
    host: Host,
    plan: Seq<StepView>,
    world: World,
    n: nat,
    steps: Seq<StepView>,
)
    requires
        left_at(host, plan, world, n) == Ok::<_, Error<Seq<char>>>(steps),
        steps.len() > 0,
        !(steps[0] is Fail),
    ensures
        run_at(host, plan, world, n).0 is Act,
        left_at(host, plan, world, n + 1) == (match workflow::resolved(
            host,
            workflow::awaiting_of(host.root, steps[0]),
            world(n + 1),
        ) {
            Ok(more) => Ok::<_, Error<Seq<char>>>(more + steps.skip(1)),
            Err(error) => Err(error),
        }),
{
    lemma_run_begins(host, plan, world, n);
}

/// Once a workflow has finished or stopped, no further call asks for an action.
pub proof fn lemma_run_over(host: Host, plan: Seq<StepView>, world: World, n: nat, m: nat)
    requires
        !(run_at(host, plan, world, n).0 is Act),
        n < m,
    ensures
        run_at(host, plan, world, m).0 == ProgressView::Finished,
    decreases m,
{
    lemma_run_begins(host, plan, world, n);
    if n + 1 < m {
        lemma_run_over(host, plan, world, n, (m - 1) as nat);
        lemma_run_begins(host, plan, world, (m - 1) as nat);
        assert(run_at(host, plan, world, (m - 1) as nat).1 == workflow::idle());
    }
    let idle = workflow::idle();
    assert(run_at(host, plan, world, (m - 1) as nat).1 == idle);
    assert(Seq::<StepView>::empty() + idle.pending =~= idle.pending);
}

/// Whether every step of a list has a property.
pub open spec fn all(steps: Seq<StepView>, property: spec_fn(StepView) -> bool) -> bool {
    forall|i: int| 0 <= i < steps.len() ==> property(#[trigger] steps[i])
}

/// A property of all steps of two lists is one of all steps of both together.
pub proof fn lemma_all_concat(
    a: Seq<StepView>,
    b: Seq<StepView>,
    property: spec_fn(StepView) -> bool,
)
    requires
        all(a, property),
        all(b, property),
    ensures
        all(a + b, property),
{
    assert forall|i: int| 0 <= i < (a + b).len() implies property(#[trigger] (a + b)[i]) by {
        if i < a.len() {
            assert(property(a[i]));
        } else {
            assert(property(b[i - a.len()]));
        }
    }
}

/// A property of all steps is one of those behind the first.
pub proof fn lemma_all_behind(steps: Seq<StepView>, property: spec_fn(StepView) -> bool)
    requires
        steps.len() > 0,
        all(steps, property),
    ensures
        all(steps.skip(1), property),
{
    assert forall|i: int| 0 <= i < steps.skip(1).len() implies property(
        #[trigger] steps.skip(1)[i],
    ) by {
        assert(property(steps[i + 1]));
    }
}

/// The topic of a question.
pub open spec fn topic_of(step: StepView) -> Option<Topic<Seq<char>>> {
    match step {
        StepView::Ask { topic, .. } => Some(topic),
        StepView::Prompt { topic, .. } => Some(topic),
        _ => None,
    }
}

/// Whether a step runs a command whose failure is logged.
pub open spec fn is_effort(step: StepView) -> bool {
    step matches StepView::Run { on_failure: OnFailure::Log, .. }
}

/// Whether a property passes from a question to all that its answers lead to,
/// and from a command whose failure is logged to what is logged.
pub open spec fn passes_on(host: Host, property: spec_fn(StepView) -> bool) -> bool {
    &&& forall|step: StepView, note: StepView| #[trigger]
        property(step) && is_effort(step) && note is Log ==> #[trigger] property(note)
    &&& forall|step: StepView, program: Seq<char>, outcome: Outcome<Seq<char>>|
        #![trigger property(step), workflow::follow_up(host, topic_of(step)->0, program, outcome)]
        property(step) && topic_of(step) is Some ==> all(
            workflow::follow_up(host, topic_of(step)->0, program, outcome),
            property,
        )
}

/// A property of all steps of a plan that passes from questions to what they
/// lead to is a property of all steps that are ever left.
pub proof fn lemma_all_left(
    host: Host,
    plan: Seq<StepView>,
    world: World,
    property: spec_fn(StepView) -> bool,
    n: nat,
)
    requires
        all(plan, property),
        passes_on(host, property),
    ensures
        left_at(host, plan, world, n) matches Ok(steps) ==> all(steps, property),
    decreases n,
{
    if n > 0 {
        let before = (n - 1) as nat;
        lemma_all_left(host, plan, world, property, before);
        lemma_run_begins(host, plan, world, before);
        match left_at(host, plan, world, before) {
            Ok(steps) => {
                if steps.len() > 0 && !(steps[0] is Fail) {
                    lemma_left_next(host, plan, world, before, steps);
                    let awaiting = workflow::awaiting_of(host.root, steps[0]);
                    assert(property(steps[0]));
                    match awaiting {
                        Awaiting::Answer { program, topic } => {
                            assert(topic_of(steps[0]) == Some(topic));
                            let more = workflow::follow_up(host, topic, program, world(n));
                            assert(all(
                                workflow::follow_up(
                                    host,
                                    topic_of(steps[0])->0,
                                    program,
                                    world(n),
                                ),
                                property,
                            ));
                            lemma_all_behind(steps, property);
                            lemma_all_concat(more, steps.skip(1), property);
                        },
                        Awaiting::Effort(program) => {
                            let more = plan::noted(program, world(n));
                            assert(all(more, property)) by {
                                if more.len() > 0 {
                                    assert(property(more[0]));
                                }
                            }
                            lemma_all_behind(steps, property);
                            lemma_all_concat(more, steps.skip(1), property);
                        },
                        _ => {
                            lemma_all_behind(steps, property);
                            assert(Seq::<StepView>::empty() + steps.skip(1) =~= steps.skip(1));
                        },
                    }
                } else {
                    assert(Seq::<StepView>::empty() + Seq::<StepView>::empty() =~= Seq::<
                        StepView,
                    >::empty());
                }
            },
            Err(error) => {
                assert(Seq::<StepView>::empty() + Seq::<StepView>::empty() =~= Seq::<
                    StepView,
                >::empty());
            },
        }
    }
}

} // verus!
