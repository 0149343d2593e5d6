//! What a workflow does about each kind of step.
use crate::cmd::{CommandView, InvocationView, Outcome};
use crate::config::Host;
use crate::error::Error;
use crate::laws::steps;
use crate::plan::{Io, OnFailure, StepView};
use crate::run;
use crate::run::World;
use crate::workflow::{ActionView, ProgressView};
use vstd::prelude::*;

verus! {

/// What is executed for a command: the command itself, or `sudo` with all of it
/// where it needs privileges that the process does not have.
pub open spec fn executed(root: bool, command: CommandView) -> InvocationView {
    if command.privileged && !root {
        InvocationView { program: "sudo"@, args: seq![command.program] + command.args }
    } else {
        InvocationView { program: command.program, args: command.args }
    }
}

/// Whether a workflow shows this for a step.
pub open spec fn performs(host: Host, step: StepView, progress: ProgressView) -> bool {
    match step {
        StepView::Run { command, .. } => progress == ProgressView::Act(
            ActionView::Execute { io: Io::Stream, invocation: executed(host.root, command) },
        ),
        StepView::Ask { io, command, .. } => progress == ProgressView::Act(
            ActionView::Execute { io, invocation: executed(host.root, command) },
        ),
        StepView::Prompt { text, .. } => progress == ProgressView::Act(ActionView::Prompt(text)),
        StepView::Print(line) => progress == ProgressView::Act(ActionView::Print(line)),
        StepView::Log(line) => progress == ProgressView::Act(ActionView::Log(line)),
        StepView::Sleep(seconds) => progress == ProgressView::Act(ActionView::Sleep(seconds)),
        StepView::Fail(error) => progress == ProgressView::Stopped(error),
    }
}

/// What is left to do after a step: whatever its outcome leads to, and then the
/// steps behind it; or the error of a command that must succeed.
pub open spec fn leaves(
    host: Host,
    step: StepView,
    outcome: Outcome<Seq<char>>,
    rest: Seq<StepView>,
) -> Result<Seq<StepView>, Error<Seq<char>>> {
    match step {
        StepView::Run { command, on_failure } => {
            let program = executed(host.root, command).program;
            match (on_failure, outcome) {
                (OnFailure::Stop, Outcome::NotStarted(cause)) => Err(
                    Error::NotStarted { program, cause },
                ),
                (OnFailure::Stop, Outcome::Failure(status)) => Err(
                    Error::Exited { program, status },
                ),
                (OnFailure::Log, Outcome::NotStarted(cause)) => Ok(
                    seq![StepView::Log("failed to execute "@ + program + ": "@ + cause)] + rest,
                ),
                (OnFailure::Log, Outcome::Failure(status)) => Ok(
                    seq![StepView::Log(program + " exited with status "@ + status)] + rest,
                ),
                _ => Ok(rest),
            }
        },
        StepView::Ask { .. } => Ok(steps::answered(host, step, outcome) + rest),
        StepView::Prompt { .. } => Ok(steps::answered(host, step, outcome) + rest),
        _ => Ok(rest),
    }
}

/// Each step is performed as what it is. With nothing left to do, the workflow
/// has finished; otherwise the outcome of the first step decides what is left.
pub proof fn every_step_is_performed(
    host: Host,
    plan: Seq<StepView>,
    world: World,
    n: nat,
    step: StepView,
    rest: Seq<StepView>,
)
    requires
        run::left_at(host, plan, world, n) == Ok::<_, Error<Seq<char>>>(seq![step] + rest),
    ensures
        performs(host, step, run::run_at(host, plan, world, n).0),
        !(step is Fail) ==> run::left_at(host, plan, world, n + 1) == leaves(
            host,
            step,
            world(n + 1),
            rest,
        ),
        step is Fail ==> run::left_at(host, plan, world, n + 1) == Ok::<_, Error<Seq<char>>>(
            Seq::<StepView>::empty(),
        ),
{
    let all = seq![step] + rest;
    run::lemma_run_begins(host, plan, world, n);
    assert(all.skip(1) =~= rest);
    assert(Seq::<StepView>::empty() + rest =~= rest);
    if !(step is Fail) {
        run::lemma_left_next(host, plan, world, n, all);
        let next = run::left_at(host, plan, world, n + 1);
        assert(next =~~= leaves(host, step, world(n + 1), rest));
    }
}

/// A workflow starts with its plan, and one with nothing left to do has
/// finished.
pub proof fn a_workflow_ends_with_its_steps(host: Host, plan: Seq<StepView>, world: World, n: nat)
    ensures
        run::left_at(host, plan, world, 0) == Ok::<_, Error<Seq<char>>>(plan),
        run::left_at(host, plan, world, n) == Ok::<_, Error<Seq<char>>>(
            Seq::<StepView>::empty(),
        ) ==> run::run_at(host, plan, world, n).0 == ProgressView::Finished,
        run::left_at(host, plan, world, n) matches Err(error) ==> run::run_at(
            host,
            plan,
            world,
            n,
        ).0 == ProgressView::Stopped(error),
{
    run::lemma_run_begins(host, plan, world, n);
}

} // verus!
