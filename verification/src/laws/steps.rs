//! Steps written out, for laws that say what a plan does.
use crate::cmd::{CommandView, Outcome};
use crate::config::Host;
use crate::plan::{Io, OnFailure, StepView, Topic};
use crate::workflow;
use vstd::prelude::*;

verus! {

/// A command that must succeed, with root privileges.
pub open spec fn root_must(program: Seq<char>, args: Seq<Seq<char>>) -> StepView {
    StepView::Run {
        command: CommandView { privileged: true, program, args },
        on_failure: OnFailure::Stop,
    }
}

/// A command that must succeed, with the privileges of the process.
pub open spec fn user_must(program: Seq<char>, args: Seq<Seq<char>>) -> StepView {
    StepView::Run {
        command: CommandView { privileged: false, program, args },
        on_failure: OnFailure::Stop,
    }
}

/// A command that may fail in silence, with root privileges.
pub open spec fn root_may(program: Seq<char>, args: Seq<Seq<char>>) -> StepView {
    StepView::Run {
        command: CommandView { privileged: true, program, args },
        on_failure: OnFailure::Ignore,
    }
}

/// A command that may fail in silence, with the privileges of the process.
pub open spec fn user_may(program: Seq<char>, args: Seq<Seq<char>>) -> StepView {
    StepView::Run {
        command: CommandView { privileged: false, program, args },
        on_failure: OnFailure::Ignore,
    }
}

/// A command whose failure is logged, with root privileges.
pub open spec fn root_tries(program: Seq<char>, args: Seq<Seq<char>>) -> StepView {
    StepView::Run {
        command: CommandView { privileged: true, program, args },
        on_failure: OnFailure::Log,
    }
}

/// A command whose failure is logged, with the privileges of the process.
pub open spec fn user_tries(program: Seq<char>, args: Seq<Seq<char>>) -> StepView {
    StepView::Run {
        command: CommandView { privileged: false, program, args },
        on_failure: OnFailure::Log,
    }
}

/// Whether a step looks a binary up on `$PATH`.
pub open spec fn looks_up(step: StepView, binary: Seq<char>) -> bool {
    step matches StepView::Ask { io: Io::Quiet, command, .. } && command == (CommandView {
        privileged: false,
        program: "which"@,
        args: seq![binary],
    })
}

/// Whether a step reads what a command prints.
pub open spec fn reads(
    step: StepView,
    privileged: bool,
    program: Seq<char>,
    args: Seq<Seq<char>>,
) -> bool {
    step matches StepView::Ask { io: Io::Capture, command, .. } && command == (CommandView {
        privileged,
        program,
        args,
    })
}

/// The topic of a question.
pub open spec fn topic(step: StepView) -> Topic<Seq<char>> {
    match step {
        StepView::Ask { topic, .. } => topic,
        StepView::Prompt { topic, .. } => topic,
        _ => arbitrary(),
    }
}

/// What the answer to a question leads to.
pub open spec fn answered(host: Host, step: StepView, outcome: Outcome<Seq<char>>) -> Seq<
    StepView,
> {
    let program = match step {
        StepView::Ask { command, .. } => if command.privileged && !host.root {
            "sudo"@
        } else {
            command.program
        },
        _ => ""@,
    };
    workflow::follow_up(host, topic(step), program, outcome)
}

/// Whether a plan reads what a command prints, and goes on with these steps if
/// the command ends this way.
pub open spec fn asks(
    host: Host,
    plan: Seq<StepView>,
    command: CommandView,
    outcome: Outcome<Seq<char>>,
    more: Seq<StepView>,
) -> bool {
    exists|i: int|
        0 <= i < plan.len() && reads(
            #[trigger] plan[i],
            command.privileged,
            command.program,
            command.args,
        ) && answered(host, plan[i], outcome) == more
}

/// Whether a plan looks a binary up, and goes on with these steps if the lookup
/// ends this way.
pub open spec fn probes(
    host: Host,
    plan: Seq<StepView>,
    binary: Seq<char>,
    outcome: Outcome<Seq<char>>,
    more: Seq<StepView>,
) -> bool {
    exists|i: int|
        0 <= i < plan.len() && looks_up(#[trigger] plan[i], binary) && answered(
            host,
            plan[i],
            outcome,
        ) == more
}

/// Whether one step comes before another.
pub open spec fn precedes(plan: Seq<StepView>, first: StepView, second: StepView) -> bool {
    exists|i: int, j: int|
        0 <= i < j < plan.len() && #[trigger] plan[i] == first && #[trigger] plan[j] == second
}

} // verus!
