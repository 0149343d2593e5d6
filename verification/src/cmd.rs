//! Commands, how root privileges are obtained for them, and how they end.
use crate::error::Error;
use crate::plan::{Io, Plan, Step, StepView, Topic};
use crate::text;
use vstd::prelude::*;

verus! {

/// A command to run, and whether it needs root privileges.
#[derive(Debug, PartialEq, Eq)]
pub struct Command {
    pub privileged: bool,
    pub program: String,
    pub args: Vec<String>,
}

/// The characters of a [`Command`].
#[verifier::ext_equal]
pub struct CommandView {
    pub privileged: bool,
    pub program: Seq<char>,
    pub args: Seq<Seq<char>>,
}

impl View for Command {
    type V = CommandView;

    open spec fn view(&self) -> CommandView {
        CommandView {
            privileged: self.privileged,
            program: self.program@,
            args: text::texts(self.args@),
        }
    }
}

/// A command that runs with the privileges of the process.
pub open spec fn as_user(program: Seq<char>, args: Seq<Seq<char>>) -> CommandView {
    CommandView { privileged: false, program, args }
}

/// A command that needs root privileges.
pub open spec fn as_root(program: Seq<char>, args: Seq<Seq<char>>) -> CommandView {
    CommandView { privileged: true, program, args }
}

impl Command {
    /// A command without arguments that runs with the privileges of the process.
    pub fn as_user(program: &str) -> (r: Command)
        ensures
            r@ == as_user(program@, seq![]),
    {
        let r = Command { privileged: false, program: program.to_owned(), args: Vec::new() };
        assert(r@.args =~= seq![]);
        r
    }

    /// A command without arguments that needs root privileges.
    pub fn as_root(program: &str) -> (r: Command)
        ensures
            r@ == as_root(program@, seq![]),
    {
        let r = Command { privileged: true, program: program.to_owned(), args: Vec::new() };
        assert(r@.args =~= seq![]);
        r
    }

    /// The command with one more argument.
    pub fn arg(self, arg: &str) -> (r: Command)
        ensures
            r@ == (CommandView { args: self@.args.push(arg@), ..self@ }),
    {
        let mut args = self.args;
        let s = arg.to_owned();
        proof {
            text::lemma_texts_push(args@, s);
        }
        args.push(s);
        Command { privileged: self.privileged, program: self.program, args }
    }
}

/// A program and its arguments, as they are executed.
#[derive(Debug, PartialEq, Eq)]
pub struct Invocation {
    pub program: String,
    pub args: Vec<String>,
}

/// The characters of an [`Invocation`].
#[verifier::ext_equal]
pub struct InvocationView {
    pub program: Seq<char>,
    pub args: Seq<Seq<char>>,
}

impl View for Invocation {
    type V = InvocationView;

    open spec fn view(&self) -> InvocationView {
        InvocationView { program: self.program@, args: text::texts(self.args@) }
    }
}

/// What is executed for a command that needs root privileges: the command
/// itself as root, and otherwise `sudo` with the command as its arguments.
pub open spec fn elevated(
    root: bool,
    program: Seq<char>,
    args: Seq<Seq<char>>,
) -> InvocationView {
    if root {
        InvocationView { program, args }
    } else {
        InvocationView { program: "sudo"@, args: seq![program] + args }
    }
}

/// What is executed for a command.
pub open spec fn invocation_of(root: bool, command: CommandView) -> InvocationView {
    if command.privileged {
        elevated(root, command.program, command.args)
    } else {
        InvocationView { program: command.program, args: command.args }
    }
}

/// Obtains root privileges for a command: unless the process runs as root, the
/// command is prefixed with `sudo`.
pub fn run_privileged(root: bool, program: String, args: Vec<String>) -> (r: Invocation)
    ensures
        r@ == elevated(root, program@, text::texts(args@)),
{
    if root {
        Invocation { program, args }
    } else {
        let ghost rest = args@;
        let mut sudo_args: Vec<String> = Vec::new();
        sudo_args.push(program);
        let mut args = args;
        sudo_args.append(&mut args);
        assert(text::texts(sudo_args@) =~= seq![program@] + text::texts(rest));
        Invocation { program: "sudo".to_owned(), args: sudo_args }
    }
}

impl Command {
    /// What is executed for this command.
    pub fn invocation(self, root: bool) -> (r: Invocation)
        ensures
            r@ == invocation_of(root, self@),
    {
        if self.privileged {
            run_privileged(root, self.program, self.args)
        } else {
            Invocation { program: self.program, args: self.args }
        }
    }
}

/// The command that succeeds exactly when a binary is on `$PATH`.
pub open spec fn which(binary: Seq<char>) -> CommandView {
    as_user("which"@, seq![binary])
}

/// Looks a binary up on `$PATH`.
pub fn binary_exists(binary: &str) -> (r: Command)
    ensures
        r@ == which(binary@),
{
    Command::as_user("which").arg(binary)
}

/// How an action ended.
#[derive(Debug, PartialEq, Eq)]
pub enum Outcome<T = String> {
    /// It succeeded, with this text: what a captured program printed, or what
    /// the user replied.
    Success(T),
    /// It could not be started, for this cause.
    NotStarted(T),
    /// It ended with this failure status.
    Failure(T),
}

impl View for Outcome<String> {
    type V = Outcome<Seq<char>>;

    open spec fn view(&self) -> Outcome<Seq<char>> {
        match self {
            Outcome::Success(text) => Outcome::Success(text@),
            Outcome::NotStarted(cause) => Outcome::NotStarted(cause@),
            Outcome::Failure(status) => Outcome::Failure(status@),
        }
    }
}

/// The text of a success; nothing for a failure.
pub open spec fn text_of(outcome: Outcome<Seq<char>>) -> Seq<char> {
    match outcome {
        Outcome::Success(text) => text,
        _ => Seq::empty(),
    }
}

/// The result of a program that must succeed.
pub open spec fn result_of(program: Seq<char>, outcome: Outcome<Seq<char>>) -> Result<
    Seq<char>,
    Error<Seq<char>>,
> {
    match outcome {
        Outcome::Success(text) => Ok(text),
        Outcome::NotStarted(cause) => Err(Error::NotStarted { program, cause }),
        Outcome::Failure(status) => Err(Error::Exited { program, status }),
    }
}

/// The characters of a result.
pub open spec fn result_view(result: Result<String, Error>) -> Result<
    Seq<char>,
    Error<Seq<char>>,
> {
    match result {
        Ok(text) => Ok(text@),
        Err(error) => Err(error@),
    }
}

impl Outcome<String> {
    /// Whether the action succeeded.
    pub fn succeeded(&self) -> (r: bool)
        ensures
            r == (self@ is Success),
    {
        match self {
            Outcome::Success(_) => true,
            _ => false,
        }
    }

    /// The text of a success; nothing for a failure.
    pub fn text(self) -> (r: String)
        ensures
            r@ == text_of(self@),
    {
        match self {
            Outcome::Success(text) => text,
            _ => String::new(),
        }
    }
}

/// Turns the end of a program that must succeed into its text or the error.
pub fn run(program: &str, outcome: Outcome) -> (r: Result<String, Error>)
    ensures
        result_view(r) == result_of(program@, outcome@),
{
    match outcome {
        Outcome::Success(text) => Ok(text),
        Outcome::NotStarted(cause) => Err(
            Error::NotStarted { program: program.to_owned(), cause },
        ),
        Outcome::Failure(status) => Err(Error::Exited { program: program.to_owned(), status }),
    }
}

/// How a program that was started exited.
#[derive(Debug, PartialEq, Eq)]
pub struct Exit<T = String> {
    pub success: bool,
    pub status: T,
}

/// The outcome of a program that printed a text; without an exit it was not
/// started, for the given cause.
pub open spec fn ended_with(
    exit: Result<Exit<Seq<char>>, Seq<char>>,
    text: Seq<char>,
) -> Outcome<Seq<char>> {
    match exit {
        Err(cause) => Outcome::NotStarted(cause),
        Ok(exit) => if exit.success {
            Outcome::Success(text)
        } else {
            Outcome::Failure(exit.status)
        },
    }
}

/// The characters of an exit.
pub open spec fn exit_view(exit: Result<Exit, String>) -> Result<Exit<Seq<char>>, Seq<char>> {
    match exit {
        Err(cause) => Err(cause@),
        Ok(exit) => Ok(Exit { success: exit.success, status: exit.status@ }),
    }
}

/// The outcome of a program that printed a text.
pub fn ended(exit: Result<Exit, String>, text: String) -> (r: Outcome)
    ensures
        r@ == ended_with(exit_view(exit), text@),
{
    match exit {
        Err(cause) => Outcome::NotStarted(cause),
        Ok(exit) => if exit.success {
            Outcome::Success(text)
        } else {
            Outcome::Failure(exit.status)
        },
    }
}

/// The outcome of a program whose standard output is captured: the text is
/// decoded and has no white space around it.
pub fn run_output(exit: Result<Exit, String>, stdout: &[u8]) -> (r: Outcome)
    ensures
        r@ == ended_with(exit_view(exit), text::trimmed(text::utf8_lossy(stdout@))),
        vstd::utf8::valid_utf8(stdout@) ==> r@ == ended_with(
            exit_view(exit),
            text::trimmed(vstd::utf8::decode_utf8(stdout@)),
        ),
{
    let decoded = text::from_utf8_lossy(stdout);
    ended(exit, text::trim(decoded.as_str()))
}

/// How it is made sure that root privileges can be had: as root nothing is to
/// be done, and otherwise `sudo` asks the user.
pub open spec fn ensure_privilege_plan(root: bool) -> Seq<StepView> {
    if root {
        Seq::empty()
    } else {
        seq![
            StepView::Ask {
                io: Io::Interactive,
                command: as_user("sudo"@, seq!["-v"@]),
                topic: Topic::Elevation,
            },
        ]
    }
}

/// Makes sure that root privileges can be had, so that the user gets a clear
/// error instead of a failure halfway through.
pub fn ensure_privilege(root: bool) -> (r: Plan)
    ensures
        r@ =~~= ensure_privilege_plan(root),
{
    if root {
        Plan::new()
    } else {
        Plan::new().push(
            Step::Ask {
                io: Io::Interactive,
                command: Command::as_user("sudo").arg("-v"),
                topic: Topic::Elevation,
            },
        )
    }
}

/// What follows from the answer of `sudo`.
pub open spec fn elevation_plan(outcome: Outcome<Seq<char>>) -> Seq<StepView> {
    match outcome {
        Outcome::Success(_) => Seq::empty(),
        Outcome::NotStarted(cause) => seq![
            StepView::Fail(Error::NotStarted { program: "sudo"@, cause }),
        ],
        Outcome::Failure(_) => seq![StepView::Fail(Error::SudoRequired)],
    }
}

/// Stops unless `sudo` grants root privileges.
pub fn elevation(outcome: Outcome) -> (r: Plan)
    ensures
        r@ =~~= elevation_plan(outcome@),
{
    match outcome {
        Outcome::Success(_) => Plan::new(),
        Outcome::NotStarted(cause) => Plan::new().fail(
            Error::NotStarted { program: "sudo".to_owned(), cause },
        ),
        Outcome::Failure(_) => Plan::new().fail(Error::SudoRequired),
    }
}

} // verus!
