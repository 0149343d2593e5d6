//! Plans: what a command of the tool does, step by step.
use crate::cluster::InitOptions;
use crate::cmd;
use crate::cmd::{Command, CommandView, Outcome};
use crate::cni::CiliumConfig;
use crate::error;
use crate::error::Error;
use crate::storage::StorageConfig;
use crate::text;
use vstd::prelude::*;

verus! {

/// How a program is connected to the terminal.
#[derive(Debug, Clone, Copy, PartialEq, Eq)]
pub enum Io {
    /// Its output goes to the terminal; it reads nothing.
    Stream,
    /// Its standard output is captured; it reads nothing.
    Capture,
    /// It reads nothing and its output is discarded.
    Quiet,
    /// It reads from and writes to the terminal.
    Interactive,
}

/// What a question is about: which steps its answer leads to.
#[derive(Debug, PartialEq, Eq)]
pub enum Topic<T = String> {
    /// Whether `sudo` grants root privileges.
    Elevation,
    /// Whether containerd is installed; else this version is.
    Containerd(Option<T>),
    /// Whether runc is installed; else this version is.
    Runc(Option<T>),
    /// Which CNI plugins are installed; if none, this version is.
    CniPlugins(Option<T>),
    /// Whether crictl is installed; else this version is.
    Crictl(Option<T>),
    /// Whether a Kubernetes binary is installed; else it is fetched from here.
    Component { component: T, base_url: T },
    /// Whether Helm is installed; else this version is.
    Helm(Option<T>),
    /// Whether the Cilium CLI is installed; else this version is.
    CiliumCli(Option<T>),
    /// Whether a binary that the host must have is there.
    RequiredBinary(T),
    /// Which swap areas are in use.
    Swaps,
    /// Which kernel modules are loaded.
    Modules,
    /// The value of a kernel parameter.
    Sysctl(T),
    /// The host name, to remove the taint of the node.
    ControlPlaneTaint,
    /// The join command, for a control-plane node or a worker.
    JoinCommand(bool),
    /// The certificate key that completes this join command.
    CertificateKey(T),
    /// Whether Helm is there, to remove the releases on a reset.
    ResetReleases,
    /// Whether Helm is there, to remove all it installed on an uninstall.
    UninstallReleases,
    /// Whether kubectl is there, to remove the Gateway API.
    GatewayApi,
    /// Whether kubectl is there, to drain the node and perhaps log a failure.
    Drain { logged: bool },
    /// The host name, to drain the node and perhaps log a failure.
    DrainNode { logged: bool },
    /// Whether the Cilium CLI can report the status.
    CiliumStatus,
    /// Whether the Cilium CLI can install Cilium.
    Cilium(CiliumConfig<T>),
    /// Whether Helm can install Cilium.
    CiliumHelm(CiliumConfig<T>),
    /// Whether Helm can install the storage provisioner.
    Storage(StorageConfig<T>),
    /// The name of the node that storage is installed on.
    NodeName,
    /// The taints left on this node.
    Taints(T),
    /// The default route, to find the control-plane endpoint.
    DefaultRoute(InitOptions<T>),
    /// The addresses of the device of the default route.
    DeviceAddress { device: T, options: InitOptions<T> },
    /// The fully qualified host name, next to the detected address.
    QualifiedName { address: T, options: InitOptions<T> },
    /// The short host name, next to the detected address.
    ShortName { address: T, options: InitOptions<T> },
    /// Whether the detected address is the endpoint.
    Endpoint { address: T, options: InitOptions<T> },
    /// Whether everything shall be uninstalled.
    ConfirmUninstall,
    /// Whether kubeadm is there, to tear the control plane down.
    KubeadmReset,
    /// Whether crictl is there, to stop what still runs.
    Containers,
    /// Which containers run, to stop them.
    RunningContainers,
    /// Which containers have not exited; so many looks are left.
    Exiting(u64),
    /// Which containers have not exited after all, to remove them.
    Stragglers,
    /// Which pod sandboxes are left, to remove them.
    PodSandboxes,
    /// Whether a Kubernetes binary is installed, to remove it.
    RemoveComponent(T),
    /// Whether crictl is installed, to remove it.
    RemoveCrictl,
    /// Whether the Cilium CLI is installed, to remove it.
    RemoveCiliumCli,
    /// Whether Helm is installed, to remove it.
    RemoveHelm,
    /// Whether containerd is installed, to remove it.
    RemoveContainerd,
    /// Whether runc is installed, to remove it.
    RemoveRunc,
}

impl View for Topic<String> {
    type V = Topic<Seq<char>>;

    open spec fn view(&self) -> Topic<Seq<char>> {
        match self {
            Topic::Elevation => Topic::Elevation,
            Topic::Containerd(version) => Topic::Containerd(text::optional(*version)),
            Topic::Runc(version) => Topic::Runc(text::optional(*version)),
            Topic::CniPlugins(version) => Topic::CniPlugins(text::optional(*version)),
            Topic::Crictl(version) => Topic::Crictl(text::optional(*version)),
            Topic::Component { component, base_url } => Topic::Component {
                component: component@,
                base_url: base_url@,
            },
            Topic::Helm(version) => Topic::Helm(text::optional(*version)),
            Topic::CiliumCli(version) => Topic::CiliumCli(text::optional(*version)),
            Topic::RequiredBinary(binary) => Topic::RequiredBinary(binary@),
            Topic::Swaps => Topic::Swaps,
            Topic::Modules => Topic::Modules,
            Topic::Sysctl(param) => Topic::Sysctl(param@),
            Topic::ControlPlaneTaint => Topic::ControlPlaneTaint,
            Topic::JoinCommand(control_plane) => Topic::JoinCommand(*control_plane),
            Topic::CertificateKey(join_command) => Topic::CertificateKey(join_command@),
            Topic::ResetReleases => Topic::ResetReleases,
            Topic::UninstallReleases => Topic::UninstallReleases,
            Topic::GatewayApi => Topic::GatewayApi,
            Topic::Drain { logged } => Topic::Drain { logged: *logged },
            Topic::DrainNode { logged } => Topic::DrainNode { logged: *logged },
            Topic::CiliumStatus => Topic::CiliumStatus,
            Topic::Cilium(config) => Topic::Cilium(config@),
            Topic::CiliumHelm(config) => Topic::CiliumHelm(config@),
            Topic::Storage(config) => Topic::Storage(config@),
            Topic::NodeName => Topic::NodeName,
            Topic::Taints(node) => Topic::Taints(node@),
            Topic::DefaultRoute(options) => Topic::DefaultRoute(options@),
            Topic::DeviceAddress { device, options } => Topic::DeviceAddress {
                device: device@,
                options: options@,
            },
            Topic::QualifiedName { address, options } => Topic::QualifiedName {
                address: address@,
                options: options@,
            },
            Topic::ShortName { address, options } => Topic::ShortName {
                address: address@,
                options: options@,
            },
            Topic::Endpoint { address, options } => Topic::Endpoint {
                address: address@,
                options: options@,
            },
            Topic::ConfirmUninstall => Topic::ConfirmUninstall,
            Topic::KubeadmReset => Topic::KubeadmReset,
            Topic::Containers => Topic::Containers,
            Topic::RunningContainers => Topic::RunningContainers,
            Topic::Exiting(looks) => Topic::Exiting(*looks),
            Topic::Stragglers => Topic::Stragglers,
            Topic::PodSandboxes => Topic::PodSandboxes,
            Topic::RemoveComponent(component) => Topic::RemoveComponent(component@),
            Topic::RemoveCrictl => Topic::RemoveCrictl,
            Topic::RemoveCiliumCli => Topic::RemoveCiliumCli,
            Topic::RemoveHelm => Topic::RemoveHelm,
            Topic::RemoveContainerd => Topic::RemoveContainerd,
            Topic::RemoveRunc => Topic::RemoveRunc,
        }
    }
}

/// What follows from the failure of a command.
#[derive(Debug, Clone, Copy, PartialEq, Eq, Structural)]
pub enum OnFailure {
    /// The workflow stops.
    Stop,
    /// The failure is logged and the workflow goes on.
    Log,
    /// The workflow goes on.
    Ignore,
}

/// One step of a plan.
#[derive(Debug, PartialEq, Eq)]
pub enum Step {
    /// Run a command.
    Run { command: Command, on_failure: OnFailure },
    /// Run a command and go on with what its end leads to.
    Ask { io: Io, command: Command, topic: Topic },
    /// Ask the user and go on with what the reply leads to.
    Prompt { text: String, topic: Topic },
    /// Print a line.
    Print(String),
    /// Log a line.
    Log(String),
    /// Wait for so many seconds.
    Sleep(u64),
    /// Stop the workflow.
    Fail(Error),
}

/// The characters of a [`Step`].
#[verifier::ext_equal]
pub enum StepView {
    Run { command: CommandView, on_failure: OnFailure },
    Ask { io: Io, command: CommandView, topic: Topic<Seq<char>> },
    Prompt { text: Seq<char>, topic: Topic<Seq<char>> },
    Print(Seq<char>),
    Log(Seq<char>),
    Sleep(u64),
    Fail(Error<Seq<char>>),
}

impl View for Step {
    type V = StepView;

    open spec fn view(&self) -> StepView {
        match self {
            Step::Run { command, on_failure } => StepView::Run {
                command: command@,
                on_failure: *on_failure,
            },
            Step::Ask { io, command, topic } => StepView::Ask {
                io: *io,
                command: command@,
                topic: topic@,
            },
            Step::Prompt { text, topic } => StepView::Prompt { text: text@, topic: topic@ },
            Step::Print(line) => StepView::Print(line@),
            Step::Log(line) => StepView::Log(line@),
            Step::Sleep(seconds) => StepView::Sleep(*seconds),
            Step::Fail(error) => StepView::Fail(error@),
        }
    }
}

/// Runs a command that must succeed.
pub open spec fn require(command: CommandView) -> StepView {
    StepView::Run { command, on_failure: OnFailure::Stop }
}

/// Runs a command that may fail: how it ends makes no difference.
pub open spec fn attempt(command: CommandView) -> StepView {
    StepView::Run { command, on_failure: OnFailure::Ignore }
}

/// Runs a command that may fail, and logs its failure.
pub open spec fn effort(command: CommandView) -> StepView {
    StepView::Run { command, on_failure: OnFailure::Log }
}

/// Asks what a command prints.
pub open spec fn capture(command: CommandView, topic: Topic<Seq<char>>) -> StepView {
    StepView::Ask { io: Io::Capture, command, topic }
}

/// Asks whether a binary is on `$PATH`.
pub open spec fn probe(binary: Seq<char>, topic: Topic<Seq<char>>) -> StepView {
    StepView::Ask { io: Io::Quiet, command: cmd::which(binary), topic }
}

/// What is noted of the end of a program: a failure is logged, with the name of
/// the program and its status, or the cause that kept it from starting.
pub open spec fn noted(program: Seq<char>, outcome: Outcome<Seq<char>>) -> Seq<StepView> {
    match cmd::result_of(program, outcome) {
        Ok(_) => Seq::empty(),
        Err(error) => seq![StepView::Log(error::described(error))],
    }
}

/// The characters of a list of steps.
pub open spec fn steps_view(steps: Seq<Step>) -> Seq<StepView> {
    steps.map_values(|step: Step| step@)
}

/// A list of steps, in the order in which they are done.
#[derive(Debug, PartialEq, Eq)]
pub struct Plan {
    pub steps: Vec<Step>,
}

impl View for Plan {
    type V = Seq<StepView>;

    open spec fn view(&self) -> Seq<StepView> {
        steps_view(self.steps@)
    }
}

impl Plan {
    /// A plan that does nothing.
    pub fn new() -> (r: Plan)
        ensures
            r@ == Seq::<StepView>::empty(),
    {
        let r = Plan { steps: Vec::new() };
        assert(r@ =~= Seq::<StepView>::empty());
        r
    }

    /// This plan, and one more step.
    pub fn push(self, step: Step) -> (r: Plan)
        ensures
            r@ == self@.push(step@),
    {
        let mut steps = self.steps;
        steps.push(step);
        let r = Plan { steps };
        assert(r@ =~= self@.push(step@));
        r
    }

    /// This plan, and then another one.
    pub fn and(self, other: Plan) -> (r: Plan)
        ensures
            r@ == self@ + other@,
    {
        let mut steps = self.steps;
        let mut more = other.steps;
        steps.append(&mut more);
        let r = Plan { steps };
        assert(r@ =~= self@ + other@);
        r
    }

    /// A plan that logs the end of a program if it failed.
    pub fn note(program: &str, outcome: &Outcome) -> (r: Plan)
        ensures
            r@ =~~= noted(program@, outcome@),
    {
        let error = match outcome {
            Outcome::Success(_) => {
                return Plan::new();
            },
            Outcome::NotStarted(cause) => Error::NotStarted {
                program: program.to_owned(),
                cause: cause.as_str().to_owned(),
            },
            Outcome::Failure(status) => Error::Exited {
                program: program.to_owned(),
                status: status.as_str().to_owned(),
            },
        };
        Plan::new().push(Step::Log(error.describe()))
    }

    /// This plan, and then a command that must succeed.
    pub fn require(self, command: Command) -> (r: Plan)
        ensures
            r@ == self@.push(require(command@)),
    {
        self.push(Step::Run { command, on_failure: OnFailure::Stop })
    }

    /// This plan, and then a command that may fail.
    pub fn attempt(self, command: Command) -> (r: Plan)
        ensures
            r@ == self@.push(attempt(command@)),
    {
        self.push(Step::Run { command, on_failure: OnFailure::Ignore })
    }

    /// This plan, and then a command that may fail, and whose failure is logged.
    pub fn effort(self, command: Command) -> (r: Plan)
        ensures
            r@ == self@.push(effort(command@)),
    {
        self.push(Step::Run { command, on_failure: OnFailure::Log })
    }

    /// This plan, and then a question about what a command prints.
    pub fn capture(self, command: Command, topic: Topic) -> (r: Plan)
        ensures
            r@ == self@.push(capture(command@, topic@)),
    {
        self.push(Step::Ask { io: Io::Capture, command, topic })
    }

    /// This plan, and then the question whether a binary is on `$PATH`.
    pub fn probe(self, binary: &str, topic: Topic) -> (r: Plan)
        ensures
            r@ == self@.push(probe(binary@, topic@)),
    {
        self.push(Step::Ask { io: Io::Quiet, command: cmd::binary_exists(binary), topic })
    }

    /// This plan, and then a line of output.
    pub fn print(self, line: String) -> (r: Plan)
        ensures
            r@ == self@.push(StepView::Print(line@)),
    {
        self.push(Step::Print(line))
    }

    /// This plan, and then a stop.
    pub fn fail(self, error: Error) -> (r: Plan)
        ensures
            r@ == self@.push(StepView::Fail(error@)),
    {
        self.push(Step::Fail(error))
    }
}

} // verus!
