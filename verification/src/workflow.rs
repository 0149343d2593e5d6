//! Carrying a plan out, one action at a time.
use crate::cluster;
use crate::cmd;
use crate::cmd::{Invocation, InvocationView, Outcome};
use crate::cni;
use crate::config::Host;
use crate::deps;
use crate::error::Error;
use crate::net;
use crate::plan;
use crate::plan::{Io, OnFailure, Plan, Step, StepView, Topic};
use crate::storage;
use crate::text;
use vstd::prelude::*;

verus! {

// ── Answers ──────────────────────────────────────────────────────────────────

/// The steps that an answer leads to. `program` is what was executed to get it.
pub open spec fn follow_up(
    host: Host,
    topic: Topic<Seq<char>>,
    program: Seq<char>,
    outcome: Outcome<Seq<char>>,
) -> Seq<StepView> {
    let present = outcome is Success;
    let answer = cmd::text_of(outcome);
    match topic {
        Topic::Elevation => cmd::elevation_plan(outcome),
        Topic::Containerd(version) => deps::install_containerd_plan(host, version, present),
        Topic::Runc(version) => deps::install_runc_plan(host, version, present),
        Topic::CniPlugins(version) => deps::install_cni_plugins_plan(host, version, answer),
        Topic::Crictl(version) => deps::install_crictl_plan(host, version, present),
        Topic::Component { component, base_url } => deps::install_component_plan(
            host,
            component,
            base_url,
            present,
        ),
        Topic::Helm(version) => deps::install_helm_plan(host, version, present),
        Topic::CiliumCli(version) => deps::install_cilium_cli_plan(host, version, present),
        Topic::RequiredBinary(binary) => cluster::binary_checked_plan(binary, present),
        Topic::Swaps => cluster::swaps_listed_plan(answer),
        Topic::Modules => cluster::modules_listed_plan(answer),
        Topic::Sysctl(param) => cluster::sysctl_read_plan(param, answer),
        Topic::ControlPlaneTaint => cluster::taint_host_named_plan(answer),
        Topic::JoinCommand(control_plane) => cluster::join_command_created_plan(
            program,
            control_plane,
            outcome,
        ),
        Topic::CertificateKey(join_command) => cluster::certificates_uploaded_plan(
            program,
            join_command,
            outcome,
        ),
        Topic::ResetReleases => cluster::reset_releases_plan(present),
        Topic::UninstallReleases => deps::uninstall_helm_releases_plan(present),
        Topic::GatewayApi => cluster::remove_gateway_api_plan(host, present),
        Topic::Drain { logged } => cluster::drain_probed_plan(present, logged),
        Topic::DrainNode { logged } => (if logged {
            plan::noted(program, outcome)
        } else {
            Seq::empty()
        }) + cluster::drain_node_plan(answer, logged),
        Topic::CiliumStatus => cluster::cilium_status_plan(present),
        Topic::Cilium(config) => cni::cilium_probed_plan(host, config, present),
        Topic::CiliumHelm(config) => cni::helm_probed_plan(host, config, present),
        Topic::Storage(config) => storage::helm_probed_plan(host, config, present),
        Topic::NodeName => storage::node_named_plan(answer),
        Topic::Taints(node) => storage::taints_listed_plan(node, answer),
        Topic::DefaultRoute(options) => net::route_shown_plan(program, options, outcome),
        Topic::DeviceAddress { device, options } => net::addresses_shown_plan(
            program,
            device,
            options,
            outcome,
        ),
        Topic::QualifiedName { address, options } => net::qualified_name_plan(
            address,
            options,
            answer,
        ),
        Topic::ShortName { address, options } => net::confirmation_plan(address, options, answer),
        Topic::Endpoint { address, options } => net::endpoint_replied_plan(
            host,
            address,
            options,
            outcome,
        ),
        Topic::ConfirmUninstall => deps::uninstall_replied_plan(host, outcome),
        Topic::KubeadmReset => deps::kubeadm_probed_plan(present),
        Topic::Containers => deps::crictl_probed_plan(present),
        Topic::RunningContainers => plan::noted(program, outcome) + deps::containers_listed_plan(answer),
        Topic::Exiting(looks) => plan::noted(program, outcome) + deps::exiting_plan(looks, answer),
        Topic::Stragglers => plan::noted(program, outcome) + deps::stragglers_listed_plan(answer),
        Topic::PodSandboxes => plan::noted(program, outcome) + deps::remove_sandboxes(deps::listed_ids(answer)),
        Topic::RemoveComponent(component) => deps::remove_binary_plan(
            host.settings.bin_dir@,
            component,
            present,
        ),
        Topic::RemoveCrictl => deps::uninstall_crictl_plan(host, present),
        Topic::RemoveCiliumCli => deps::remove_binary_plan(
            host.settings.bin_dir@,
            "cilium"@,
            present,
        ),
        Topic::RemoveHelm => deps::remove_binary_plan(host.settings.bin_dir@, "helm"@, present),
        Topic::RemoveContainerd => deps::uninstall_containerd_plan(host, present),
        Topic::RemoveRunc => deps::remove_binary_plan(host.settings.sbin_dir@, "runc"@, present),
    }
}

/// Decides which steps an answer leads to.
pub fn resume(host: &Host, topic: Topic, program: &str, outcome: Outcome) -> (r: Plan)
    ensures
        r@ =~~= follow_up(*host, topic@, program@, outcome@),
{
    let present = outcome.succeeded();
    match topic {
        Topic::Elevation => cmd::elevation(outcome),
        Topic::Containerd(version) => deps::install_containerd(
            host,
            text::as_deref(&version),
            present,
        ),
        Topic::Runc(version) => deps::install_runc(host, text::as_deref(&version), present),
        Topic::CniPlugins(version) => deps::install_cni_plugins(
            host,
            text::as_deref(&version),
            outcome.text().as_str(),
        ),
        Topic::Crictl(version) => deps::install_crictl(host, text::as_deref(&version), present),
        Topic::Component { component, base_url } => deps::install_component(
            host,
            component.as_str(),
            base_url.as_str(),
            present,
        ),
        Topic::Helm(version) => deps::install_helm(host, text::as_deref(&version), present),
        Topic::CiliumCli(version) => deps::install_cilium_cli(
            host,
            text::as_deref(&version),
            present,
        ),
        Topic::RequiredBinary(binary) => cluster::binary_checked(binary, present),
        Topic::Swaps => cluster::swaps_listed(outcome.text().as_str()),
        Topic::Modules => cluster::modules_listed(outcome.text().as_str()),
        Topic::Sysctl(param) => cluster::sysctl_read(param, outcome.text().as_str()),
        Topic::ControlPlaneTaint => cluster::taint_host_named(outcome.text().as_str()),
        Topic::JoinCommand(control_plane) => cluster::join_command_created(
            program,
            control_plane,
            outcome,
        ),
        Topic::CertificateKey(join_command) => cluster::certificates_uploaded(
            program,
            join_command,
            outcome,
        ),
        Topic::ResetReleases => cluster::reset_releases(present),
        Topic::UninstallReleases => deps::uninstall_helm_releases(present),
        Topic::GatewayApi => cluster::remove_gateway_api(host, present),
        Topic::Drain { logged } => cluster::drain_probed(present, logged),
        Topic::DrainNode { logged } => {
            let note = if logged {
                Plan::note(program, &outcome)
            } else {
                Plan::new()
            };
            note.and(cluster::drain_node(outcome.text().as_str(), logged))
        },
        Topic::CiliumStatus => cluster::cilium_status(present),
        Topic::Cilium(config) => cni::cilium_probed(host, config, present),
        Topic::CiliumHelm(config) => cni::helm_probed(host, config, present),
        Topic::Storage(config) => storage::helm_probed(host, config, present),
        Topic::NodeName => storage::node_named(outcome.text()),
        Topic::Taints(node) => storage::taints_listed(node, outcome.text().as_str()),
        Topic::DefaultRoute(options) => net::route_shown(program, options, outcome),
        Topic::DeviceAddress { device, options } => net::addresses_shown(
            program,
            device,
            options,
            outcome,
        ),
        Topic::QualifiedName { address, options } => net::qualified_name(
            address,
            options,
            outcome.text().as_str(),
        ),
        Topic::ShortName { address, options } => net::confirmation(
            address,
            options,
            outcome.text().as_str(),
        ),
        Topic::Endpoint { address, options } => net::endpoint_replied(
            host,
            address,
            options,
            outcome,
        ),
        Topic::ConfirmUninstall => deps::uninstall_replied(host, outcome),
        Topic::KubeadmReset => deps::kubeadm_probed(present),
        Topic::Containers => deps::crictl_probed(present),
        Topic::RunningContainers => Plan::note(program, &outcome).and(
            deps::containers_listed(outcome.text().as_str()),
        ),
        Topic::Exiting(looks) => Plan::note(program, &outcome).and(
            deps::exiting(looks, outcome.text().as_str()),
        ),
        Topic::Stragglers => Plan::note(program, &outcome).and(
            deps::stragglers_listed(outcome.text().as_str()),
        ),
        Topic::PodSandboxes => Plan::note(program, &outcome).and(
            deps::sandboxes_listed(outcome.text().as_str()),
        ),
        Topic::RemoveComponent(component) => deps::remove_binary(
            host.settings.bin_dir.as_str(),
            component.as_str(),
            present,
        ),
        Topic::RemoveCrictl => deps::uninstall_crictl(host, present),
        Topic::RemoveCiliumCli => deps::uninstall_cilium_cli(host, present),
        Topic::RemoveHelm => deps::uninstall_helm(host, present),
        Topic::RemoveContainerd => deps::uninstall_containerd(host, present),
        Topic::RemoveRunc => deps::uninstall_runc(host, present),
    }
}

// ── The machine ──────────────────────────────────────────────────────────────

/// Something that the caller does for a workflow.
#[derive(Debug, PartialEq, Eq)]
pub enum Action {
    /// Execute a program, connected to the terminal like this.
    Execute { io: Io, invocation: Invocation },
    /// Show this text and read a line.
    Prompt(String),
    /// Print a line.
    Print(String),
    /// Log a line.
    Log(String),
    /// Wait for so many seconds.
    Sleep(u64),
}

/// The characters of an [`Action`].
#[verifier::ext_equal]
pub enum ActionView {
    Execute { io: Io, invocation: InvocationView },
    Prompt(Seq<char>),
    Print(Seq<char>),
    Log(Seq<char>),
    Sleep(u64),
}

impl View for Action {
    type V = ActionView;

    open spec fn view(&self) -> ActionView {
        match self {
            Action::Execute { io, invocation } => ActionView::Execute {
                io: *io,
                invocation: invocation@,
            },
            Action::Prompt(text) => ActionView::Prompt(text@),
            Action::Print(line) => ActionView::Print(line@),
            Action::Log(line) => ActionView::Log(line@),
            Action::Sleep(seconds) => ActionView::Sleep(*seconds),
        }
    }
}

/// How far a workflow has come.
#[derive(Debug, PartialEq, Eq)]
pub enum Progress {
    /// This is to be done next.
    Act(Action),
    /// All is done.
    Finished,
    /// Something went wrong, and nothing more is to be done.
    Stopped(Error),
}

/// The characters of a [`Progress`].
#[verifier::ext_equal]
pub enum ProgressView {
    Act(ActionView),
    Finished,
    Stopped(Error<Seq<char>>),
}

impl View for Progress {
    type V = ProgressView;

    open spec fn view(&self) -> ProgressView {
        match self {
            Progress::Act(action) => ProgressView::Act(action@),
            Progress::Finished => ProgressView::Finished,
            Progress::Stopped(error) => ProgressView::Stopped(error@),
        }
    }
}

/// What the end of an action is needed for.
#[derive(Debug, PartialEq, Eq)]
pub enum Awaiting<T = String> {
    /// Nothing: how the action ends makes no difference.
    Nothing,
    /// This program may fail; a failure is logged.
    Effort(T),
    /// This program must succeed.
    Program(T),
    /// It answers a question that this program was executed for.
    Answer { program: T, topic: Topic<T> },
}

impl View for Awaiting<String> {
    type V = Awaiting<Seq<char>>;

    open spec fn view(&self) -> Awaiting<Seq<char>> {
        match self {
            Awaiting::Nothing => Awaiting::Nothing,
            Awaiting::Effort(program) => Awaiting::Effort(program@),
            Awaiting::Program(program) => Awaiting::Program(program@),
            Awaiting::Answer { program, topic } => Awaiting::Answer {
                program: program@,
                topic: topic@,
            },
        }
    }
}

/// The action of a step; a stop has none.
pub open spec fn action_of(root: bool, step: StepView) -> Option<ActionView> {
    match step {
        StepView::Run { command, .. } => Some(
            ActionView::Execute { io: Io::Stream, invocation: cmd::invocation_of(root, command) },
        ),
        StepView::Ask { io, command, .. } => Some(
            ActionView::Execute { io, invocation: cmd::invocation_of(root, command) },
        ),
        StepView::Prompt { text, .. } => Some(ActionView::Prompt(text)),
        StepView::Print(line) => Some(ActionView::Print(line)),
        StepView::Log(line) => Some(ActionView::Log(line)),
        StepView::Sleep(seconds) => Some(ActionView::Sleep(seconds)),
        StepView::Fail(_) => None,
    }
}

/// What the end of the action of a step is needed for.
pub open spec fn awaiting_of(root: bool, step: StepView) -> Awaiting<Seq<char>> {
    match step {
        StepView::Run { command, on_failure } => match on_failure {
            OnFailure::Stop => Awaiting::Program(cmd::invocation_of(root, command).program),
            OnFailure::Log => Awaiting::Effort(cmd::invocation_of(root, command).program),
            OnFailure::Ignore => Awaiting::Nothing,
        },
        StepView::Ask { command, topic, .. } => Awaiting::Answer {
            program: cmd::invocation_of(root, command).program,
            topic,
        },
        StepView::Prompt { topic, .. } => Awaiting::Answer { program: ""@, topic },
        _ => Awaiting::Nothing,
    }
}

/// What the end of an action leads to: more steps, or the error that stops the
/// workflow.
pub open spec fn resolved(
    host: Host,
    awaiting: Awaiting<Seq<char>>,
    outcome: Outcome<Seq<char>>,
) -> Result<Seq<StepView>, Error<Seq<char>>> {
    match awaiting {
        Awaiting::Nothing => Ok(Seq::empty()),
        Awaiting::Effort(program) => Ok(plan::noted(program, outcome)),
        Awaiting::Program(program) => match cmd::result_of(program, outcome) {
            Ok(_) => Ok(Seq::empty()),
            Err(error) => Err(error),
        },
        Awaiting::Answer { program, topic } => Ok(follow_up(host, topic, program, outcome)),
    }
}

/// The state of a [`Workflow`]: the steps that are left, and what the end of
/// the action under way is needed for.
#[verifier::ext_equal]
pub struct WorkflowView {
    pub pending: Seq<StepView>,
    pub awaiting: Awaiting<Seq<char>>,
}

/// The state in which nothing is left to do.
pub open spec fn idle() -> WorkflowView {
    WorkflowView { pending: Seq::empty(), awaiting: Awaiting::Nothing }
}

/// How a list of steps is begun: with the action of the first.
pub open spec fn begun(root: bool, steps: Seq<StepView>) -> (ProgressView, WorkflowView) {
    if steps.len() == 0 {
        (ProgressView::Finished, idle())
    } else {
        match steps[0] {
            StepView::Fail(error) => (ProgressView::Stopped(error), idle()),
            step => (
                ProgressView::Act(action_of(root, step)->0),
                WorkflowView { pending: steps.skip(1), awaiting: awaiting_of(root, step) },
            ),
        }
    }
}

/// How a workflow goes on when the action under way has ended.
pub open spec fn transition(
    host: Host,
    state: WorkflowView,
    outcome: Outcome<Seq<char>>,
) -> (ProgressView, WorkflowView) {
    match resolved(host, state.awaiting, outcome) {
        Ok(more) => begun(host.root, more + state.pending),
        Err(error) => (ProgressView::Stopped(error), idle()),
    }
}

/// A plan that is being carried out.
#[derive(Debug, PartialEq, Eq)]
pub struct Workflow {
    pub host: Host,
    pub pending: Plan,
    pub awaiting: Awaiting,
}

impl View for Workflow {
    type V = WorkflowView;

    open spec fn view(&self) -> WorkflowView {
        WorkflowView { pending: self.pending@, awaiting: self.awaiting@ }
    }
}

/// Decides what the end of an action leads to.
fn resolve(host: &Host, awaiting: Awaiting, outcome: Outcome) -> (r: Result<Plan, Error>)
    ensures
        match r {
            Ok(more) => resolved(*host, awaiting@, outcome@) == Ok::<_, Error<Seq<char>>>(more@),
            Err(error) => resolved(*host, awaiting@, outcome@) == Err::<Seq<StepView>, _>(error@),
        },
{
    match awaiting {
        Awaiting::Nothing => Ok(Plan::new()),
        Awaiting::Effort(program) => Ok(Plan::note(program.as_str(), &outcome)),
        Awaiting::Program(program) => match cmd::run(program.as_str(), outcome) {
            Ok(_) => Ok(Plan::new()),
            Err(error) => Err(error),
        },
        Awaiting::Answer { program, topic } => Ok(
            resume(host, topic, program.as_str(), outcome),
        ),
    }
}

impl Workflow {
    /// Starts to carry a plan out on a host. Nothing is under way yet: the first
    /// call of [`Workflow::advance`] takes any outcome.
    pub fn start(host: Host, plan: Plan) -> (r: Workflow)
        ensures
            r.host == host,
            r@ == (WorkflowView { pending: plan@, awaiting: Awaiting::Nothing }),
    {
        Workflow { host, pending: plan, awaiting: Awaiting::Nothing }
    }

    /// Takes how the last action ended and decides what is to be done next.
    pub fn advance(&mut self, outcome: Outcome) -> (r: Progress)
        ensures
            final(self).host == old(self).host,
            (r@, final(self)@) == transition(old(self).host, old(self)@, outcome@),
    {
        let mut awaiting = Awaiting::Nothing;
        std::mem::swap(&mut awaiting, &mut self.awaiting);
        let mut pending = Plan::new();
        std::mem::swap(&mut pending, &mut self.pending);
        assert(self@ == idle());
        let mut steps = match resolve(&self.host, awaiting, outcome) {
            Ok(more) => more.and(pending),
            Err(error) => {
                return Progress::Stopped(error);
            },
        };
        if steps.steps.len() == 0 {
            return Progress::Finished;
        }
        let ghost all = steps@;
        let step = steps.steps.remove(0);
        assert(steps@ =~= all.skip(1));
        match step {
            Step::Run { command, on_failure } => {
                let invocation = command.invocation(self.host.root);
                let program = invocation.program.clone();
                self.awaiting = match on_failure {
                    OnFailure::Stop => Awaiting::Program(program),
                    OnFailure::Log => Awaiting::Effort(program),
                    OnFailure::Ignore => Awaiting::Nothing,
                };
                self.pending = steps;
                Progress::Act(Action::Execute { io: Io::Stream, invocation })
            },
            Step::Ask { io, command, topic } => {
                let invocation = command.invocation(self.host.root);
                self.awaiting = Awaiting::Answer { program: invocation.program.clone(), topic };
                self.pending = steps;
                Progress::Act(Action::Execute { io, invocation })
            },
            Step::Prompt { text, topic } => {
                self.awaiting = Awaiting::Answer { program: "".to_owned(), topic };
                self.pending = steps;
                Progress::Act(Action::Prompt(text))
            },
            Step::Print(line) => {
                self.pending = steps;
                Progress::Act(Action::Print(line))
            },
            Step::Log(line) => {
                self.pending = steps;
                Progress::Act(Action::Log(line))
            },
            Step::Sleep(seconds) => {
                self.pending = steps;
                Progress::Act(Action::Sleep(seconds))
            },
            Step::Fail(error) => Progress::Stopped(error),
        }
    }
}

} // verus!
