//! What holds of the tool as a whole.
use crate::cli;
use crate::cli::Request;
use crate::cluster;
use crate::cluster::{ClusterConfig, InitOptions, JoinConfig, NodeRole};
use crate::cmd;
use crate::cmd::{CommandView, InvocationView, Outcome};
use crate::cni;
use crate::cni::CiliumConfig;
use crate::config::Host;
use crate::deps;
use crate::ends;
use crate::error::Error;
use crate::net;
use crate::plan;
use crate::plan::{Io, OnFailure, StepView, Topic};
use crate::run;
use crate::run::World;
use crate::storage;
use crate::storage::StorageConfig;
use crate::text;
use crate::workflow;
use crate::workflow::{ActionView, ProgressView};
use vstd::prelude::*;

pub mod addons;
pub mod initializing;
pub mod installing;
pub mod joining;
pub mod preparing;
pub mod privileges;
pub mod removing;
pub mod reporting;
pub mod running;
pub mod settings;
pub mod steps;
pub mod texts;

verus! {

// ── Privileges ───────────────────────────────────────────────────────────────

/// Root runs every command as it is.
pub proof fn root_needs_no_sudo(command: CommandView)
    ensures
        cmd::invocation_of(true, command) == (InvocationView {
            program: command.program,
            args: command.args,
        }),
{
}

/// Any other user runs a command as it is if it needs no privileges, and
/// otherwise through `sudo`, which is given the command unchanged.
pub proof fn others_elevate_exactly_what_needs_it(command: CommandView)
    ensures
        ({
            let invocation = cmd::invocation_of(false, command);
            if command.privileged {
                &&& invocation.program == "sudo"@
                &&& invocation.args.len() == command.args.len() + 1
                &&& invocation.args[0] == command.program
                &&& invocation.args.skip(1) =~= command.args
            } else {
                invocation == (InvocationView { program: command.program, args: command.args })
            }
        }),
{
}

/// Without root privileges, installing and uninstalling ask `sudo` before
/// anything else, and do nothing if it does not grant them.
pub proof fn privileges_are_checked_first(
    host: Host,
    kubernetes_version: Option<Seq<char>>,
    cilium_version: Option<Seq<char>>,
    world: World,
)
    requires
        !host.root,
    ensures
        ({
            let asked = ProgressView::Act(
                ActionView::Execute {
                    io: Io::Interactive,
                    invocation: InvocationView { program: "sudo"@, args: seq!["-v"@] },
                },
            );
            let refused = match world(1) {
                Outcome::Success(_) => None,
                Outcome::NotStarted(cause) => Some(Error::NotStarted { program: "sudo"@, cause }),
                Outcome::Failure(_) => Some(Error::SudoRequired),
            };
            let install = deps::install_all_plan(host, kubernetes_version, cilium_version);
            let uninstall = deps::uninstall_all_plan(host);
            &&& run::run_at(host, install, world, 0).0 == asked
            &&& run::run_at(host, uninstall, world, 0).0 == asked
            &&& refused matches Some(error) ==> {
                &&& run::run_at(host, install, world, 1).0 == ProgressView::Stopped(error)
                &&& run::run_at(host, uninstall, world, 1).0 == ProgressView::Stopped(error)
            }
        }),
{
    let install = deps::install_all_plan(host, kubernetes_version, cilium_version);
    let uninstall = deps::uninstall_all_plan(host);
    lemma_sudo_first(host, install, world);
    lemma_sudo_first(host, uninstall, world);
}

/// A plan that begins with the question for privileges depends on the answer.
proof fn lemma_sudo_first(host: Host, plan: Seq<StepView>, world: World)
    requires
        !host.root,
        plan.len() > 0,
        plan[0] == cmd::ensure_privilege_plan(false)[0],
    ensures
        run::run_at(host, plan, world, 0).0 == ProgressView::Act(
            ActionView::Execute {
                io: Io::Interactive,
                invocation: InvocationView { program: "sudo"@, args: seq!["-v"@] },
            },
        ),
        world(1) matches Outcome::NotStarted(cause) ==> run::run_at(host, plan, world, 1).0
            == ProgressView::Stopped(
            Error::NotStarted { program: "sudo"@, cause },
        ),
        world(1) is Failure ==> run::run_at(host, plan, world, 1).0 == ProgressView::Stopped(
            Error::SudoRequired,
        ),
{
    run::lemma_run_begins(host, plan, world, 0);
    run::lemma_left_next(host, plan, world, 0, plan);
    run::lemma_run_begins(host, plan, world, 1);
}

// ── Success and failure ──────────────────────────────────────────────────────

/// A command that must succeed and does not stops the workflow, with an error
/// that names what was executed.
pub proof fn a_required_failure_stops(
    host: Host,
    plan: Seq<StepView>,
    world: World,
    n: nat,
    command: CommandView,
    rest: Seq<StepView>,
)
    requires
        run::left_at(host, plan, world, n) == Ok::<_, Error<Seq<char>>>(
            seq![plan::require(command)] + rest,
        ),
        !(world(n + 1) is Success),
    ensures
        run::run_at(host, plan, world, n).0 == ProgressView::Act(
            ActionView::Execute {
                io: Io::Stream,
                invocation: cmd::invocation_of(host.root, command),
            },
        ),
        run::run_at(host, plan, world, n + 1).0 == ProgressView::Stopped(
            cmd::result_of(
                cmd::invocation_of(host.root, command).program,
                world(n + 1),
            )->Err_0,
        ),
{
    let steps = seq![plan::require(command)] + rest;
    run::lemma_run_begins(host, plan, world, n);
    run::lemma_left_next(host, plan, world, n, steps);
    run::lemma_run_begins(host, plan, world, n + 1);
}

/// A command that may fail is run, and the steps behind it follow however it
/// ends.
pub proof fn an_attempt_never_stops(
    host: Host,
    plan: Seq<StepView>,
    world: World,
    n: nat,
    command: CommandView,
    rest: Seq<StepView>,
)
    requires
        run::left_at(host, plan, world, n) == Ok::<_, Error<Seq<char>>>(
            seq![plan::attempt(command)] + rest,
        ),
    ensures
        run::run_at(host, plan, world, n).0 == ProgressView::Act(
            ActionView::Execute {
                io: Io::Stream,
                invocation: cmd::invocation_of(host.root, command),
            },
        ),
        run::left_at(host, plan, world, n + 1) == Ok::<_, Error<Seq<char>>>(rest),
{
    let steps = seq![plan::attempt(command)] + rest;
    run::lemma_run_begins(host, plan, world, n);
    run::lemma_left_next(host, plan, world, n, steps);
    assert(Seq::<StepView>::empty() + steps.skip(1) =~= rest);
}

/// A command whose failure is logged is run, and the steps behind it follow
/// however it ends. If it failed, a line is logged first that names what was
/// executed and its status, or the cause that kept it from starting.
pub proof fn a_failed_effort_is_logged(
    host: Host,
    plan: Seq<StepView>,
    world: World,
    n: nat,
    command: CommandView,
    rest: Seq<StepView>,
)
    requires
        run::left_at(host, plan, world, n) == Ok::<_, Error<Seq<char>>>(
            seq![plan::effort(command)] + rest,
        ),
    ensures
        run::run_at(host, plan, world, n).0 == ProgressView::Act(
            ActionView::Execute {
                io: Io::Stream,
                invocation: cmd::invocation_of(host.root, command),
            },
        ),
        ({
            let program = cmd::invocation_of(host.root, command).program;
            let logged = match world(n + 1) {
                Outcome::Success(_) => None,
                Outcome::Failure(status) => Some(program + " exited with status "@ + status),
                Outcome::NotStarted(cause) => Some(
                    "failed to execute "@ + program + ": "@ + cause,
                ),
            };
            match logged {
                None => run::left_at(host, plan, world, n + 1) == Ok::<_, Error<Seq<char>>>(rest),
                Some(line) => {
                    &&& run::run_at(host, plan, world, n + 1).0 == ProgressView::Act(
                        ActionView::Log(line),
                    )
                    &&& run::left_at(host, plan, world, n + 2) == Ok::<_, Error<Seq<char>>>(rest)
                },
            }
        }),
{
    let steps = seq![plan::effort(command)] + rest;
    let more = plan::noted(cmd::invocation_of(host.root, command).program, world(n + 1));
    run::lemma_run_begins(host, plan, world, n);
    run::lemma_left_next(host, plan, world, n, steps);
    assert(steps.skip(1) =~= rest);
    if world(n + 1) is Success {
        assert(more + rest =~= rest);
    } else {
        run::lemma_run_begins(host, plan, world, n + 1);
        run::lemma_left_next(host, plan, world, n + 1, more + rest);
        assert(Seq::<StepView>::empty() + (more + rest).skip(1) =~= rest);
    }
}

/// Whether a question asks for workloads that are to be stopped.
pub open spec fn is_workload_topic(topic: Topic<Seq<char>>) -> bool {
    match topic {
        Topic::DrainNode { logged } => logged,
        Topic::RunningContainers => true,
        Topic::Exiting(_) => true,
        Topic::Stragglers => true,
        Topic::PodSandboxes => true,
        _ => false,
    }
}

/// A question for workloads that cannot be answered is logged, before the
/// workflow goes on as if there were none.
pub proof fn an_unanswered_question_for_workloads_is_logged(
    host: Host,
    topic: Topic<Seq<char>>,
    program: Seq<char>,
    outcome: Outcome<Seq<char>>,
)
    requires
        is_workload_topic(topic),
        !(outcome is Success),
    ensures
        workflow::follow_up(host, topic, program, outcome) =~= seq![
            StepView::Log(
                match outcome {
                    Outcome::Failure(status) => program + " exited with status "@ + status,
                    Outcome::NotStarted(cause) => "failed to execute "@ + program + ": "@ + cause,
                    Outcome::Success(answer) => answer,
                },
            ),
        ] + workflow::follow_up(host, topic, program, Outcome::Success(Seq::empty())),
{
}

/// Once a workflow has finished or stopped, no further call asks for an action.
pub proof fn nothing_is_done_after_the_end(
    host: Host,
    plan: Seq<StepView>,
    world: World,
    n: nat,
    m: nat,
)
    requires
        !(run::run_at(host, plan, world, n).0 is Act),
        n < m,
    ensures
        run::run_at(host, plan, world, m).0 == ProgressView::Finished,
{
    run::lemma_run_over(host, plan, world, n, m);
}

/// Whether a step goes well and leads to nothing more.
pub open spec fn settles(host: Host, step: StepView, outcome: Outcome<Seq<char>>) -> bool {
    &&& !(step is Fail)
    &&& workflow::resolved(host, workflow::awaiting_of(host.root, step), outcome) == Ok::<
        _,
        Error<Seq<char>>,
    >(Seq::<StepView>::empty())
}

/// If every step goes well and leads to nothing more, the steps are done in
/// their order, each once, and then the workflow has finished.
pub proof fn steps_are_done_in_order(host: Host, plan: Seq<StepView>, world: World, n: nat)
    requires
        forall|i: int|
            0 <= i < plan.len() ==> settles(host, #[trigger] plan[i], world((i + 1) as nat)),
        n <= plan.len(),
    ensures
        n < plan.len() ==> run::run_at(host, plan, world, n).0 == ProgressView::Act(
            workflow::action_of(host.root, plan[n as int])->0,
        ),
        n == plan.len() ==> run::run_at(host, plan, world, n).0 == ProgressView::Finished,
{
    lemma_left_in_order(host, plan, world, n);
    run::lemma_run_begins(host, plan, world, n);
    if n < plan.len() {
        assert(settles(host, plan[n as int], world((n + 1) as nat)));
    }
}

/// If every step goes well, the steps behind those that were done are left.
proof fn lemma_left_in_order(host: Host, plan: Seq<StepView>, world: World, n: nat)
    requires
        forall|i: int|
            0 <= i < plan.len() ==> settles(host, #[trigger] plan[i], world((i + 1) as nat)),
        n <= plan.len(),
    ensures
        run::left_at(host, plan, world, n) == Ok::<_, Error<Seq<char>>>(plan.skip(n as int)),
    decreases n,
{
    if n == 0 {
        assert(plan.skip(0) =~= plan);
    } else {
        let before = (n - 1) as nat;
        let left = plan.skip(before as int);
        lemma_left_in_order(host, plan, world, before);
        assert(left[0] == plan[before as int]);
        assert(settles(host, plan[before as int], world(n)));
        run::lemma_left_next(host, plan, world, before, left);
        assert(Seq::<StepView>::empty() + left.skip(1) =~= plan.skip(n as int));
    }
}

// ── Installing and uninstalling ──────────────────────────────────────────────

/// Whether a question looks for a dependency, to install it if it is absent.
pub open spec fn is_install_topic(topic: Topic<Seq<char>>) -> bool {
    match topic {
        Topic::Containerd(_) => true,
        Topic::Runc(_) => true,
        Topic::CniPlugins(_) => true,
        Topic::Crictl(_) => true,
        Topic::Component { .. } => true,
        Topic::Helm(_) => true,
        Topic::CiliumCli(_) => true,
        _ => false,
    }
}

/// Whether a question looks for a dependency, to remove it if it is there.
pub open spec fn is_removal_topic(topic: Topic<Seq<char>>) -> bool {
    match topic {
        Topic::RemoveComponent(_) => true,
        Topic::RemoveCrictl => true,
        Topic::RemoveCiliumCli => true,
        Topic::RemoveHelm => true,
        Topic::RemoveContainerd => true,
        Topic::RemoveRunc => true,
        _ => false,
    }
}

/// A dependency that is found is not installed again.
pub proof fn present_dependencies_are_skipped(
    host: Host,
    topic: Topic<Seq<char>>,
    program: Seq<char>,
    found: Seq<char>,
)
    requires
        is_install_topic(topic),
        topic is CniPlugins ==> found.len() > 0,
    ensures
        workflow::follow_up(host, topic, program, Outcome::Success(found)) == Seq::<
            StepView,
        >::empty(),
{
}

/// A dependency that is not found is installed by commands that must succeed,
/// or refused where no release exists for the architecture.
pub proof fn absent_dependencies_are_installed(
    host: Host,
    topic: Topic<Seq<char>>,
    program: Seq<char>,
    outcome: Outcome<Seq<char>>,
)
    requires
        is_install_topic(topic),
        !(outcome is Success),
    ensures
        ({
            let more = workflow::follow_up(host, topic, program, outcome);
            &&& more.len() > 0
            &&& run::all(more, |step: StepView| step matches StepView::Run { on_failure: OnFailure::Stop, .. })
                || (deps::go_arch_of(host.arch@) is Err && more =~= seq![
                StepView::Fail(Error::UnsupportedArchitecture(host.arch@)),
            ])
        }),
{
}

/// A dependency that is not found is not removed.
pub proof fn absent_dependencies_are_not_removed(
    host: Host,
    topic: Topic<Seq<char>>,
    program: Seq<char>,
    outcome: Outcome<Seq<char>>,
)
    requires
        is_removal_topic(topic),
        !(outcome is Success),
    ensures
        workflow::follow_up(host, topic, program, outcome) == Seq::<StepView>::empty(),
{
}

/// On a host that has everything, installing looks for each dependency and sets
/// the kubelet service up, and does nothing else: every lookup succeeds, and the
/// listing of the CNI plugins is not empty.
pub proof fn an_equipped_host_is_left_alone(
    host: Host,
    kubernetes_version: Option<Seq<char>>,
    cilium_version: Option<Seq<char>>,
    world: World,
    n: nat,
)
    requires
        deps::go_arch_of(host.arch@) is Ok,
        forall|i: nat| (#[trigger] world(i)) is Success,
        cmd::text_of(
            world(
                if host.root {
                    3
                } else {
                    4
                },
            ),
        ).len() > 0,
    ensures
        ({
            let install = deps::install_all_plan(host, kubernetes_version, cilium_version);
            &&& n < install.len() ==> run::run_at(host, install, world, n).0 == ProgressView::Act(
                workflow::action_of(host.root, install[n as int])->0,
            )
            &&& n == install.len() ==> run::run_at(host, install, world, n).0
                == ProgressView::Finished
            &&& run::all(
                install,
                |step: StepView|
                    step is Ask || deps::install_kubelet_service_plan(host).contains(step),
            )
        }),
{
    let install = deps::install_all_plan(host, kubernetes_version, cilium_version);
    let kubelet = deps::install_kubelet_service_plan(host);
    assert(kubelet.contains(kubelet[0]));
    assert(kubelet.contains(kubelet[1]));
    assert(kubelet.contains(kubelet[2]));
    assert forall|i: int| 0 <= i < install.len() implies settles(
        host,
        #[trigger] install[i],
        world((i + 1) as nat),
    ) by {
        assert(world((i + 1) as nat) is Success);
    }
    if n <= install.len() {
        steps_are_done_in_order(host, install, world, n);
    }
}

/// Whether a step removes a path.
pub open spec fn removes(step: StepView, path: Seq<char>) -> bool {
    step matches StepView::Run { command, .. } && command.program == "rm"@ && command.args.len()
        == 2 && command.args[1] == path
}

/// Where installing puts a file, uninstalling removes it: the Kubernetes
/// binaries and runc.
pub proof fn fetched_binaries_are_removed(
    host: Host,
    component: Seq<char>,
    base_url: Seq<char>,
    version: Option<Seq<char>>,
)
    ensures
        ({
            let path = host.settings.bin_dir@ + "/"@ + component;
            &&& deps::install_component_plan(host, component, base_url, false) =~= seq![
                deps::script(
                    deps::fetch_binary_script(base_url + "/"@ + component, path),
                ),
            ]
            &&& removes(deps::remove_binary_plan(host.settings.bin_dir@, component, true)[0], path)
        }),
        deps::go_arch_of(host.arch@) matches Ok(arch) ==> {
            let path = host.settings.sbin_dir@ + "/runc"@;
            let url = deps::expanded_url(
                host.settings.url_runc@,
                deps::version_of(version, crate::config::DEFAULT_RUNC_VERSION@),
                arch,
            );
            &&& deps::install_runc_plan(host, version, false) =~= seq![
                deps::script(deps::fetch_binary_script(url, path)),
            ]
            &&& removes(deps::remove_binary_plan(host.settings.sbin_dir@, "runc"@, true)[0], path)
        },
{
    reveal_strlit("/");
    reveal_strlit("runc");
    reveal_strlit("/runc");
    assert("/"@ + "runc"@ =~= "/runc"@);
    assert(host.settings.sbin_dir@ + "/"@ + "runc"@ =~= host.settings.sbin_dir@ + "/runc"@);
}

/// Uninstalling removes the directories and service files that installing
/// writes to, and the files that the preflight checks leave behind.
pub proof fn written_paths_are_removed(host: Host, path: Seq<char>)
    requires
        ({
            ||| path == host.settings.cni_bin_dir@
            ||| path == host.settings.systemd_unit_dir@ + "/kubelet.service"@
            ||| path == host.settings.systemd_unit_dir@ + "/kubelet.service.d"@
            ||| path == "/etc/modules-load.d/kubeinit.conf"@
            ||| path == "/etc/sysctl.d/99-kubeinit.conf"@
        }),
    ensures
        exists|i: int|
            0 <= i < deps::uninstall_all_plan(host).len() && removes(
                #[trigger] deps::uninstall_all_plan(host)[i],
                path,
            ),
{
    let before = cmd::ensure_privilege_plan(host.root) + seq![
        plan::probe("helm"@, Topic::UninstallReleases),
    ] + deps::stop_cluster_workloads_plan();
    let components = deps::uninstall_kubernetes_components_plan(host);
    let plan = deps::uninstall_all_plan(host);
    let start = before.len() as int;
    assert(removes(components[4], host.settings.systemd_unit_dir@ + "/kubelet.service"@));
    assert(removes(components[5], host.settings.systemd_unit_dir@ + "/kubelet.service.d"@));
    assert(plan[start + 4] == components[4]);
    assert(plan[start + 5] == components[5]);
    assert(plan[start + 13] == deps::uninstall_cni_plugins_plan(host)[0]);
    assert(plan[start + 18] == cluster::remove_own_files_plan(host)[0]);
    assert(plan[start + 19] == cluster::remove_own_files_plan(host)[1]);
}

/// With containerd, its service file and its configuration are removed; with
/// crictl, its configuration.
pub proof fn configuration_is_removed_with_its_binary(host: Host)
    ensures
        ({
            let containerd = deps::uninstall_containerd_plan(host, true);
            let crictl = deps::uninstall_crictl_plan(host, true);
            &&& exists|i: int|
                0 <= i < containerd.len() && removes(
                    #[trigger] containerd[i],
                    host.settings.systemd_unit_dir@ + "/containerd.service"@,
                )
            &&& exists|i: int|
                0 <= i < containerd.len() && removes(
                    #[trigger] containerd[i],
                    host.settings.containerd_conf_dir@,
                )
            &&& exists|i: int|
                0 <= i < crictl.len() && removes(
                    #[trigger] crictl[i],
                    host.settings.crictl_config@,
                )
        }),
{
    let containerd = deps::uninstall_containerd_plan(host, true);
    let crictl = deps::uninstall_crictl_plan(host, true);
    assert(removes(
        containerd[8],
        host.settings.systemd_unit_dir@ + "/containerd.service"@,
    ));
    assert(removes(containerd[9], host.settings.containerd_conf_dir@));
    assert(removes(crictl[1], host.settings.crictl_config@));
}

/// Whether a step can stop an uninstall only for want of privileges or of a
/// confirmation, or because a binary could not be removed.
pub open spec fn uninstalls(step: StepView) -> bool {
    match step {
        StepView::Run { command, on_failure } => on_failure is Stop ==> command.program == "rm"@,
        StepView::Ask { topic, .. } => ends::tolerant_topic(topic) || is_removal_topic(topic)
            || topic is Elevation,
        StepView::Prompt { topic, .. } => ends::tolerant_topic(topic) || topic is ConfirmUninstall,
        StepView::Print(_) => true,
        StepView::Log(_) => true,
        StepView::Sleep(_) => true,
        StepView::Fail(error) => ({
            ||| error matches Error::NotStarted { program, .. } && program == "sudo"@
            ||| error is SudoRequired
            ||| error is Aborted
            ||| error is NoReply
        }),
    }
}

/// The steps of an uninstall.
proof fn lemma_uninstall_all_uninstalls(host: Host)
    ensures
        run::all(deps::uninstall_all_plan(host), |step: StepView| uninstalls(step)),
{
}

/// What a tolerant question leads to.
proof fn lemma_tolerant_uninstalls(
    host: Host,
    topic: Topic<Seq<char>>,
    program: Seq<char>,
    outcome: Outcome<Seq<char>>,
)
    requires
        ends::tolerant_topic(topic),
    ensures
        run::all(
            workflow::follow_up(host, topic, program, outcome),
            |step: StepView| uninstalls(step),
        ),
{
    ends::lemma_follow_up_tolerant(host, topic, program, outcome);
    let more = workflow::follow_up(host, topic, program, outcome);
    assert forall|i: int| 0 <= i < more.len() implies uninstalls(#[trigger] more[i]) by {
        assert(ends::tolerant(more[i]));
    }
}

/// An uninstall stops only if the user does not confirm it, if `sudo` does not
/// grant privileges, or if a binary cannot be removed: nothing else that fails
/// keeps it from going on.
pub proof fn an_uninstall_stops_only_for_removals(
    host: Host,
    force: bool,
    world: World,
    n: nat,
)
    ensures
        run::run_at(host, deps::confirm_uninstall_plan(host, force), world, n).0 matches
            ProgressView::Stopped(error) ==> ({
            ||| error is SudoRequired
            ||| error is Aborted
            ||| error is NoReply
            ||| error matches Error::NotStarted { program, .. } && (program == "sudo"@ || program
                == "rm"@)
            ||| error matches Error::Exited { program, .. } && (program == "sudo"@ || program
                == "rm"@)
        }),
{
    let steps = deps::confirm_uninstall_plan(host, force);
    let kind = |step: StepView| uninstalls(step);
    assert(run::all(steps, kind)) by {
        lemma_uninstall_all_uninstalls(host);
    }
    assert(run::passes_on(host, kind)) by {
        assert forall|step: StepView, program: Seq<char>, outcome: Outcome<Seq<char>>|
            #![trigger kind(step), workflow::follow_up(host, run::topic_of(step)->0, program, outcome)]
            kind(step) && run::topic_of(step) is Some implies run::all(
            workflow::follow_up(host, run::topic_of(step)->0, program, outcome),
            kind,
        ) by {
            let topic = run::topic_of(step)->0;
            if ends::tolerant_topic(topic) {
                lemma_tolerant_uninstalls(host, topic, program, outcome);
            } else if topic is ConfirmUninstall {
                lemma_uninstall_all_uninstalls(host);
            }
        }
    }
    run::lemma_run_begins(host, steps, world, n);
    run::lemma_all_left(host, steps, world, kind, n);
    match run::left_at(host, steps, world, n) {
        Ok(left) => {
            if left.len() > 0 {
                assert(kind(left[0]));
            }
        },
        Err(error) => {
            let before = (n - 1) as nat;
            run::lemma_run_begins(host, steps, world, before);
            run::lemma_all_left(host, steps, world, kind, before);
            match run::left_at(host, steps, world, before) {
                Ok(left) => {
                    if left.len() > 0 {
                        assert(kind(left[0]));
                    }
                },
                Err(_) => {},
            }
        },
    }
}

/// An uninstall that is not forced begins with a question, and only a `yes`
/// leads to anything more.
pub proof fn an_unconfirmed_uninstall_does_nothing(host: Host, world: World)
    ensures
        ({
            let steps = deps::confirm_uninstall_plan(host, false);
            &&& run::run_at(host, steps, world, 0).0 matches ProgressView::Act(
                ActionView::Prompt(_),
            )
            &&& !(world(1) matches Outcome::Success(reply) && net::is_yes(text::trimmed(reply)))
                ==> run::run_at(host, steps, world, 1).0 == ProgressView::Stopped(
                match world(1) {
                    Outcome::Success(_) => Error::Aborted,
                    Outcome::NotStarted(cause) => Error::NoReply(cause),
                    Outcome::Failure(cause) => Error::NoReply(cause),
                },
            )
        }),
{
    let steps = deps::confirm_uninstall_plan(host, false);
    run::lemma_run_begins(host, steps, world, 0);
    run::lemma_left_next(host, steps, world, 0, steps);
    run::lemma_run_begins(host, steps, world, 1);
}

/// Whether a step only talks to the cluster and its services.
pub open spec fn stops_workloads(step: StepView) -> bool {
    match step {
        StepView::Run { command, .. } => ({
            ||| command.program == "helm"@
            ||| command.program == "kubectl"@
            ||| command.program == "kubeadm"@
            ||| command.program == "systemctl"@
            ||| command.program == "crictl"@
        }),
        StepView::Ask { topic, .. } => ends::tolerant_topic(topic),
        StepView::Log(_) => true,
        StepView::Sleep(_) => true,
        _ => false,
    }
}

/// Removing pod sandboxes talks to crictl only.
proof fn lemma_sandboxes_stop(ids: Seq<Seq<char>>)
    ensures
        run::all(deps::remove_sandboxes(ids), |step: StepView| stops_workloads(step)),
    decreases ids.len(),
{
    if ids.len() > 0 {
        lemma_sandboxes_stop(ids.drop_last());
    }
}

/// Stopping workloads leads to nothing else.
proof fn lemma_stopping_passes_on(host: Host)
    ensures
        run::passes_on(host, |step: StepView| stops_workloads(step)),
{
    let kind = |step: StepView| stops_workloads(step);
    assert forall|step: StepView, program: Seq<char>, outcome: Outcome<Seq<char>>|
        #![trigger kind(step), workflow::follow_up(host, run::topic_of(step)->0, program, outcome)]
        kind(step) && run::topic_of(step) is Some implies run::all(
        workflow::follow_up(host, run::topic_of(step)->0, program, outcome),
        kind,
    ) by {
        if run::topic_of(step)->0 is PodSandboxes {
            lemma_sandboxes_stop(deps::listed_ids(cmd::text_of(outcome)));
            run::lemma_all_concat(
                plan::noted(program, outcome),
                deps::remove_sandboxes(deps::listed_ids(cmd::text_of(outcome))),
                kind,
            );
        }
    }
}

/// Whether the call of `advance` number `n` of an uninstall begins a step that
/// only talks to the cluster and its services.
pub open spec fn is_stopping(host: Host, world: World, n: nat) -> bool {
    ends::begins(
        host,
        deps::uninstall_all_plan(host),
        world,
        n,
        |step: StepView| stops_workloads(step),
    )
}

/// Once privileges are granted, an uninstall gets to the removal of components
/// whatever the host answers, and until then it has only called tools of the
/// cluster: nothing is removed before the workloads are stopped.
pub proof fn workloads_are_stopped_before_components_are_removed(host: Host, world: World)
    requires
        host.root || world(1) is Success,
    ensures
        exists|n: nat|
            {
                &&& #[trigger] run::left_at(host, deps::uninstall_all_plan(host), world, n) == Ok::<
                    _,
                    Error<Seq<char>>,
                >(deps::remove_components_plan(host))
                &&& forall|k: nat|
                    (if host.root {
                        0nat
                    } else {
                        1nat
                    }) <= k < n ==> #[trigger] is_stopping(host, world, k)
            },
{
    let kind = |step: StepView| stops_workloads(step);
    let whole = deps::uninstall_all_plan(host);
    let steps = seq![plan::probe("helm"@, Topic::UninstallReleases)]
        + deps::stop_cluster_workloads_plan();
    let rest = deps::remove_components_plan(host);
    assert(run::all(steps, kind));
    assert(run::all(steps, |step: StepView| ends::tolerant(step)));
    lemma_stopping_passes_on(host);
    if host.root {
        assert(whole =~= steps + rest);
        let n = ends::lemma_tolerant_done(host, whole, world, 0, steps, rest, kind);
        assert forall|k: nat| 0 <= k < n implies #[trigger] is_stopping(host, world, k) by {
            assert(ends::begins(host, whole, world, k, kind));
        }
    } else {
        run::lemma_left_next(host, whole, world, 0, whole);
        assert(Seq::<StepView>::empty() + whole.skip(1) =~= steps + rest);
        let n = ends::lemma_tolerant_done(host, whole, world, 1, steps, rest, kind);
        assert forall|k: nat| 1 <= k < n implies #[trigger] is_stopping(host, world, k) by {
            assert(ends::begins(host, whole, world, k, kind));
        }
    }
}

/// Whether neither a step nor anything that it leads to is logged.
pub open spec fn unlogged(step: StepView) -> bool {
    match step {
        StepView::Run { on_failure, .. } => !(on_failure is Log),
        StepView::Ask { topic, .. } => unlogged_topic(topic),
        StepView::Prompt { topic, .. } => unlogged_topic(topic),
        StepView::Log(_) => false,
        _ => true,
    }
}

/// Whether nothing is logged that an answer leads to.
pub open spec fn unlogged_topic(topic: Topic<Seq<char>>) -> bool {
    match topic {
        Topic::Drain { logged } => !logged,
        Topic::DrainNode { logged } => !logged,
        Topic::KubeadmReset => false,
        Topic::Containers => false,
        Topic::RunningContainers => false,
        Topic::Exiting(_) => false,
        Topic::Stragglers => false,
        Topic::PodSandboxes => false,
        Topic::ConfirmUninstall => false,
        _ => true,
    }
}

/// Setting a cluster up logs nothing.
proof fn lemma_set_up_unlogged(host: Host, endpoint: Seq<char>, options: InitOptions<Seq<char>>)
    ensures
        run::all(
            cluster::set_up_plan(host, endpoint, options),
            |step: StepView| unlogged(step),
        ),
{
    ends::lemma_set_up_all(host, endpoint, options, |step: StepView| unlogged(step));
}

/// What a question leads to that logs nothing logs nothing either.
#[verifier::rlimit(60)]
#[verifier::spinoff_prover]
proof fn lemma_follow_up_unlogged(
    host: Host,
    topic: Topic<Seq<char>>,
    program: Seq<char>,
    outcome: Outcome<Seq<char>>,
)
    requires
        unlogged_topic(topic),
    ensures
        run::all(
            workflow::follow_up(host, topic, program, outcome),
            |step: StepView| unlogged(step),
        ),
{
    if let Topic::Endpoint { address, options } = topic {
        if let Outcome::Success(reply) = outcome {
            if let Some(endpoint) = net::chosen_endpoint(address, reply) {
                lemma_set_up_unlogged(host, endpoint, options);
            }
        }
    }
}

/// The plan of a request other than an uninstall logs nothing.
proof fn lemma_request_unlogged(host: Host, request: Request<Seq<char>>)
    requires
        !(request is Uninstall),
    ensures
        run::all(cli::request_plan(host, request), |step: StepView| unlogged(step)),
{
    let kind = |step: StepView| unlogged(step);
    match request {
        Request::Init { endpoint, options } => {
            let install = deps::install_all_plan(
                host,
                options.kubernetes_version,
                options.cilium_version,
            );
            let resolve = net::resolve_control_plane_endpoint_plan(host, endpoint, options);
            assert(run::all(install, kind));
            if let Some(address) = endpoint {
                lemma_set_up_unlogged(host, address, options);
            }
            assert(run::all(resolve, kind));
            run::lemma_all_concat(install, resolve, kind);
        },
        Request::Join {
            role,
            token,
            api_server,
            ca_cert_hash,
            certificate_key,
            kubernetes_version,
            cilium_version,
        } => {
            let install = deps::install_all_plan(host, kubernetes_version, cilium_version);
            let preflight = cluster::preflight_checks_plan();
            let join = cli::join_as_plan(
                host,
                cluster::role_of(role),
                token,
                api_server,
                ca_cert_hash,
                certificate_key,
            );
            assert(run::all(install, kind));
            assert(run::all(preflight, kind));
            assert(run::all(join, kind));
            run::lemma_all_concat(install, preflight, kind);
            run::lemma_all_concat(install + preflight, join, kind);
        },
        _ => {},
    }
}

/// A plan of steps that log nothing never logs anything.
proof fn lemma_never_logs(host: Host, plan: Seq<StepView>, world: World, n: nat)
    requires
        run::all(plan, |step: StepView| unlogged(step)),
    ensures
        !(run::run_at(host, plan, world, n).0 matches ProgressView::Act(ActionView::Log(_))),
{
    let kind = |step: StepView| unlogged(step);
    assert(run::passes_on(host, kind)) by {
        assert forall|step: StepView, program: Seq<char>, outcome: Outcome<Seq<char>>|
            #![trigger kind(step), workflow::follow_up(host, run::topic_of(step)->0, program, outcome)]
            kind(step) && run::topic_of(step) is Some implies run::all(
            workflow::follow_up(host, run::topic_of(step)->0, program, outcome),
            kind,
        ) by {
            lemma_follow_up_unlogged(host, run::topic_of(step)->0, program, outcome);
        }
    }
    run::lemma_all_left(host, plan, world, kind, n);
    run::lemma_run_begins(host, plan, world, n);
    if let Ok(left) = run::left_at(host, plan, world, n) {
        if left.len() > 0 {
            assert(kind(left[0]));
        }
    }
}

/// No request but an uninstall logs anything, whatever fails.
pub proof fn only_an_uninstall_logs(
    host: Host,
    request: Request<Seq<char>>,
    world: World,
    n: nat,
)
    requires
        !(request is Uninstall),
    ensures
        !(run::run_at(host, cli::request_plan(host, request), world, n).0 matches
            ProgressView::Act(ActionView::Log(_))),
{
    lemma_request_unlogged(host, request);
    lemma_never_logs(host, cli::request_plan(host, request), world, n);
}

/// An uninstall logs nothing while it removes releases or components, whatever
/// fails: only while it stops workloads.
pub proof fn removals_are_not_logged(host: Host, world: World, n: nat)
    ensures
        !(run::run_at(host, deps::remove_components_plan(host), world, n).0 matches
            ProgressView::Act(ActionView::Log(_))),
        !(run::run_at(
            host,
            seq![plan::probe("helm"@, Topic::UninstallReleases)],
            world,
            n,
        ).0 matches ProgressView::Act(ActionView::Log(_))),
{
    lemma_never_logs(host, deps::remove_components_plan(host), world, n);
    lemma_never_logs(host, seq![plan::probe("helm"@, Topic::UninstallReleases)], world, n);
}

/// Every line of a listing names an identifier, unless it is blank, and every
/// identifier is a line of the listing.
pub proof fn every_line_names_an_identifier(listing: Seq<char>, id: Seq<char>)
    ensures
        deps::listed_ids(listing).contains(id) <==> id.len() > 0 && exists|i: int|
            0 <= i < text::lines(listing).len() && text::trimmed(
                #[trigger] text::lines(listing)[i],
            ) == id,
{
    let trimmed = text::lines(listing).map_values(|line: Seq<char>| text::trimmed(line));
    let named = |id: Seq<char>| id.len() > 0;
    if deps::listed_ids(listing).contains(id) {
        let k = deps::listed_ids(listing).index_of(id);
        trimmed.lemma_filter_pred(named, k);
        trimmed.lemma_filter_contains_rev(named, id);
        let i = trimmed.index_of(id);
        assert(text::trimmed(text::lines(listing)[i]) == id);
    }
    if id.len() > 0 && exists|i: int|
        0 <= i < text::lines(listing).len() && text::trimmed(
            #[trigger] text::lines(listing)[i],
        ) == id {
        let i = choose|i: int|
            0 <= i < text::lines(listing).len() && text::trimmed(
                #[trigger] text::lines(listing)[i],
            ) == id;
        assert(trimmed[i] == id);
        trimmed.lemma_filter_contains(named, i);
    }
}

/// Every container that is listed as running is stopped, before their exit is
/// waited for; every one that has not exited after that is removed.
pub proof fn every_listed_container_is_stopped(listing: Seq<char>, id: Seq<char>)
    requires
        deps::listed_ids(listing).contains(id),
    ensures
        exists|i: int|
            0 <= i < deps::containers_listed_plan(listing).len() - 2
                && #[trigger] deps::containers_listed_plan(listing)[i] == deps::stop_container(id),
        deps::stragglers_listed_plan(listing).contains(deps::remove_container(id)),
{
    let ids = deps::listed_ids(listing);
    let k = ids.index_of(id);
    assert(listing.len() > 0) by {
        if listing.len() == 0 {
            every_line_names_an_identifier(listing, id);
        }
    }
    assert(deps::containers_listed_plan(listing)[k] == deps::stop_container(id));
    assert(deps::stragglers_listed_plan(listing)[k] == deps::remove_container(id));
}

// ── Resetting ────────────────────────────────────────────────────────────────

/// A reset that is not forced does nothing.
pub proof fn an_unforced_reset_does_nothing(host: Host, world: World)
    ensures
        run::run_at(host, cluster::reset_cluster_plan(host, false), world, 0).0
            == ProgressView::Finished,
{
    run::lemma_run_begins(host, cluster::reset_cluster_plan(host, false), world, 0);
}

/// Whether a reset removes this path.
pub open spec fn is_reset_path(host: Host, path: Seq<char>) -> bool {
    ||| path == host.settings.cni_conf_dir@
    ||| path == host.settings.kubelet_data_dir@
    ||| path == host.settings.kubernetes_conf_dir@
    ||| path == "/var/lib/longhorn"@
    ||| path == "/etc/modules-load.d/kubeinit.conf"@
    ||| path == "/etc/sysctl.d/99-kubeinit.conf"@
    ||| host.user matches Some(user) && path == user.home@ + "/.kube"@
}

/// Whether a step of a reset leaves everything alone but what a reset is meant
/// to remove: it calls a tool of the cluster or the network, or removes a path
/// of the reset.
pub open spec fn resets(host: Host, step: StepView) -> bool {
    match step {
        StepView::Run { command, on_failure } => !(on_failure is Log) && ({
            ||| command.program == "helm"@
            ||| command.program == "kubectl"@
            ||| command.program == "kubeadm"@
            ||| command.program == "systemctl"@
            ||| command.program == "iptables"@
            ||| command.program == "ipvsadm"@
            ||| command.program == "rm"@ && command.args.len() == 2 && is_reset_path(
                host,
                command.args[1],
            )
        }),
        StepView::Ask { io, command, topic } => ({
            &&& command.program == "which"@ || command.program == "hostname"@
            &&& topic is ResetReleases || topic is GatewayApi || topic == Topic::<
                Seq<char>,
            >::Drain { logged: false } || topic == Topic::<Seq<char>>::DrainNode { logged: false }
        }),
        _ => false,
    }
}

/// A reset leaves the installed binaries intact: whatever the host answers, it
/// removes nothing but configuration and data of the cluster.
pub proof fn a_reset_leaves_binaries_intact(host: Host, force: bool, world: World, n: nat)
    ensures
        run::left_at(host, cluster::reset_cluster_plan(host, force), world, n) matches Ok(steps)
            ==> run::all(steps, |step: StepView| resets(host, step)),
{
    let steps = cluster::reset_cluster_plan(host, force);
    let kind = |step: StepView| resets(host, step);
    assert(run::all(steps, kind));
    assert(run::passes_on(host, kind)) by {
        assert forall|step: StepView, program: Seq<char>, outcome: Outcome<Seq<char>>|
            #![trigger kind(step), workflow::follow_up(host, run::topic_of(step)->0, program, outcome)]
            kind(step) && run::topic_of(step) is Some implies run::all(
            workflow::follow_up(host, run::topic_of(step)->0, program, outcome),
            kind,
        ) by {}
    }
    run::lemma_all_left(host, steps, world, kind, n);
}

// ── Preflight ────────────────────────────────────────────────────────────────

/// On a host that is ready, the preflight checks change no kernel state: they
/// look, and write down what must survive a reboot.
pub proof fn a_ready_host_passes_preflight(host: Host, world: World, n: nat)
    requires
        forall|i: nat| 1 <= i <= 4 ==> (#[trigger] world(i)) is Success,
        !cluster::swap_enabled(cmd::text_of(world(5))),
        text::occurs(cmd::text_of(world(6)), "br_netfilter"@),
        text::occurs(cmd::text_of(world(6)), "overlay"@),
        world(7) is Success,
        text::trimmed(cmd::text_of(world(8))) == "1"@,
        text::trimmed(cmd::text_of(world(9))) == "1"@,
        world(10) is Success,
        world(11) is Success,
        n <= 11,
    ensures
        n < 11 ==> run::run_at(host, cluster::preflight_checks_plan(), world, n).0
            == ProgressView::Act(
            workflow::action_of(host.root, cluster::preflight_checks_plan()[n as int])->0,
        ),
        n == 11 ==> run::run_at(host, cluster::preflight_checks_plan(), world, n).0
            == ProgressView::Finished,
{
    let steps = cluster::preflight_checks_plan();
    assert(steps.len() == 11);
    assert(world(1) is Success && world(2) is Success && world(3) is Success && world(4)
        is Success);
    assert forall|i: int| 0 <= i < steps.len() implies settles(
        host,
        #[trigger] steps[i],
        world((i + 1) as nat),
    ) by {
        if i == 5 {
            let nothing = Seq::<StepView>::empty();
            assert(nothing + nothing =~= nothing);
        }
    }
    steps_are_done_in_order(host, steps, world, n);
}

/// The binaries that the preflight checks look for, in their order.
pub open spec fn required_binaries() -> Seq<Seq<char>> {
    seq!["kubeadm"@, "kubelet"@, "kubectl"@, "crictl"@]
}

/// The first required binary that is missing stops the preflight checks.
pub proof fn a_missing_binary_stops_preflight(host: Host, world: World, n: nat)
    requires
        n < 4,
        forall|i: nat| 1 <= i <= n ==> (#[trigger] world(i)) is Success,
        !(world(n + 1) is Success),
    ensures
        run::run_at(host, cluster::preflight_checks_plan(), world, n + 1).0
            == ProgressView::Stopped(Error::MissingBinary(required_binaries()[n as int])),
{
    let steps = cluster::preflight_checks_plan();
    lemma_preflight_binaries(host, world, n);
    let left = steps.skip(n as int);
    assert(left[0] == steps[n as int]);
    assert(steps[n as int] == cluster::binary_check(required_binaries()[n as int]));
    run::lemma_left_next(host, steps, world, n, left);
    run::lemma_run_begins(host, steps, world, n + 1);
}

/// Swap in use stops the preflight checks.
pub proof fn swap_stops_preflight(host: Host, world: World)
    requires
        forall|i: nat| 1 <= i <= 4 ==> (#[trigger] world(i)) is Success,
        cluster::swap_enabled(cmd::text_of(world(5))),
    ensures
        run::run_at(host, cluster::preflight_checks_plan(), world, 5).0 == ProgressView::Stopped(
            Error::SwapEnabled,
        ),
{
    let steps = cluster::preflight_checks_plan();
    lemma_preflight_binaries(host, world, 4);
    let left = steps.skip(4);
    assert(left[0] == steps[4]);
    run::lemma_left_next(host, steps, world, 4, left);
    run::lemma_run_begins(host, steps, world, 5);
}

/// Binaries that are there are passed over.
proof fn lemma_preflight_binaries(host: Host, world: World, n: nat)
    requires
        n <= 4,
        forall|i: nat| 1 <= i <= n ==> (#[trigger] world(i)) is Success,
    ensures
        run::left_at(host, cluster::preflight_checks_plan(), world, n) == Ok::<
            _,
            Error<Seq<char>>,
        >(cluster::preflight_checks_plan().skip(n as int)),
    decreases n,
{
    let steps = cluster::preflight_checks_plan();
    if n == 0 {
        assert(steps.skip(0) =~= steps);
    } else {
        let before = (n - 1) as nat;
        let left = steps.skip(before as int);
        lemma_preflight_binaries(host, world, before);
        assert(left[0] == steps[before as int]);
        assert(steps[before as int] == cluster::binary_check(required_binaries()[before as int]));
        run::lemma_left_next(host, steps, world, before, left);
        assert(world(n) is Success);
        assert(Seq::<StepView>::empty() + left.skip(1) =~= steps.skip(n as int));
    }
}

// ── Initializing ─────────────────────────────────────────────────────────────

/// kubeadm never installs kube-proxy: Cilium replaces it.
pub proof fn kube_proxy_is_always_skipped(
    config: ClusterConfig<Seq<char>>,
    cilium: CiliumConfig<Seq<char>>,
)
    ensures
        cluster::init_args(config)[7] == "--skip-phases"@,
        cluster::init_args(config)[8] == "addon/kube-proxy"@,
        cni::cilium_values(cilium)[0] == "--set"@,
        cni::cilium_values(cilium)[1] == "kubeProxyReplacement=true"@,
{
}

/// Versions may be given with or without leading `v`s: kubeadm is told one with
/// exactly one, and everything else one with none.
pub proof fn leading_v_makes_no_difference(
    host: Host,
    config: ClusterConfig<Seq<char>>,
    cilium: CiliumConfig<Seq<char>>,
    version: Seq<char>,
)
    ensures
        ({
            let longer = "v"@ + version;
            let plain = text::without_leading(version, 'v');
            &&& plain.len() > 0 ==> plain[0] != 'v'
            &&& cluster::init_args(
                ClusterConfig { kubernetes_version: Some(version), ..config },
            )[10] == "v"@ + plain
            &&& cluster::init_args(ClusterConfig { kubernetes_version: Some(longer), ..config })
                =~= cluster::init_args(
                ClusterConfig { kubernetes_version: Some(version), ..config },
            )
            &&& deps::install_kubernetes_components_plan(host, Some(longer))
                == deps::install_kubernetes_components_plan(host, Some(version))
            &&& cni::cilium_values(CiliumConfig { version: Some(longer), ..cilium })
                =~= cni::cilium_values(CiliumConfig { version: Some(version), ..cilium })
            &&& storage::storage_version(StorageConfig { version: Some(longer) })
                == storage::storage_version(StorageConfig { version: Some(version) })
        }),
{
    reveal_strlit("v");
    let longer = "v"@ + version;
    assert(longer[0] == 'v');
    assert(longer.skip(1) =~= version);
    lemma_without_leading(version, 'v');
}

/// What is left does not start with what was removed.
proof fn lemma_without_leading(s: Seq<char>, c: char)
    ensures
        text::without_leading(s, c).len() > 0 ==> text::without_leading(s, c)[0] != c,
    decreases s.len(),
{
    if s.len() > 0 && s[0] == c {
        lemma_without_leading(s.skip(1), c);
    }
}

/// Without the Gateway API, none of its definitions are applied and Cilium is
/// not told to serve it.
pub proof fn gateway_api_can_be_left_out(host: Host, config: CiliumConfig<Seq<char>>)
    requires
        !config.gateway_api,
    ensures
        cni::cilium_probed_plan(host, config, true) =~= cni::install_via_cli_plan(config),
        cni::helm_probed_plan(host, config, true) =~= cni::install_via_helm_plan(host, config),
        config.version is None ==> cni::cilium_values(config) =~= seq![
            "--set"@,
            "kubeProxyReplacement=true"@,
            "--set"@,
            "ipam.operator.clusterPoolIPv4PodCIDRList="@ + config.pod_cidr,
        ],
        config.version matches Some(version) ==> cni::cilium_values(config) =~= seq![
            "--set"@,
            "kubeProxyReplacement=true"@,
            "--set"@,
            "ipam.operator.clusterPoolIPv4PodCIDRList="@ + config.pod_cidr,
            "--version"@,
            text::without_leading(version, 'v'),
        ],
{
}

/// With the Gateway API, its definitions are applied before Cilium is
/// installed, whichever tool installs it, and Cilium serves it on the host
/// network.
pub proof fn gateway_api_comes_before_cilium(host: Host, config: CiliumConfig<Seq<char>>)
    requires
        config.gateway_api,
    ensures
        ({
            let apply = plan::require(
                cmd::as_user(
                    "kubectl"@,
                    seq!["apply"@, "--server-side"@, "-f"@, cni::gateway_api_url_of(host)],
                ),
            );
            &&& cni::cilium_probed_plan(host, config, true) =~= seq![apply]
                + cni::install_via_cli_plan(config)
            &&& cni::helm_probed_plan(host, config, true) =~= seq![apply]
                + cni::install_via_helm_plan(host, config)
        }),
        cni::cilium_values(config)[5] == "gatewayAPI.enabled=true"@,
        cni::cilium_values(config)[7] == "gatewayAPI.hostNetwork.enabled=true"@,
{
}

/// The Cilium CLI is preferred, and Helm is the fallback.
pub proof fn the_cilium_cli_is_preferred(
    host: Host,
    config: CiliumConfig<Seq<char>>,
    program: Seq<char>,
    cli: Outcome<Seq<char>>,
    helm: Outcome<Seq<char>>,
)
    ensures
        cli is Success ==> workflow::follow_up(host, Topic::Cilium(config), program, cli)
            == cni::apply_gateway_api_plan(host, config) + cni::install_via_cli_plan(config),
        !(cli is Success) ==> workflow::follow_up(host, Topic::Cilium(config), program, cli)
            =~= seq![plan::probe("helm"@, Topic::CiliumHelm(config))],
        helm is Success ==> workflow::follow_up(host, Topic::CiliumHelm(config), program, helm)
            == cni::apply_gateway_api_plan(host, config) + cni::install_via_helm_plan(host, config),
{
}

/// Without the Cilium CLI and without Helm, the installation of Cilium stops
/// after it has looked for both, and has changed nothing.
pub proof fn cilium_needs_its_cli_or_helm(
    host: Host,
    config: CiliumConfig<Seq<char>>,
    world: World,
)
    requires
        !(world(1) is Success),
        !(world(2) is Success),
    ensures
        ({
            let steps = cni::install_cilium_plan(config);
            &&& run::run_at(host, steps, world, 0).0 == ProgressView::Act(
                ActionView::Execute {
                    io: Io::Quiet,
                    invocation: InvocationView { program: "which"@, args: seq!["cilium"@] },
                },
            )
            &&& run::run_at(host, steps, world, 1).0 == ProgressView::Act(
                ActionView::Execute {
                    io: Io::Quiet,
                    invocation: InvocationView { program: "which"@, args: seq!["helm"@] },
                },
            )
            &&& run::run_at(host, steps, world, 2).0 == ProgressView::Stopped(
                Error::NoCniInstaller,
            )
        }),
{
    let steps = cni::install_cilium_plan(config);
    run::lemma_run_begins(host, steps, world, 0);
    run::lemma_left_next(host, steps, world, 0, steps);
    let second = cni::cilium_probed_plan(host, config, false) + steps.skip(1);
    run::lemma_run_begins(host, steps, world, 1);
    run::lemma_left_next(host, steps, world, 1, second);
    run::lemma_run_begins(host, steps, world, 2);
}

/// Storage is not installed on a node that keeps its control-plane `NoSchedule`
/// taint: the workflow stops right after the taints are read. If that taint is
/// gone, it goes on, whatever other taints the node has.
pub proof fn a_remaining_taint_stops(
    host: Host,
    plan: Seq<StepView>,
    world: World,
    n: nat,
    node: Seq<char>,
    rest: Seq<StepView>,
)
    requires
        node.len() > 0,
        run::left_at(host, plan, world, n) == Ok::<_, Error<Seq<char>>>(
            storage::node_named_plan(node).skip(1) + rest,
        ),
    ensures
        if storage::control_plane_taint_remains(cmd::text_of(world(n + 1))) {
            run::run_at(host, plan, world, n + 1).0 == ProgressView::Stopped(
                Error::TaintRemains(node),
            )
        } else {
            run::left_at(host, plan, world, n + 1) == Ok::<_, Error<Seq<char>>>(rest)
        },
{
    let question = storage::node_named_plan(node).skip(1) + rest;
    assert(question.skip(1) =~= rest);
    run::lemma_left_next(host, plan, world, n, question);
    run::lemma_run_begins(host, plan, world, n + 1);
    assert(Seq::<StepView>::empty() + rest =~= rest);
}

/// Whether neither a step nor anything that it leads to asks the user.
pub open spec fn unattended(step: StepView) -> bool {
    match step {
        StepView::Prompt { .. } => false,
        StepView::Ask { topic, .. } => ({
            &&& !(topic is DefaultRoute)
            &&& !(topic is DeviceAddress)
            &&& !(topic is QualifiedName)
            &&& !(topic is ShortName)
            &&& !(topic is Endpoint)
            &&& !(topic is ConfirmUninstall)
        }),
        _ => true,
    }
}

/// Installing the dependencies asks the user nothing.
proof fn lemma_install_unattended(
    host: Host,
    kubernetes_version: Option<Seq<char>>,
    cilium_version: Option<Seq<char>>,
)
    ensures
        run::all(
            deps::install_all_plan(host, kubernetes_version, cilium_version),
            |step: StepView| unattended(step),
        ),
{
}

/// Setting a cluster up asks the user nothing.
proof fn lemma_set_up_unattended(
    host: Host,
    endpoint: Seq<char>,
    options: InitOptions<Seq<char>>,
)
    ensures
        run::all(
            cluster::set_up_plan(host, endpoint, options),
            |step: StepView| unattended(step),
        ),
{
    ends::lemma_set_up_all(host, endpoint, options, |step: StepView| unattended(step));
}

/// Removing pod sandboxes asks the user nothing.
proof fn lemma_sandboxes_unattended(ids: Seq<Seq<char>>)
    ensures
        run::all(deps::remove_sandboxes(ids), |step: StepView| unattended(step)),
    decreases ids.len(),
{
    if ids.len() > 0 {
        lemma_sandboxes_unattended(ids.drop_last());
    }
}

/// What a step leads to that asks the user nothing asks nothing either.
#[verifier::rlimit(60)]
#[verifier::spinoff_prover]
proof fn lemma_follow_up_unattended(
    host: Host,
    step: StepView,
    program: Seq<char>,
    outcome: Outcome<Seq<char>>,
)
    requires
        unattended(step),
        run::topic_of(step) is Some,
    ensures
        run::all(
            workflow::follow_up(host, run::topic_of(step)->0, program, outcome),
            |step: StepView| unattended(step),
        ),
{
    if run::topic_of(step) == Some(Topic::<Seq<char>>::PodSandboxes) {
        lemma_sandboxes_unattended(deps::listed_ids(cmd::text_of(outcome)));
        run::lemma_all_concat(
            plan::noted(program, outcome),
            deps::remove_sandboxes(deps::listed_ids(cmd::text_of(outcome))),
            |step: StepView| unattended(step),
        );
    }
}

/// A control-plane endpoint that is given is used without a question to the
/// user.
pub proof fn a_given_endpoint_is_not_asked_for(
    host: Host,
    endpoint: Seq<char>,
    options: InitOptions<Seq<char>>,
    world: World,
    n: nat,
)
    ensures
        !(run::run_at(
            host,
            cli::request_plan(host, Request::Init { endpoint: Some(endpoint), options }),
            world,
            n,
        ).0 matches ProgressView::Act(ActionView::Prompt(_))),
        cli::request_plan(host, Request::Init { endpoint: Some(endpoint), options })
            == deps::install_all_plan(host, options.kubernetes_version, options.cilium_version)
            + cluster::set_up_plan(host, endpoint, options),
{
    let steps = cli::request_plan(host, Request::Init { endpoint: Some(endpoint), options });
    let install = deps::install_all_plan(host, options.kubernetes_version, options.cilium_version);
    let kind = |step: StepView| unattended(step);
    lemma_install_unattended(host, options.kubernetes_version, options.cilium_version);
    lemma_set_up_unattended(host, endpoint, options);
    run::lemma_all_concat(install, cluster::set_up_plan(host, endpoint, options), kind);
    assert(run::passes_on(host, kind)) by {
        assert forall|step: StepView, program: Seq<char>, outcome: Outcome<Seq<char>>|
            #![trigger kind(step), workflow::follow_up(host, run::topic_of(step)->0, program, outcome)]
            kind(step) && run::topic_of(step) is Some implies run::all(
            workflow::follow_up(host, run::topic_of(step)->0, program, outcome),
            kind,
        ) by {
            lemma_follow_up_unattended(host, step, program, outcome);
        }
    }
    run::lemma_all_left(host, steps, world, kind, n);
    run::lemma_run_begins(host, steps, world, n);
    if let Ok(left) = run::left_at(host, steps, world, n) {
        if left.len() > 0 {
            assert(kind(left[0]));
        }
    }
}

/// A detected address is an IPv4 address, and not a loopback address.
pub proof fn detected_addresses_are_usable(lines: Seq<Seq<char>>)
    ensures
        net::first_address(lines) matches Some(address) ==> net::is_ipv4(address)
            && !net::is_loopback(address),
    decreases lines.len(),
{
    if lines.len() > 0 && net::line_address(lines[0]) is None {
        detected_addresses_are_usable(lines.skip(1));
    }
}

// ── Joining ──────────────────────────────────────────────────────────────────

/// A control-plane node does not join without a certificate key: nothing is
/// run, and the workflow stops.
pub proof fn a_control_plane_join_needs_a_key(
    host: Host,
    config: JoinConfig<Seq<char>>,
    world: World,
)
    requires
        config.role == NodeRole::ControlPlane,
        config.certificate_key is None,
    ensures
        run::run_at(host, cluster::join_cluster_plan(host, config), world, 0).0
            == ProgressView::Stopped(Error::CertificateKeyRequired),
{
    run::lemma_run_begins(host, cluster::join_cluster_plan(host, config), world, 0);
}

/// A worker joins without control-plane options, also if a key is given; a
/// control-plane node joins with both the option and the key.
pub proof fn join_options_follow_the_role(config: JoinConfig<Seq<char>>, key: Seq<char>)
    ensures
        ({
            let common = seq![
                "join"@,
                config.api_server,
                "--token"@,
                config.token,
                "--discovery-token-ca-cert-hash"@,
                config.ca_cert_hash,
            ];
            &&& cluster::join_args(JoinConfig { role: NodeRole::Worker, ..config }) =~= common
            &&& cluster::join_args(
                JoinConfig {
                    role: NodeRole::ControlPlane,
                    certificate_key: Some(key),
                    ..config
                },
            ) =~= common + seq!["--control-plane"@, "--certificate-key"@, key]
        }),
{
}

/// Whether a text is one word.
pub open spec fn is_word(s: Seq<char>) -> bool {
    s.len() > 0 && forall|i: int| 0 <= i < s.len() ==> !text::is_white(#[trigger] s[i])
}

/// The words of a list, with a space between each two.
pub open spec fn spaced(words: Seq<Seq<char>>) -> Seq<char>
    decreases words.len(),
{
    if words.len() == 0 {
        Seq::empty()
    } else if words.len() == 1 {
        words[0]
    } else {
        words[0] + " "@ + spaced(words.skip(1))
    }
}

/// A word runs up to the white space behind it.
pub proof fn lemma_word_len_of(word: Seq<char>, rest: Seq<char>)
    requires
        forall|i: int| 0 <= i < word.len() ==> !text::is_white(#[trigger] word[i]),
        rest.len() > 0 ==> text::is_white(rest[0]),
    ensures
        text::word_len(word + rest) == word.len(),
    decreases word.len(),
{
    if word.len() == 0 {
        assert(word + rest =~= rest);
    } else {
        assert((word + rest)[0] == word[0]);
        assert((word + rest).skip(1) =~= word.skip(1) + rest);
        assert forall|i: int| 0 <= i < word.skip(1).len() implies !text::is_white(
            #[trigger] word.skip(1)[i],
        ) by {
            assert(!text::is_white(word[i + 1]));
        }
        lemma_word_len_of(word.skip(1), rest);
    }
}

/// Splitting a text at white space gives back the words that it was put
/// together from.
pub proof fn splitting_undoes_spacing(words: Seq<Seq<char>>)
    requires
        forall|i: int| 0 <= i < words.len() ==> is_word(#[trigger] words[i]),
    ensures
        text::words(spaced(words)) == words,
    decreases words.len(),
{
    reveal_strlit(" ");
    if words.len() == 0 {
        assert(text::words(spaced(words)) =~= words);
    } else {
        let word = words[0];
        let s = spaced(words);
        assert(is_word(word));
        let rest = if words.len() == 1 {
            Seq::empty()
        } else {
            " "@ + spaced(words.skip(1))
        };
        assert(s =~= word + rest);
        lemma_word_len_of(word, rest);
        assert(s[0] == word[0]);
        assert(s.take(word.len() as int) =~= word);
        assert(s.skip(word.len() as int) =~= rest);
        assert forall|i: int| 0 <= i < words.skip(1).len() implies is_word(
            #[trigger] words.skip(1)[i],
        ) by {
            assert(is_word(words[i + 1]));
        }
        splitting_undoes_spacing(words.skip(1));
        if words.len() > 1 {
            assert(rest.skip(1) =~= spaced(words.skip(1)));
        } else {
            assert(words.skip(1) =~= Seq::<Seq<char>>::empty());
        }
        assert(text::words(rest) =~= words.skip(1));
        assert(seq![word] + words.skip(1) =~= words);
    }
}

/// The join command that kubeadm prints for an API server, a token, and the
/// hash of a certificate.
pub open spec fn printed_join_command(
    api_server: Seq<char>,
    token: Seq<char>,
    ca_cert_hash: Seq<char>,
) -> Seq<char> {
    spaced(
        seq![
            "kubeadm"@,
            "join"@,
            api_server,
            "--token"@,
            token,
            "--discovery-token-ca-cert-hash"@,
            ca_cert_hash,
        ],
    )
}

/// The API server, the token, and the hash of a join command are read back as
/// they were printed, and joining with them runs that very command: as a worker
/// the command itself, and as a control-plane node the command with the
/// certificate key. The values are words, and none of them is the name of an
/// option that is looked for.
pub proof fn a_join_hint_amounts_to_its_join_command(
    api_server: Seq<char>,
    token: Seq<char>,
    ca_cert_hash: Seq<char>,
    key: Seq<char>,
)
    requires
        is_word(api_server),
        is_word(token),
        is_word(ca_cert_hash),
        is_word(key),
        api_server != "--token"@,
        api_server != "--discovery-token-ca-cert-hash"@,
        token != "--discovery-token-ca-cert-hash"@,
    ensures
        ({
            let command = printed_join_command(api_server, token, ca_cert_hash);
            let worker = JoinConfig {
                role: NodeRole::Worker,
                token: cluster::hinted_option(command, "--token"@, "<token>"@),
                api_server: cluster::hinted_api_server(command),
                ca_cert_hash: cluster::hinted_option(
                    command,
                    "--discovery-token-ca-cert-hash"@,
                    "<hash>"@,
                ),
                certificate_key: Some(key),
            };
            let control_plane = JoinConfig { role: NodeRole::ControlPlane, ..worker };
            &&& worker.api_server == api_server
            &&& worker.token == token
            &&& worker.ca_cert_hash == ca_cert_hash
            &&& seq!["kubeadm"@] + cluster::join_args(worker) =~= text::words(command)
            &&& seq!["kubeadm"@] + cluster::join_args(control_plane) =~= text::words(
                command + " --control-plane --certificate-key "@ + key,
            )
        }),
{
    let all = seq![
        "kubeadm"@,
        "join"@,
        api_server,
        "--token"@,
        token,
        "--discovery-token-ca-cert-hash"@,
        ca_cert_hash,
    ];
    let more = seq!["--control-plane"@, "--certificate-key"@, key];
    lemma_option_words();
    assert forall|i: int| 0 <= i < all.len() implies is_word(#[trigger] all[i]) by {}
    assert forall|i: int| 0 <= i < (all + more).len() implies is_word(
        #[trigger] (all + more)[i],
    ) by {}
    splitting_undoes_spacing(all);
    splitting_undoes_spacing(all + more);
    lemma_spaced_concat(all, more);
    lemma_spaced_key(key);
    let command = spaced(all);
    assert(command + " "@ + spaced(more) =~= command + (" "@ + spaced(more)));
    assert(command + (" --control-plane --certificate-key "@ + key) =~= command
        + " --control-plane --certificate-key "@ + key);
    assert(command + " --control-plane --certificate-key "@ + key =~= spaced(all + more));
    assert("kubeadm"@ != "--token"@ && "join"@ != "--token"@) by {
        reveal_strlit("kubeadm");
        reveal_strlit("join");
        reveal_strlit("--token");
        assert("kubeadm"@[0] == 'k' && "--token"@[0] == '-' && "join"@[0] == 'j');
    }
    reveal_with_fuel(text::words_before, 7);
    assert(all.skip(1)[0] == "join"@);
    assert(all.skip(1).skip(1)[0] == api_server);
    assert(all.skip(1).skip(1).skip(1)[0] == "--token"@);
    assert(all.skip(1).skip(1).skip(1).skip(1)[0] == token);
    assert(all.skip(1).skip(1).skip(1).skip(1).skip(1)[0] == "--discovery-token-ca-cert-hash"@);
    assert(text::words_before(all, "--token"@) == 3);
    assert(text::words_before(all, "--discovery-token-ca-cert-hash"@) == 5);
}

/// The fixed words of a join command are words, and differ.
proof fn lemma_option_words()
    ensures
        is_word("kubeadm"@),
        is_word("join"@),
        is_word("--token"@),
        is_word("--discovery-token-ca-cert-hash"@),
        is_word("--control-plane"@),
        is_word("--certificate-key"@),
        "kubeadm"@ != "--discovery-token-ca-cert-hash"@,
        "join"@ != "--discovery-token-ca-cert-hash"@,
        "--token"@ != "--discovery-token-ca-cert-hash"@,
{
    reveal_strlit("kubeadm");
    reveal_strlit("join");
    reveal_strlit("--token");
    reveal_strlit("--discovery-token-ca-cert-hash");
    reveal_strlit("--control-plane");
    reveal_strlit("--certificate-key");
    assert("kubeadm"@.len() == 7);
    assert("join"@.len() == 4);
    assert("--token"@.len() == 7);
    assert("--discovery-token-ca-cert-hash"@.len() == 30);
}

/// Two lists of words are spaced one behind the other.
proof fn lemma_spaced_concat(a: Seq<Seq<char>>, b: Seq<Seq<char>>)
    requires
        a.len() > 0,
        b.len() > 0,
    ensures
        spaced(a + b) == spaced(a) + " "@ + spaced(b),
    decreases a.len(),
{
    assert((a + b)[0] == a[0]);
    if a.len() == 1 {
        assert((a + b).skip(1) =~= b);
    } else {
        assert((a + b).skip(1) =~= a.skip(1) + b);
        lemma_spaced_concat(a.skip(1), b);
        assert(a[0] + " "@ + (spaced(a.skip(1)) + " "@ + spaced(b)) =~= a[0] + " "@ + spaced(
            a.skip(1),
        ) + " "@ + spaced(b));
    }
}

/// The control-plane options of a join command, spaced.
proof fn lemma_spaced_key(key: Seq<char>)
    ensures
        " "@ + spaced(seq!["--control-plane"@, "--certificate-key"@, key])
            == " --control-plane --certificate-key "@ + key,
{
    let words = seq!["--control-plane"@, "--certificate-key"@, key];
    reveal_strlit(" ");
    reveal_strlit("--control-plane");
    reveal_strlit("--certificate-key");
    reveal_strlit(" --control-plane --certificate-key ");
    assert(words.skip(1).skip(1) =~= seq![key]);
    reveal_with_fuel(spaced, 4);
    assert(spaced(words) =~= "--control-plane"@ + " "@ + ("--certificate-key"@ + " "@ + key));
    assert(" "@ + spaced(words) =~= " --control-plane --certificate-key "@ + key);
}

/// The name of a role stands for that role.
pub proof fn role_names_stand_for_their_roles(role: NodeRole)
    ensures
        vstd::utf8::is_ascii_chars(cluster::role_name(role)),
        text::ascii_lowercase(cluster::role_name(role)) == cluster::role_name(role),
        cluster::role_named(cluster::role_name(role)) == Some(role),
{
    reveal_strlit("worker");
    reveal_strlit("control-plane");
    let name = cluster::role_name(role);
    assert(text::ascii_lowercase(name) =~= name);
    assert("worker"@.len() == 6);
    assert("control-plane"@.len() == 13);
}

// ── Texts ────────────────────────────────────────────────────────────────────

/// What a program prints is handed on without white space around it, and
/// removing it again changes nothing.
pub proof fn trimmed_texts_stay(s: Seq<char>)
    ensures
        text::trimmed(text::trimmed(s)) == text::trimmed(s),
        text::trimmed(s).len() > 0 ==> !text::is_white(text::trimmed(s)[0]) && !text::is_white(
            text::trimmed(s).last(),
        ),
{
    let start = text::trimmed_start(s);
    lemma_trimmed_start(s);
    lemma_trimmed_end(start);
    lemma_trimmed_end_keeps_start(start);
}

proof fn lemma_trimmed_start(s: Seq<char>)
    ensures
        text::trimmed_start(s).len() > 0 ==> !text::is_white(text::trimmed_start(s)[0]),
    decreases s.len(),
{
    if s.len() > 0 && text::is_white(s[0]) {
        lemma_trimmed_start(s.skip(1));
    }
}

proof fn lemma_trimmed_end(s: Seq<char>)
    ensures
        text::trimmed_end(s).len() > 0 ==> !text::is_white(text::trimmed_end(s).last()),
        text::trimmed_end(text::trimmed_end(s)) == text::trimmed_end(s),
    decreases s.len(),
{
    if s.len() > 0 && text::is_white(s.last()) {
        lemma_trimmed_end(s.drop_last());
    }
}

proof fn lemma_trimmed_end_keeps_start(s: Seq<char>)
    ensures
        text::trimmed_end(s).len() <= s.len(),
        text::trimmed_end(s).len() > 0 ==> text::trimmed_end(s)[0] == s[0],
    decreases s.len(),
{
    if s.len() > 0 && text::is_white(s.last()) {
        lemma_trimmed_end_keeps_start(s.drop_last());
    }
}

/// Whether a text holds no placeholder, nor a part of one.
pub open spec fn is_plain(s: Seq<char>) -> bool {
    forall|i: int| 0 <= i < s.len() ==> #[trigger] s[i] != '{'
}

/// A pattern that starts with a brace does not stand in a plain text, so what
/// is replaced stands behind it.
proof fn lemma_replaced_behind(s: Seq<char>, rest: Seq<char>, pattern: Seq<char>, value: Seq<char>)
    requires
        is_plain(s),
        pattern.len() > 0,
        pattern[0] == '{',
    ensures
        text::replaced(s + rest, pattern, value) == s + text::replaced(rest, pattern, value),
    decreases s.len(),
{
    let whole = s + rest;
    if s.len() == 0 {
        assert(whole =~= rest);
        assert(s + text::replaced(rest, pattern, value) =~= text::replaced(rest, pattern, value));
    } else {
        assert(whole[0] == s[0]);
        assert(!text::stands_at(whole, pattern, 0)) by {
            if pattern.len() <= whole.len() {
                assert(whole.subrange(0, pattern.len() as int)[0] == s[0]);
            }
        }
        assert(whole.skip(1) =~= s.skip(1) + rest);
        assert forall|i: int| 0 <= i < s.skip(1).len() implies #[trigger] s.skip(1)[i] != '{' by {
            assert(s[i + 1] != '{');
        }
        lemma_replaced_behind(s.skip(1), rest, pattern, value);
        assert(seq![s[0]] + (s.skip(1) + text::replaced(rest, pattern, value)) =~= s
            + text::replaced(rest, pattern, value));
    }
}

/// A pattern at the start of a text is replaced.
proof fn lemma_replaced_here(rest: Seq<char>, pattern: Seq<char>, value: Seq<char>)
    requires
        pattern.len() > 0,
    ensures
        text::replaced(pattern + rest, pattern, value) == value + text::replaced(
            rest,
            pattern,
            value,
        ),
{
    let whole = pattern + rest;
    assert(whole.subrange(0, pattern.len() as int) =~= pattern);
    assert(whole.skip(pattern.len() as int) =~= rest);
}

/// A template without placeholders is a URL.
pub proof fn plain_templates_stay(template: Seq<char>, version: Seq<char>, arch: Seq<char>)
    requires
        is_plain(template),
    ensures
        deps::expanded_url(template, version, arch) == template,
{
    reveal_strlit("{version}");
    reveal_strlit("{arch}");
    let nothing = Seq::<char>::empty();
    assert(template + nothing =~= template);
    lemma_replaced_behind(template, nothing, "{version}"@, version);
    lemma_replaced_behind(template, nothing, "{arch}"@, arch);
}

/// A template with both placeholders is expanded to a URL with the version and
/// the architecture in their places.
pub proof fn placeholders_are_filled_in(
    before: Seq<char>,
    between: Seq<char>,
    after: Seq<char>,
    version: Seq<char>,
    arch: Seq<char>,
)
    requires
        is_plain(before),
        is_plain(between),
        is_plain(after),
        is_plain(version),
    ensures
        deps::expanded_url(before + "{version}"@ + between + "{arch}"@ + after, version, arch)
            == before + version + between + arch + after,
{
    reveal_strlit("{version}");
    reveal_strlit("{arch}");
    let nothing = Seq::<char>::empty();
    let template = before + "{version}"@ + between + "{arch}"@ + after;
    let tail = between + "{arch}"@ + after;
    // The version goes in first: no other placeholder is its own.
    assert(template =~= before + ("{version}"@ + tail));
    lemma_replaced_behind(before, "{version}"@ + tail, "{version}"@, version);
    lemma_replaced_here(tail, "{version}"@, version);
    lemma_arch_stays(between, after, version);
    let versioned = before + version + between + ("{arch}"@ + after);
    assert(text::replaced(template, "{version}"@, version) =~= versioned);
    // Then the architecture.
    let head = before + version + between;
    assert(is_plain(head)) by {
        assert forall|i: int| 0 <= i < head.len() implies #[trigger] head[i] != '{' by {
            if i < before.len() {
                assert(head[i] == before[i]);
            } else if i < before.len() + version.len() {
                assert(head[i] == version[i - before.len()]);
            } else {
                assert(head[i] == between[i - before.len() - version.len()]);
            }
        }
    }
    lemma_replaced_behind(head, "{arch}"@ + after, "{arch}"@, arch);
    lemma_replaced_here(after, "{arch}"@, arch);
    assert(after + nothing =~= after);
    lemma_replaced_behind(after, nothing, "{arch}"@, arch);
    assert(deps::expanded_url(template, version, arch) =~= before + version + between + arch
        + after);
}

/// Filling the version in leaves the other placeholder alone.
proof fn lemma_arch_stays(between: Seq<char>, after: Seq<char>, version: Seq<char>)
    requires
        is_plain(between),
        is_plain(after),
    ensures
        text::replaced(between + "{arch}"@ + after, "{version}"@, version) == between + "{arch}"@
            + after,
{
    reveal_strlit("{version}");
    reveal_strlit("{arch}");
    let nothing = Seq::<char>::empty();
    let arch = "{arch}"@;
    let inner = arch.skip(1);
    assert(between + arch + after =~= between + (arch + after));
    lemma_replaced_behind(between, arch + after, "{version}"@, version);
    // A brace that opens the other placeholder opens this one only.
    assert(!text::stands_at(arch + after, "{version}"@, 0)) by {
        if "{version}"@.len() <= (arch + after).len() {
            assert((arch + after).subrange(0, "{version}"@.len() as int)[1] == 'a');
            assert("{version}"@[1] == 'v');
        }
    }
    assert((arch + after).skip(1) =~= inner + after);
    assert(is_plain(inner));
    lemma_replaced_behind(inner, after, "{version}"@, version);
    assert(after + nothing =~= after);
    lemma_replaced_behind(after, nothing, "{version}"@, version);
    assert(seq![arch[0]] + (inner + after) =~= arch + after);
}

} // verus!
