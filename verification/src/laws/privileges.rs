//! Which programs run with root privileges.
use crate::cli;
use crate::cli::Request;
use crate::cluster;
use crate::cluster::InitOptions;
use crate::cmd;
use crate::cmd::{CommandView, InvocationView, Outcome};
use crate::config::Host;
use crate::deps;
use crate::ends;
use crate::net;
use crate::plan;
use crate::plan::{StepView, Topic};
use crate::run;
use crate::run::World;
use crate::workflow;
use crate::workflow::{ActionView, ProgressView};
use vstd::prelude::*;

verus! {

/// Whether a program changes the system, with these arguments, so that it needs
/// root privileges.
pub open spec fn changes_the_system(program: Seq<char>, args: Seq<Seq<char>>) -> bool {
    ||| program == "kubeadm"@
    ||| program == "systemctl"@
    ||| program == "rm"@
    ||| program == "bash"@
    ||| program == "mkdir"@
    ||| program == "cp"@
    ||| program == "chmod"@
    ||| program == "chown"@
    ||| program == "crictl"@
    ||| program == "modprobe"@
    ||| program == "iptables"@
    ||| program == "ipvsadm"@
    ||| program == "sed"@
    ||| program == "ls"@
    ||| program == "sysctl"@ && args.len() > 0 && (args[0] == "-w"@ || args[0] == "--system"@)
}

/// Whether a program, with these arguments, asks the host something or talks to
/// the cluster with the credentials of the user.
pub open spec fn serves_the_user(program: Seq<char>, args: Seq<Seq<char>>) -> bool {
    ||| program == "kubectl"@
    ||| program == "helm"@
    ||| program == "cilium"@
    ||| program == "which"@
    ||| program == "hostname"@
    ||| program == "ip"@
    ||| program == "cat"@
    ||| program == "lsmod"@
    ||| program == "sysctl"@ && args.len() > 0 && args[0] == "-n"@
    ||| program == "sudo"@ && args =~= seq!["-v"@]
}

/// Whether a command has the privileges that it needs, and no others.
pub open spec fn is_apt(command: CommandView) -> bool {
    if command.privileged {
        changes_the_system(command.program, command.args)
    } else {
        serves_the_user(command.program, command.args)
    }
}

/// Whether a step has the privileges that it needs, and no others.
pub open spec fn apt(step: StepView) -> bool {
    match step {
        StepView::Run { command, .. } => is_apt(command),
        StepView::Ask { command, .. } => is_apt(command),
        _ => true,
    }
}

/// Whether what is executed has the privileges that it needs, and no others: on
/// a host where the process is root, the program itself runs; elsewhere a
/// program that changes the system is handed to `sudo`.
pub open spec fn rightly_executed(root: bool, invocation: InvocationView) -> bool {
    if root {
        ||| changes_the_system(invocation.program, invocation.args)
        ||| serves_the_user(invocation.program, invocation.args)
    } else {
        ||| invocation.program == "sudo"@ && invocation.args.len() > 0 && changes_the_system(
            invocation.args[0],
            invocation.args.skip(1),
        )
        ||| serves_the_user(invocation.program, invocation.args)
    }
}

proof fn lemma_sandboxes_apt(ids: Seq<Seq<char>>)
    ensures
        run::all(deps::remove_sandboxes(ids), |step: StepView| apt(step)),
    decreases ids.len(),
{
    if ids.len() > 0 {
        lemma_sandboxes_apt(ids.drop_last());
    }
}

proof fn lemma_set_up_apt(host: Host, endpoint: Seq<char>, options: InitOptions<Seq<char>>)
    ensures
        run::all(cluster::set_up_plan(host, endpoint, options), |step: StepView| apt(step)),
{
    ends::lemma_set_up_all(host, endpoint, options, |step: StepView| apt(step));
}

proof fn lemma_uninstall_apt(host: Host)
    ensures
        run::all(deps::uninstall_all_plan(host), |step: StepView| apt(step)),
{
    let kind = |step: StepView| apt(step);
    let first = cmd::ensure_privilege_plan(host.root) + seq![
        plan::probe("helm"@, Topic::UninstallReleases),
    ];
    let stop = deps::stop_cluster_workloads_plan();
    let remove = deps::remove_components_plan(host);
    assert(run::all(first, kind));
    assert(run::all(stop, kind));
    assert(run::all(remove, kind));
    run::lemma_all_concat(first, stop, kind);
    run::lemma_all_concat(first + stop, remove, kind);
}

#[verifier::rlimit(80)]
#[verifier::spinoff_prover]
proof fn lemma_follow_up_apt(
    host: Host,
    topic: Topic<Seq<char>>,
    program: Seq<char>,
    outcome: Outcome<Seq<char>>,
)
    ensures
        run::all(
            workflow::follow_up(host, topic, program, outcome),
            |step: StepView| apt(step),
        ),
{
    let kind = |step: StepView| apt(step);
    match topic {
        Topic::Endpoint { address, options } => {
            if let Outcome::Success(reply) = outcome {
                if let Some(endpoint) = net::chosen_endpoint(address, reply) {
                    lemma_set_up_apt(host, endpoint, options);
                }
            }
        },
        Topic::ConfirmUninstall => {
            lemma_uninstall_apt(host);
        },
        Topic::PodSandboxes => {
            let ids = deps::listed_ids(cmd::text_of(outcome));
            lemma_sandboxes_apt(ids);
            run::lemma_all_concat(
                plan::noted(program, outcome),
                deps::remove_sandboxes(ids),
                kind,
            );
        },
        _ => {},
    }
}

proof fn lemma_request_apt(host: Host, request: Request<Seq<char>>)
    ensures
        run::all(cli::request_plan(host, request), |step: StepView| apt(step)),
{
    let kind = |step: StepView| apt(step);
    match request {
        Request::Init { endpoint, options } => {
            let install = deps::install_all_plan(
                host,
                options.kubernetes_version,
                options.cilium_version,
            );
            let resolve = net::resolve_control_plane_endpoint_plan(host, endpoint, options);
            assert(run::all(install, kind));
            if let Some(address) = endpoint {
                lemma_set_up_apt(host, address, options);
            }
            assert(run::all(resolve, kind));
            run::lemma_all_concat(install, resolve, kind);
        },
        Request::Join {
            role,
            token,
            api_server,
            ca_cert_hash,
            certificate_key,
            kubernetes_version,
            cilium_version,
        } => {
            let install = deps::install_all_plan(host, kubernetes_version, cilium_version);
            let preflight = cluster::preflight_checks_plan();
            let join = cli::join_as_plan(
                host,
                cluster::role_of(role),
                token,
                api_server,
                ca_cert_hash,
                certificate_key,
            );
            assert(run::all(install, kind));
            assert(run::all(preflight, kind));
            assert(run::all(join, kind));
            run::lemma_all_concat(install, preflight, kind);
            run::lemma_all_concat(install + preflight, join, kind);
        },
        Request::Uninstall { force } => {
            if force {
                lemma_uninstall_apt(host);
            }
        },
        _ => {},
    }
}

/// Whatever is asked for and whatever the host answers, every program that
/// changes the system runs with root privileges, through `sudo` unless the
/// process is root, and every other program runs without them.
pub proof fn programs_run_with_the_privileges_they_need(
    host: Host,
    request: Request<Seq<char>>,
    world: World,
    n: nat,
)
    ensures
        run::run_at(host, cli::request_plan(host, request), world, n).0 matches ProgressView::Act(
            ActionView::Execute { invocation, .. },
        ) ==> rightly_executed(host.root, invocation),
{
    let steps = cli::request_plan(host, request);
    let kind = |step: StepView| apt(step);
    lemma_request_apt(host, request);
    assert(run::passes_on(host, kind)) by {
        assert forall|step: StepView, program: Seq<char>, outcome: Outcome<Seq<char>>|
            #![trigger kind(step), workflow::follow_up(host, run::topic_of(step)->0, program, outcome)]
            kind(step) && run::topic_of(step) is Some implies run::all(
            workflow::follow_up(host, run::topic_of(step)->0, program, outcome),
            kind,
        ) by {
            lemma_follow_up_apt(host, run::topic_of(step)->0, program, outcome);
        }
    }
    run::lemma_all_left(host, steps, world, kind, n);
    run::lemma_run_begins(host, steps, world, n);
    if let Ok(left) = run::left_at(host, steps, world, n) {
        if left.len() > 0 {
            assert(kind(left[0]));
            if let StepView::Run { command, .. } = left[0] {
                assert((seq![command.program] + command.args).skip(1) =~= command.args);
            }
            if let StepView::Ask { command, .. } = left[0] {
                assert((seq![command.program] + command.args).skip(1) =~= command.args);
            }
        }
    }
}

} // verus!
