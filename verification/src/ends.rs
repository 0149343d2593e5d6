//! Every workflow ends, what it may fail at, and how long it waits.
use crate::cli;
use crate::cli::Request;
use crate::cluster;
use crate::cluster::InitOptions;
use crate::cmd;
use crate::cmd::Outcome;
use crate::cni;
use crate::cni::CiliumConfig;
use crate::config::Host;
use crate::deps;
use crate::error::Error;
use crate::net;
use crate::plan;
use crate::plan::{StepView, Topic};
use crate::run;
use crate::run::World;
use crate::storage;
use crate::storage::StorageConfig;
use crate::workflow;
use crate::workflow::{ActionView, Awaiting, ProgressView};
use vstd::prelude::*;

verus! {

// ── Ranks ────────────────────────────────────────────────────────────────────

/// How deep the steps can be nested that an answer leads to.
pub open spec fn topic_rank(topic: Topic<Seq<char>>) -> nat {
    match topic {
        Topic::JoinCommand(_) => 2,
        Topic::UninstallReleases => 2,
        Topic::Drain { .. } => 2,
        Topic::Cilium(_) => 2,
        Topic::NodeName => 2,
        Topic::Storage(_) => 3,
        Topic::Endpoint { .. } => 4,
        Topic::ShortName { .. } => 5,
        Topic::QualifiedName { .. } => 6,
        Topic::DeviceAddress { .. } => 7,
        Topic::DefaultRoute(_) => 8,
        Topic::Exiting(looks) => looks as nat + 1,
        Topic::RunningContainers => 14,
        Topic::Containers => 15,
        Topic::ConfirmUninstall => 16,
        _ => 1,
    }
}

/// How deep the steps can be nested that a step leads to: a command whose
/// failure is logged leads to a line of the log, and a question to what its
/// answer leads to.
pub open spec fn rank(step: StepView) -> nat {
    match step {
        StepView::Run { on_failure, .. } => if on_failure is Log {
            1
        } else {
            0
        },
        StepView::Ask { topic, .. } => 1 + topic_rank(topic),
        StepView::Prompt { topic, .. } => 1 + topic_rank(topic),
        _ => 0,
    }
}

/// Whether no step of a list leads to steps nested deeper than `bound`.
pub open spec fn ranked(steps: Seq<StepView>, bound: nat) -> bool {
    run::all(steps, |step: StepView| rank(step) <= bound)
}

/// Removing pod sandboxes asks nothing.
proof fn lemma_sandboxes_ranked(ids: Seq<Seq<char>>)
    ensures
        ranked(deps::remove_sandboxes(ids), 1),
    decreases ids.len(),
{
    if ids.len() > 0 {
        lemma_sandboxes_ranked(ids.drop_last());
    }
}

/// The summary is printed, and nothing else is done.
pub proof fn lemma_summary_prints(host: Host, config: cluster::ClusterConfig<Seq<char>>)
    ensures
        run::all(
            cluster::print_post_init_summary_plan(host, config),
            |step: StepView| step is Print,
        ),
{
    let prints = |step: StepView| step is Print;
    let heading = cluster::summary_heading_plan(config);
    let binaries = cluster::summary_binaries_plan(host);
    let credentials = cluster::summary_credentials_plan(host);
    let files = cluster::summary_files_plan(host);
    let services = cluster::summary_services_plan(host);
    assert(run::all(heading, prints));
    assert(run::all(binaries, prints));
    assert(run::all(credentials, prints));
    assert(run::all(files, prints));
    assert(run::all(services, prints));
    run::lemma_all_concat(heading, binaries, prints);
    run::lemma_all_concat(heading + binaries, credentials, prints);
    run::lemma_all_concat(heading + binaries + credentials, files, prints);
    run::lemma_all_concat(heading + binaries + credentials + files, services, prints);
}

/// A property of all steps of the parts of setting a cluster up, and of every
/// line that is printed, is one of all steps of setting it up.
pub proof fn lemma_set_up_all(
    host: Host,
    endpoint: Seq<char>,
    options: InitOptions<Seq<char>>,
    property: spec_fn(StepView) -> bool,
)
    requires
        run::all(cluster::preflight_checks_plan(), property),
        run::all(
            cluster::init_cluster_plan(host, cluster::cluster_config(endpoint, options)),
            property,
        ),
        run::all(
            cni::install_cilium_plan(
                CiliumConfig {
                    version: options.cilium_version,
                    pod_cidr: options.pod_network_cidr,
                    gateway_api: options.gateway_api,
                },
            ),
            property,
        ),
        run::all(
            storage::install_storage_plan(StorageConfig { version: options.storage_version }),
            property,
        ),
        forall|step: StepView| step is Print ==> #[trigger] property(step),
    ensures
        run::all(cluster::set_up_plan(host, endpoint, options), property),
{
    let config = cluster::cluster_config(endpoint, options);
    let preflight = cluster::preflight_checks_plan();
    let init = cluster::init_cluster_plan(host, config);
    let cni = if options.skip_cni {
        Seq::empty()
    } else {
        cni::install_cilium_plan(
            CiliumConfig {
                version: options.cilium_version,
                pod_cidr: options.pod_network_cidr,
                gateway_api: options.gateway_api,
            },
        )
    };
    let storage = if options.skip_storage {
        Seq::empty()
    } else {
        storage::install_storage_plan(StorageConfig { version: options.storage_version })
    };
    let summary = cluster::print_post_init_summary_plan(host, config);
    lemma_summary_prints(host, config);
    assert forall|i: int| 0 <= i < summary.len() implies property(#[trigger] summary[i]) by {
        assert(summary[i] is Print);
    }
    run::lemma_all_concat(preflight, init, property);
    run::lemma_all_concat(preflight + init, cni, property);
    run::lemma_all_concat(preflight + init + cni, storage, property);
    run::lemma_all_concat(preflight + init + cni + storage, summary, property);
}

/// How deep the steps are nested of setting a cluster up.
proof fn lemma_set_up_ranked(host: Host, endpoint: Seq<char>, options: InitOptions<Seq<char>>)
    ensures
        ranked(cluster::set_up_plan(host, endpoint, options), 4),
{
    lemma_set_up_all(host, endpoint, options, |step: StepView| rank(step) <= 4);
}

/// How deep the steps are nested of uninstalling everything.
proof fn lemma_uninstall_ranked(host: Host)
    ensures
        ranked(deps::uninstall_all_plan(host), 16),
{
    assert(ranked(cmd::ensure_privilege_plan(host.root), 16));
    assert(ranked(deps::stop_cluster_workloads_plan(), 16));
    assert(ranked(deps::uninstall_kubernetes_components_plan(host), 16));
    assert(ranked(deps::uninstall_cni_plugins_plan(host), 16));
    assert(ranked(cluster::remove_own_files_plan(host), 16));
    assert(ranked(deps::uninstall_data_and_config_plan(host), 16));
}

/// Answers lead to less deeply nested steps only.
#[verifier::rlimit(60)]
#[verifier::spinoff_prover]
proof fn lemma_follow_up_ranked(
    host: Host,
    topic: Topic<Seq<char>>,
    program: Seq<char>,
    outcome: Outcome<Seq<char>>,
)
    ensures
        ranked(workflow::follow_up(host, topic, program, outcome), topic_rank(topic)),
{
    let answer = cmd::text_of(outcome);
    match topic {
        Topic::Endpoint { address, options } => {
            if let Outcome::Success(reply) = outcome {
                if let Some(endpoint) = net::chosen_endpoint(address, reply) {
                    lemma_set_up_ranked(host, endpoint, options);
                }
            }
        },
        Topic::ConfirmUninstall => {
            lemma_uninstall_ranked(host);
        },
        Topic::PodSandboxes => {
            lemma_sandboxes_ranked(deps::listed_ids(answer));
            run::lemma_all_concat(
                plan::noted(program, outcome),
                deps::remove_sandboxes(deps::listed_ids(answer)),
                |step: StepView| rank(step) <= 1,
            );
        },
        _ => {},
    }
}

// ── Failures ─────────────────────────────────────────────────────────────────

/// Whether no answer to a question, nor to those it leads to, can stop a
/// workflow.
pub open spec fn tolerant_topic(topic: Topic<Seq<char>>) -> bool {
    match topic {
        Topic::ControlPlaneTaint => true,
        Topic::ResetReleases => true,
        Topic::UninstallReleases => true,
        Topic::GatewayApi => true,
        Topic::Drain { .. } => true,
        Topic::DrainNode { .. } => true,
        Topic::KubeadmReset => true,
        Topic::Containers => true,
        Topic::RunningContainers => true,
        Topic::Exiting(_) => true,
        Topic::Stragglers => true,
        Topic::PodSandboxes => true,
        _ => false,
    }
}

/// Whether a step cannot stop a workflow, whatever its outcome.
pub open spec fn tolerant(step: StepView) -> bool {
    match step {
        StepView::Run { on_failure, .. } => !(on_failure is Stop),
        StepView::Ask { topic, .. } => tolerant_topic(topic),
        StepView::Prompt { topic, .. } => tolerant_topic(topic),
        StepView::Print(_) => true,
        StepView::Log(_) => true,
        StepView::Sleep(_) => true,
        StepView::Fail(_) => false,
    }
}

/// Removing pod sandboxes stops nothing.
proof fn lemma_sandboxes_tolerant(ids: Seq<Seq<char>>)
    ensures
        run::all(deps::remove_sandboxes(ids), |step: StepView| tolerant(step)),
    decreases ids.len(),
{
    if ids.len() > 0 {
        lemma_sandboxes_tolerant(ids.drop_last());
    }
}

/// What a tolerant question leads to is tolerant.
pub proof fn lemma_follow_up_tolerant(
    host: Host,
    topic: Topic<Seq<char>>,
    program: Seq<char>,
    outcome: Outcome<Seq<char>>,
)
    requires
        tolerant_topic(topic),
    ensures
        run::all(
            workflow::follow_up(host, topic, program, outcome),
            |step: StepView| tolerant(step),
        ),
{
    if topic is PodSandboxes {
        lemma_sandboxes_tolerant(deps::listed_ids(cmd::text_of(outcome)));
        run::lemma_all_concat(
            plan::noted(program, outcome),
            deps::remove_sandboxes(deps::listed_ids(cmd::text_of(outcome))),
            |step: StepView| tolerant(step),
        );
    }
}

/// Whether the step that the call of `advance` number `n` begins has a
/// property.
pub open spec fn begins(
    host: Host,
    plan: Seq<StepView>,
    world: World,
    n: nat,
    property: spec_fn(StepView) -> bool,
) -> bool {
    run::left_at(host, plan, world, n) matches Ok(steps) && steps.len() > 0 && property(steps[0])
}

/// Finds the call with which the first steps of those that are left are done,
/// or the workflow has ended; only a step that is not tolerant ends it. Until
/// then, steps with a property are begun that passes from questions to what
/// they lead to.
proof fn lemma_done(
    host: Host,
    plan: Seq<StepView>,
    world: World,
    n: nat,
    steps: Seq<StepView>,
    rest: Seq<StepView>,
    bound: nat,
    property: spec_fn(StepView) -> bool,
) -> (m: nat)
    requires
        run::left_at(host, plan, world, n) == Ok::<_, Error<Seq<char>>>(steps + rest),
        ranked(steps, bound),
        run::all(steps, property),
        run::passes_on(host, property),
    ensures
        n <= m,
        ({
            ||| {
                &&& run::left_at(host, plan, world, m) == Ok::<_, Error<Seq<char>>>(rest)
                &&& forall|k: nat|
                    n <= k < m ==> #[trigger] begins(host, plan, world, k, property)
            }
            ||| {
                &&& !run::all(steps, |step: StepView| tolerant(step))
                &&& !(run::run_at(host, plan, world, m).0 is Act)
            }
        }),
    decreases bound, steps.len(),
{
    let kind = |step: StepView| tolerant(step);
    let low = |step: StepView| rank(step) <= bound;
    if steps.len() == 0 {
        assert(steps + rest =~= rest);
        n
    } else {
        let left = steps + rest;
        let behind = steps.skip(1);
        assert(left[0] == steps[0]);
        assert(left.skip(1) =~= behind + rest);
        assert(property(steps[0]));
        assert(begins(host, plan, world, n, property));
        run::lemma_run_begins(host, plan, world, n);
        if steps[0] is Fail {
            assert(!kind(steps[0]));
            n
        } else {
            run::lemma_left_next(host, plan, world, n, left);
            run::lemma_run_begins(host, plan, world, n + 1);
            run::lemma_all_behind(steps, low);
            run::lemma_all_behind(steps, property);
            if run::all(steps, kind) {
                run::lemma_all_behind(steps, kind);
            }
            let awaiting = workflow::awaiting_of(host.root, steps[0]);
            match workflow::resolved(host, awaiting, world(n + 1)) {
                Err(error) => {
                    assert(!kind(steps[0]));
                    n + 1
                },
                Ok(more) => {
                    match awaiting {
                        Awaiting::Answer { program, topic } => {
                            assert(low(steps[0]));
                            lemma_follow_up_ranked(host, topic, program, world(n + 1));
                            assert(run::all(
                                workflow::follow_up(
                                    host,
                                    run::topic_of(steps[0])->0,
                                    program,
                                    world(n + 1),
                                ),
                                property,
                            ));
                            let m = lemma_done(
                                host,
                                plan,
                                world,
                                n + 1,
                                more,
                                behind + rest,
                                topic_rank(topic),
                                property,
                            );
                            if kind(steps[0]) {
                                lemma_follow_up_tolerant(host, topic, program, world(n + 1));
                            }
                            if run::run_at(host, plan, world, m).0 is Act || run::all(more, kind) {
                                lemma_done(host, plan, world, m, behind, rest, bound, property)
                            } else {
                                m
                            }
                        },
                        Awaiting::Effort(program) => {
                            assert(low(steps[0]));
                            assert(run::all(more, property)) by {
                                if more.len() > 0 {
                                    assert(property(more[0]));
                                }
                            }
                            assert(run::all(more, kind));
                            let m = lemma_done(
                                host,
                                plan,
                                world,
                                n + 1,
                                more,
                                behind + rest,
                                0,
                                property,
                            );
                            lemma_done(host, plan, world, m, behind, rest, bound, property)
                        },
                        _ => {
                            assert(more + (behind + rest) =~= behind + rest);
                            lemma_done(host, plan, world, n + 1, behind, rest, bound, property)
                        },
                    }
                },
            }
        }
    }
}

/// Tolerant steps are done, whatever the host answers: the steps behind them
/// are reached, and until then only steps with the property are begun.
pub proof fn lemma_tolerant_done(
    host: Host,
    plan: Seq<StepView>,
    world: World,
    n: nat,
    steps: Seq<StepView>,
    rest: Seq<StepView>,
    property: spec_fn(StepView) -> bool,
) -> (m: nat)
    requires
        run::left_at(host, plan, world, n) == Ok::<_, Error<Seq<char>>>(steps + rest),
        run::all(steps, |step: StepView| tolerant(step)),
        run::all(steps, property),
        run::passes_on(host, property),
    ensures
        n <= m,
        run::left_at(host, plan, world, m) == Ok::<_, Error<Seq<char>>>(rest),
        forall|k: nat| n <= k < m ==> #[trigger] begins(host, plan, world, k, property),
{
    lemma_highest(steps);
    lemma_done(host, plan, world, n, steps, rest, highest(steps), property)
}

/// The deepest nesting of what a list of steps leads to.
spec fn highest(steps: Seq<StepView>) -> nat
    decreases steps.len(),
{
    if steps.len() == 0 {
        0
    } else if rank(steps.last()) > highest(steps.drop_last()) {
        rank(steps.last())
    } else {
        highest(steps.drop_last())
    }
}

/// No step is nested deeper than the deepest.
proof fn lemma_highest(steps: Seq<StepView>)
    ensures
        ranked(steps, highest(steps)),
    decreases steps.len(),
{
    if steps.len() > 0 {
        lemma_highest(steps.drop_last());
        assert forall|i: int| 0 <= i < steps.len() implies rank(#[trigger] steps[i]) <= highest(
            steps,
        ) by {
            if i < steps.len() - 1 {
                assert(steps[i] == steps.drop_last()[i]);
            }
        }
    }
}

/// Every workflow ends, whatever plan it carries out and whatever the host and
/// the user answer: some call of `advance` asks for no action.
pub proof fn every_workflow_ends(host: Host, plan: Seq<StepView>, world: World)
    ensures
        exists|n: nat| !(#[trigger] run::run_at(host, plan, world, n).0 is Act),
{
    let nothing = Seq::<StepView>::empty();
    lemma_highest(plan);
    assert(plan + nothing =~= plan);
    let any = |step: StepView| true;
    let m = lemma_done(host, plan, world, 0, plan, nothing, highest(plan), any);
    run::lemma_run_begins(host, plan, world, m);
    assert(!(run::run_at(host, plan, world, m).0 is Act));
}

/// Stopping the workloads of a node never stops a workflow: whatever the host
/// answers, the steps behind it are reached.
pub proof fn stopping_workloads_is_best_effort(host: Host, rest: Seq<StepView>, world: World)
    ensures
        exists|n: nat|
            #[trigger] run::left_at(
                host,
                deps::stop_cluster_workloads_plan() + rest,
                world,
                n,
            ) == Ok::<_, Error<Seq<char>>>(rest),
{
    let steps = deps::stop_cluster_workloads_plan();
    assert(run::all(steps, |step: StepView| tolerant(step)));
    let m = lemma_tolerant_done(
        host,
        steps + rest,
        world,
        0,
        steps,
        rest,
        |step: StepView| true,
    );
}

/// Removing what Helm installed never stops a workflow either.
pub proof fn removing_releases_is_best_effort(host: Host, rest: Seq<StepView>, world: World)
    ensures
        exists|n: nat|
            #[trigger] run::left_at(
                host,
                seq![plan::probe("helm"@, Topic::UninstallReleases)] + rest,
                world,
                n,
            ) == Ok::<_, Error<Seq<char>>>(rest),
{
    let steps = seq![plan::probe("helm"@, Topic::UninstallReleases)];
    assert(run::all(steps, |step: StepView| tolerant(step)));
    let m = lemma_tolerant_done(
        host,
        steps + rest,
        world,
        0,
        steps,
        rest,
        |step: StepView| true,
    );
}

// ── Waiting ──────────────────────────────────────────────────────────────────

/// For how many seconds a question can make a workflow wait.
pub open spec fn topic_wait(topic: Topic<Seq<char>>) -> nat {
    match topic {
        Topic::Exiting(looks) => if looks > 1 {
            deps::EXIT_PAUSE as nat * looks as nat
        } else {
            deps::EXIT_PAUSE as nat
        },
        Topic::RunningContainers => 60,
        Topic::Containers => 60,
        Topic::ConfirmUninstall => 60,
        _ => 0,
    }
}

/// For how many seconds a step can make a workflow wait.
pub open spec fn step_wait(step: StepView) -> nat {
    match step {
        StepView::Sleep(seconds) => seconds as nat,
        StepView::Ask { topic, .. } => topic_wait(topic),
        StepView::Prompt { topic, .. } => topic_wait(topic),
        _ => 0,
    }
}

/// For how many seconds a list of steps can make a workflow wait.
pub open spec fn total_wait(steps: Seq<StepView>) -> nat
    decreases steps.len(),
{
    if steps.len() == 0 {
        0
    } else {
        step_wait(steps[0]) + total_wait(steps.skip(1))
    }
}

/// Waits add up.
proof fn lemma_wait_concat(a: Seq<StepView>, b: Seq<StepView>)
    ensures
        total_wait(a + b) == total_wait(a) + total_wait(b),
    decreases a.len(),
{
    if a.len() == 0 {
        assert(a + b =~= b);
    } else {
        assert((a + b).skip(1) =~= a.skip(1) + b);
        lemma_wait_concat(a.skip(1), b);
    }
}

/// Steps of which none waits do not wait.
proof fn lemma_no_wait(steps: Seq<StepView>)
    requires
        run::all(steps, |step: StepView| step_wait(step) == 0),
    ensures
        total_wait(steps) == 0,
    decreases steps.len(),
{
    if steps.len() > 0 {
        run::lemma_all_behind(steps, |step: StepView| step_wait(step) == 0);
        lemma_no_wait(steps.skip(1));
    }
}

/// Setting a cluster up does not wait.
proof fn lemma_set_up_wait(host: Host, endpoint: Seq<char>, options: InitOptions<Seq<char>>)
    ensures
        total_wait(cluster::set_up_plan(host, endpoint, options)) == 0,
{
    lemma_set_up_all(host, endpoint, options, |step: StepView| step_wait(step) == 0);
    lemma_no_wait(cluster::set_up_plan(host, endpoint, options));
}

/// Installing the dependencies does not wait.
proof fn lemma_install_wait(
    host: Host,
    kubernetes_version: Option<Seq<char>>,
    cilium_version: Option<Seq<char>>,
)
    ensures
        total_wait(deps::install_all_plan(host, kubernetes_version, cilium_version)) == 0,
{
    lemma_no_wait(deps::install_all_plan(host, kubernetes_version, cilium_version));
}

/// Uninstalling everything waits for the containers only.
proof fn lemma_uninstall_wait(host: Host)
    ensures
        total_wait(deps::uninstall_all_plan(host)) == 60,
{
    let before = cmd::ensure_privilege_plan(host.root) + seq![
        plan::probe("helm"@, Topic::UninstallReleases),
    ];
    let stop = deps::stop_cluster_workloads_plan();
    let components = deps::uninstall_kubernetes_components_plan(host);
    let tools = seq![
        plan::probe("crictl"@, Topic::RemoveCrictl),
        plan::probe("cilium"@, Topic::RemoveCiliumCli),
        plan::probe("helm"@, Topic::RemoveHelm),
    ];
    let plugins = deps::uninstall_cni_plugins_plan(host);
    let runtime = seq![
        plan::probe("containerd"@, Topic::RemoveContainerd),
        plan::probe("runc"@, Topic::RemoveRunc),
    ];
    let files = deps::uninstall_data_and_config_plan(host);
    lemma_no_wait(before);
    lemma_no_wait(components);
    lemma_no_wait(tools);
    lemma_no_wait(plugins);
    lemma_no_wait(runtime);
    lemma_no_wait(files);
    lemma_no_wait(stop.take(3));
    lemma_wait_concat(stop.take(3), stop.skip(3));
    assert(stop.take(3) + stop.skip(3) =~= stop);
    assert(stop.skip(3).skip(1) =~= Seq::<StepView>::empty());
    lemma_wait_concat(before, stop);
    lemma_wait_concat(before + stop, components);
    lemma_wait_concat(before + stop + components, tools);
    lemma_wait_concat(before + stop + components + tools, plugins);
    lemma_wait_concat(before + stop + components + tools + plugins, runtime);
    lemma_wait_concat(before + stop + components + tools + plugins + runtime, files);
    assert(total_wait(stop.skip(3).skip(1)) == 0);
    assert(deps::uninstall_all_plan(host) =~= before + stop + components + tools + plugins + runtime
        + files);
}

/// Removing pod sandboxes does not wait.
proof fn lemma_sandboxes_wait(ids: Seq<Seq<char>>)
    ensures
        total_wait(deps::remove_sandboxes(ids)) == 0,
    decreases ids.len(),
{
    if ids.len() > 0 {
        let last = seq![
            plan::effort(cmd::as_root("crictl"@, seq!["stopp"@, ids.last()])),
            plan::effort(cmd::as_root("crictl"@, seq!["rmp"@, "--force"@, ids.last()])),
        ];
        lemma_sandboxes_wait(ids.drop_last());
        lemma_no_wait(last);
        lemma_wait_concat(deps::remove_sandboxes(ids.drop_last()), last);
    }
}

/// An answer makes a workflow wait no longer than its question may.
#[verifier::rlimit(60)]
#[verifier::spinoff_prover]
proof fn lemma_follow_up_wait(
    host: Host,
    topic: Topic<Seq<char>>,
    program: Seq<char>,
    outcome: Outcome<Seq<char>>,
)
    ensures
        total_wait(workflow::follow_up(host, topic, program, outcome)) <= topic_wait(topic),
{
    let answer = cmd::text_of(outcome);
    let more = workflow::follow_up(host, topic, program, outcome);
    match topic {
        Topic::Endpoint { address, options } => {
            if let Outcome::Success(reply) = outcome {
                if let Some(endpoint) = net::chosen_endpoint(address, reply) {
                    lemma_set_up_wait(host, endpoint, options);
                } else {
                    lemma_no_wait(more);
                }
            } else {
                lemma_no_wait(more);
            }
        },
        Topic::ConfirmUninstall => {
            if more =~= deps::uninstall_all_plan(host) {
                lemma_uninstall_wait(host);
            } else {
                lemma_no_wait(more);
            }
        },
        Topic::PodSandboxes => {
            lemma_sandboxes_wait(deps::listed_ids(answer));
            lemma_no_wait(plan::noted(program, outcome));
            lemma_wait_concat(
                plan::noted(program, outcome),
                deps::remove_sandboxes(deps::listed_ids(answer)),
            );
        },
        Topic::Containers => {
            reveal_with_fuel(total_wait, 3);
        },
        Topic::RunningContainers => {
            let note = plan::noted(program, outcome);
            lemma_no_wait(note);
            lemma_wait_concat(note, deps::containers_listed_plan(answer));
            if answer.len() > 0 {
                let stops = deps::listed_ids(answer).map_values(
                    |id: Seq<char>| deps::stop_container(id),
                );
                let looks = seq![
                    deps::list_containers(Topic::Exiting(deps::EXIT_LOOKS)),
                    deps::list_containers(Topic::Stragglers),
                ];
                lemma_no_wait(stops);
                lemma_wait_concat(stops, looks);
                reveal_with_fuel(total_wait, 3);
            }
        },
        Topic::Exiting(looks) => {
            let note = plan::noted(program, outcome);
            lemma_no_wait(note);
            lemma_wait_concat(note, deps::exiting_plan(looks, answer));
            reveal_with_fuel(total_wait, 3);
        },
        _ => {
            lemma_no_wait(more);
        },
    }
}

/// For how many seconds an action makes the caller wait.
pub open spec fn seconds_of(progress: ProgressView) -> nat {
    match progress {
        ProgressView::Act(ActionView::Sleep(seconds)) => seconds as nat,
        _ => 0,
    }
}

/// For how many seconds a workflow has waited before the call of `advance`
/// number `n`.
pub open spec fn waited(host: Host, plan: Seq<StepView>, world: World, n: nat) -> nat
    decreases n,
{
    if n == 0 {
        0
    } else {
        waited(host, plan, world, (n - 1) as nat) + seconds_of(
            run::run_at(host, plan, world, (n - 1) as nat).0,
        )
    }
}

/// What a workflow has waited and what it may still wait add up to no more than
/// its plan allows.
proof fn lemma_waited(host: Host, plan: Seq<StepView>, world: World, n: nat)
    ensures
        waited(host, plan, world, n) + (match run::left_at(host, plan, world, n) {
            Ok(steps) => total_wait(steps),
            Err(_) => 0,
        }) <= total_wait(plan),
    decreases n,
{
    if n > 0 {
        let before = (n - 1) as nat;
        lemma_waited(host, plan, world, before);
        run::lemma_run_begins(host, plan, world, before);
        let nothing = Seq::<StepView>::empty();
        assert(nothing + nothing =~= nothing);
        if let Ok(steps) = run::left_at(host, plan, world, before) {
            if steps.len() > 0 && !(steps[0] is Fail) {
                run::lemma_left_next(host, plan, world, before, steps);
                match workflow::awaiting_of(host.root, steps[0]) {
                    Awaiting::Answer { program, topic } => {
                        let more = workflow::follow_up(host, topic, program, world(n));
                        lemma_follow_up_wait(host, topic, program, world(n));
                        lemma_wait_concat(more, steps.skip(1));
                    },
                    Awaiting::Effort(program) => {
                        let more = plan::noted(program, world(n));
                        lemma_no_wait(more);
                        lemma_wait_concat(more, steps.skip(1));
                    },
                    _ => {
                        assert(nothing + steps.skip(1) =~= steps.skip(1));
                    },
                }
            }
        }
    }
}

/// No request makes the caller wait for more than a minute in all, however long
/// containers take to exit.
pub proof fn no_request_waits_longer_than_a_minute(
    host: Host,
    request: Request<Seq<char>>,
    world: World,
    n: nat,
)
    ensures
        waited(host, cli::request_plan(host, request), world, n) <= 60,
{
    let steps = cli::request_plan(host, request);
    lemma_waited(host, steps, world, n);
    match request {
        Request::Init { endpoint, options } => {
            let install = deps::install_all_plan(
                host,
                options.kubernetes_version,
                options.cilium_version,
            );
            let resolve = net::resolve_control_plane_endpoint_plan(host, endpoint, options);
            lemma_install_wait(host, options.kubernetes_version, options.cilium_version);
            if let Some(address) = endpoint {
                lemma_set_up_wait(host, address, options);
            } else {
                lemma_no_wait(resolve);
            }
            lemma_wait_concat(install, resolve);
        },
        Request::Join {
            role,
            token,
            api_server,
            ca_cert_hash,
            certificate_key,
            kubernetes_version,
            cilium_version,
        } => {
            let install = deps::install_all_plan(host, kubernetes_version, cilium_version);
            let preflight = cluster::preflight_checks_plan();
            let join = cli::join_as_plan(
                host,
                cluster::role_of(role),
                token,
                api_server,
                ca_cert_hash,
                certificate_key,
            );
            lemma_install_wait(host, kubernetes_version, cilium_version);
            lemma_no_wait(preflight);
            lemma_no_wait(join);
            lemma_wait_concat(install, preflight);
            lemma_wait_concat(install + preflight, join);
        },
        Request::InstallDeps { kubernetes_version, cilium_version } => {
            lemma_install_wait(host, kubernetes_version, cilium_version);
        },
        Request::Uninstall { force } => {
            if force {
                lemma_uninstall_wait(host);
            } else {
                assert(steps.skip(1) =~= Seq::<StepView>::empty());
                assert(total_wait(steps.skip(1)) == 0);
            }
        },
        _ => {
            lemma_no_wait(steps);
        },
    }
}

} // verus!
