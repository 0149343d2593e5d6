//! What an init request does with its inputs.
use crate::cli;
use crate::cli::Request;
use crate::cluster;
use crate::cluster::InitOptions;
use crate::cmd;
use crate::cmd::Outcome;
use crate::cni;
use crate::cni::CiliumConfig;
use crate::config::Host;
use crate::deps;
use crate::ends;
use crate::error::Error;
use crate::laws;
use crate::laws::reporting;
use crate::laws::steps;
use crate::laws::texts;
use crate::net;
use crate::plan::{Io, StepView, Topic};
use crate::run;
use crate::storage;
use crate::storage::StorageConfig;
use crate::text;
use vstd::prelude::*;

verus! {

// ── Options ──────────────────────────────────────────────────────────────────

/// The name of the option number `i` behind the first argument.
pub open spec fn option_name(args: Seq<Seq<char>>, i: int) -> Seq<char> {
    args[2 * i + 1]
}

/// The value of the option number `i` behind the first argument.
pub open spec fn option_value(args: Seq<Seq<char>>, i: int) -> Seq<char> {
    args[2 * i + 2]
}

/// Whether an option is among the arguments, and has this value wherever it is.
pub open spec fn passes(args: Seq<Seq<char>>, name: Seq<char>, value: Seq<char>) -> bool {
    &&& exists|i: int|
        0 <= i && 2 * i + 2 < args.len() && #[trigger] option_name(args, i) == name
            && option_value(args, i) == value
    &&& forall|i: int|
        0 <= i && 2 * i + 2 < args.len() && #[trigger] option_name(args, i) == name
            ==> option_value(args, i) == value
}

/// Whether an option is not among the arguments.
pub open spec fn lacks(args: Seq<Seq<char>>, name: Seq<char>) -> bool {
    forall|i: int|
        0 <= i && 2 * i + 2 < args.len() ==> #[trigger] option_name(args, i) != name
}

/// Whether these arguments have kubeadm initialize a cluster with an endpoint,
/// the networks, and the version of the options, and without kube-proxy.
pub open spec fn initializes(
    args: Seq<Seq<char>>,
    endpoint: Seq<char>,
    options: InitOptions<Seq<char>>,
) -> bool {
    &&& args.len() % 2 == 1
    &&& args[0] == "init"@
    &&& passes(args, "--control-plane-endpoint"@, endpoint)
    &&& passes(args, "--pod-network-cidr"@, options.pod_network_cidr)
    &&& passes(args, "--service-cidr"@, options.service_cidr)
    &&& passes(args, "--skip-phases"@, "addon/kube-proxy"@)
    &&& match options.kubernetes_version {
        Some(version) => args.len() == 11 && passes(
            args,
            "--kubernetes-version"@,
            "v"@ + text::without_leading(version, 'v'),
        ),
        None => args.len() == 9 && lacks(args, "--kubernetes-version"@),
    }
}

/// Whether a step runs a program.
pub open spec fn runs(step: StepView, program: Seq<char>) -> bool {
    step matches StepView::Run { command, .. } && command.program == program
}

/// Whether a value is among the arguments, behind a `--set`.
pub open spec fn sets(args: Seq<Seq<char>>, value: Seq<char>) -> bool {
    exists|i: int| 0 < i < args.len() && #[trigger] args[i] == value && args[i - 1] == "--set"@
}

/// Whether these arguments configure Cilium for the pod network, without
/// kube-proxy, with the Gateway API if it is wanted, and in the version asked
/// for.
pub open spec fn configures_cilium(
    args: Seq<Seq<char>>,
    options: InitOptions<Seq<char>>,
) -> bool {
    &&& sets(args, "kubeProxyReplacement=true"@)
    &&& sets(args, "ipam.operator.clusterPoolIPv4PodCIDRList="@ + options.pod_network_cidr)
    &&& options.gateway_api ==> sets(args, "gatewayAPI.enabled=true"@) && sets(
        args,
        "gatewayAPI.hostNetwork.enabled=true"@,
    )
    &&& match options.cilium_version {
        Some(version) => args.len() > 1 && args[args.len() - 2] == "--version"@ && args.last()
            == text::without_leading(version, 'v'),
        None => !args.contains("--version"@),
    }
}

/// Whether a plan installs Cilium with a tool, behind the definitions of the
/// Gateway API if it is wanted.
pub open spec fn installs_cilium_with(
    plan: Seq<StepView>,
    tool: Seq<char>,
    crds: Seq<char>,
    options: InitOptions<Seq<char>>,
) -> bool {
    exists|i: int, args: Seq<Seq<char>>|
        {
            &&& 0 <= i < plan.len()
            &&& #[trigger] plan[i] == #[trigger] steps::user_must(tool, args)
            &&& args.len() > 0 && args[0] == "install"@
            &&& configures_cilium(args, options)
            &&& options.gateway_api ==> i > 0 && plan[0] == steps::user_must(
                "kubectl"@,
                seq!["apply"@, "--server-side"@, "-f"@, crds],
            )
            &&& !options.gateway_api ==> forall|j: int|
                0 <= j < plan.len() ==> !runs(#[trigger] plan[j], "kubectl"@)
        }
}

/// Whether a step leads to the installation of Cilium: by its CLI if that is
/// found, and else by Helm.
pub open spec fn leads_to_cilium(
    host: Host,
    step: StepView,
    options: InitOptions<Seq<char>>,
) -> bool {
    &&& steps::looks_up(step, "cilium"@)
    &&& forall|found: Outcome<Seq<char>>|
        #![trigger steps::answered(host, step, found)]
        found is Success ==> installs_cilium_with(
            steps::answered(host, step, found),
            "cilium"@,
            cni::gateway_api_url_of(host),
            options,
        )
    &&& forall|missing: Outcome<Seq<char>>, found: Outcome<Seq<char>>|
        #![trigger steps::answered(host, step, missing), steps::answered(host, steps::answered(host, step, missing)[0], found)]
        !(missing is Success) && found is Success ==> {
            &&& steps::answered(host, step, missing).len() == 1
            &&& steps::looks_up(steps::answered(host, step, missing)[0], "helm"@)
            &&& installs_cilium_with(
                steps::answered(host, steps::answered(host, step, missing)[0], found),
                "helm"@,
                cni::gateway_api_url_of(host),
                options,
            )
        }
}

/// Whether a step leads to the installation of storage by Helm, in the version
/// asked for or the default one.
pub open spec fn leads_to_storage(
    host: Host,
    step: StepView,
    options: InitOptions<Seq<char>>,
) -> bool {
    &&& steps::looks_up(step, "helm"@)
    &&& forall|found: Outcome<Seq<char>>|
        #![trigger steps::answered(host, step, found)]
        found is Success ==> steps::answered(host, step, found).contains(
            steps::user_must(
                "helm"@,
                seq![
                    "install"@,
                    "openebs-localpv"@,
                    "openebs-localpv/localpv-provisioner"@,
                    "--namespace"@,
                    "openebs"@,
                    "--create-namespace"@,
                    "--version"@,
                    text::without_leading(
                        match options.storage_version {
                            Some(version) => version,
                            None => "4.4.0"@,
                        },
                        'v',
                    ),
                    "--set"@,
                    "storageClass.isDefaultClass=true"@,
                ],
            ),
        )
}

/// Whether a plan copies the admin kubeconfig into the home directory of the
/// invoking user, or of root, readable by its owner only; the invoking user owns
/// it.
pub open spec fn gives_kubeconfig(host: Host, plan: Seq<StepView>) -> bool {
    let home = match host.user {
        Some(user) => user.home@,
        None => "/root"@,
    };
    let dir = home + "/.kube"@;
    let made = steps::root_must("mkdir"@, seq!["-p"@, dir]);
    let copied = steps::root_must(
        "cp"@,
        seq!["-f"@, host.settings.kubernetes_conf_dir@ + "/admin.conf"@, dir + "/config"@],
    );
    let closed = steps::root_must("chmod"@, seq!["600"@, dir + "/config"@]);
    &&& steps::precedes(plan, made, copied)
    &&& steps::precedes(plan, copied, closed)
    &&& host.user matches Some(user) ==> steps::precedes(
        plan,
        copied,
        steps::root_must(
            "chown"@,
            seq![
                "-R"@,
                text::decimal(user.uid as nat) + ":"@ + text::decimal(user.gid as nat),
                dir,
            ],
        ),
    )
}

/// Whether a plan sets a cluster up: with the preflight checks behind it,
/// kubeadm gets the endpoint and the options, and so do Cilium and storage,
/// unless they are to be skipped.
pub open spec fn sets_up(
    host: Host,
    plan: Seq<StepView>,
    endpoint: Seq<char>,
    options: InitOptions<Seq<char>>,
) -> bool {
    exists|k: int, args: Seq<Seq<char>>|
        {
            &&& 0 < k < plan.len()
            &&& #[trigger] plan[k] == #[trigger] steps::root_must("kubeadm"@, args)
            &&& initializes(args, endpoint, options)
            &&& plan[k - 1] == steps::root_must("sysctl"@, seq!["--system"@])
            &&& forall|i: int|
                0 <= i < plan.len() && runs(#[trigger] plan[i], "kubeadm"@) ==> plan[i] == plan[k]
            &&& gives_kubeconfig(host, plan.skip(k))
            &&& if options.skip_cni {
                forall|i: int|
                    0 <= i < plan.len() ==> !(steps::topic(#[trigger] plan[i]) is Cilium
                        && plan[i] is Ask)
            } else {
                exists|j: int|
                    k < j < plan.len() && leads_to_cilium(host, #[trigger] plan[j], options)
            }
            &&& if options.skip_storage {
                forall|i: int|
                    0 <= i < plan.len() ==> !(steps::topic(#[trigger] plan[i]) is Storage
                        && plan[i] is Ask)
            } else {
                exists|j: int|
                    k < j < plan.len() && leads_to_storage(host, #[trigger] plan[j], options)
            }
        }
}

// ── Proofs ───────────────────────────────────────────────────────────────────

/// The arguments that kubeadm gets.
proof fn lemma_initializes(endpoint: Seq<char>, options: InitOptions<Seq<char>>)
    ensures
        initializes(
            cluster::init_args(cluster::cluster_config(endpoint, options)),
            endpoint,
            options,
        ),
{
    let args = cluster::init_args(cluster::cluster_config(endpoint, options));
    reveal_strlit("--control-plane-endpoint");
    reveal_strlit("--pod-network-cidr");
    reveal_strlit("--service-cidr");
    reveal_strlit("--skip-phases");
    reveal_strlit("--kubernetes-version");
    assert("--control-plane-endpoint"@.len() == 24);
    assert("--pod-network-cidr"@.len() == 18);
    assert("--service-cidr"@.len() == 14);
    assert("--skip-phases"@.len() == 13);
    assert("--kubernetes-version"@.len() == 20);
    assert(option_name(args, 0) == "--control-plane-endpoint"@);
    assert(option_name(args, 1) == "--pod-network-cidr"@);
    assert(option_name(args, 2) == "--service-cidr"@);
    assert(option_name(args, 3) == "--skip-phases"@);
    if options.kubernetes_version is Some {
        assert(option_name(args, 4) == "--kubernetes-version"@);
    }
}

/// The options that Cilium gets, behind other arguments.
proof fn lemma_configures_cilium(
    before: Seq<Seq<char>>,
    config: CiliumConfig<Seq<char>>,
    options: InitOptions<Seq<char>>,
)
    requires
        config.version == options.cilium_version,
        config.pod_cidr == options.pod_network_cidr,
        config.gateway_api == options.gateway_api,
        before.len() > 0,
        !before.contains("--version"@),
    ensures
        configures_cilium(before + cni::cilium_values(config), options),
{
    let values = cni::cilium_values(config);
    let args = before + values;
    let n = before.len() as int;
    assert(args[n + 1] == "kubeProxyReplacement=true"@);
    assert(args[n + 3] == "ipam.operator.clusterPoolIPv4PodCIDRList="@ + options.pod_network_cidr);
    if options.gateway_api {
        assert(args[n + 5] == "gatewayAPI.enabled=true"@);
        assert(args[n + 7] == "gatewayAPI.hostNetwork.enabled=true"@);
    }
    reveal_strlit("--version");
    reveal_strlit("--set");
    reveal_strlit("kubeProxyReplacement=true");
    reveal_strlit("gatewayAPI.enabled=true");
    reveal_strlit("gatewayAPI.hostNetwork.enabled=true");
    reveal_strlit("ipam.operator.clusterPoolIPv4PodCIDRList=");
    assert("--version"@.len() == 9 && "--set"@.len() == 5);
    assert("--version"@[0] == '-' && "kubeProxyReplacement=true"@[0] == 'k'
        && "gatewayAPI.enabled=true"@[0] == 'g');
    assert("gatewayAPI.hostNetwork.enabled=true"@[0] == 'g');
    assert(("ipam.operator.clusterPoolIPv4PodCIDRList="@ + config.pod_cidr)[0] == 'i');
    if options.cilium_version is None {
        assert(!args.contains("--version"@)) by {
            if args.contains("--version"@) {
                let i = args.index_of("--version"@);
                assert(args[i] == "--version"@);
                if i < n {
                    assert(before[i] == "--version"@);
                    assert(before.contains("--version"@));
                } else {
                    assert(values[i - n] == "--version"@);
                }
            }
        }
    }
}

/// What looking for the Cilium CLI leads to.
proof fn lemma_leads_to_cilium(host: Host, options: InitOptions<Seq<char>>)
    ensures
        ({
            let config = CiliumConfig {
                version: options.cilium_version,
                pod_cidr: options.pod_network_cidr,
                gateway_api: options.gateway_api,
            };
            leads_to_cilium(host, cni::install_cilium_plan(config)[0], options)
        }),
{
    let config = CiliumConfig {
        version: options.cilium_version,
        pod_cidr: options.pod_network_cidr,
        gateway_api: options.gateway_api,
    };
    let step = cni::install_cilium_plan(config)[0];
    let crds = cni::gateway_api_url_of(host);
    reveal_strlit("--version");
    reveal_strlit("install");
    reveal_strlit("cilium");
    reveal_strlit("cilium/cilium");
    reveal_strlit("--namespace");
    reveal_strlit("kube-system");
    reveal_strlit("kubectl");
    reveal_strlit("helm");
    assert("--version"@[2] == 'v' && "--namespace"@[2] == 'n' && "install"@[0] == 'i'
        && "cilium"@[0] == 'c' && "cilium/cilium"@[0] == 'c' && "kube-system"@[0] == 'k'
        && "--version"@[0] == '-' && "kubectl"@[0] == 'k' && "helm"@[0] == 'h');
    let gate = cni::apply_gateway_api_plan(host, config);
    let one = seq!["install"@];
    let five = seq!["install"@, "cilium"@, "cilium/cilium"@, "--namespace"@, "kube-system"@];
    lemma_configures_cilium(one, config, options);
    lemma_configures_cilium(five, config, options);
    let by_cli = gate + cni::install_via_cli_plan(config);
    let by_helm = gate + cni::install_via_helm_plan(host, config);
    let at = gate.len() as int;
    assert(installs_cilium_with(by_cli, "cilium"@, crds, options)) by {
        let args = one + cni::cilium_values(config);
        assert(by_cli[at] == steps::user_must("cilium"@, args));
    }
    assert(installs_cilium_with(by_helm, "helm"@, crds, options)) by {
        let args = five + cni::cilium_values(config);
        assert(by_helm[at + 2] == steps::user_must("helm"@, args));
    }
    assert forall|found: Outcome<Seq<char>>|
        #![trigger steps::answered(host, step, found)]
        found is Success implies installs_cilium_with(
        steps::answered(host, step, found),
        "cilium"@,
        crds,
        options,
    ) by {
        assert(steps::answered(host, step, found) == by_cli);
    }
    assert forall|missing: Outcome<Seq<char>>, found: Outcome<Seq<char>>|
        #![trigger steps::answered(host, step, missing), steps::answered(host, steps::answered(host, step, missing)[0], found)]
        !(missing is Success) && found is Success implies {
        &&& steps::answered(host, step, missing).len() == 1
        &&& steps::looks_up(steps::answered(host, step, missing)[0], "helm"@)
        &&& installs_cilium_with(
            steps::answered(host, steps::answered(host, step, missing)[0], found),
            "helm"@,
            crds,
            options,
        )
    } by {
        let second = steps::answered(host, step, missing)[0];
        assert(steps::answered(host, second, found) == by_helm);
    }
}

/// What looking for Helm leads to, for storage.
proof fn lemma_leads_to_storage(host: Host, options: InitOptions<Seq<char>>)
    ensures
        leads_to_storage(
            host,
            storage::install_storage_plan(StorageConfig { version: options.storage_version })[0],
            options,
        ),
{
    let config = StorageConfig { version: options.storage_version };
    let step = storage::install_storage_plan(config)[0];
    assert forall|found: Outcome<Seq<char>>|
        #![trigger steps::answered(host, step, found)]
        found is Success implies steps::answered(host, step, found).contains(
        steps::user_must(
            "helm"@,
            seq![
                "install"@,
                "openebs-localpv"@,
                "openebs-localpv/localpv-provisioner"@,
                "--namespace"@,
                "openebs"@,
                "--create-namespace"@,
                "--version"@,
                text::without_leading(
                    match options.storage_version {
                        Some(version) => version,
                        None => "4.4.0"@,
                    },
                    'v',
                ),
                "--set"@,
                "storageClass.isDefaultClass=true"@,
            ],
        ),
    ) by {
        let more = steps::answered(host, step, found);
        assert(more == storage::helm_probed_plan(host, config, true));
        assert(more[3] =~~= steps::user_must(
            "helm"@,
            seq![
                "install"@,
                "openebs-localpv"@,
                "openebs-localpv/localpv-provisioner"@,
                "--namespace"@,
                "openebs"@,
                "--create-namespace"@,
                "--version"@,
                text::without_leading(
                    match options.storage_version {
                        Some(version) => version,
                        None => "4.4.0"@,
                    },
                    'v',
                ),
                "--set"@,
                "storageClass.isDefaultClass=true"@,
            ],
        ));
    }
}

/// What the kubeconfig plan does, with more behind it.
pub proof fn lemma_gives_kubeconfig(host: Host, before: Seq<StepView>, after: Seq<StepView>)
    ensures
        gives_kubeconfig(host, before + cluster::setup_kubeconfig_plan(host) + after),
{
    let copy = cluster::setup_kubeconfig_plan(host);
    let whole = before + copy + after;
    let n = before.len() as int;
    let home = match host.user {
        Some(user) => user.home@,
        None => "/root"@,
    };
    let dir = home + "/.kube"@;
    assert(whole[n] =~~= steps::root_must("mkdir"@, seq!["-p"@, dir]));
    assert(whole[n + 1] =~~= steps::root_must(
        "cp"@,
        seq!["-f"@, host.settings.kubernetes_conf_dir@ + "/admin.conf"@, dir + "/config"@],
    ));
    assert(whole[n + 2] =~~= steps::root_must("chmod"@, seq!["600"@, dir + "/config"@]));
    if let Some(user) = host.user {
        assert(whole[n + 3] =~~= steps::root_must(
            "chown"@,
            seq![
                "-R"@,
                text::decimal(user.uid as nat) + ":"@ + text::decimal(user.gid as nat),
                dir,
            ],
        ));
    }
}

/// Whether a step neither runs kubeadm nor asks for Cilium or storage.
spec fn is_other(step: StepView) -> bool {
    &&& !runs(step, "kubeadm"@)
    &&& !(step is Ask && steps::topic(step) is Cilium)
    &&& !(step is Ask && steps::topic(step) is Storage)
}

/// No other program that installing or setting up runs is kubeadm.
proof fn lemma_not_kubeadm()
    ensures
        "bash"@ != "kubeadm"@,
        "sysctl"@ != "kubeadm"@,
        "mkdir"@ != "kubeadm"@,
        "cp"@ != "kubeadm"@,
        "chmod"@ != "kubeadm"@,
        "chown"@ != "kubeadm"@,
        "systemctl"@ != "kubeadm"@,
{
    reveal_strlit("bash");
    reveal_strlit("sysctl");
    reveal_strlit("mkdir");
    reveal_strlit("cp");
    reveal_strlit("chmod");
    reveal_strlit("chown");
    reveal_strlit("systemctl");
    reveal_strlit("kubeadm");
    assert("kubeadm"@.len() == 7);
    assert("kubeadm"@[0] == 'k');
}

/// The parts of a plan that sets a cluster up, put together.
proof fn lemma_parts_set_up(
    host: Host,
    before: Seq<StepView>,
    args: Seq<Seq<char>>,
    named: StepView,
    copy: Seq<StepView>,
    network: Seq<StepView>,
    store: Seq<StepView>,
    summary: Seq<StepView>,
    endpoint: Seq<char>,
    options: InitOptions<Seq<char>>,
)
    requires
        before.len() > 0,
        before.last() == steps::root_must("sysctl"@, seq!["--system"@]),
        forall|i: int| 0 <= i < before.len() ==> is_other(#[trigger] before[i]),
        initializes(args, endpoint, options),
        is_other(named),
        forall|i: int| 0 <= i < copy.len() ==> is_other(#[trigger] copy[i]),
        forall|i: int| 0 <= i < summary.len() ==> is_other(#[trigger] summary[i]),
        gives_kubeconfig(
            host,
            seq![steps::root_must("kubeadm"@, args), named] + copy + (network + store + summary),
        ),
        if options.skip_cni {
            network.len() == 0
        } else {
            &&& network.len() == 1
            &&& leads_to_cilium(host, network[0], options)
            &&& network[0] is Ask && steps::topic(network[0]) is Cilium
        },
        if options.skip_storage {
            store.len() == 0
        } else {
            &&& store.len() == 1
            &&& leads_to_storage(host, store[0], options)
            &&& store[0] is Ask && steps::topic(store[0]) is Storage
        },
    ensures
        sets_up(
            host,
            before + (seq![steps::root_must("kubeadm"@, args), named] + copy) + network + store
                + summary,
            endpoint,
            options,
        ),
{
    let kubeadm = steps::root_must("kubeadm"@, args);
    let head = seq![kubeadm, named] + copy;
    let whole = before + head + network + store + summary;
    let k = before.len() as int;
    let at_network = k + head.len();
    let at_store = at_network + network.len();
    let at_summary = at_store + store.len();
    assert(whole[k] == kubeadm);
    assert(whole[k - 1] == before.last());
    assert(whole.skip(k) =~= head + (network + store + summary));
    if !options.skip_cni {
        assert(whole[at_network] == network[0]);
    }
    if !options.skip_storage {
        assert(whole[at_store] == store[0]);
    }
    assert forall|i: int| 0 <= i < whole.len() implies ({
        ||| #[trigger] whole[i] == kubeadm
        ||| is_other(whole[i])
        ||| !options.skip_cni && whole[i] == network[0]
        ||| !options.skip_storage && whole[i] == store[0]
    }) by {
        if i < k {
            assert(whole[i] == before[i]);
        } else if i < at_network {
            assert(whole[i] == head[i - k]);
            if i - k >= 2 {
                assert(head[i - k] == copy[i - k - 2]);
            }
        } else if i < at_store {
            assert(whole[i] == network[i - at_network]);
        } else if i < at_summary {
            assert(whole[i] == store[i - at_store]);
        } else {
            assert(whole[i] == summary[i - at_summary]);
        }
    }
}

/// Setting a cluster up, on its own and behind other steps.
proof fn lemma_sets_up(
    host: Host,
    before: Seq<StepView>,
    endpoint: Seq<char>,
    options: InitOptions<Seq<char>>,
)
    requires
        run::all(before, |step: StepView| is_other(step)),
    ensures
        sets_up(host, before + cluster::set_up_plan(host, endpoint, options), endpoint, options),
{
    let other = |step: StepView| is_other(step);
    let config = cluster::cluster_config(endpoint, options);
    let args = cluster::init_args(config);
    let preflight = cluster::preflight_checks_plan();
    let copy = cluster::setup_kubeconfig_plan(host);
    let network = if options.skip_cni {
        Seq::empty()
    } else {
        cni::install_cilium_plan(
            CiliumConfig {
                version: options.cilium_version,
                pod_cidr: options.pod_network_cidr,
                gateway_api: options.gateway_api,
            },
        )
    };
    let store = if options.skip_storage {
        Seq::empty()
    } else {
        storage::install_storage_plan(StorageConfig { version: options.storage_version })
    };
    let summary = cluster::print_post_init_summary_plan(host, config);
    let init = cluster::init_cluster_plan(host, config);
    let kubeadm = steps::root_must("kubeadm"@, args);
    let named = init[1];
    lemma_initializes(endpoint, options);
    lemma_leads_to_cilium(host, options);
    lemma_leads_to_storage(host, options);
    lemma_preflight_other();
    lemma_copy_other(host);
    ends::lemma_summary_prints(host, config);
    lemma_gives_kubeconfig(host, seq![kubeadm, named], network + store + summary);
    let front = before + preflight;
    assert(front.last() == preflight.last());
    assert forall|i: int| 0 <= i < front.len() implies is_other(#[trigger] front[i]) by {
        if i < before.len() {
            assert(other(before[i]));
        } else {
            assert(front[i] == preflight[i - before.len()]);
        }
    }
    assert forall|i: int| 0 <= i < summary.len() implies is_other(#[trigger] summary[i]) by {
        assert(summary[i] is Print);
    }
    lemma_parts_set_up(
        host,
        front,
        args,
        named,
        copy,
        network,
        store,
        summary,
        endpoint,
        options,
    );
    lemma_set_up_shape(host, before, endpoint, options);
}

/// The parts of setting a cluster up, with kubeadm as the first behind the checks.
proof fn lemma_set_up_shape(
    host: Host,
    before: Seq<StepView>,
    endpoint: Seq<char>,
    options: InitOptions<Seq<char>>,
)
    ensures
        ({
            let config = cluster::cluster_config(endpoint, options);
            let kubeadm = steps::root_must("kubeadm"@, cluster::init_args(config));
            let named = cluster::init_cluster_plan(host, config)[1];
            &&& is_other(named)
            &&& before + cluster::set_up_plan(host, endpoint, options) == before
                + cluster::preflight_checks_plan() + (seq![kubeadm, named]
                + cluster::setup_kubeconfig_plan(host)) + (if options.skip_cni {
                Seq::empty()
            } else {
                cni::install_cilium_plan(
                    CiliumConfig {
                        version: options.cilium_version,
                        pod_cidr: options.pod_network_cidr,
                        gateway_api: options.gateway_api,
                    },
                )
            }) + (if options.skip_storage {
                Seq::empty()
            } else {
                storage::install_storage_plan(StorageConfig { version: options.storage_version })
            }) + cluster::print_post_init_summary_plan(host, config)
        }),
{
    let config = cluster::cluster_config(endpoint, options);
    let init = cluster::init_cluster_plan(host, config);
    let kubeadm = steps::root_must("kubeadm"@, cluster::init_args(config));
    let preflight = cluster::preflight_checks_plan();
    let copy = cluster::setup_kubeconfig_plan(host);
    let summary = cluster::print_post_init_summary_plan(host, config);
    assert(init =~= seq![kubeadm, init[1]] + copy);
    assert(cluster::set_up_plan(host, endpoint, options) == preflight + init
        + (if options.skip_cni {
        Seq::empty()
    } else {
        cni::install_cilium_plan(
            CiliumConfig {
                version: options.cilium_version,
                pod_cidr: options.pod_network_cidr,
                gateway_api: options.gateway_api,
            },
        )
    }) + (if options.skip_storage {
        Seq::empty()
    } else {
        storage::install_storage_plan(StorageConfig { version: options.storage_version })
    }) + summary);
    lemma_regroup(
        before,
        preflight,
        init,
        if options.skip_cni {
            Seq::empty()
        } else {
            cni::install_cilium_plan(
                CiliumConfig {
                    version: options.cilium_version,
                    pod_cidr: options.pod_network_cidr,
                    gateway_api: options.gateway_api,
                },
            )
        },
        if options.skip_storage {
            Seq::empty()
        } else {
            storage::install_storage_plan(StorageConfig { version: options.storage_version })
        },
        summary,
    );
}

/// Steps in front of a plan are steps in front of its first part.
proof fn lemma_regroup(
    before: Seq<StepView>,
    preflight: Seq<StepView>,
    init: Seq<StepView>,
    network: Seq<StepView>,
    store: Seq<StepView>,
    summary: Seq<StepView>,
)
    ensures
        before + (preflight + init + network + store + summary) == before + preflight + init
            + network + store + summary,
{
    assert(before + (preflight + init + network + store + summary) =~= before + preflight + init
        + network + store + summary);
}

/// The preflight checks end with loading the kernel parameters.
proof fn lemma_preflight_other()
    ensures
        ({
            let plan = cluster::preflight_checks_plan();
            &&& plan.len() > 0
            &&& plan.last() == steps::root_must("sysctl"@, seq!["--system"@])
            &&& forall|i: int| 0 <= i < plan.len() ==> is_other(#[trigger] plan[i])
        }),
{
    lemma_not_kubeadm();
    let plan = cluster::preflight_checks_plan();
    assert(plan.len() == 11);
    assert(plan[10] =~~= steps::root_must("sysctl"@, seq!["--system"@]));
}

/// Handing the kubeconfig over takes other programs only.
proof fn lemma_copy_other(host: Host)
    ensures
        forall|i: int|
            0 <= i < cluster::setup_kubeconfig_plan(host).len() ==> is_other(
                #[trigger] cluster::setup_kubeconfig_plan(host)[i],
            ),
{
    lemma_not_kubeadm();
}

/// Installing takes other programs only.
proof fn lemma_install_other(
    host: Host,
    kubernetes_version: Option<Seq<char>>,
    cilium_version: Option<Seq<char>>,
)
    ensures
        run::all(
            deps::install_all_plan(host, kubernetes_version, cilium_version),
            |step: StepView| is_other(step),
        ),
{
    lemma_not_kubeadm();
}

// ── Laws ─────────────────────────────────────────────────────────────────────

/// An init request with an endpoint hands that endpoint, both networks, and the
/// version to kubeadm, the same pod network to Cilium, and the versions to
/// Cilium and storage; what is to be skipped is not installed.
pub proof fn init_uses_its_inputs(
    host: Host,
    endpoint: Seq<char>,
    options: InitOptions<Seq<char>>,
)
    ensures
        sets_up(
            host,
            cli::request_plan(host, Request::Init { endpoint: Some(endpoint), options }),
            endpoint,
            options,
        ),
{
    lemma_install_other(host, options.kubernetes_version, options.cilium_version);
    lemma_sets_up(
        host,
        deps::install_all_plan(host, options.kubernetes_version, options.cilium_version),
        endpoint,
        options,
    );
}

/// Whether a reply accepts what is proposed.
pub open spec fn accepts(reply: Seq<char>) -> bool {
    ||| reply == ""@
    ||| reply == "y"@
    ||| reply == "Y"@
    ||| reply == "yes"@
    ||| reply == "Yes"@
}

/// Whether a reply declines what is proposed.
pub open spec fn declines(reply: Seq<char>) -> bool {
    ||| reply == "n"@
    ||| reply == "N"@
    ||| reply == "no"@
    ||| reply == "No"@
}

/// The user has the last word on the endpoint: a cluster is set up with the
/// detected address if the reply accepts it, with the reply if it is neither a
/// yes nor a no, and not at all if it declines.
pub proof fn the_reply_settles_the_endpoint(
    host: Host,
    address: Seq<char>,
    options: InitOptions<Seq<char>>,
    name: Seq<char>,
    lead: Seq<char>,
    reply: Seq<char>,
    trail: Seq<char>,
)
    requires
        texts::is_blank(lead),
        texts::is_blank(trail),
        reply.len() > 0 ==> !text::is_white(reply[0]) && !text::is_white(reply.last()),
    ensures
        ({
            let asked = net::confirmation_plan(address, options, name);
            let more = steps::answered(
                host,
                asked[0],
                Outcome::Success(lead + reply + trail),
            );
            &&& asked.len() == 1
            &&& asked[0] matches StepView::Prompt { text: question, .. } && question
                == "Detected control-plane endpoint: "@ + (if name.len() > 0 {
                name + " ("@ + address + ")"@
            } else {
                address
            }) + "\nUse this as the control-plane endpoint? [Y/n/custom value]: "@
            &&& accepts(reply) ==> sets_up(host, more, address, options)
            &&& declines(reply) ==> more =~= seq![StepView::Fail(Error::EndpointDeclined)]
            &&& !accepts(reply) && !declines(reply) ==> sets_up(host, more, reply, options)
        }),
{
    texts::trimming_removes_the_surrounding_space(lead, reply, trail);
    let nothing = Seq::<StepView>::empty();
    reveal_strlit("");
    reveal_strlit("y");
    reveal_strlit("Y");
    reveal_strlit("yes");
    reveal_strlit("Yes");
    reveal_strlit("n");
    reveal_strlit("N");
    reveal_strlit("no");
    reveal_strlit("No");
    assert(reply.len() == 0 ==> reply =~= ""@);
    assert("y"@[0] == 'y' && "Y"@[0] == 'Y' && "yes"@[0] == 'y' && "Yes"@[0] == 'Y');
    assert("n"@[0] == 'n' && "N"@[0] == 'N' && "no"@[0] == 'n' && "No"@[0] == 'N');
    assert(!(accepts(reply) && declines(reply)));
    lemma_sets_up(host, nothing, address, options);
    lemma_sets_up(host, nothing, reply, options);
    assert(nothing + cluster::set_up_plan(host, address, options) =~= cluster::set_up_plan(
        host,
        address,
        options,
    ));
    assert(nothing + cluster::set_up_plan(host, reply, options) =~= cluster::set_up_plan(
        host,
        reply,
        options,
    ));
}

/// Without an endpoint, init looks for the device of the default route and then
/// for its address: the word behind `dev` of the route, and the address that
/// stands behind `inet` of a line, up to the slash. The user is then asked
/// under the fully qualified host name, or the short one, or none.
pub proof fn the_endpoint_is_detected(
    host: Host,
    options: InitOptions<Seq<char>>,
    before: Seq<Seq<char>>,
    device: Seq<char>,
    after: Seq<Seq<char>>,
    front: Seq<Seq<char>>,
    numbers: (nat, nat, nat, nat),
    bits: Seq<char>,
    back: Seq<Seq<char>>,
    name: Seq<char>,
    short: Outcome<Seq<char>>,
    unnamed: Outcome<Seq<char>>,
)
    requires
        forall|i: int| 0 <= i < before.len() ==> laws::is_word(#[trigger] before[i]),
        forall|i: int| 0 <= i < after.len() ==> laws::is_word(#[trigger] after[i]),
        forall|i: int| 0 <= i < front.len() ==> laws::is_word(#[trigger] front[i]),
        forall|i: int| 0 <= i < back.len() ==> laws::is_word(#[trigger] back[i]),
        laws::is_word(device),
        !before.contains("dev"@),
        !front.contains("inet"@),
        numbers.0 < 256 && numbers.1 < 256 && numbers.2 < 256 && numbers.3 < 256,
        forall|i: int| 0 <= i < bits.len() ==> '0' <= #[trigger] bits[i] <= '9',
        name.len() > 0,
        cmd::text_of(unnamed).len() == 0,
    ensures
        ({
            let plan = cli::request_plan(host, Request::Init { endpoint: None, options });
            let route = plan.last();
            let route_line = laws::spaced(before + seq!["dev"@, device] + after);
            let asked = steps::answered(host, route, Outcome::Success(route_line));
            let address = texts::dotted(numbers.0, numbers.1, numbers.2, numbers.3);
            let line = laws::spaced(front + seq!["inet"@, address + "/"@ + bits] + back);
            let shown = steps::answered(host, asked[0], Outcome::Success(line));
            &&& steps::reads(route, false, "ip"@, seq!["-4"@, "route"@, "show"@, "default"@])
            &&& asked.len() == 1
            &&& steps::reads(
                asked[0],
                false,
                "ip"@,
                seq!["-4"@, "-o"@, "addr"@, "show"@, "dev"@, device],
            )
            &&& shown.len() == 1
            &&& numbers.0 == 127 ==> shown[0] == StepView::Fail(
                Error::NoAddress(device),
            )
            &&& numbers.0 != 127 ==> {
                let fallback = steps::answered(host, shown[0], unnamed);
                &&& steps::reads(shown[0], false, "hostname"@, seq!["-f"@])
                &&& steps::answered(host, shown[0], Outcome::Success(name))
                    =~= net::confirmation_plan(address, options, name)
                &&& fallback.len() == 1
                &&& steps::reads(fallback[0], false, "hostname"@, seq![])
                &&& steps::answered(host, fallback[0], short) =~= net::confirmation_plan(
                    address,
                    options,
                    cmd::text_of(short),
                )
            }
        }),
{
    reveal_strlit("dev");
    reveal_strlit("inet");
    reveal_strlit("/");
    assert("dev"@.len() == 3 && "inet"@.len() == 4 && "/"@.len() == 1);
    let plan = cli::request_plan(host, Request::Init { endpoint: None, options });
    let route = plan.last();
    let route_words = before + seq!["dev"@, device] + after;
    assert forall|i: int| 0 <= i < route_words.len() implies laws::is_word(
        #[trigger] route_words[i],
    ) by {
        if i < before.len() {
            assert(laws::is_word(before[i]));
        } else if i >= before.len() + 2 {
            assert(laws::is_word(after[i - before.len() - 2]));
        }
    }
    laws::splitting_undoes_spacing(route_words);
    texts::the_word_behind_is_found(before, "dev"@, device, after);
    let asked = steps::answered(host, route, Outcome::Success(laws::spaced(route_words)));
    let address = texts::dotted(numbers.0, numbers.1, numbers.2, numbers.3);
    let cidr = address + "/"@ + bits;
    texts::dotted_numbers_are_addresses(numbers.0, numbers.1, numbers.2, numbers.3);
    lemma_address_characters(numbers.0, numbers.1, numbers.2, numbers.3);
    assert(laws::is_word(cidr)) by {
        assert forall|i: int| 0 <= i < cidr.len() implies !text::is_white(#[trigger] cidr[i]) by {
            if i < address.len() {
                assert(cidr[i] == address[i]);
            } else if i > address.len() {
                assert(cidr[i] == bits[i - address.len() - 1]);
            }
        }
    }
    let words = front + seq!["inet"@, cidr] + back;
    assert forall|i: int| 0 <= i < words.len() implies laws::is_word(#[trigger] words[i]) by {
        if i < front.len() {
            assert(laws::is_word(front[i]));
        } else if i >= front.len() + 2 {
            assert(laws::is_word(back[i - front.len() - 2]));
        }
    }
    laws::splitting_undoes_spacing(words);
    texts::the_word_behind_is_found(front, "inet"@, cidr, back);
    let line = laws::spaced(words);
    texts::lemma_run_before_of(address, "/"@ + bits, '/');
    assert(address + ("/"@ + bits) =~= cidr);
    assert(cidr.take(address.len() as int) =~= address);
    lemma_one_line(words);
    assert(text::lines(line) =~= seq![line]);
    assert(net::first_address(seq![line].skip(1)) == None::<Seq<char>>);
    let shown = steps::answered(host, asked[0], Outcome::Success(line));
}

/// A dotted address holds digits and dots only.
proof fn lemma_address_characters(a: nat, b: nat, c: nat, d: nat)
    ensures
        texts::dotted(a, b, c, d).len() > 0,
        forall|i: int|
            0 <= i < texts::dotted(a, b, c, d).len() ==> ({
                let x = #[trigger] texts::dotted(a, b, c, d)[i];
                x == '.' || '0' <= x <= '9'
            }),
{
    texts::decimals_stand_for_their_numbers(a);
    texts::decimals_stand_for_their_numbers(b);
    texts::decimals_stand_for_their_numbers(c);
    texts::decimals_stand_for_their_numbers(d);
}

/// Words with spaces between them are one line.
proof fn lemma_one_line(words: Seq<Seq<char>>)
    requires
        words.len() > 0,
        forall|i: int| 0 <= i < words.len() ==> laws::is_word(#[trigger] words[i]),
    ensures
        text::lines(laws::spaced(words)) == seq![laws::spaced(words)],
{
    lemma_spaced_line(words);
    let line = laws::spaced(words);
    texts::lemma_run_before_of(line, Seq::empty(), '\n');
    assert(line + Seq::<char>::empty() =~= line);
}

/// Words with spaces between them have no newline.
proof fn lemma_spaced_line(words: Seq<Seq<char>>)
    requires
        words.len() > 0,
        forall|i: int| 0 <= i < words.len() ==> laws::is_word(#[trigger] words[i]),
    ensures
        texts::is_line(laws::spaced(words)),
        laws::spaced(words).len() > 0,
    decreases words.len(),
{
    reveal_strlit(" ");
    let word = words[0];
    assert(laws::is_word(word));
    if words.len() > 1 {
        assert forall|i: int| 0 <= i < words.skip(1).len() implies laws::is_word(
            #[trigger] words.skip(1)[i],
        ) by {
            assert(laws::is_word(words[i + 1]));
        }
        lemma_spaced_line(words.skip(1));
        let rest = laws::spaced(words.skip(1));
        let whole = laws::spaced(words);
        assert(whole =~= word + " "@ + rest);
        assert forall|i: int| 0 <= i < whole.len() implies #[trigger] whole[i] != '\n' by {
            if i < word.len() {
                assert(whole[i] == word[i]);
            } else if i > word.len() {
                assert(whole[i] == rest[i - word.len() - 1]);
            }
        }
    }
}

/// A new cluster is summed up at the end, with its endpoint and both networks,
/// whether the endpoint is given or accepted later.
pub proof fn init_ends_with_the_summary(
    host: Host,
    endpoint: Seq<char>,
    options: InitOptions<Seq<char>>,
)
    ensures
        ({
            let asked = cli::request_plan(host, Request::Init { endpoint: Some(endpoint), options });
            let shown = asked.skip(asked.len() - 51);
            let value = |label: Seq<char>, text: Seq<char>|
                StepView::Print("║  "@ + label + text::padded(text, 35) + " ║"@);
            &&& asked.len() > 51
            &&& forall|i: int| 0 <= i < 51 ==> #[trigger] shown[i] is Print
            &&& shown[4] == value("Control-plane endpoint: "@, endpoint)
            &&& shown[5] == value("Pod network CIDR:       "@, options.pod_network_cidr)
            &&& shown[6] == value("Service CIDR:           "@, options.service_cidr)
        }),
{
    let config = cluster::cluster_config(endpoint, options);
    let asked = cli::request_plan(host, Request::Init { endpoint: Some(endpoint), options });
    let installed = deps::install_all_plan(
        host,
        options.kubernetes_version,
        options.cilium_version,
    );
    let summary = cluster::print_post_init_summary_plan(host, config);
    reporting::the_summary_shows_the_cluster(host, config);
    ends::lemma_summary_prints(host, config);
    let front = lemma_set_up_front(host, installed, endpoint, options);
    assert(asked == front + summary);
    assert(asked.skip(asked.len() - 51) =~= summary);
    assert forall|i: int| 0 <= i < 51 implies #[trigger] summary[i] is Print by {}
}

/// What comes before the summary.
proof fn lemma_set_up_front(
    host: Host,
    before: Seq<StepView>,
    endpoint: Seq<char>,
    options: InitOptions<Seq<char>>,
) -> (front: Seq<StepView>)
    ensures
        front.len() > 0,
        before + cluster::set_up_plan(host, endpoint, options) == front
            + cluster::print_post_init_summary_plan(
            host,
            cluster::cluster_config(endpoint, options),
        ),
{
    lemma_set_up_shape(host, before, endpoint, options);
    let config = cluster::cluster_config(endpoint, options);
    let kubeadm = steps::root_must("kubeadm"@, cluster::init_args(config));
    let named = cluster::init_cluster_plan(host, config)[1];
    lemma_preflight_other();
    before + cluster::preflight_checks_plan() + (seq![kubeadm, named]
        + cluster::setup_kubeconfig_plan(host)) + (if options.skip_cni {
        Seq::empty()
    } else {
        cni::install_cilium_plan(
            CiliumConfig {
                version: options.cilium_version,
                pod_cidr: options.pod_network_cidr,
                gateway_api: options.gateway_api,
            },
        )
    }) + (if options.skip_storage {
        Seq::empty()
    } else {
        storage::install_storage_plan(StorageConfig { version: options.storage_version })
    })
}

/// Detection fails where there is no word behind `dev`, or where a command
/// fails; a prompt without a reply is an error too.
pub proof fn detection_can_fail(
    host: Host,
    options: InitOptions<Seq<char>>,
    words: Seq<Seq<char>>,
    device: Seq<char>,
    address: Seq<char>,
    name: Seq<char>,
    status: Seq<char>,
    cause: Seq<char>,
)
    requires
        forall|i: int| 0 <= i < words.len() ==> laws::is_word(#[trigger] words[i]),
        !words.contains("dev"@),
    ensures
        ({
            let route = net::detect_default_ip_plan(options)[0];
            let shown = StepView::Ask {
                io: Io::Capture,
                command: cmd::CommandView {
                    privileged: false,
                    program: "ip"@,
                    args: seq!["-4"@, "-o"@, "addr"@, "show"@, "dev"@, device],
                },
                topic: Topic::DeviceAddress { device, options },
            };
            let asked = net::confirmation_plan(address, options, name)[0];
            let no_route = seq![StepView::Fail(Error::NoDefaultRoute)];
            let exited = seq![StepView::Fail(Error::Exited { program: "ip"@, status })];
            let unstarted = seq![StepView::Fail(Error::NotStarted { program: "ip"@, cause })];
            let unanswered = seq![StepView::Fail(Error::NoReply(cause))];
            &&& steps::answered(host, route, Outcome::Success(laws::spaced(words))) =~= no_route
            &&& steps::answered(host, route, Outcome::Success(laws::spaced(words.push("dev"@))))
                =~= no_route
            &&& steps::answered(host, route, Outcome::Failure(status)) =~= exited
            &&& steps::answered(host, route, Outcome::NotStarted(cause)) =~= unstarted
            &&& steps::answered(host, shown, Outcome::Failure(status)) =~= exited
            &&& steps::answered(host, shown, Outcome::NotStarted(cause)) =~= unstarted
            &&& steps::answered(host, asked, Outcome::Failure(cause)) =~= unanswered
            &&& steps::answered(host, asked, Outcome::NotStarted(cause)) =~= unanswered
        }),
{
    reveal_strlit("dev");
    let more = words.push("dev"@);
    assert forall|i: int| 0 <= i < more.len() implies laws::is_word(#[trigger] more[i]) by {
        if i < words.len() {
            assert(laws::is_word(words[i]));
        }
    }
    laws::splitting_undoes_spacing(words);
    laws::splitting_undoes_spacing(more);
    texts::the_word_behind_is_found(words, "dev"@, seq![], seq![]);
    assert(more =~= words + seq!["dev"@]);
}

/// An address is usable if it is four numbers below 256 with dots between them,
/// and the first is not 127. The first usable address counts: a line without
/// one is passed over, and what is behind a line with one makes no difference.
pub proof fn the_first_usable_address_counts(
    host: Host,
    device: Seq<char>,
    options: InitOptions<Seq<char>>,
    line: Seq<char>,
    rest: Seq<char>,
)
    requires
        texts::is_line(line),
        line.len() > 0,
        line.last() != '\r',
    ensures
        ({
            let shown = StepView::Ask {
                io: Io::Capture,
                command: cmd::CommandView {
                    privileged: false,
                    program: "ip"@,
                    args: seq!["-4"@, "-o"@, "addr"@, "show"@, "dev"@, device],
                },
                topic: Topic::DeviceAddress { device, options },
            };
            let none = seq![StepView::Fail(Error::NoAddress(device))];
            let alone = steps::answered(host, shown, Outcome::Success(line));
            let both = steps::answered(host, shown, Outcome::Success(line + seq!['\n'] + rest));
            &&& steps::answered(host, shown, Outcome::Success(seq![])) =~= none
            &&& alone =~= none ==> both == steps::answered(host, shown, Outcome::Success(rest))
            &&& !(alone =~= none) ==> both == alone
        }),
{
    texts::lines_end_at_newlines(line, rest);
    let lines = text::lines(line + seq!['\n'] + rest);
    assert(lines.skip(1) =~= text::lines(rest));
    assert(seq![line].skip(1) =~= seq![]);
    assert(net::first_address(seq![]) == None::<Seq<char>>);
    let none = seq![StepView::Fail(Error::NoAddress(device))];
    if net::line_address(line) is Some {
        let shown = StepView::Ask {
            io: Io::Capture,
            command: cmd::CommandView {
                privileged: false,
                program: "ip"@,
                args: seq!["-4"@, "-o"@, "addr"@, "show"@, "dev"@, device],
            },
            topic: Topic::DeviceAddress { device, options },
        };
        let alone = steps::answered(host, shown, Outcome::Success(line));
        assert(alone[0] is Ask);
        assert(none[0] is Fail);
    }
}

/// A line has an address if the word behind `inet` has one in front of its
/// slash, or is one.
pub proof fn a_line_has_one_address(
    before: Seq<Seq<char>>,
    address: Seq<char>,
    bits: Seq<char>,
    after: Seq<Seq<char>>,
)
    requires
        forall|i: int| 0 <= i < before.len() ==> laws::is_word(#[trigger] before[i]),
        forall|i: int| 0 <= i < after.len() ==> laws::is_word(#[trigger] after[i]),
        !before.contains("inet"@),
        laws::is_word(address),
        !address.contains('/'),
        bits.len() > 0 ==> bits[0] == '/' && laws::is_word(bits),
    ensures
        net::line_address(laws::spaced(before + seq!["inet"@, address + bits] + after))
            == if net::is_ipv4(address) && !net::is_loopback(address) {
            Some(address)
        } else {
            None
        },
        net::line_address(laws::spaced(before)) is None,
        net::line_address(laws::spaced(before.push("inet"@))) is None,
{
    reveal_strlit("inet");
    let cidr = address + bits;
    let words = before + seq!["inet"@, cidr] + after;
    assert(laws::is_word(cidr)) by {
        assert forall|i: int| 0 <= i < cidr.len() implies !text::is_white(#[trigger] cidr[i]) by {
            if i < address.len() {
                assert(cidr[i] == address[i]);
            } else {
                assert(cidr[i] == bits[i - address.len()]);
            }
        }
    }
    assert forall|i: int| 0 <= i < words.len() implies laws::is_word(#[trigger] words[i]) by {
        if i < before.len() {
            assert(laws::is_word(before[i]));
        } else if i >= before.len() + 2 {
            assert(laws::is_word(after[i - before.len() - 2]));
        }
    }
    let more = before.push("inet"@);
    assert forall|i: int| 0 <= i < more.len() implies laws::is_word(#[trigger] more[i]) by {
        if i < before.len() {
            assert(laws::is_word(before[i]));
        }
    }
    assert(more =~= before + seq!["inet"@]);
    laws::splitting_undoes_spacing(words);
    laws::splitting_undoes_spacing(before);
    laws::splitting_undoes_spacing(more);
    texts::the_word_behind_is_found(before, "inet"@, cidr, after);
    assert forall|i: int| 0 <= i < address.len() implies #[trigger] address[i] != '/' by {
        assert(address.contains(address[i]));
    }
    texts::lemma_run_before_of(address, bits, '/');
    assert(cidr.take(address.len() as int) =~= address);
}

} // verus!
