//! What a reset and an uninstall remove.
use crate::cli;
use crate::cli::Request;
use crate::cluster;
use crate::cmd::Outcome;
use crate::config::Host;
use crate::cni;
use crate::deps;
use crate::error::Error;
use crate::laws;
use crate::laws::steps;
use crate::laws::texts;
use crate::plan::{StepView, Topic};
use crate::text;
use vstd::prelude::*;

verus! {

/// The step that removes a directory, if it can.
pub open spec fn clears(path: Seq<char>) -> StepView {
    steps::root_may("rm"@, seq!["-rf"@, path])
}

/// The step that removes a file, if it can.
pub open spec fn deletes(path: Seq<char>) -> StepView {
    steps::root_may("rm"@, seq!["-f"@, path])
}

/// The step that removes a binary.
pub open spec fn unlinks(path: Seq<char>) -> StepView {
    steps::root_must("rm"@, seq!["-f"@, path])
}

/// The steps that uninstall both releases.
pub open spec fn drops_releases() -> Seq<StepView> {
    seq![
        steps::user_may("helm"@, seq!["uninstall"@, "openebs-localpv"@, "-n"@, "openebs"@]),
        steps::user_may("helm"@, seq!["uninstall"@, "cilium"@, "-n"@, "kube-system"@]),
    ]
}

/// How a node is drained.
pub open spec fn drain_args(node: Seq<char>) -> Seq<Seq<char>> {
    seq![
        "drain"@,
        node,
        "--ignore-daemonsets"@,
        "--delete-emptydir-data"@,
        "--force"@,
        "--grace-period=30"@,
        "--timeout=60s"@,
    ]
}

/// Whether a step leads to draining the node of the host, if kubectl is found
/// and the host has a name.
pub open spec fn leads_to_draining(
    host: Host,
    step: StepView,
    found: Outcome<Seq<char>>,
    missing: Outcome<Seq<char>>,
    name: Seq<char>,
    drain: StepView,
) -> bool {
    let asked = steps::answered(host, step, found);
    &&& steps::looks_up(step, "kubectl"@)
    &&& steps::answered(host, step, missing) == Seq::<StepView>::empty()
    &&& asked.len() == 1
    &&& steps::reads(asked[0], false, "hostname"@, seq![])
    &&& steps::answered(host, asked[0], Outcome::Success(name)) == seq![drain]
    &&& steps::answered(host, asked[0], Outcome::Success(seq![])) == Seq::<StepView>::empty()
}

// ── Reset ────────────────────────────────────────────────────────────────────

/// A forced reset drops the releases and the definitions of the Gateway API and
/// drains the node, as far as the tools are there. kubeadm must then reset the
/// node, and what is left of the cluster is cleared away.
pub proof fn a_reset_clears_the_cluster(
    host: Host,
    found: Outcome<Seq<char>>,
    missing: Outcome<Seq<char>>,
    name: Seq<char>,
)
    requires
        found is Success,
        !(missing is Success),
        name.len() > 0,
    ensures
        ({
            let plan = cli::request_plan(host, Request::Reset { force: true });
            let s = host.settings;
            let none = Seq::<StepView>::empty();
            &&& steps::looks_up(plan[0], "helm"@)
            &&& steps::answered(host, plan[0], found) == drops_releases()
            &&& steps::answered(host, plan[0], missing) == none
            &&& steps::looks_up(plan[1], "kubectl"@)
            &&& steps::answered(host, plan[1], found) == seq![
                steps::user_may(
                    "kubectl"@,
                    seq!["delete"@, "-f"@, cni::gateway_api_url_of(host), "--ignore-not-found"@],
                ),
            ]
            &&& steps::answered(host, plan[1], missing) == none
            &&& leads_to_draining(
                host,
                plan[2],
                found,
                missing,
                name,
                steps::user_may("kubectl"@, drain_args(name)),
            )
            &&& steps::answered(host, steps::answered(host, plan[2], found)[0], missing) == none
            &&& plan.skip(3) == seq![
                steps::root_must("kubeadm"@, seq!["reset"@, "--force"@]),
                steps::root_may("systemctl"@, seq!["stop"@, "kubelet"@]),
                clears(s.cni_conf_dir@),
                steps::root_may("iptables"@, seq!["-F"@]),
                steps::root_may("iptables"@, seq!["-t"@, "nat"@, "-F"@]),
                steps::root_may("iptables"@, seq!["-t"@, "mangle"@, "-F"@]),
                steps::root_may("iptables"@, seq!["-X"@]),
                steps::root_may("ipvsadm"@, seq!["-C"@]),
                clears(s.kubelet_data_dir@),
                clears(s.kubernetes_conf_dir@),
                clears("/var/lib/longhorn"@),
                deletes("/etc/modules-load.d/kubeinit.conf"@),
                deletes("/etc/sysctl.d/99-kubeinit.conf"@),
            ] + (match host.user {
                Some(user) => seq![clears(user.home@ + "/.kube"@)],
                None => seq![],
            })
        }),
{
    let plan = cli::request_plan(host, Request::Reset { force: true });
    let s = host.settings;
    assert(steps::answered(host, plan[0], found) =~~= drops_releases());
    assert(steps::answered(host, plan[1], found) =~~= seq![
        steps::user_may(
            "kubectl"@,
            seq!["delete"@, "-f"@, cni::gateway_api_url_of(host), "--ignore-not-found"@],
        ),
    ]);
    let asked = steps::answered(host, plan[2], found);
    assert(steps::answered(host, asked[0], Outcome::Success(name)) =~~= seq![
        steps::user_may("kubectl"@, drain_args(name)),
    ]);
    assert(steps::answered(host, asked[0], Outcome::Success(seq![])) =~= seq![]);
    assert(steps::answered(host, asked[0], missing) =~= seq![]);
    assert(plan.skip(3) =~~= seq![
        steps::root_must("kubeadm"@, seq!["reset"@, "--force"@]),
        steps::root_may("systemctl"@, seq!["stop"@, "kubelet"@]),
        clears(s.cni_conf_dir@),
        steps::root_may("iptables"@, seq!["-F"@]),
        steps::root_may("iptables"@, seq!["-t"@, "nat"@, "-F"@]),
        steps::root_may("iptables"@, seq!["-t"@, "mangle"@, "-F"@]),
        steps::root_may("iptables"@, seq!["-X"@]),
        steps::root_may("ipvsadm"@, seq!["-C"@]),
        clears(s.kubelet_data_dir@),
        clears(s.kubernetes_conf_dir@),
        clears("/var/lib/longhorn"@),
        deletes("/etc/modules-load.d/kubeinit.conf"@),
        deletes("/etc/sysctl.d/99-kubeinit.conf"@),
    ] + (match host.user {
        Some(user) => seq![clears(user.home@ + "/.kube"@)],
        None => seq![],
    }));
}

// ── Uninstall ────────────────────────────────────────────────────────────────

/// Whether a plan removes a binary from a directory, if it is found.
pub open spec fn removes(
    host: Host,
    plan: Seq<StepView>,
    binary: Seq<char>,
    dir: Seq<char>,
    found: Outcome<Seq<char>>,
    missing: Outcome<Seq<char>>,
) -> bool {
    &&& steps::probes(host, plan, binary, found, seq![unlinks(dir + "/"@ + binary)])
    &&& steps::probes(host, plan, binary, missing, seq![])
}

/// What an uninstall removes where it finds it: each binary from the directory
/// that it is installed to.
pub proof fn an_uninstall_removes_what_it_finds(
    host: Host,
    found: Outcome<Seq<char>>,
    missing: Outcome<Seq<char>>,
)
    requires
        found is Success,
        !(missing is Success),
    ensures
        ({
            let plan = deps::remove_components_plan(host);
            let s = host.settings;
            &&& removes(host, plan, "kubeadm"@, s.bin_dir@, found, missing)
            &&& removes(host, plan, "kubelet"@, s.bin_dir@, found, missing)
            &&& removes(host, plan, "kubectl"@, s.bin_dir@, found, missing)
            &&& removes(host, plan, "cilium"@, s.bin_dir@, found, missing)
            &&& removes(host, plan, "helm"@, s.bin_dir@, found, missing)
            &&& removes(host, plan, "runc"@, s.sbin_dir@, found, missing)
            &&& steps::probes(
                host,
                plan,
                "crictl"@,
                found,
                seq![unlinks(s.bin_dir@ + "/crictl"@), deletes(s.crictl_config@)],
            )
            &&& steps::probes(host, plan, "crictl"@, missing, seq![])
            &&& steps::probes(
                host,
                plan,
                "containerd"@,
                found,
                seq![
                    steps::root_may("systemctl"@, seq!["stop"@, "containerd"@]),
                    steps::root_may("systemctl"@, seq!["disable"@, "containerd"@]),
                    deletes(s.bin_dir@ + "/containerd"@),
                    deletes(s.bin_dir@ + "/containerd-shim"@),
                    deletes(s.bin_dir@ + "/containerd-shim-runc-v1"@),
                    deletes(s.bin_dir@ + "/containerd-shim-runc-v2"@),
                    deletes(s.bin_dir@ + "/containerd-stress"@),
                    deletes(s.bin_dir@ + "/ctr"@),
                    deletes(s.systemd_unit_dir@ + "/containerd.service"@),
                    clears(s.containerd_conf_dir@),
                    clears(s.containerd_data_dir@),
                    clears(s.containerd_run_dir@),
                    steps::root_may("systemctl"@, seq!["daemon-reload"@]),
                ],
            )
            &&& steps::probes(host, plan, "containerd"@, missing, seq![])
        }),
{
    let plan = deps::remove_components_plan(host);
    let s = host.settings;
    reveal_strlit("/");
    reveal_strlit("crictl");
    reveal_strlit("/crictl");
    assert("/"@ + "crictl"@ =~= "/crictl"@);
    assert(plan[1] == deps::uninstall_kubernetes_components_plan(host)[1]);
    assert(plan[2] == deps::uninstall_kubernetes_components_plan(host)[2]);
    assert(plan[3] == deps::uninstall_kubernetes_components_plan(host)[3]);
    lemma_removes(host, plan, 1, "kubeadm"@, s.bin_dir@, found, missing);
    lemma_removes(host, plan, 2, "kubelet"@, s.bin_dir@, found, missing);
    lemma_removes(host, plan, 3, "kubectl"@, s.bin_dir@, found, missing);
    lemma_removes(host, plan, 11, "cilium"@, s.bin_dir@, found, missing);
    lemma_removes(host, plan, 12, "helm"@, s.bin_dir@, found, missing);
    lemma_removes(host, plan, 16, "runc"@, s.sbin_dir@, found, missing);
    assert(steps::looks_up(plan[10], "crictl"@));
    assert(s.bin_dir@ + "/"@ + "crictl"@ =~= s.bin_dir@ + "/crictl"@);
    assert(steps::answered(host, plan[10], found) =~~= seq![
        unlinks(s.bin_dir@ + "/crictl"@),
        deletes(s.crictl_config@),
    ]);
    assert(steps::answered(host, plan[10], missing) =~= seq![]);
    assert(steps::looks_up(plan[15], "containerd"@));
    assert(steps::answered(host, plan[15], found) =~~= seq![
        steps::root_may("systemctl"@, seq!["stop"@, "containerd"@]),
        steps::root_may("systemctl"@, seq!["disable"@, "containerd"@]),
        deletes(s.bin_dir@ + "/containerd"@),
        deletes(s.bin_dir@ + "/containerd-shim"@),
        deletes(s.bin_dir@ + "/containerd-shim-runc-v1"@),
        deletes(s.bin_dir@ + "/containerd-shim-runc-v2"@),
        deletes(s.bin_dir@ + "/containerd-stress"@),
        deletes(s.bin_dir@ + "/ctr"@),
        deletes(s.systemd_unit_dir@ + "/containerd.service"@),
        clears(s.containerd_conf_dir@),
        clears(s.containerd_data_dir@),
        clears(s.containerd_run_dir@),
        steps::root_may("systemctl"@, seq!["daemon-reload"@]),
    ]);
    assert(steps::answered(host, plan[15], missing) =~= seq![]);
}

/// A binary that is looked up to be removed.
proof fn lemma_removes(
    host: Host,
    plan: Seq<StepView>,
    at: int,
    binary: Seq<char>,
    dir: Seq<char>,
    found: Outcome<Seq<char>>,
    missing: Outcome<Seq<char>>,
)
    requires
        0 <= at < plan.len(),
        steps::looks_up(plan[at], binary),
        steps::answered(host, plan[at], found) == deps::remove_binary_plan(dir, binary, true),
        steps::answered(host, plan[at], missing) == deps::remove_binary_plan(dir, binary, false),
    ensures
        removes(host, plan, binary, dir, found, missing),
{
    assert(deps::remove_binary_plan(dir, binary, true) =~~= seq![unlinks(dir + "/"@ + binary)]);
    assert(deps::remove_binary_plan(dir, binary, false) =~= seq![]);
}

/// What an uninstall clears away whether it finds it or not.
pub proof fn an_uninstall_clears_its_traces(host: Host)
    ensures
        ({
            let plan = deps::remove_components_plan(host);
            let s = host.settings;
            &&& plan[0] == steps::root_may("systemctl"@, seq!["disable"@, "kubelet"@])
            &&& plan.contains(deletes(s.systemd_unit_dir@ + "/kubelet.service"@))
            &&& plan.contains(clears(s.systemd_unit_dir@ + "/kubelet.service.d"@))
            &&& plan.contains(clears(s.kubernetes_conf_dir@))
            &&& plan.contains(clears(s.kubelet_data_dir@))
            &&& plan.contains(clears(s.etcd_data_dir@))
            &&& plan.contains(clears(s.cni_bin_dir@))
            &&& plan.contains(clears(s.cni_conf_dir@))
            &&& plan.contains(clears("/var/openebs"@))
            &&& plan.contains(deletes("/etc/modules-load.d/kubeinit.conf"@))
            &&& plan.contains(deletes("/etc/sysctl.d/99-kubeinit.conf"@))
            &&& host.user matches Some(user) ==> plan.last() == clears(user.home@ + "/.kube"@)
        }),
{
    let plan = deps::remove_components_plan(host);
    let s = host.settings;
    let own = cluster::remove_own_files_plan(host);
    assert(plan[0] =~~= steps::root_may("systemctl"@, seq!["disable"@, "kubelet"@]));
    assert(plan[4] =~~= deletes(s.systemd_unit_dir@ + "/kubelet.service"@));
    assert(plan[5] =~~= clears(s.systemd_unit_dir@ + "/kubelet.service.d"@));
    assert(plan[6] =~~= clears(s.kubernetes_conf_dir@));
    assert(plan[7] =~~= clears(s.kubelet_data_dir@));
    assert(plan[8] =~~= clears(s.etcd_data_dir@));
    assert(plan[13] =~~= clears(s.cni_bin_dir@));
    assert(plan[14] =~~= clears(s.cni_conf_dir@));
    assert(plan[17] =~~= clears("/var/openebs"@));
    assert(own[0] =~~= deletes("/etc/modules-load.d/kubeinit.conf"@));
    assert(own[1] =~~= deletes("/etc/sysctl.d/99-kubeinit.conf"@));
    assert(plan[18] == own[0]);
    assert(plan[19] == own[1]);
    if let Some(user) = host.user {
        assert(own[2] =~~= clears(user.home@ + "/.kube"@));
        assert(plan[20] == own[2]);
        assert(plan.len() == 21);
    }
}

/// An uninstall asks first, unless it is forced; a yes has it go on as if it
/// were forced, and anything else ends it.
pub proof fn an_uninstall_needs_a_yes(
    host: Host,
    lead: Seq<char>,
    reply: Seq<char>,
    trail: Seq<char>,
    cause: Seq<char>,
)
    requires
        texts::is_blank(lead),
        texts::is_blank(trail),
        reply.len() > 0 ==> !text::is_white(reply[0]) && !text::is_white(reply.last()),
    ensures
        ({
            let asked = cli::request_plan(host, Request::Uninstall { force: false });
            &&& asked.len() == 1
            &&& asked[0] matches StepView::Prompt { text: question, .. } && question
                == "This will remove all Kubernetes cluster components and related tooling.\nAre you sure? [y/N]: "@
            &&& steps::answered(host, asked[0], Outcome::Success(lead + reply + trail)) =~= if reply
                == "y"@ || reply == "Y"@ || reply == "yes"@ || reply == "Yes"@ {
                cli::request_plan(host, Request::Uninstall { force: true })
            } else {
                seq![StepView::Fail(Error::Aborted)]
            }
            &&& steps::answered(host, asked[0], Outcome::Failure(cause)) =~= seq![
                StepView::Fail(Error::NoReply(cause)),
            ]
            &&& steps::answered(host, asked[0], Outcome::NotStarted(cause)) =~= seq![
                StepView::Fail(Error::NoReply(cause)),
            ]
        }),
{
    texts::trimming_removes_the_surrounding_space(lead, reply, trail);
}

/// How an uninstall goes: with privileges, it drops the releases and the
/// definitions of the Gateway API, drains the node, has kubeadm reset it, stops
/// the kubelet, and looks for containers, as far as the tools are there. Then it
/// removes the components.
pub proof fn an_uninstall_takes_the_cluster_down_first(
    host: Host,
    found: Outcome<Seq<char>>,
    missing: Outcome<Seq<char>>,
    name: Seq<char>,
)
    requires
        found is Success,
        !(missing is Success),
        name.len() > 0,
    ensures
        ({
            let whole = cli::request_plan(host, Request::Uninstall { force: true });
            let plan = if host.root {
                whole
            } else {
                whole.skip(1)
            };
            let releases = steps::answered(host, plan[0], found);
            let none = Seq::<StepView>::empty();
            &&& steps::looks_up(plan[0], "helm"@)
            &&& steps::answered(host, plan[0], missing) == none
            &&& releases.len() == 3
            &&& releases.take(2) == drops_releases()
            &&& steps::looks_up(releases[2], "kubectl"@)
            &&& steps::answered(host, releases[2], missing) == none
            &&& steps::answered(host, releases[2], found) == seq![
                steps::user_may(
                    "kubectl"@,
                    seq!["delete"@, "-f"@, cni::gateway_api_url_of(host), "--ignore-not-found"@],
                ),
            ]
            &&& leads_to_draining(
                host,
                plan[1],
                found,
                missing,
                name,
                steps::user_tries("kubectl"@, drain_args(name)),
            )
            &&& steps::looks_up(plan[2], "kubeadm"@)
            &&& steps::answered(host, plan[2], missing) == none
            &&& steps::answered(host, plan[2], found) == seq![
                steps::root_tries("kubeadm"@, seq!["reset"@, "--force"@]),
            ]
            &&& plan[3] == steps::root_tries("systemctl"@, seq!["stop"@, "kubelet"@])
            &&& steps::looks_up(plan[4], "crictl"@)
            &&& steps::answered(host, plan[4], missing) == none
            &&& plan.skip(5) == deps::remove_components_plan(host)
        }),
{
    let whole = cli::request_plan(host, Request::Uninstall { force: true });
    let plan = if host.root {
        whole
    } else {
        whole.skip(1)
    };
    let releases = steps::answered(host, plan[0], found);
    assert(releases.take(2) =~~= drops_releases());
    assert(steps::answered(host, releases[2], found) =~~= seq![
        steps::user_may(
            "kubectl"@,
            seq!["delete"@, "-f"@, cni::gateway_api_url_of(host), "--ignore-not-found"@],
        ),
    ]);
    let asked = steps::answered(host, plan[1], found);
    assert(steps::answered(host, asked[0], Outcome::Success(name)) =~~= seq![
        steps::user_tries("kubectl"@, drain_args(name)),
    ]);
    assert(steps::answered(host, asked[0], Outcome::Success(seq![])) =~= seq![]);
    assert(steps::answered(host, plan[2], found) =~~= seq![
        steps::root_tries("kubeadm"@, seq!["reset"@, "--force"@]),
    ]);
    assert(plan[3] =~~= steps::root_tries("systemctl"@, seq!["stop"@, "kubelet"@]));
    assert(plan.skip(5) =~= deps::remove_components_plan(host));
}

// ── Containers ───────────────────────────────────────────────────────────────

/// Whether a step waits for the containers to exit: it lists them, and as long
/// as there are any it pauses for five seconds and looks again, so many times.
pub open spec fn waits(host: Host, step: StepView, looks: nat) -> bool
    decreases looks,
{
    &&& steps::reads(step, true, "crictl"@, seq!["ps"@, "-q"@])
    &&& forall|listing: Seq<char>|
        #![trigger steps::answered(host, step, Outcome::Success(listing))]
        {
            let more = steps::answered(host, step, Outcome::Success(listing));
            if texts::is_blank(listing) {
                more.len() == 0
            } else if looks <= 1 {
                more == seq![StepView::Sleep(5)]
            } else {
                &&& more.len() == 2
                &&& more[0] == StepView::Sleep(5)
                &&& waits(host, more[1], (looks - 1) as nat)
            }
        }
}

/// As many looks are left as the question says.
proof fn lemma_waits(host: Host, looks: u64)
    ensures
        waits(host, deps::list_containers(Topic::Exiting(looks)), looks as nat),
    decreases looks,
{
    let step = deps::list_containers(Topic::Exiting(looks));
    if looks > 1 {
        lemma_waits(host, (looks - 1) as u64);
    }
    assert forall|listing: Seq<char>|
        #![trigger steps::answered(host, step, Outcome::Success(listing))]
        ({
            let more = steps::answered(host, step, Outcome::Success(listing));
            if texts::is_blank(listing) {
                more.len() == 0
            } else if looks <= 1 {
                more == seq![StepView::Sleep(5)]
            } else {
                &&& more.len() == 2
                &&& more[0] == StepView::Sleep(5)
                &&& waits(host, more[1], (looks - 1) as nat)
            }
        }) by {
        lemma_blank_is_trimmed_away(listing);
        let more = steps::answered(host, step, Outcome::Success(listing));
        assert(more =~= deps::exiting_plan(looks, listing));
        if !texts::is_blank(listing) && looks <= 1 {
            assert(more =~= seq![StepView::Sleep(5)]);
        }
    }
}

/// Nothing but white space is what trimming leaves nothing of.
proof fn lemma_blank_is_trimmed_away(s: Seq<char>)
    ensures
        texts::is_blank(s) <==> text::trimmed(s).len() == 0,
{
    let none = Seq::<char>::empty();
    if texts::is_blank(s) {
        texts::trimming_removes_the_surrounding_space(s, none, none);
        assert(s + none + none =~= s);
    } else {
        let i = choose|i: int| 0 <= i < s.len() && !text::is_white(#[trigger] s[i]);
        lemma_ink_stays_in_front(s, i);
        let t = text::trimmed_start(s);
        lemma_ink_stays_behind(t, 0);
    }
}

/// What is not white stays when white space in front goes.
proof fn lemma_ink_stays_in_front(s: Seq<char>, i: int)
    requires
        0 <= i < s.len(),
        !text::is_white(s[i]),
    ensures
        text::trimmed_start(s).len() > 0,
        !text::is_white(text::trimmed_start(s)[0]),
    decreases s.len(),
{
    if text::is_white(s[0]) {
        assert(s.skip(1)[i - 1] == s[i]);
        lemma_ink_stays_in_front(s.skip(1), i - 1);
    }
}

/// What is not white stays when white space behind goes.
proof fn lemma_ink_stays_behind(s: Seq<char>, i: int)
    requires
        0 <= i < s.len(),
        !text::is_white(s[i]),
    ensures
        text::trimmed_end(s).len() > 0,
    decreases s.len(),
{
    if text::is_white(s.last()) {
        assert(s.drop_last()[i] == s[i]);
        lemma_ink_stays_behind(s.drop_last(), i);
    }
}

/// Containers are listed and told to stop. Their exit is waited for, for a
/// minute at most, and those that remain are removed; then the pod sandboxes
/// are stopped and removed.
pub proof fn containers_are_stopped_and_removed(
    host: Host,
    found: Outcome<Seq<char>>,
    id: Seq<char>,
)
    requires
        found is Success,
        laws::is_word(id),
    ensures
        ({
            let step = deps::stop_cluster_workloads_plan()[3];
            let asked = steps::answered(host, step, found);
            let stopped = steps::answered(host, asked[0], Outcome::Success(id));
            let one = Outcome::Success(id);
            &&& steps::looks_up(step, "crictl"@)
            &&& asked.len() == 2
            &&& steps::reads(asked[0], true, "crictl"@, seq!["ps"@, "-q"@])
            &&& steps::reads(asked[1], true, "crictl"@, seq!["pods"@, "-q"@])
            &&& steps::answered(host, asked[0], Outcome::Success(seq![])) == Seq::<
                StepView,
            >::empty()
            &&& stopped.len() == 3
            &&& stopped[0] == steps::root_tries(
                "crictl"@,
                seq!["stop"@, "--timeout"@, "30"@, id],
            )
            &&& waits(host, stopped[1], 12)
            &&& steps::reads(stopped[2], true, "crictl"@, seq!["ps"@, "-q"@])
            &&& steps::answered(host, stopped[2], one) == seq![
                steps::root_tries("crictl"@, seq!["rm"@, "--force"@, id]),
            ]
            &&& steps::answered(host, asked[1], one) == seq![
                steps::root_tries("crictl"@, seq!["stopp"@, id]),
                steps::root_tries("crictl"@, seq!["rmp"@, "--force"@, id]),
            ]
        }),
{
    let step = deps::stop_cluster_workloads_plan()[3];
    let asked = steps::answered(host, step, found);
    lemma_one_id(id);
    let ids = deps::listed_ids(id);
    let stopped = steps::answered(host, asked[0], Outcome::Success(id));
    assert(ids.map_values(|x: Seq<char>| deps::stop_container(x)) =~= seq![
        deps::stop_container(id),
    ]);
    assert(stopped =~= seq![deps::stop_container(id)] + seq![
        deps::list_containers(Topic::Exiting(12)),
        deps::list_containers(Topic::Stragglers),
    ]);
    assert(deps::stop_container(id) =~~= steps::root_tries(
        "crictl"@,
        seq!["stop"@, "--timeout"@, "30"@, id],
    ));
    lemma_waits(host, 12);
    assert(steps::answered(host, asked[0], Outcome::Success(seq![])) =~= seq![]);
    assert(ids.map_values(|x: Seq<char>| deps::remove_container(x)) =~= seq![
        deps::remove_container(id),
    ]);
    assert(steps::answered(host, stopped[2], Outcome::Success(id)) =~~= seq![
        steps::root_tries("crictl"@, seq!["rm"@, "--force"@, id]),
    ]);
    assert(ids.drop_last() =~= seq![]);
    assert(deps::remove_sandboxes(ids.drop_last()) =~= seq![]);
    assert(steps::answered(host, asked[1], Outcome::Success(id)) =~~= seq![
        steps::root_tries("crictl"@, seq!["stopp"@, id]),
        steps::root_tries("crictl"@, seq!["rmp"@, "--force"@, id]),
    ]);
}

/// A listing of one identifier.
proof fn lemma_one_id(id: Seq<char>)
    requires
        laws::is_word(id),
    ensures
        deps::listed_ids(id) == seq![id],
{
    let none = Seq::<char>::empty();
    assert(!text::is_white(id[0]) && !text::is_white(id.last()));
    texts::trimming_removes_the_surrounding_space(none, id, none);
    assert(none + id + none =~= id);
    texts::lemma_run_before_of(id, none, '\n');
    assert(id + none =~= id);
    assert(text::lines(id) == seq![id]);
    let trim = |line: Seq<char>| text::trimmed(line);
    assert(text::lines(id).map_values(trim) =~= seq![id]);
    let keep = |x: Seq<char>| x.len() > 0;
    reveal(Seq::filter);
    reveal_with_fuel(Seq::filter, 2);
    assert(seq![id].drop_last() =~= seq![]);
    assert(seq![id].filter(keep) =~= seq![id]);
}

/// Every line of a listing is an identifier, without the white space around it;
/// a blank line is none.
pub proof fn identifiers_stand_in_lines_of_their_own(
    lead: Seq<char>,
    id: Seq<char>,
    trail: Seq<char>,
    rest: Seq<char>,
)
    requires
        texts::is_blank(lead) && texts::is_line(lead),
        texts::is_blank(trail) && texts::is_line(trail),
        id.len() == 0 || laws::is_word(id),
    ensures
        deps::listed_ids(lead + id + trail + seq!['\n'] + rest) == if id.len() > 0 {
            seq![id] + deps::listed_ids(rest)
        } else {
            deps::listed_ids(rest)
        },
        deps::listed_ids(seq![]) == Seq::<Seq<char>>::empty(),
{
    let line = lead + id + trail;
    let whole = line + seq!['\n'] + rest;
    let trim = |line: Seq<char>| text::trimmed(line);
    let keep = |x: Seq<char>| x.len() > 0;
    assert forall|i: int| 0 <= i < line.len() implies #[trigger] line[i] != '\n' by {
        if i < lead.len() {
            assert(line[i] == lead[i]);
        } else if i < lead.len() + id.len() {
            assert(line[i] == id[i - lead.len()]);
        } else {
            assert(line[i] == trail[i - lead.len() - id.len()]);
        }
    }
    texts::lemma_run_before_of(line, seq!['\n'] + rest, '\n');
    assert(line + (seq!['\n'] + rest) =~= whole);
    assert(whole.take(line.len() as int) =~= line);
    assert(whole.skip(line.len() as int + 1) =~= rest);
    let first = text::without_return(line);
    assert(text::lines(whole) == seq![first] + text::lines(rest));
    lemma_trimmed_line(lead, id, trail);
    let firsts = seq![id];
    let others = text::lines(rest).map_values(trim);
    assert(text::lines(whole).map_values(trim) =~= firsts + others);
    lemma_filter_first(id, others);
    assert(text::lines(Seq::<char>::empty()).map_values(trim) =~= seq![]);
    reveal(Seq::filter);
}

/// A return at the end of a line is white space too.
proof fn lemma_trimmed_line(lead: Seq<char>, id: Seq<char>, trail: Seq<char>)
    requires
        texts::is_blank(lead),
        texts::is_blank(trail),
        id.len() == 0 || laws::is_word(id),
    ensures
        text::trimmed(text::without_return(lead + id + trail)) == id,
{
    let line = lead + id + trail;
    let none = Seq::<char>::empty();
    if id.len() > 0 {
        assert(!text::is_white(id[0]) && !text::is_white(id.last()));
    }
    texts::trimming_removes_the_surrounding_space(lead, id, trail);
    if line.len() > 0 && line.last() == '\r' {
        if trail.len() > 0 {
            let less = trail.drop_last();
            assert(line.drop_last() =~= lead + id + less);
            texts::trimming_removes_the_surrounding_space(lead, id, less);
        } else if id.len() > 0 {
            assert(line.last() == id.last());
        } else {
            let less = lead.drop_last();
            assert(line.drop_last() =~= less + id + none);
            texts::trimming_removes_the_surrounding_space(less, id, none);
        }
    }
}

/// Empty texts are left out one at a time.
proof fn lemma_filter_first(id: Seq<char>, others: Seq<Seq<char>>)
    ensures
        (seq![id] + others).filter(|x: Seq<char>| x.len() > 0) == if id.len() > 0 {
            seq![id] + others.filter(|x: Seq<char>| x.len() > 0)
        } else {
            others.filter(|x: Seq<char>| x.len() > 0)
        },
    decreases others.len(),
{
    let keep = |x: Seq<char>| x.len() > 0;
    reveal(Seq::filter);
    let all = seq![id] + others;
    if others.len() == 0 {
        assert(all.drop_last() =~= seq![]);
        assert(all.last() == id);
        assert(seq![].push(id) =~= seq![id] + others.filter(keep));
        assert(others.filter(keep) =~= seq![]);
    } else {
        lemma_filter_first(id, others.drop_last());
        assert(all.drop_last() =~= seq![id] + others.drop_last());
        assert(all.last() == others.last());
        if keep(others.last()) {
            assert((seq![id] + others.drop_last().filter(keep)).push(others.last()) =~= seq![id]
                + others.drop_last().filter(keep).push(others.last()));
        }
    }
}

/// Each pod sandbox that is listed is stopped and then removed, in the order of
/// the listing, and nothing else is.
pub proof fn each_sandbox_is_stopped_and_removed(host: Host, listing: Seq<char>)
    ensures
        ({
            let ids = deps::listed_ids(listing);
            let step = deps::crictl_probed_plan(true)[1];
            let more = steps::answered(host, step, Outcome::Success(listing));
            &&& more.len() == 2 * ids.len()
            &&& forall|i: int|
                #![trigger ids[i]]
                0 <= i < ids.len() ==> {
                    &&& more[2 * i] == steps::root_tries("crictl"@, seq!["stopp"@, ids[i]])
                    &&& more[2 * i + 1] == steps::root_tries(
                        "crictl"@,
                        seq!["rmp"@, "--force"@, ids[i]],
                    )
                }
        }),
{
    let ids = deps::listed_ids(listing);
    let step = deps::crictl_probed_plan(true)[1];
    let more = steps::answered(host, step, Outcome::Success(listing));
    assert(more =~= deps::remove_sandboxes(ids));
    lemma_sandboxes(ids);
}

/// Two steps for each sandbox.
proof fn lemma_sandboxes(ids: Seq<Seq<char>>)
    ensures
        deps::remove_sandboxes(ids).len() == 2 * ids.len(),
        forall|i: int|
            #![trigger ids[i]]
            0 <= i < ids.len() ==> {
                &&& deps::remove_sandboxes(ids)[2 * i] == steps::root_tries(
                    "crictl"@,
                    seq!["stopp"@, ids[i]],
                )
                &&& deps::remove_sandboxes(ids)[2 * i + 1] == steps::root_tries(
                    "crictl"@,
                    seq!["rmp"@, "--force"@, ids[i]],
                )
            },
    decreases ids.len(),
{
    if ids.len() > 0 {
        let rest = ids.drop_last();
        let before = deps::remove_sandboxes(rest);
        let whole = deps::remove_sandboxes(ids);
        lemma_sandboxes(rest);
        assert forall|i: int|
            #![trigger ids[i]]
            0 <= i < ids.len() implies {
            &&& whole[2 * i] == steps::root_tries("crictl"@, seq!["stopp"@, ids[i]])
            &&& whole[2 * i + 1] == steps::root_tries("crictl"@, seq!["rmp"@, "--force"@, ids[i]])
        } by {
            if i < rest.len() {
                assert(rest[i] == ids[i]);
                assert(whole[2 * i] == before[2 * i]);
                assert(whole[2 * i + 1] == before[2 * i + 1]);
            } else {
                assert(ids[i] == ids.last());
                assert(whole[2 * i] =~~= steps::root_tries("crictl"@, seq!["stopp"@, ids[i]]));
                assert(whole[2 * i + 1] =~~= steps::root_tries(
                    "crictl"@,
                    seq!["rmp"@, "--force"@, ids[i]],
                ));
            }
        }
    }
}

/// Each container that is listed is told to stop, in the order of the listing,
/// before the exit of all is waited for; each one that is left is removed.
pub proof fn each_container_is_stopped(host: Host, listing: Seq<char>)
    requires
        listing.len() > 0,
    ensures
        ({
            let ids = deps::listed_ids(listing);
            let n = ids.len() as int;
            let step = deps::crictl_probed_plan(true)[0];
            let more = steps::answered(host, step, Outcome::Success(listing));
            let removed = steps::answered(host, more[n + 1], Outcome::Success(listing));
            &&& more.len() == n + 2
            &&& forall|i: int|
                0 <= i < n ==> #[trigger] more[i] == steps::root_tries(
                    "crictl"@,
                    seq!["stop"@, "--timeout"@, "30"@, ids[i]],
                )
            &&& waits(host, more[n], 12)
            &&& steps::reads(more[n + 1], true, "crictl"@, seq!["ps"@, "-q"@])
            &&& removed.len() == n
            &&& forall|i: int|
                0 <= i < n ==> #[trigger] removed[i] == steps::root_tries(
                    "crictl"@,
                    seq!["rm"@, "--force"@, ids[i]],
                )
        }),
{
    let ids = deps::listed_ids(listing);
    let n = ids.len() as int;
    let step = deps::crictl_probed_plan(true)[0];
    let more = steps::answered(host, step, Outcome::Success(listing));
    assert(more =~= deps::containers_listed_plan(listing));
    lemma_waits(host, 12);
    assert(more[n] == deps::list_containers(Topic::Exiting(12)));
    assert(more[n + 1] == deps::list_containers(Topic::Stragglers));
    let removed = steps::answered(host, more[n + 1], Outcome::Success(listing));
    assert(removed =~= deps::stragglers_listed_plan(listing));
    assert forall|i: int| 0 <= i < n implies #[trigger] more[i] == steps::root_tries(
        "crictl"@,
        seq!["stop"@, "--timeout"@, "30"@, ids[i]],
    ) by {
        assert(more[i] =~~= steps::root_tries(
            "crictl"@,
            seq!["stop"@, "--timeout"@, "30"@, ids[i]],
        ));
    }
    assert forall|i: int| 0 <= i < n implies #[trigger] removed[i] == steps::root_tries(
        "crictl"@,
        seq!["rm"@, "--force"@, ids[i]],
    ) by {
        assert(removed[i] =~~= steps::root_tries("crictl"@, seq!["rm"@, "--force"@, ids[i]]));
    }
}

} // verus!
