//! What is shown to the user.
use crate::cli;
use crate::cli::Request;
use crate::cluster;
use crate::cluster::ClusterConfig;
use crate::cmd;
use crate::cmd::{Exit, Outcome};
use crate::config::Host;
use crate::error;
use crate::error::Error;
use crate::laws::addons;
use crate::laws::steps;
use crate::plan::StepView;
use crate::text;
use vstd::prelude::*;

verus! {

// ── Summary ──────────────────────────────────────────────────────────────────

/// A row of the summary: a label and a path, each in a column of its own.
pub open spec fn row(label: Seq<char>, label_width: nat, path: Seq<char>, path_width: nat) -> StepView {
    StepView::Print(
        "║  "@ + text::padded(label, label_width) + text::padded(path, path_width) + " ║"@,
    )
}

/// Where the tables of the summary begin.
proof fn lemma_summary_tables(host: Host, config: ClusterConfig<Seq<char>>)
    ensures
        ({
            let plan = cluster::print_post_init_summary_plan(host, config);
            &&& plan.len() == 51
            &&& forall|i: int| 0 <= i < 7 ==> #[trigger] plan[i] == cluster::summary_heading_plan(config)[i]
            &&& forall|i: int| 0 <= i < 11 ==> plan[7 + i] == #[trigger] cluster::summary_binaries_plan(host)[i]
            &&& forall|i: int| 0 <= i < 10 ==> plan[18 + i] == #[trigger] cluster::summary_credentials_plan(host)[i]
            &&& forall|i: int| 0 <= i < 10 ==> plan[28 + i] == #[trigger] cluster::summary_files_plan(host)[i]
            &&& forall|i: int| 0 <= i < 13 ==> plan[38 + i] == #[trigger] cluster::summary_services_plan(host)[i]
        }),
{
    let heading = cluster::summary_heading_plan(config);
    let binaries = cluster::summary_binaries_plan(host);
    let credentials = cluster::summary_credentials_plan(host);
    let files = cluster::summary_files_plan(host);
    let services = cluster::summary_services_plan(host);
    assert(heading.len() == 7 && binaries.len() == 11 && credentials.len() == 10 && files.len()
        == 10 && services.len() == 13);
    lemma_five(heading, binaries, credentials, files, services);
}

/// Where each of five parts begins.
proof fn lemma_five(
    a: Seq<StepView>,
    b: Seq<StepView>,
    c: Seq<StepView>,
    d: Seq<StepView>,
    e: Seq<StepView>,
)
    ensures
        ({
            let whole = a + b + c + d + e;
            &&& whole.len() == a.len() + b.len() + c.len() + d.len() + e.len()
            &&& forall|i: int| 0 <= i < a.len() ==> #[trigger] whole[i] == a[i]
            &&& forall|i: int| 0 <= i < b.len() ==> whole[a.len() + i] == #[trigger] b[i]
            &&& forall|i: int| 0 <= i < c.len() ==> whole[a.len() + b.len() + i] == #[trigger] c[i]
            &&& forall|i: int|
                0 <= i < d.len() ==> whole[a.len() + b.len() + c.len() + i] == #[trigger] d[i]
            &&& forall|i: int|
                0 <= i < e.len() ==> whole[a.len() + b.len() + c.len() + d.len() + i]
                    == #[trigger] e[i]
        }),
{
}

/// The summary begins with the endpoint, the pod network, and the service
/// network of the cluster.
pub proof fn the_summary_shows_the_cluster(host: Host, config: ClusterConfig<Seq<char>>)
    ensures
        ({
            let plan = cluster::print_post_init_summary_plan(host, config);
            let value = |label: Seq<char>, text: Seq<char>|
                StepView::Print("║  "@ + label + text::padded(text, 35) + " ║"@);
            &&& plan.len() == 51
            &&& plan[0] == StepView::Print(""@)
            &&& plan[1] == StepView::Print("╔══════════════════════════════════════════════════════════════╗"@)
            &&& plan[2] == StepView::Print("║             Cluster Initialization Summary                  ║"@)
            &&& plan[3] == StepView::Print("╠══════════════════════════════════════════════════════════════╣"@)
            &&& plan[4] == value("Control-plane endpoint: "@, config.control_plane_endpoint)
            &&& plan[5] == value("Pod network CIDR:       "@, config.pod_network_cidr)
            &&& plan[6] == value("Service CIDR:           "@, config.service_cidr)
        }),
{
    lemma_summary_tables(host, config);
}

/// The summary shows each binary where it is installed.
pub proof fn the_summary_shows_the_binaries(host: Host, config: ClusterConfig<Seq<char>>)
    ensures
        ({
            let plan = cluster::print_post_init_summary_plan(host, config);
            let s = host.settings;
            &&& plan[7] == StepView::Print("╠══════════════════════════════════════════════════════════════╣"@)
            &&& plan[8] == StepView::Print("║  Installed Binaries                                        ║"@)
            &&& plan[9] == StepView::Print("╟──────────────────────────────────────────────────────────────╢"@)
            &&& plan[10] == row("kubeadm"@, 13, s.bin_dir@ + "/kubeadm"@, 46)
            &&& plan[11] == row("kubelet"@, 13, s.bin_dir@ + "/kubelet"@, 46)
            &&& plan[12] == row("kubectl"@, 13, s.bin_dir@ + "/kubectl"@, 46)
            &&& plan[13] == row("crictl"@, 13, s.bin_dir@ + "/crictl"@, 46)
            &&& plan[14] == row("containerd"@, 13, s.bin_dir@ + "/containerd"@, 46)
            &&& plan[15] == row("runc"@, 13, s.sbin_dir@ + "/runc"@, 46)
            &&& plan[16] == row("helm"@, 13, s.bin_dir@ + "/helm"@, 46)
            &&& plan[17] == row("cilium"@, 13, s.bin_dir@ + "/cilium"@, 46)
        }),
{
    lemma_summary_tables(host, config);
    let table = cluster::summary_binaries_plan(host);
    let plan = cluster::print_post_init_summary_plan(host, config);
    assert(plan[7] == table[0]);
    assert(plan[8] == table[1]);
    assert(plan[9] == table[2]);
    assert(plan[10] == table[3]);
    assert(plan[11] == table[4]);
    assert(plan[12] == table[5]);
    assert(plan[13] == table[6]);
    assert(plan[14] == table[7]);
    assert(plan[15] == table[8]);
    assert(plan[16] == table[9]);
    assert(plan[17] == table[10]);
}

/// The summary shows each certificate and key where kubeadm puts it.
pub proof fn the_summary_shows_the_credentials(host: Host, config: ClusterConfig<Seq<char>>)
    ensures
        ({
            let plan = cluster::print_post_init_summary_plan(host, config);
            let s = host.settings;
            &&& plan[18] == StepView::Print("╠══════════════════════════════════════════════════════════════╣"@)
            &&& plan[19] == StepView::Print("║  Credentials & Certificates                                ║"@)
            &&& plan[20] == StepView::Print("╟──────────────────────────────────────────────────────────────╢"@)
            &&& plan[21] == row("CA cert:"@, 17, s.kubernetes_conf_dir@ + "/pki/ca.crt"@, 43)
            &&& plan[22] == row("CA key:"@, 17, s.kubernetes_conf_dir@ + "/pki/ca.key"@, 43)
            &&& plan[23] == row("API server cert:"@, 17, s.kubernetes_conf_dir@ + "/pki/apiserver.crt"@, 43)
            &&& plan[24] == row("API server key:"@, 17, s.kubernetes_conf_dir@ + "/pki/apiserver.key"@, 43)
            &&& plan[25] == row("SA key pair:"@, 17, s.kubernetes_conf_dir@ + "/pki/sa.{key,pub}"@, 43)
            &&& plan[26] == row("Front proxy CA:"@, 17, s.kubernetes_conf_dir@ + "/pki/front-proxy-ca.crt"@, 43)
            &&& plan[27] == row("Etcd CA:"@, 17, s.kubernetes_conf_dir@ + "/pki/etcd/ca.crt"@, 43)
        }),
{
    lemma_summary_tables(host, config);
    let table = cluster::summary_credentials_plan(host);
    let plan = cluster::print_post_init_summary_plan(host, config);
    assert(plan[18] == table[0]);
    assert(plan[19] == table[1]);
    assert(plan[20] == table[2]);
    assert(plan[21] == table[3]);
    assert(plan[22] == table[4]);
    assert(plan[23] == table[5]);
    assert(plan[24] == table[6]);
    assert(plan[25] == table[7]);
    assert(plan[26] == table[8]);
    assert(plan[27] == table[9]);
}

/// The summary shows each configuration file where it is written.
pub proof fn the_summary_shows_the_files(host: Host, config: ClusterConfig<Seq<char>>)
    ensures
        ({
            let plan = cluster::print_post_init_summary_plan(host, config);
            let s = host.settings;
            let home = match host.user {
                Some(user) => user.home@,
                None => "/root"@,
            };
            &&& plan[28] == StepView::Print("╠══════════════════════════════════════════════════════════════╣"@)
            &&& plan[29] == StepView::Print("║  Configuration Files                                       ║"@)
            &&& plan[30] == StepView::Print("╟──────────────────────────────────────────────────────────────╢"@)
            &&& plan[31] == row("Kubeconfig (user):"@, 21, home + "/.kube/config"@, 39)
            &&& plan[32] == row("Kubeconfig (admin):"@, 21, s.kubernetes_conf_dir@ + "/admin.conf"@, 39)
            &&& plan[33] == row("Kubelet config:"@, 21, s.kubelet_data_dir@ + "/config.yaml"@, 39)
            &&& plan[34] == row("Kubelet flags:"@, 21, s.kubelet_data_dir@ + "/kubeadm-flags.env"@, 39)
            &&& plan[35] == row("Containerd config:"@, 21, s.containerd_conf_dir@ + "/config.toml"@, 39)
            &&& plan[36] == row("CNI config dir:"@, 21, s.cni_conf_dir@ + "/"@, 39)
            &&& plan[37] == row("CNI plugin dir:"@, 21, s.cni_bin_dir@ + "/"@, 39)
        }),
{
    lemma_summary_tables(host, config);
    let table = cluster::summary_files_plan(host);
    let plan = cluster::print_post_init_summary_plan(host, config);
    assert(plan[28] == table[0]);
    assert(plan[29] == table[1]);
    assert(plan[30] == table[2]);
    assert(plan[31] == table[3]);
    assert(plan[32] == table[4]);
    assert(plan[33] == table[5]);
    assert(plan[34] == table[6]);
    assert(plan[35] == table[7]);
    assert(plan[36] == table[8]);
    assert(plan[37] == table[9]);
}

/// The summary shows the file of each service.
pub proof fn the_summary_shows_the_services(host: Host, config: ClusterConfig<Seq<char>>)
    ensures
        ({
            let plan = cluster::print_post_init_summary_plan(host, config);
            let s = host.settings;
            &&& plan[38] == StepView::Print("╠══════════════════════════════════════════════════════════════╣"@)
            &&& plan[39] == StepView::Print("║  Systemd Services                                          ║"@)
            &&& plan[40] == StepView::Print("╟──────────────────────────────────────────────────────────────╢"@)
            &&& plan[41] == row("kubelet:"@, 13, s.systemd_unit_dir@ + "/kubelet.service"@, 47)
            &&& plan[42] == row("containerd:"@, 13, s.systemd_unit_dir@ + "/containerd.service"@, 47)
        }),
{
    lemma_summary_tables(host, config);
    let table = cluster::summary_services_plan(host);
    let plan = cluster::print_post_init_summary_plan(host, config);
    assert(plan[38] == table[0]);
    assert(plan[39] == table[1]);
    assert(plan[40] == table[2]);
    assert(plan[41] == table[3]);
    assert(plan[42] == table[4]);
}

/// The summary ends with what to do next.
pub proof fn the_summary_says_how_to_go_on(host: Host, config: ClusterConfig<Seq<char>>)
    ensures
        ({
            let plan = cluster::print_post_init_summary_plan(host, config);
            &&& plan[43] == StepView::Print("╠══════════════════════════════════════════════════════════════╣"@)
            &&& plan[44] == StepView::Print("║  Next Steps                                                ║"@)
            &&& plan[45] == StepView::Print("╟──────────────────────────────────────────────────────────────╢"@)
            &&& plan[46] == StepView::Print("║  Join worker nodes:  kubeinit join-token                    ║"@)
            &&& plan[47] == StepView::Print("║  Check status:       kubeinit status                        ║"@)
            &&& plan[48] == StepView::Print("║  Reset cluster:      kubeinit reset --force                 ║"@)
            &&& plan[49] == StepView::Print("╚══════════════════════════════════════════════════════════════╝"@)
            &&& plan[50] == StepView::Print(""@)
        }),
{
    lemma_summary_tables(host, config);
    let table = cluster::summary_services_plan(host);
    let plan = cluster::print_post_init_summary_plan(host, config);
    assert(plan[43] == table[5]);
    assert(plan[44] == table[6]);
    assert(plan[45] == table[7]);
    assert(plan[46] == table[8]);
    assert(plan[47] == table[9]);
    assert(plan[48] == table[10]);
    assert(plan[49] == table[11]);
    assert(plan[50] == table[12]);
}

// ── Status ───────────────────────────────────────────────────────────────────

/// The status shows the nodes, then all pods, and then Cilium: by its CLI if it
/// is found, whatever that says, and else by its pods.
pub proof fn the_status_shows_nodes_pods_and_cilium(
    host: Host,
    found: Outcome<Seq<char>>,
    missing: Outcome<Seq<char>>,
)
    requires
        found is Success,
        !(missing is Success),
    ensures
        ({
            let plan = cluster::show_status_plan();
            &&& plan.len() == 5
            &&& plan[0] == steps::user_must("kubectl"@, seq!["get"@, "nodes"@, "-o"@, "wide"@])
            &&& plan[1] == StepView::Print(""@) && plan[3] == plan[1]
            &&& plan[2] == steps::user_must(
                "kubectl"@,
                seq!["get"@, "pods"@, "--all-namespaces"@, "-o"@, "wide"@],
            )
            &&& steps::looks_up(plan[4], "cilium"@)
            &&& steps::answered(host, plan[4], found) == seq![
                steps::user_may("cilium"@, seq!["status"@]),
            ]
            &&& steps::answered(host, plan[4], missing) == seq![
                steps::user_must(
                    "kubectl"@,
                    seq![
                        "get"@,
                        "pods"@,
                        "-n"@,
                        "kube-system"@,
                        "-l"@,
                        "app.kubernetes.io/name=cilium-agent"@,
                        "-o"@,
                        "wide"@,
                    ],
                ),
            ]
        }),
{
    let plan = cluster::show_status_plan();
    assert(plan[0] =~~= steps::user_must("kubectl"@, seq!["get"@, "nodes"@, "-o"@, "wide"@]));
    assert(plan[2] =~~= steps::user_must(
        "kubectl"@,
        seq!["get"@, "pods"@, "--all-namespaces"@, "-o"@, "wide"@],
    ));
    assert(steps::answered(host, plan[4], found) =~~= seq![
        steps::user_may("cilium"@, seq!["status"@]),
    ]);
    assert(steps::answered(host, plan[4], missing) =~~= seq![
        steps::user_must(
            "kubectl"@,
            seq![
                "get"@,
                "pods"@,
                "-n"@,
                "kube-system"@,
                "-l"@,
                "app.kubernetes.io/name=cilium-agent"@,
                "-o"@,
                "wide"@,
            ],
        ),
    ]);
}

/// A request for the status shows it, and one for the preflight checks makes
/// those checks, and nothing else.
pub proof fn status_and_preflight_are_requests_of_their_own(host: Host)
    ensures
        cli::request_plan(host, Request::Status) == cluster::show_status_plan(),
        cli::request_plan(host, Request::Preflight) == cluster::preflight_checks_plan(),
{
}

// ── Errors ───────────────────────────────────────────────────────────────────

/// A text has its own parts within it.
proof fn lemma_holds(a: Seq<char>, part: Seq<char>, b: Seq<char>)
    ensures
        addons::holds(a + part + b, part),
        addons::holds(part + b, part),
        addons::holds(a + part, part),
        addons::holds(part, part),
{
    let none = Seq::<char>::empty();
    assert(part + b =~= none + part + b);
    assert(a + part =~= a + part + none);
    assert(part =~= none + part + none);
}

/// A message names what it is about: the program and its status, the
/// architecture, the binary, the role, the node, the device, the cause, or the
/// section and the key.
pub proof fn messages_name_what_they_are_about(x: Seq<char>, y: Seq<char>)
    ensures
        error::message_of(Error::NotStarted { program: x, cause: y }) == "failed to execute "@ + x,
        error::cause_of(Error::NotStarted { program: x, cause: y }) == Some(y),
        error::described(Error::NotStarted { program: x, cause: y }) == "failed to execute "@ + x
            + ": "@ + y,
        error::message_of(Error::Exited { program: x, status: y }) == x + " exited with status "@
            + y,
        error::described(Error::Exited { program: x, status: y }) == x + " exited with status "@
            + y,
        addons::holds(error::message_of(Error::UnsupportedArchitecture(x)), x),
        addons::holds(error::message_of(Error::MissingBinary(x)), x),
        addons::holds(error::message_of(Error::InvalidRole(x)), x),
        addons::holds(error::message_of(Error::TaintRemains(x)), x),
        addons::holds(error::message_of(Error::NoAddress(x)), x),
        error::message_of(Error::NoReply(x)) == x,
        addons::holds(
            error::message_of(Error::MissingSetting { section: x, key: y }),
            "[\""@ + x + "\", \""@ + y + "\"]"@,
        ),
        addons::holds(
            error::message_of(Error::SettingNotText { section: x, key: y }),
            "[\""@ + x + "\", \""@ + y + "\"]"@,
        ),
{
    lemma_holds("Unsupported architecture: "@, x, seq![]);
    lemma_holds("Required binary not found: "@, x, ". Install it before proceeding."@);
    lemma_holds("Invalid role: "@, x, ". Use 'worker', 'control-plane', or 'both'."@);
    lemma_holds(
        "Control-plane NoSchedule taint still present on "@,
        x,
        " after removal attempt. Storage pods would not be schedulable."@,
    );
    lemma_holds("could not detect an IPv4 address on device "@, x, seq![]);
    let path = "[\""@ + x + "\", \""@ + y + "\"]"@;
    reveal_strlit(" in config.toml path [\"");
    reveal_strlit(" in config.toml path ");
    reveal_strlit("expected string at [\"");
    reveal_strlit("expected string at ");
    reveal_strlit("\"] in config.toml");
    reveal_strlit("\"]");
    reveal_strlit(" in config.toml");
    reveal_strlit("[\"");
    assert(" in config.toml path [\""@ =~= " in config.toml path "@ + "[\""@);
    assert("expected string at [\""@ =~= "expected string at "@ + "[\""@);
    assert("\"] in config.toml"@ =~= "\"]"@ + " in config.toml"@);
    lemma_holds("missing key "@ + y + " in config.toml path "@, path, seq![]);
    assert(error::message_of(Error::MissingSetting { section: x, key: y }) =~= "missing key "@ + y
        + " in config.toml path "@ + path);
    lemma_holds("expected string at "@, path, " in config.toml"@);
    assert(error::message_of(Error::SettingNotText { section: x, key: y }) =~= "expected string at "@
        + path + " in config.toml"@);
}

/// What becomes of a program is told apart: one that could not be started, for
/// its cause; one that ended well, with what it printed; and one that did not,
/// with its status. Only the second counts as a success, and only it has a text.
pub proof fn outcomes_are_told_apart(
    program: Seq<char>,
    text: Seq<char>,
    status: Seq<char>,
    cause: Seq<char>,
)
    ensures
        cmd::ended_with(Err(cause), text) == Outcome::NotStarted(cause),
        cmd::ended_with(Ok(Exit { success: true, status }), text) == Outcome::Success(text),
        cmd::ended_with(Ok(Exit { success: false, status }), text) == Outcome::Failure(status),
        cmd::result_of(program, Outcome::Success(text)) == Ok::<_, Error<Seq<char>>>(text),
        cmd::result_of(program, Outcome::NotStarted(cause)) == Err::<Seq<char>, _>(
            Error::NotStarted { program, cause },
        ),
        cmd::result_of(program, Outcome::Failure(status)) == Err::<Seq<char>, _>(
            Error::Exited { program, status },
        ),
        cmd::text_of(Outcome::Success(text)) == text,
        cmd::text_of(Outcome::Failure(status)).len() == 0,
        cmd::text_of(Outcome::NotStarted(cause)).len() == 0,
{
}

} // verus!
