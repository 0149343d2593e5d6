use kubeinit::cli::{self, Request};
use kubeinit::cluster::{self, ClusterConfig, InitOptions, JoinConfig, NodeRole};
use kubeinit::cmd::Outcome;
use kubeinit::config::{Host, RealUser, Settings};
use kubeinit::error::Error;
use kubeinit::plan::{Io, Plan};
use kubeinit::workflow::{Action, Progress, Workflow};

/// A host whose settings name themselves.
fn host(root: bool) -> Host {
    Host {
        root,
        arch: "x86_64".to_string(),
        user: None,
        settings: Settings {
            pod_cidr: "10.244.0.0/16".to_string(),
            service_cidr: "10.96.0.0/12".to_string(),
            containerd_socket: "unix:///run/containerd.sock".to_string(),
            bin_dir: "/usr/local/bin".to_string(),
            sbin_dir: "/usr/local/sbin".to_string(),
            cni_bin_dir: "/opt/cni/bin".to_string(),
            cni_conf_dir: "/etc/cni/net.d".to_string(),
            containerd_conf_dir: "/etc/containerd".to_string(),
            kubernetes_conf_dir: "/etc/kubernetes".to_string(),
            kubelet_data_dir: "/var/lib/kubelet".to_string(),
            etcd_data_dir: "/var/lib/etcd".to_string(),
            containerd_data_dir: "/var/lib/containerd".to_string(),
            containerd_run_dir: "/run/containerd".to_string(),
            systemd_unit_dir: "/etc/systemd/system".to_string(),
            crictl_config: "/etc/crictl.yaml".to_string(),
            url_containerd: "https://dl/containerd-{version}-{arch}.tgz".to_string(),
            url_containerd_service: "https://dl/containerd.service".to_string(),
            url_runc: "https://dl/runc-{version}.{arch}".to_string(),
            url_cni_plugins: "https://dl/cni-{arch}-v{version}.tgz".to_string(),
            url_crictl: "https://dl/crictl-v{version}-{arch}.tgz".to_string(),
            url_kubernetes: "https://dl/v{version}/bin/{arch}".to_string(),
            url_helm: "https://dl/helm-v{version}-{arch}.tgz".to_string(),
            url_cilium_cli: "https://dl/cilium-v{version}-{arch}.tgz".to_string(),
            url_cilium_helm_repo: "https://helm/cilium".to_string(),
            url_gateway_api_crds: "https://dl/gateway-v{version}.yaml".to_string(),
            url_openebs_localpv_helm_repo: "https://helm/openebs".to_string(),
        },
    }
}

/// An action in one line.
fn show(action: &Action) -> String {
    match action {
        Action::Execute { io, invocation } => {
            let how = match io {
                Io::Stream => "run",
                Io::Capture => "read",
                Io::Quiet => "test",
                Io::Interactive => "talk",
            };
            let mut line = format!("{how} {}", invocation.program);
            for arg in &invocation.args {
                line.push(' ');
                line.push_str(arg);
            }
            line
        }
        Action::Prompt(text) => format!("prompt {text}"),
        Action::Print(line) => format!("print {line}"),
        Action::Log(line) => format!("log {line}"),
        Action::Sleep(seconds) => format!("sleep {seconds}"),
    }
}

/// Carries a plan out against a host that answers like this; gives the actions
/// and how it ended.
fn drive(
    host: Host,
    plan: Plan,
    answer: impl Fn(usize, &str) -> Outcome,
) -> (Vec<String>, Result<(), Error>) {
    let mut workflow = Workflow::start(host, plan);
    let mut log: Vec<String> = Vec::new();
    let mut outcome = Outcome::Success(String::new());
    loop {
        match workflow.advance(outcome) {
            Progress::Act(action) => {
                let line = show(&action);
                outcome = answer(log.len(), &line);
                log.push(line);
            }
            Progress::Finished => return (log, Ok(())),
            Progress::Stopped(error) => return (log, Err(error)),
        }
    }
}

fn success(text: &str) -> Outcome {
    Outcome::Success(text.to_string())
}

fn not_started() -> Outcome {
    Outcome::NotStarted("no such file".to_string())
}

fn unstarted(program: &str) -> Error {
    Error::NotStarted { program: program.to_string(), cause: "no such file".to_string() }
}

fn failure() -> Outcome {
    Outcome::Failure("exit status: 1".to_string())
}

fn options() -> InitOptions {
    InitOptions {
        pod_network_cidr: "10.244.0.0/16".to_string(),
        service_cidr: "10.96.0.0/12".to_string(),
        kubernetes_version: None,
        cilium_version: None,
        gateway_api: true,
        storage_version: None,
        skip_cni: false,
        skip_storage: false,
    }
}

fn cluster_config(version: Option<&str>) -> ClusterConfig {
    ClusterConfig {
        control_plane_endpoint: "192.168.1.100".to_string(),
        pod_network_cidr: "10.244.0.0/16".to_string(),
        service_cidr: "10.96.0.0/12".to_string(),
        kubernetes_version: version.map(|v| v.to_string()),
    }
}

fn join_config(role: NodeRole, key: Option<&str>) -> JoinConfig {
    JoinConfig {
        role,
        token: "abcdef.0123456789abcdef".to_string(),
        api_server: "192.168.1.100:6443".to_string(),
        ca_cert_hash: "sha256:00ff".to_string(),
        certificate_key: key.map(|k| k.to_string()),
    }
}

/// A host that is ready for a cluster.
fn ready(line: &str) -> Outcome {
    match line {
        "read cat /proc/swaps" => success("Filename Type Size Used Priority"),
        "read lsmod" => success("overlay 1 0\nbr_netfilter 1 0"),
        "read hostname" => success("node-1"),
        _ => {
            if line.starts_with("read sysctl -n") {
                success("1")
            } else {
                success("")
            }
        }
    }
}

const PREFLIGHT: [&str; 11] = [
    "test which kubeadm",
    "test which kubelet",
    "test which kubectl",
    "test which crictl",
    "read cat /proc/swaps",
    "read lsmod",
    "run bash -c printf 'overlay\nbr_netfilter\n' > /etc/modules-load.d/kubeinit.conf",
    "read sysctl -n net.bridge.bridge-nf-call-iptables",
    "read sysctl -n net.ipv4.ip_forward",
    "run bash -c printf 'net.bridge.bridge-nf-call-iptables=1\nnet.ipv4.ip_forward=1\n' > /etc/sysctl.d/99-kubeinit.conf",
    "run sysctl --system",
];

#[test]
fn roles_are_read_in_any_case() {
    for name in ["worker", "Worker", "WORKER"] {
        assert_eq!(NodeRole::from_str(name), Ok(NodeRole::Worker));
    }
    for name in ["control-plane", "controlplane", "master", "both", "Control-Plane", "MASTER"] {
        assert_eq!(NodeRole::from_str(name), Ok(NodeRole::ControlPlane));
    }
    let error = NodeRole::from_str("Etcd").unwrap_err();
    assert_eq!(error, Error::InvalidRole("Etcd".to_string()));
    assert_eq!(
        error.message(),
        "Invalid role: Etcd. Use 'worker', 'control-plane', or 'both'."
    );
    assert!(NodeRole::from_str("").is_err());
    assert!(NodeRole::from_str(" worker").is_err());
}

#[test]
fn role_names_are_read_back() {
    for role in [NodeRole::Worker, NodeRole::ControlPlane] {
        assert_eq!(NodeRole::from_str(&role.to_string()), Ok(role));
    }
    assert_eq!(NodeRole::Worker.to_string(), "worker");
    assert_eq!(NodeRole::ControlPlane.to_string(), "control-plane");
}

#[test]
fn lower_case_names_are_looked_up_as_they_are() {
    assert_eq!(NodeRole::from_lowercase("both"), Some(NodeRole::ControlPlane));
    assert_eq!(NodeRole::from_lowercase("Both"), None);
}

#[test]
fn a_ready_host_passes_preflight() {
    let (log, end) = drive(host(true), cluster::preflight_checks(), |_, line| ready(line));
    assert_eq!(end, Ok(()));
    assert_eq!(log, PREFLIGHT);
}

#[test]
fn preflight_mends_modules_and_parameters() {
    let (log, end) = drive(host(false), cluster::preflight_checks(), |_, line| match line {
        "read lsmod" => success("overlay 1 0"),
        "read sysctl -n net.ipv4.ip_forward" => success("0"),
        "read sysctl -n net.bridge.bridge-nf-call-iptables" => failure(),
        _ => ready(line),
    });
    assert_eq!(end, Ok(()));
    assert_eq!(log[6], "run sudo modprobe br_netfilter");
    assert_eq!(log[9], "run sudo sysctl -w net.bridge.bridge-nf-call-iptables=1");
    assert_eq!(log[11], "run sudo sysctl -w net.ipv4.ip_forward=1");
    assert_eq!(log.len(), 14);
}

#[test]
fn a_missing_binary_stops_preflight() {
    let (log, end) = drive(host(true), cluster::preflight_checks(), |_, line| {
        if line == "test which kubectl" {
            failure()
        } else {
            ready(line)
        }
    });
    assert_eq!(log, PREFLIGHT[..3].to_vec());
    let error = end.unwrap_err();
    assert_eq!(error, Error::MissingBinary("kubectl".to_string()));
    assert_eq!(
        error.message(),
        "Required binary not found: kubectl. Install it before proceeding."
    );
}

#[test]
fn swap_stops_preflight() {
    let (log, end) = drive(host(true), cluster::preflight_checks(), |_, line| {
        if line == "read cat /proc/swaps" {
            success("Filename Type\n\n/dev/sda2 partition 1")
        } else {
            ready(line)
        }
    });
    assert_eq!(log, PREFLIGHT[..5].to_vec());
    let error = end.unwrap_err();
    assert_eq!(error, Error::SwapEnabled);
    assert_eq!(
        error.message(),
        "Swap is enabled. Disable swap before initializing the cluster: swapoff -a"
    );
}

#[test]
fn blank_lines_and_the_heading_are_no_swap() {
    assert_eq!(cluster::swaps_listed("Filename\n\n\n"), Plan { steps: Vec::new() });
    assert_eq!(cluster::swaps_listed(""), Plan { steps: Vec::new() });
}

#[test]
fn preflight_stops_at_a_failing_command() {
    let (log, end) = drive(host(false), cluster::preflight_checks(), |_, line| {
        if line == "run sudo sysctl --system" {
            failure()
        } else {
            ready(line)
        }
    });
    assert_eq!(log.len(), 11);
    assert_eq!(
        end,
        Err(Error::Exited { program: "sudo".to_string(), status: "exit status: 1".to_string() })
    );
}

#[test]
fn init_runs_kubeadm_without_kube_proxy() {
    let (log, end) = drive(
        host(true),
        cluster::init_cluster(&host(true), &cluster_config(Some("vv1.35.3"))),
        |_, line| ready(line),
    );
    assert_eq!(end, Ok(()));
    assert_eq!(
        log,
        vec![
            "run kubeadm init --control-plane-endpoint 192.168.1.100 --pod-network-cidr 10.244.0.0/16 --service-cidr 10.96.0.0/12 --skip-phases addon/kube-proxy --kubernetes-version v1.35.3",
            "read hostname",
            "run kubectl taint nodes node-1 node-role.kubernetes.io/control-plane:NoSchedule-",
            "run mkdir -p /root/.kube",
            "run cp -f /etc/kubernetes/admin.conf /root/.kube/config",
            "run chmod 600 /root/.kube/config",
        ]
    );
}

#[test]
fn init_goes_on_without_a_host_name_and_without_a_version() {
    let (log, end) = drive(
        host(true),
        cluster::init_cluster(&host(true), &cluster_config(None)),
        |_, line| if line == "read hostname" { failure() } else { ready(line) },
    );
    assert_eq!(end, Ok(()));
    assert_eq!(log.len(), 5);
    assert!(log[0].ends_with("--skip-phases addon/kube-proxy"));
}

#[test]
fn a_taint_that_stays_does_not_stop_init() {
    let (log, end) = drive(
        host(true),
        cluster::init_cluster(&host(true), &cluster_config(None)),
        |_, line| if line.starts_with("run kubectl taint") { failure() } else { ready(line) },
    );
    assert_eq!(end, Ok(()));
    assert_eq!(log.len(), 6);
}

#[test]
fn the_kubeconfig_belongs_to_the_invoking_user() {
    let mut host = host(false);
    host.user = Some(RealUser {
        home: "/home/ada".to_string(),
        uid: 1000,
        gid: 985,
    });
    let plan = cluster::setup_kubeconfig(&host);
    let (log, end) = drive(host, plan, |_, line| ready(line));
    assert_eq!(end, Ok(()));
    assert_eq!(
        log,
        vec![
            "run sudo mkdir -p /home/ada/.kube",
            "run sudo cp -f /etc/kubernetes/admin.conf /home/ada/.kube/config",
            "run sudo chmod 600 /home/ada/.kube/config",
            "run sudo chown -R 1000:985 /home/ada/.kube",
        ]
    );
}

#[test]
fn workers_join_without_control_plane_options() {
    let (log, end) = drive(
        host(true),
        cluster::join_cluster(&host(true), &join_config(NodeRole::Worker, Some("k"))),
        |_, line| ready(line),
    );
    assert_eq!(end, Ok(()));
    assert_eq!(
        log[0],
        "run kubeadm join 192.168.1.100:6443 --token abcdef.0123456789abcdef --discovery-token-ca-cert-hash sha256:00ff"
    );
    assert_eq!(log.len(), 4);
}

#[test]
fn control_plane_nodes_join_with_their_key() {
    let (log, end) = drive(
        host(true),
        cluster::join_cluster(&host(true), &join_config(NodeRole::ControlPlane, Some("abc123"))),
        |_, line| ready(line),
    );
    assert_eq!(end, Ok(()));
    assert!(log[0].ends_with("sha256:00ff --control-plane --certificate-key abc123"));
}

#[test]
fn control_plane_nodes_need_a_key() {
    let (log, end) = drive(
        host(true),
        cluster::join_cluster(&host(true), &join_config(NodeRole::ControlPlane, None)),
        |_, line| ready(line),
    );
    assert_eq!(log, Vec::<String>::new());
    let error = end.unwrap_err();
    assert_eq!(error, Error::CertificateKeyRequired);
    assert_eq!(
        error.message(),
        "Control-plane join requires --certificate-key. Generate one with: kubeinit join-token --control-plane"
    );
}

const JOIN: &str = "kubeadm join 10.0.0.1:6443 --token a.b --discovery-token-ca-cert-hash sha256:1";

#[test]
fn a_worker_token_is_printed_with_a_hint() {
    let (log, end) = drive(host(false), cluster::print_join_command(false), |_, _| success(JOIN));
    assert_eq!(end, Ok(()));
    assert_eq!(
        log,
        vec![
            "read sudo kubeadm token create --print-join-command".to_string(),
            format!("print {JOIN}"),
            "print ".to_string(),
            "print Or use kubeinit on the joining node:".to_string(),
            "print   kubeinit join --role worker \\\n    --api-server 10.0.0.1:6443 \\\n    --token a.b \\\n    --ca-cert-hash sha256:1"
                .to_string(),
        ]
    );
}

#[test]
fn a_control_plane_token_is_printed_with_its_key() {
    let (log, end) = drive(host(true), cluster::print_join_command(true), |n, _| {
        if n == 0 {
            success(JOIN)
        } else {
            success("[upload-certs] Using certificate key:\n  c0ffee ")
        }
    });
    assert_eq!(end, Ok(()));
    assert_eq!(log[1], "read kubeadm init phase upload-certs --upload-certs");
    assert_eq!(log[2], format!("print {JOIN} --control-plane --certificate-key c0ffee"));
    assert_eq!(
        log[5],
        "print   kubeinit join --role control-plane \\\n    --api-server 10.0.0.1:6443 \\\n    --token a.b \\\n    --ca-cert-hash sha256:1 \\\n    --certificate-key c0ffee"
    );
    assert_eq!(log.len(), 6);
}

#[test]
fn token_commands_must_succeed() {
    let (log, end) = drive(host(true), cluster::print_join_command(true), |_, _| failure());
    assert_eq!(log.len(), 1);
    assert_eq!(
        end,
        Err(Error::Exited {
            program: "kubeadm".to_string(),
            status: "exit status: 1".to_string(),
        })
    );
    let (log, end) = drive(host(false), cluster::print_join_command(true), |n, _| {
        if n == 0 { success(JOIN) } else { not_started() }
    });
    assert_eq!(log.len(), 2);
    assert_eq!(end, Err(unstarted("sudo")));
}

#[test]
fn hints_fall_back_to_placeholders() {
    assert_eq!(
        cluster::write_join_hint("worker", "kubeadm join"),
        "  kubeinit join --role worker \\\n    --api-server <api-server:6443> \\\n    --token <token> \\\n    --ca-cert-hash <hash>"
    );
    assert_eq!(
        cluster::write_join_hint("worker", "a b c --token"),
        "  kubeinit join --role worker \\\n    --api-server c \\\n    --token <token> \\\n    --ca-cert-hash <hash>"
    );
}

#[test]
fn a_join_hint_amounts_to_its_join_command() {
    let hint = cluster::write_join_hint("worker", JOIN);
    assert!(hint.contains("--api-server 10.0.0.1:6443"));
    let config = JoinConfig {
        role: NodeRole::Worker,
        token: "a.b".to_string(),
        api_server: "10.0.0.1:6443".to_string(),
        ca_cert_hash: "sha256:1".to_string(),
        certificate_key: None,
    };
    let (log, _) = drive(host(true), cluster::join_cluster(&host(true), &config), |_, line| {
        ready(line)
    });
    assert_eq!(log[0], format!("run {JOIN}"));
}

#[test]
fn a_control_plane_hint_amounts_to_its_join_command() {
    let config = JoinConfig {
        role: NodeRole::ControlPlane,
        token: "a.b".to_string(),
        api_server: "10.0.0.1:6443".to_string(),
        ca_cert_hash: "sha256:1".to_string(),
        certificate_key: Some("c0ffee".to_string()),
    };
    let (log, _) = drive(host(true), cluster::join_cluster(&host(true), &config), |_, line| {
        ready(line)
    });
    assert_eq!(log[0], format!("run {JOIN} --control-plane --certificate-key c0ffee"));
}

#[test]
fn an_unforced_reset_does_nothing() {
    let (log, end) =
        drive(host(true), cluster::reset_cluster(&host(true), false), |_, line| ready(line));
    assert_eq!(log, Vec::<String>::new());
    assert_eq!(end, Ok(()));
}

#[test]
fn a_reset_tears_the_cluster_down_and_leaves_binaries() {
    let mut host = host(true);
    host.user = Some(RealUser {
        home: "/home/ada".to_string(),
        uid: 1000,
        gid: 1000,
    });
    let plan = cluster::reset_cluster(&host, true);
    let (log, end) = drive(host, plan, |_, line| ready(line));
    assert_eq!(end, Ok(()));
    assert_eq!(
        log,
        vec![
            "test which helm",
            "run helm uninstall openebs-localpv -n openebs",
            "run helm uninstall cilium -n kube-system",
            "test which kubectl",
            "run kubectl delete -f https://dl/gateway-v1.5.1.yaml --ignore-not-found",
            "test which kubectl",
            "read hostname",
            "run kubectl drain node-1 --ignore-daemonsets --delete-emptydir-data --force --grace-period=30 --timeout=60s",
            "run kubeadm reset --force",
            "run systemctl stop kubelet",
            "run rm -rf /etc/cni/net.d",
            "run iptables -F",
            "run iptables -t nat -F",
            "run iptables -t mangle -F",
            "run iptables -X",
            "run ipvsadm -C",
            "run rm -rf /var/lib/kubelet",
            "run rm -rf /etc/kubernetes",
            "run rm -rf /var/lib/longhorn",
            "run rm -f /etc/modules-load.d/kubeinit.conf",
            "run rm -f /etc/sysctl.d/99-kubeinit.conf",
            "run rm -rf /home/ada/.kube",
        ]
    );
    assert!(!log.iter().any(|line| line.contains("/usr/local/bin")));
}

#[test]
fn a_reset_stops_only_if_kubeadm_fails() {
    let plan = cluster::reset_cluster(&host(true), true);
    let (log, end) = drive(host(true), plan, |_, line| {
        if line == "run kubeadm reset --force" { success("") } else { failure() }
    });
    assert_eq!(end, Ok(()));
    assert_eq!(log.len(), 16);
    let plan = cluster::reset_cluster(&host(true), true);
    let (log, end) = drive(host(true), plan, |_, _| failure());
    assert_eq!(log.len(), 4);
    assert_eq!(
        end,
        Err(Error::Exited {
            program: "kubeadm".to_string(),
            status: "exit status: 1".to_string(),
        })
    );
}

#[test]
fn the_summary_lists_every_path() {
    let (log, end) = drive(
        host(true),
        cluster::print_post_init_summary(&host(true), &cluster_config(None)),
        |_, line| ready(line),
    );
    assert_eq!(end, Ok(()));
    let expected = vec![
        "",
        "╔══════════════════════════════════════════════════════════════╗",
        "║             Cluster Initialization Summary                  ║",
        "╠══════════════════════════════════════════════════════════════╣",
        "║  Control-plane endpoint: 192.168.1.100                       ║",
        "║  Pod network CIDR:       10.244.0.0/16                       ║",
        "║  Service CIDR:           10.96.0.0/12                        ║",
        "╠══════════════════════════════════════════════════════════════╣",
        "║  Installed Binaries                                        ║",
        "╟──────────────────────────────────────────────────────────────╢",
        "║  kubeadm      /usr/local/bin/kubeadm                         ║",
        "║  kubelet      /usr/local/bin/kubelet                         ║",
        "║  kubectl      /usr/local/bin/kubectl                         ║",
        "║  crictl       /usr/local/bin/crictl                          ║",
        "║  containerd   /usr/local/bin/containerd                      ║",
        "║  runc         /usr/local/sbin/runc                           ║",
        "║  helm         /usr/local/bin/helm                            ║",
        "║  cilium       /usr/local/bin/cilium                          ║",
    ];
    for (line, wanted) in log.iter().zip(&expected) {
        assert_eq!(line, &format!("print {wanted}"));
    }
    assert_eq!(
        log[21],
        format!("print ║  {:<17}{:<43} ║", "CA cert:", "/etc/kubernetes/pki/ca.crt")
    );
    assert_eq!(
        log[25],
        format!("print ║  {:<17}{:<43} ║", "SA key pair:", "/etc/kubernetes/pki/sa.{key,pub}")
    );
    assert_eq!(
        log[31],
        format!("print ║  {:<21}{:<39} ║", "Kubeconfig (user):", "/root/.kube/config")
    );
    assert_eq!(
        log[37],
        format!("print ║  {:<21}{:<39} ║", "CNI plugin dir:", "/opt/cni/bin/")
    );
    assert_eq!(
        log[42],
        format!("print ║  {:<13}{:<47} ║", "containerd:", "/etc/systemd/system/containerd.service")
    );
    assert_eq!(log.len(), 51);
}

#[test]
fn status_shows_nodes_pods_and_cilium() {
    let (log, end) = drive(host(false), cluster::show_status(), |_, line| ready(line));
    assert_eq!(end, Ok(()));
    assert_eq!(
        log,
        vec![
            "run kubectl get nodes -o wide",
            "print ",
            "run kubectl get pods --all-namespaces -o wide",
            "print ",
            "test which cilium",
            "run cilium status",
        ]
    );
    let (log, end) = drive(host(false), cluster::show_status(), |_, line| {
        if line == "test which cilium" { failure() } else { success("") }
    });
    assert_eq!(end, Ok(()));
    assert_eq!(
        log[5],
        "run kubectl get pods -n kube-system -l app.kubernetes.io/name=cilium-agent -o wide"
    );
}

#[test]
fn a_failing_cilium_status_is_ignored_but_kubectl_is_not() {
    let (_, end) = drive(host(false), cluster::show_status(), |_, line| {
        if line == "run cilium status" { failure() } else { success("") }
    });
    assert_eq!(end, Ok(()));
    let (log, end) = drive(host(false), cluster::show_status(), |_, _| not_started());
    assert_eq!(log.len(), 1);
    assert_eq!(end, Err(unstarted("kubectl")));
}

#[test]
fn a_given_endpoint_is_used_without_a_question() {
    let request = Request::Init {
        endpoint: Some("10.9.8.7".to_string()),
        options: InitOptions { skip_cni: true, skip_storage: true, ..options() },
    };
    let (log, end) = drive(host(true), cli::dispatch(&host(true), request), |_, line| {
        if line == "read ls /opt/cni/bin" { success("bridge") } else { ready(line) }
    });
    assert_eq!(end, Ok(()));
    assert!(!log.iter().any(|line| line.starts_with("prompt")));
    assert!(log.iter().any(|line| {
        line.starts_with("run kubeadm init --control-plane-endpoint 10.9.8.7 ")
    }));
    assert!(!log.iter().any(|line| line.contains("helm install")));
}

#[test]
fn joining_installs_and_checks_before_it_reads_the_role() {
    let request = Request::Join {
        role: "boss".to_string(),
        token: "t".to_string(),
        api_server: "s".to_string(),
        ca_cert_hash: "h".to_string(),
        certificate_key: None,
        kubernetes_version: None,
        cilium_version: None,
    };
    let (log, end) = drive(host(true), cli::dispatch(&host(true), request), |_, line| {
        if line == "read ls /opt/cni/bin" { success("bridge") } else { ready(line) }
    });
    assert_eq!(end, Err(Error::InvalidRole("boss".to_string())));
    assert_eq!(log[log.len() - 11..].to_vec(), PREFLIGHT);
}

#[test]
fn joining_as_both_joins_the_control_plane() {
    let request = Request::Join {
        role: "Both".to_string(),
        token: "t".to_string(),
        api_server: "s".to_string(),
        ca_cert_hash: "h".to_string(),
        certificate_key: Some("k".to_string()),
        kubernetes_version: None,
        cilium_version: None,
    };
    let (log, end) = drive(host(true), cli::dispatch(&host(true), request), |_, line| {
        if line == "read ls /opt/cni/bin" { success("bridge") } else { ready(line) }
    });
    assert_eq!(end, Ok(()));
    assert!(log.contains(
        &"run kubeadm join s --token t --discovery-token-ca-cert-hash h --control-plane --certificate-key k"
            .to_string()
    ));
}

#[test]
fn joining_needs_a_role() {
    let error = Err(Error::InvalidRole("x".to_string()));
    let plan = cli::join_as(
        &host(true),
        error,
        "t".to_string(),
        "s".to_string(),
        "h".to_string(),
        None,
    );
    let (log, end) = drive(host(true), plan, |_, _| success(""));
    assert_eq!(log, Vec::<String>::new());
    assert_eq!(end, Err(Error::InvalidRole("x".to_string())));
}
