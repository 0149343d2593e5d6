use kubeinit::cli::{self, Request};
use kubeinit::cmd::Outcome;
use kubeinit::config::{Host, Settings};
use kubeinit::deps;
use kubeinit::error::Error;
use kubeinit::plan::{Io, Plan};
use kubeinit::workflow::{Action, Progress, Workflow};

/// A host whose settings name themselves.
fn host(root: bool) -> Host {
    Host {
        root,
        arch: "x86_64".to_string(),
        user: None,
        settings: Settings {
            pod_cidr: "10.244.0.0/16".to_string(),
            service_cidr: "10.96.0.0/12".to_string(),
            containerd_socket: "unix:///run/containerd.sock".to_string(),
            bin_dir: "/usr/local/bin".to_string(),
            sbin_dir: "/usr/local/sbin".to_string(),
            cni_bin_dir: "/opt/cni/bin".to_string(),
            cni_conf_dir: "/etc/cni/net.d".to_string(),
            containerd_conf_dir: "/etc/containerd".to_string(),
            kubernetes_conf_dir: "/etc/kubernetes".to_string(),
            kubelet_data_dir: "/var/lib/kubelet".to_string(),
            etcd_data_dir: "/var/lib/etcd".to_string(),
            containerd_data_dir: "/var/lib/containerd".to_string(),
            containerd_run_dir: "/run/containerd".to_string(),
            systemd_unit_dir: "/etc/systemd/system".to_string(),
            crictl_config: "/etc/crictl.yaml".to_string(),
            url_containerd: "https://dl/containerd-{version}-{arch}.tgz".to_string(),
            url_containerd_service: "https://dl/containerd.service".to_string(),
            url_runc: "https://dl/runc-{version}.{arch}".to_string(),
            url_cni_plugins: "https://dl/cni-{arch}-v{version}.tgz".to_string(),
            url_crictl: "https://dl/crictl-v{version}-{arch}.tgz".to_string(),
            url_kubernetes: "https://dl/v{version}/bin/{arch}".to_string(),
            url_helm: "https://dl/helm-v{version}-{arch}.tgz".to_string(),
            url_cilium_cli: "https://dl/cilium-v{version}-{arch}.tgz".to_string(),
            url_cilium_helm_repo: "https://helm/cilium".to_string(),
            url_gateway_api_crds: "https://dl/gateway-v{version}.yaml".to_string(),
            url_openebs_localpv_helm_repo: "https://helm/openebs".to_string(),
        },
    }
}

/// An action in one line.
fn show(action: &Action) -> String {
    match action {
        Action::Execute { io, invocation } => {
            let how = match io {
                Io::Stream => "run",
                Io::Capture => "read",
                Io::Quiet => "test",
                Io::Interactive => "talk",
            };
            let mut line = format!("{how} {}", invocation.program);
            for arg in &invocation.args {
                line.push(' ');
                line.push_str(arg);
            }
            line
        }
        Action::Prompt(text) => format!("prompt {text}"),
        Action::Print(line) => format!("print {line}"),
        Action::Log(line) => format!("log {line}"),
        Action::Sleep(seconds) => format!("sleep {seconds}"),
    }
}

/// Carries a plan out against a host that answers like this; gives the actions
/// other than logging, and how it ended.
fn drive(
    host: Host,
    plan: Plan,
    answer: impl Fn(usize, &str) -> Outcome,
) -> (Vec<String>, Result<(), Error>) {
    let mut workflow = Workflow::start(host, plan);
    let mut log: Vec<String> = Vec::new();
    let mut outcome = Outcome::Success(String::new());
    loop {
        match workflow.advance(outcome) {
            Progress::Act(Action::Log(_)) => outcome = success(""),
            Progress::Act(action) => {
                let line = show(&action);
                outcome = answer(log.len(), &line);
                log.push(line);
            }
            Progress::Finished => return (log, Ok(())),
            Progress::Stopped(error) => return (log, Err(error)),
        }
    }
}

fn success(text: &str) -> Outcome {
    Outcome::Success(text.to_string())
}

fn not_started() -> Outcome {
    Outcome::NotStarted("no such file".to_string())
}

fn unstarted(program: &str) -> Error {
    Error::NotStarted { program: program.to_string(), cause: "no such file".to_string() }
}

fn failure() -> Outcome {
    Outcome::Failure("exit status: 1".to_string())
}

const UNINSTALL_PROMPT: &str = "prompt This will remove all Kubernetes cluster components and related tooling.\nAre you sure? [y/N]: ";

#[test]
fn architectures_have_go_names() {
    assert_eq!(deps::go_arch("x86_64"), Ok("amd64".to_string()));
    assert_eq!(deps::go_arch("aarch64"), Ok("arm64".to_string()));
    let error = deps::go_arch("riscv64").unwrap_err();
    assert_eq!(error, Error::UnsupportedArchitecture("riscv64".to_string()));
    assert_eq!(error.message(), "Unsupported architecture: riscv64");
}

#[test]
fn placeholders_are_filled_in() {
    assert_eq!(
        deps::expand_url("https://dl/v{version}/{arch}/x-{version}.tgz", "1.2.3", "arm64"),
        "https://dl/v1.2.3/arm64/x-1.2.3.tgz"
    );
}

#[test]
fn plain_templates_stay() {
    assert_eq!(deps::expand_url("https://dl/x.tgz", "1", "amd64"), "https://dl/x.tgz");
    assert_eq!(deps::expand_url("", "1", "amd64"), "");
}

#[test]
fn the_architecture_goes_in_after_the_version() {
    assert_eq!(deps::expand_url("{version}", "{arch}", "amd64"), "amd64");
    assert_eq!(deps::expand_url("{arch}", "1", "{version}"), "{version}");
}

const EQUIPPED: [&str; 12] = [
    "test which containerd",
    "test which runc",
    "read ls /opt/cni/bin",
    "test which crictl",
    "test which kubeadm",
    "test which kubelet",
    "test which kubectl",
    "run bash -c",
    "run systemctl daemon-reload",
    "run systemctl enable kubelet",
    "test which helm",
    "test which cilium",
];

#[test]
fn an_equipped_host_is_left_alone() {
    let plan = deps::install_all(&host(true), None, None);
    let (log, end) = drive(host(true), plan, |_, line| {
        if line == "read ls /opt/cni/bin" { success("bridge") } else { success("") }
    });
    assert_eq!(end, Ok(()));
    assert_eq!(log.len(), 12);
    for (line, wanted) in log.iter().zip(&EQUIPPED) {
        assert!(line.starts_with(wanted));
    }
}

#[test]
fn the_kubelet_service_is_written_in_full() {
    let plan = deps::install_kubelet_service(&host(true));
    let (log, end) = drive(host(true), plan, |_, _| success(""));
    assert_eq!(end, Ok(()));
    let script = r#"mkdir -p /etc/systemd/system/kubelet.service.d
cat > /etc/systemd/system/kubelet.service <<'UNIT'
[Unit]
Description=kubelet: The Kubernetes Node Agent
Documentation=https://kubernetes.io/docs/
Wants=network-online.target
After=network-online.target

[Service]
ExecStart=/usr/local/bin/kubelet
Restart=always
StartLimitInterval=0
RestartSec=10

[Install]
WantedBy=multi-user.target
UNIT

cat > /etc/systemd/system/kubelet.service.d/10-kubeadm.conf <<'DROP'
[Service]
Environment="KUBELET_KUBECONFIG_ARGS=--bootstrap-kubeconfig=/etc/kubernetes/bootstrap-kubelet.conf --kubeconfig=/etc/kubernetes/kubelet.conf"
Environment="KUBELET_CONFIG_ARGS=--config=/var/lib/kubelet/config.yaml"
EnvironmentFile=-/var/lib/kubelet/kubeadm-flags.env
ExecStart=
ExecStart=/usr/local/bin/kubelet $KUBELET_KUBECONFIG_ARGS $KUBELET_CONFIG_ARGS $KUBELET_KUBEADM_ARGS $KUBELET_EXTRA_ARGS
DROP"#;
    assert_eq!(log[0], format!("run bash -c {script}"));
    assert_eq!(log[1], "run systemctl daemon-reload");
    assert_eq!(log[2], "run systemctl enable kubelet");
}

#[test]
fn a_bare_host_gets_everything() {
    let plan = deps::install_all(&host(true), Some("v1.34.0"), Some("0.18.0"));
    let (log, end) = drive(host(true), plan, |_, line| {
        if line.starts_with("run") { success("") } else { failure() }
    });
    assert_eq!(end, Ok(()));
    let expected = vec![
        "test which containerd",
        "run bash -c curl -fsSL 'https://dl/containerd-2.2.2-amd64.tgz' | tar -xz -C /usr/local",
        "run bash -c curl -fsSL 'https://dl/containerd.service' -o '/etc/systemd/system/containerd.service'",
        "run mkdir -p /etc/containerd",
        "run bash -c containerd config default > '/etc/containerd/config.toml'",
        "run sed -i s/SystemdCgroup = false/SystemdCgroup = true/ /etc/containerd/config.toml",
        "run systemctl daemon-reload",
        "run systemctl enable --now containerd",
        "test which runc",
        "run bash -c curl -fsSL 'https://dl/runc-1.4.2.amd64' -o '/usr/local/sbin/runc' && chmod 755 '/usr/local/sbin/runc'",
        "read ls /opt/cni/bin",
        "run mkdir -p /opt/cni/bin",
        "run bash -c curl -fsSL 'https://dl/cni-amd64-v1.9.1.tgz' | tar -xz -C /opt/cni/bin",
        "test which crictl",
        "run bash -c curl -fsSL 'https://dl/crictl-v1.35.0-amd64.tgz' | tar -xz -C /usr/local/bin",
        "run bash -c cat > '/etc/crictl.yaml' <<'EOF'\nruntime-endpoint: unix:///run/containerd.sock\nimage-endpoint: unix:///run/containerd.sock\ntimeout: 10\nEOF",
        "test which kubeadm",
        "run bash -c curl -fsSL 'https://dl/v1.34.0/bin/amd64/kubeadm' -o '/usr/local/bin/kubeadm' && chmod 755 '/usr/local/bin/kubeadm'",
        "test which kubelet",
        "run bash -c curl -fsSL 'https://dl/v1.34.0/bin/amd64/kubelet' -o '/usr/local/bin/kubelet' && chmod 755 '/usr/local/bin/kubelet'",
        "test which kubectl",
        "run bash -c curl -fsSL 'https://dl/v1.34.0/bin/amd64/kubectl' -o '/usr/local/bin/kubectl' && chmod 755 '/usr/local/bin/kubectl'",
    ];
    assert_eq!(log[..22].to_vec(), expected);
    assert_eq!(log[25], "test which helm");
    assert_eq!(
        log[26],
        "run bash -c curl -fsSL 'https://dl/helm-v4.1.3-amd64.tgz' | tar -xz --strip-components=1 -C /usr/local/bin linux-amd64/helm"
    );
    assert_eq!(log[27], "test which cilium");
    assert_eq!(
        log[28],
        "run bash -c curl -fsSL 'https://dl/cilium-v0.18.0-amd64.tgz' | tar -xz -C /usr/local/bin"
    );
    assert_eq!(log.len(), 29);
}

#[test]
fn an_empty_plugin_directory_counts_as_none() {
    let plan = deps::install_cni_plugins(&host(true), Some("1.0.0"), "");
    let (log, _) = drive(host(true), plan, |_, _| success(""));
    assert_eq!(
        log[1],
        "run bash -c curl -fsSL 'https://dl/cni-amd64-v1.0.0.tgz' | tar -xz -C /opt/cni/bin"
    );
    assert_eq!(deps::install_cni_plugins(&host(true), None, "bridge"), Plan { steps: Vec::new() });
}

#[test]
fn a_failing_download_stops_the_installation() {
    let plan = deps::install_all(&host(false), None, None);
    let (log, end) = drive(host(false), plan, |_, line| {
        if line == "talk sudo -v" { success("") } else { failure() }
    });
    assert_eq!(log.len(), 3);
    assert_eq!(
        end,
        Err(Error::Exited { program: "sudo".to_string(), status: "exit status: 1".to_string() })
    );
}

#[test]
fn unsupported_architectures_are_refused_where_something_is_missing() {
    let mut strange = host(true);
    strange.arch = "riscv64".to_string();
    let plan = deps::install_all(&strange, None, None);
    let (log, end) = drive(strange, plan, |_, _| failure());
    assert_eq!(log, vec!["test which containerd"]);
    assert_eq!(end, Err(Error::UnsupportedArchitecture("riscv64".to_string())));
    let mut strange = host(true);
    strange.arch = "riscv64".to_string();
    let plan = deps::install_all(&strange, None, None);
    let (log, end) = drive(strange, plan, |_, _| success("something"));
    assert_eq!(log.len(), 4);
    assert_eq!(end, Err(Error::UnsupportedArchitecture("riscv64".to_string())));
}

#[test]
fn privileges_are_checked_first() {
    for request in [
        Request::InstallDeps { kubernetes_version: None, cilium_version: None },
        Request::Uninstall { force: true },
    ] {
        let plan = cli::dispatch(&host(false), request);
        let (log, end) = drive(host(false), plan, |_, _| failure());
        assert_eq!(log, vec!["talk sudo -v"]);
        assert_eq!(end, Err(Error::SudoRequired));
    }
    let plan = deps::uninstall_all(&host(false));
    let (_, end) = drive(host(false), plan, |_, _| not_started());
    assert_eq!(end, Err(unstarted("sudo")));
}

#[test]
fn an_unconfirmed_uninstall_does_nothing() {
    for reply in ["", "\n", "n", "no", "YES", "yes please"] {
        let plan = cli::dispatch(&host(true), Request::Uninstall { force: false });
        let (log, end) = drive(host(true), plan, |_, _| success(reply));
        assert_eq!(log, vec![UNINSTALL_PROMPT]);
        assert_eq!(end, Err(Error::Aborted));
    }
    assert_eq!(Error::<String>::Aborted.message(), "Aborted.");
    let plan = deps::confirm_uninstall(&host(true), false);
    let (_, end) = drive(host(true), plan, |_, _| failure());
    assert_eq!(end, Err(Error::NoReply("exit status: 1".to_string())));
}

#[test]
fn every_form_of_yes_confirms() {
    for reply in ["y", "Y\n", "yes", " Yes \n"] {
        let plan = deps::confirm_uninstall(&host(true), false);
        let (log, end) = drive(host(true), plan, |n, _| {
            if n == 0 { success(reply) } else { failure() }
        });
        assert_eq!(end, Ok(()));
        assert!(log.len() > 1);
    }
}

#[test]
fn absent_binaries_are_skipped_on_an_uninstall() {
    let plan = deps::uninstall_all(&host(true));
    let (log, end) = drive(host(true), plan, |_, _| failure());
    assert_eq!(end, Ok(()));
    assert_eq!(
        log,
        vec![
            "test which helm",
            "test which kubectl",
            "test which kubeadm",
            "run systemctl stop kubelet",
            "test which crictl",
            "run systemctl disable kubelet",
            "test which kubeadm",
            "test which kubelet",
            "test which kubectl",
            "run rm -f /etc/systemd/system/kubelet.service",
            "run rm -rf /etc/systemd/system/kubelet.service.d",
            "run rm -rf /etc/kubernetes",
            "run rm -rf /var/lib/kubelet",
            "run rm -rf /var/lib/etcd",
            "run systemctl daemon-reload",
            "test which crictl",
            "test which cilium",
            "test which helm",
            "run rm -rf /opt/cni/bin",
            "run rm -rf /etc/cni/net.d",
            "test which containerd",
            "test which runc",
            "run rm -rf /var/openebs",
            "run rm -f /etc/modules-load.d/kubeinit.conf",
            "run rm -f /etc/sysctl.d/99-kubeinit.conf",
        ]
    );
}

#[test]
fn what_is_installed_is_removed() {
    let plan = deps::uninstall_all(&host(true));
    let (log, end) = drive(host(true), plan, |_, _| success(""));
    assert_eq!(end, Ok(()));
    for path in [
        "/usr/local/bin/kubeadm",
        "/usr/local/bin/kubelet",
        "/usr/local/bin/kubectl",
        "/usr/local/bin/crictl",
        "/etc/crictl.yaml",
        "/usr/local/bin/cilium",
        "/usr/local/bin/helm",
        "/usr/local/bin/containerd",
        "/usr/local/bin/containerd-shim",
        "/usr/local/bin/containerd-shim-runc-v1",
        "/usr/local/bin/containerd-shim-runc-v2",
        "/usr/local/bin/containerd-stress",
        "/usr/local/bin/ctr",
        "/usr/local/sbin/runc",
        "/etc/systemd/system/containerd.service",
        "/etc/systemd/system/kubelet.service",
    ] {
        assert!(log.contains(&format!("run rm -f {path}")));
    }
    for path in ["/etc/containerd", "/var/lib/containerd", "/run/containerd", "/opt/cni/bin"] {
        assert!(log.contains(&format!("run rm -rf {path}")));
    }
    let stop = log.iter().position(|line| line == "run systemctl stop kubelet").unwrap();
    let first = log.iter().position(|line| line.starts_with("run rm")).unwrap();
    assert!(stop < first);
}

#[test]
fn a_binary_that_stays_stops_the_uninstall() {
    let plan = deps::uninstall_all(&host(true));
    let (log, end) = drive(host(true), plan, |_, line| {
        if line == "run rm -f /usr/local/bin/kubelet" { failure() } else { success("") }
    });
    assert_eq!(log[log.len() - 1], "run rm -f /usr/local/bin/kubelet");
    assert_eq!(
        end,
        Err(Error::Exited { program: "rm".to_string(), status: "exit status: 1".to_string() })
    );
}

#[test]
fn releases_and_the_gateway_api_go_first() {
    let plan = deps::uninstall_all(&host(true));
    let (log, _) = drive(host(true), plan, |_, line| {
        if line == "read hostname" { success("node-1") } else { success("") }
    });
    assert_eq!(
        log[..8].to_vec(),
        vec![
            "test which helm",
            "run helm uninstall openebs-localpv -n openebs",
            "run helm uninstall cilium -n kube-system",
            "test which kubectl",
            "run kubectl delete -f https://dl/gateway-v1.5.1.yaml --ignore-not-found",
            "test which kubectl",
            "read hostname",
            "run kubectl drain node-1 --ignore-daemonsets --delete-emptydir-data --force --grace-period=30 --timeout=60s",
        ]
    );
    assert_eq!(log[8], "test which kubeadm");
    assert_eq!(log[9], "run kubeadm reset --force");
}

#[test]
fn identifiers_are_the_lines_that_are_not_blank() {
    assert_eq!(deps::read_ids(" a \n\n\t\nb\r\nc"), vec!["a", "b", "c"]);
    assert_eq!(deps::read_ids(""), Vec::<String>::new());
}

#[test]
fn containers_are_stopped_waited_for_and_removed() {
    let plan = deps::stop_cluster_workloads();
    let (log, end) = drive(host(true), plan, |n, line| match line {
        "test which crictl" => success(""),
        "read crictl ps -q" => {
            if n < 8 { success("c1\n c2 ") } else { success("c2") }
        }
        "read crictl pods -q" => success("p1\n\np2"),
        _ => failure(),
    });
    assert_eq!(end, Ok(()));
    let mut expected: Vec<String> = vec![
        "test which kubectl",
        "test which kubeadm",
        "run systemctl stop kubelet",
        "test which crictl",
        "read crictl ps -q",
        "run crictl stop --timeout 30 c1",
        "run crictl stop --timeout 30 c2",
    ]
    .into_iter()
    .map(|line| line.to_string())
    .collect();
    for _ in 0..12 {
        expected.push("read crictl ps -q".to_string());
        expected.push("sleep 5".to_string());
    }
    for line in [
        "read crictl ps -q",
        "run crictl rm --force c2",
        "read crictl pods -q",
        "run crictl stopp p1",
        "run crictl rmp --force p1",
        "run crictl stopp p2",
        "run crictl rmp --force p2",
    ] {
        expected.push(line.to_string());
    }
    assert_eq!(log, expected);
}

#[test]
fn waiting_ends_when_the_containers_have_exited() {
    let plan = deps::stop_cluster_workloads();
    let (log, _) = drive(host(true), plan, |n, line| match line {
        "test which crictl" => success(""),
        "read crictl ps -q" => if n < 7 { success("c1") } else { failure() },
        _ => failure(),
    });
    assert_eq!(
        log[4..].to_vec(),
        vec![
            "read crictl ps -q",
            "run crictl stop --timeout 30 c1",
            "read crictl ps -q",
            "sleep 5",
            "read crictl ps -q",
            "read crictl ps -q",
            "read crictl pods -q",
        ]
    );
}

#[test]
fn without_running_containers_only_sandboxes_are_removed() {
    let plan = deps::stop_cluster_workloads();
    let (log, _) = drive(host(true), plan, |_, line| match line {
        "test which crictl" => success(""),
        _ => failure(),
    });
    assert_eq!(log[4..].to_vec(), vec!["read crictl ps -q", "read crictl pods -q"]);
}

#[test]
fn no_uninstall_waits_longer_than_a_minute() {
    let plan = deps::uninstall_all(&host(true));
    let (log, end) = drive(host(true), plan, |_, _| success("stuck"));
    assert_eq!(end, Ok(()));
    assert_eq!(log.iter().filter(|line| *line == "sleep 5").count(), 12);
}

/// The lines that are logged while a plan is carried out.
fn logged(host: Host, plan: Plan, answer: impl Fn(&str) -> Outcome) -> Vec<String> {
    let mut workflow = Workflow::start(host, plan);
    let mut lines: Vec<String> = Vec::new();
    let mut outcome = Outcome::Success(String::new());
    while let Progress::Act(action) = workflow.advance(outcome) {
        let line = show(&action);
        outcome = answer(&line);
        if line.starts_with("log ") {
            lines.push(line);
        }
    }
    lines
}

#[test]
fn failures_to_stop_workloads_are_logged() {
    let lines = logged(host(true), deps::stop_cluster_workloads(), |line| match line {
        "run systemctl stop kubelet" => failure(),
        "run kubeadm reset --force" => not_started(),
        "read hostname" => failure(),
        "read crictl ps -q" => failure(),
        "read crictl pods -q" => success("p1"),
        "run crictl stopp p1" => failure(),
        _ => success(""),
    });
    assert_eq!(
        lines,
        vec![
            "log hostname exited with status exit status: 1",
            "log failed to execute kubeadm: no such file",
            "log systemctl exited with status exit status: 1",
            "log crictl exited with status exit status: 1",
            "log crictl exited with status exit status: 1",
        ]
    );
}

#[test]
fn success_is_not_logged_and_absence_is_no_failure() {
    let lines = logged(host(true), deps::stop_cluster_workloads(), |_| success(""));
    assert_eq!(lines, Vec::<String>::new());
    let lines = logged(host(true), deps::stop_cluster_workloads(), |line| {
        if line.starts_with("test which") { failure() } else { success("") }
    });
    assert_eq!(lines, Vec::<String>::new());
}

#[test]
fn the_log_comes_before_the_next_step() {
    let plan = deps::kubeadm_probed(true).and(deps::crictl_probed(true));
    let mut workflow = Workflow::start(host(false), plan);
    assert!(matches!(workflow.advance(success("")), Progress::Act(Action::Execute { .. })));
    assert_eq!(
        workflow.advance(failure()),
        Progress::Act(Action::Log("sudo exited with status exit status: 1".to_string()))
    );
    assert!(matches!(workflow.advance(success("")), Progress::Act(Action::Execute { .. })));
    assert!(matches!(workflow.advance(success("")), Progress::Act(Action::Execute { .. })));
    assert_eq!(workflow.advance(success("")), Progress::Finished);
}

#[test]
fn removals_are_not_logged() {
    let lines = logged(host(true), deps::uninstall_all(&host(true)), |line| {
        if line == "run systemctl stop kubelet" { success("") } else { failure() }
    });
    assert_eq!(lines, Vec::<String>::new());
    let lines = logged(host(true), deps::uninstall_helm_releases(true), |_| failure());
    assert_eq!(lines, Vec::<String>::new());
}

#[test]
fn a_draining_that_fails_is_logged_on_an_uninstall_only() {
    let drain = |line: &str| match line {
        "read hostname" => success("node-1"),
        "test which kubectl" => success(""),
        "run kubeadm reset --force" => success(""),
        "run systemctl stop kubelet" => success(""),
        _ => failure(),
    };
    let lines = logged(host(true), deps::stop_cluster_workloads(), drain);
    assert_eq!(lines, vec!["log kubectl exited with status exit status: 1"]);
    let plan = cli::dispatch(&host(true), Request::Reset { force: true });
    assert_eq!(logged(host(true), plan, drain), Vec::<String>::new());
    let plan = cli::dispatch(&host(true), Request::Status);
    let lines = logged(host(true), plan, |line| {
        if line == "run cilium status" { failure() } else { success("") }
    });
    assert_eq!(lines, Vec::<String>::new());
}

#[test]
fn nothing_is_done_after_the_end() {
    let mut workflow = Workflow::start(host(true), deps::install_all(&host(true), None, None));
    assert!(matches!(workflow.advance(success("")), Progress::Act(_)));
    assert!(matches!(workflow.advance(failure()), Progress::Act(_)));
    assert_eq!(
        workflow.advance(failure()),
        Progress::Stopped(Error::Exited {
            program: "bash".to_string(),
            status: "exit status: 1".to_string(),
        })
    );
    assert_eq!(workflow.advance(success("")), Progress::Finished);
    assert_eq!(workflow.advance(failure()), Progress::Finished);
}
