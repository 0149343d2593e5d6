use kubeinit::cli::{self, Request};
use kubeinit::cluster::InitOptions;
use kubeinit::cmd::Outcome;
use kubeinit::cni::{self, CiliumConfig};
use kubeinit::config::{Host, Settings};
use kubeinit::error::Error;
use kubeinit::net;
use kubeinit::plan::{Io, Plan};
use kubeinit::storage::{self, StorageConfig};
use kubeinit::workflow::{Action, Progress, Workflow};

/// A host whose settings name themselves.
fn host(root: bool) -> Host {
    Host {
        root,
        arch: "x86_64".to_string(),
        user: None,
        settings: Settings {
            pod_cidr: "10.244.0.0/16".to_string(),
            service_cidr: "10.96.0.0/12".to_string(),
            containerd_socket: "unix:///run/containerd.sock".to_string(),
            bin_dir: "/usr/local/bin".to_string(),
            sbin_dir: "/usr/local/sbin".to_string(),
            cni_bin_dir: "/opt/cni/bin".to_string(),
            cni_conf_dir: "/etc/cni/net.d".to_string(),
            containerd_conf_dir: "/etc/containerd".to_string(),
            kubernetes_conf_dir: "/etc/kubernetes".to_string(),
            kubelet_data_dir: "/var/lib/kubelet".to_string(),
            etcd_data_dir: "/var/lib/etcd".to_string(),
            containerd_data_dir: "/var/lib/containerd".to_string(),
            containerd_run_dir: "/run/containerd".to_string(),
            systemd_unit_dir: "/etc/systemd/system".to_string(),
            crictl_config: "/etc/crictl.yaml".to_string(),
            url_containerd: "https://dl/containerd-{version}-{arch}.tgz".to_string(),
            url_containerd_service: "https://dl/containerd.service".to_string(),
            url_runc: "https://dl/runc-{version}.{arch}".to_string(),
            url_cni_plugins: "https://dl/cni-{arch}-v{version}.tgz".to_string(),
            url_crictl: "https://dl/crictl-v{version}-{arch}.tgz".to_string(),
            url_kubernetes: "https://dl/v{version}/bin/{arch}".to_string(),
            url_helm: "https://dl/helm-v{version}-{arch}.tgz".to_string(),
            url_cilium_cli: "https://dl/cilium-v{version}-{arch}.tgz".to_string(),
            url_cilium_helm_repo: "https://helm/cilium".to_string(),
            url_gateway_api_crds: "https://dl/gateway-v{version}.yaml".to_string(),
            url_openebs_localpv_helm_repo: "https://helm/openebs".to_string(),
        },
    }
}

/// An action in one line.
fn show(action: &Action) -> String {
    match action {
        Action::Execute { io, invocation } => {
            let how = match io {
                Io::Stream => "run",
                Io::Capture => "read",
                Io::Quiet => "test",
                Io::Interactive => "talk",
            };
            let mut line = format!("{how} {}", invocation.program);
            for arg in &invocation.args {
                line.push(' ');
                line.push_str(arg);
            }
            line
        }
        Action::Prompt(text) => format!("prompt {text}"),
        Action::Print(line) => format!("print {line}"),
        Action::Log(line) => format!("log {line}"),
        Action::Sleep(seconds) => format!("sleep {seconds}"),
    }
}

/// Carries a plan out against a host that answers like this; gives the actions
/// and how it ended.
fn drive(
    host: Host,
    plan: Plan,
    answer: impl Fn(usize, &str) -> Outcome,
) -> (Vec<String>, Result<(), Error>) {
    let mut workflow = Workflow::start(host, plan);
    let mut log: Vec<String> = Vec::new();
    let mut outcome = Outcome::Success(String::new());
    loop {
        match workflow.advance(outcome) {
            Progress::Act(action) => {
                let line = show(&action);
                outcome = answer(log.len(), &line);
                log.push(line);
            }
            Progress::Finished => return (log, Ok(())),
            Progress::Stopped(error) => return (log, Err(error)),
        }
    }
}

fn success(text: &str) -> Outcome {
    Outcome::Success(text.to_string())
}

fn not_started() -> Outcome {
    Outcome::NotStarted("no such file".to_string())
}

fn unstarted(program: &str) -> Error {
    Error::NotStarted { program: program.to_string(), cause: "no such file".to_string() }
}

fn failure() -> Outcome {
    Outcome::Failure("exit status: 1".to_string())
}

fn options() -> InitOptions {
    InitOptions {
        pod_network_cidr: "10.244.0.0/16".to_string(),
        service_cidr: "10.96.0.0/12".to_string(),
        kubernetes_version: None,
        cilium_version: None,
        gateway_api: true,
        storage_version: None,
        skip_cni: false,
        skip_storage: false,
    }
}

fn cilium(version: Option<&str>, gateway_api: bool) -> CiliumConfig {
    CiliumConfig {
        version: version.map(|v| v.to_string()),
        pod_cidr: "10.244.0.0/16".to_string(),
        gateway_api,
    }
}

const ROUTE: &str = "default via 192.168.1.1 dev eth0 proto static metric 100";
const ADDRESS: &str = "2: eth0    inet 192.168.1.100/24 brd 192.168.1.255 scope global eth0";

/// A host with one address, whose user replies like this.
fn networked(line: &str, reply: &str) -> Outcome {
    if line == "read ip -4 route show default" {
        success(ROUTE)
    } else if line == "read ip -4 -o addr show dev eth0" {
        success(ADDRESS)
    } else if line == "read hostname -f" {
        success("node-1.example.org")
    } else if line.starts_with("prompt") {
        success(reply)
    } else {
        failure()
    }
}

#[test]
fn addresses_are_dotted_numbers() {
    for address in ["192.168.1.100", "0.0.0.0", "255.255.255.255", "1.2.3.4"] {
        assert!(net::usable(address));
    }
    for address in [
        "", "1.2.3", "1.2.3.4.5", "256.1.1.1", "01.2.3.4", "1..2.3", "a.b.c.d", "1.2.3.4 ", "::1",
        "+1.2.3.4", "1.2.3.999", "1.2.3.4/24",
    ] {
        assert!(!net::usable(address));
    }
}

#[test]
fn loopback_addresses_are_passed_over() {
    assert!(!net::usable("127.0.0.1"));
    assert!(!net::usable("127.1.2.3"));
    let output = "1: lo inet 127.0.0.1/8 scope host lo\n2: eth0 inet 10.0.0.5/24 scope global eth0";
    assert_eq!(net::read_address(output), Some("10.0.0.5".to_string()));
    assert_eq!(net::read_address("1: lo inet 127.0.0.1/8 scope host lo"), None);
}

#[test]
fn the_first_usable_address_is_read() {
    assert_eq!(net::read_address(ADDRESS), Some("192.168.1.100".to_string()));
    assert_eq!(
        net::read_address("no address\nx inet bogus/8\ny inet 10.1.1.1\nz inet 10.1.1.2/8"),
        Some("10.1.1.1".to_string())
    );
    assert_eq!(net::read_address("2: eth0 inet"), None);
    assert_eq!(net::read_address(""), None);
}

#[test]
fn the_device_of_the_default_route_is_read() {
    assert_eq!(net::read_device(ROUTE), Some("eth0".to_string()));
    assert_eq!(net::read_device("default via 10.0.0.1"), None);
    assert_eq!(net::read_device("default via 10.0.0.1 dev"), None);
    assert_eq!(net::read_device(""), None);
}

fn endpoint_of(reply: &str) -> (Vec<String>, Result<(), Error>) {
    let plan = net::resolve_control_plane_endpoint(&host(true), None, options());
    drive(host(true), plan, |_, line| networked(line, reply))
}

#[test]
fn the_user_is_shown_name_and_address() {
    let (log, end) = endpoint_of("n\n");
    assert_eq!(
        log,
        vec![
            "read ip -4 route show default",
            "read ip -4 -o addr show dev eth0",
            "read hostname -f",
            "prompt Detected control-plane endpoint: node-1.example.org (192.168.1.100)\nUse this as the control-plane endpoint? [Y/n/custom value]: ",
        ]
    );
    let error = end.unwrap_err();
    assert_eq!(error, Error::EndpointDeclined);
    assert_eq!(
        error.message(),
        "Aborted. Re-run with --control-plane-endpoint to specify one."
    );
}

#[test]
fn every_form_of_no_declines() {
    for reply in ["n", "N\n", " no ", "No\r\n"] {
        let (log, end) = endpoint_of(reply);
        assert_eq!(log.len(), 4);
        assert_eq!(end, Err(Error::EndpointDeclined));
    }
}

fn settled_endpoint(reply: &str) -> String {
    let plan = net::endpoint_replied(
        &host(true),
        "192.168.1.100".to_string(),
        options(),
        success(reply),
    );
    let (log, _) = drive(host(true), plan, |_, line| {
        if line.starts_with("read sysctl") { success("1") } else { success("") }
    });
    let line = log.iter().find(|line| line.starts_with("run kubeadm init")).unwrap();
    line.split_whitespace().nth(4).unwrap().to_string()
}

#[test]
fn a_reply_settles_the_endpoint() {
    for reply in ["", "\n", "y", "Y\n", "yes", "Yes\n"] {
        assert_eq!(settled_endpoint(reply), "192.168.1.100");
    }
    assert_eq!(settled_endpoint(" api.example.org \n"), "api.example.org");
    assert_eq!(settled_endpoint("YES"), "YES");
}

#[test]
fn a_prompt_that_fails_stops() {
    let (log, end) = drive(
        host(true),
        net::resolve_control_plane_endpoint(&host(true), None, options()),
        |_, line| if line.starts_with("prompt") { failure() } else { networked(line, "") },
    );
    assert_eq!(log.len(), 4);
    let error = end.unwrap_err();
    assert_eq!(error, Error::NoReply("exit status: 1".to_string()));
    assert_eq!(error.message(), "exit status: 1");
    let plan = net::resolve_control_plane_endpoint(&host(true), None, options());
    let (_, end) = drive(host(true), plan, |_, line| {
        if line.starts_with("prompt") { not_started() } else { networked(line, "") }
    });
    assert_eq!(end, Err(Error::NoReply("no such file".to_string())));
}

#[test]
fn the_short_name_is_the_fallback() {
    let plan = net::resolve_control_plane_endpoint(&host(true), None, options());
    let (log, _) = drive(host(true), plan, |_, line| match line {
        "read hostname -f" => success(""),
        "read hostname" => success("node-1"),
        _ => networked(line, "n"),
    });
    assert_eq!(log[3], "read hostname");
    assert!(log[4].starts_with("prompt Detected control-plane endpoint: node-1 (192.168.1.100)\n"));
    let plan = net::resolve_control_plane_endpoint(&host(true), None, options());
    let (log, _) = drive(host(true), plan, |_, line| {
        if line.starts_with("read hostname") { failure() } else { networked(line, "n") }
    });
    assert!(log[4].starts_with("prompt Detected control-plane endpoint: 192.168.1.100\n"));
}

#[test]
fn detection_stops_without_a_route_or_an_address() {
    let plan = net::detect_default_ip(options());
    let (_, end) = drive(host(true), plan, |_, _| success(""));
    assert_eq!(end, Err(Error::NoDefaultRoute));
    assert_eq!(
        Error::<String>::NoDefaultRoute.message(),
        "could not determine default route device"
    );
    let plan = net::detect_default_ip(options());
    let (_, end) = drive(host(true), plan, |n, _| if n == 0 { success(ROUTE) } else { success("") });
    let error = end.unwrap_err();
    assert_eq!(error, Error::NoAddress("eth0".to_string()));
    assert_eq!(error.message(), "could not detect an IPv4 address on device eth0");
    let plan = net::detect_default_ip(options());
    let (_, end) = drive(host(true), plan, |_, _| not_started());
    assert_eq!(end, Err(unstarted("ip")));
    let plan = net::detect_default_ip(options());
    let (_, end) = drive(host(true), plan, |n, _| if n == 0 { success(ROUTE) } else { failure() });
    assert_eq!(
        end,
        Err(Error::Exited { program: "ip".to_string(), status: "exit status: 1".to_string() })
    );
}

#[test]
fn the_cilium_cli_is_preferred() {
    let plan = cni::install_cilium(cilium(Some("v1.16.0"), true));
    let (log, end) = drive(host(false), plan, |_, _| success(""));
    assert_eq!(end, Ok(()));
    assert_eq!(
        log,
        vec![
            "test which cilium",
            "run kubectl apply --server-side -f https://dl/gateway-v1.5.1.yaml",
            "run cilium install --set kubeProxyReplacement=true --set ipam.operator.clusterPoolIPv4PodCIDRList=10.244.0.0/16 --set gatewayAPI.enabled=true --set gatewayAPI.hostNetwork.enabled=true --version 1.16.0",
            "run cilium status --wait",
        ]
    );
}

#[test]
fn helm_installs_cilium_where_the_cli_is_missing() {
    let plan = cni::install_cilium(cilium(None, false));
    let (log, end) = drive(host(false), plan, |_, line| {
        if line == "test which cilium" { failure() } else { success("") }
    });
    assert_eq!(end, Ok(()));
    assert_eq!(
        log,
        vec![
            "test which cilium",
            "test which helm",
            "run helm repo add cilium https://helm/cilium",
            "run helm repo update",
            "run helm install cilium cilium/cilium --namespace kube-system --set kubeProxyReplacement=true --set ipam.operator.clusterPoolIPv4PodCIDRList=10.244.0.0/16",
        ]
    );
}

#[test]
fn cilium_needs_its_cli_or_helm() {
    let plan = cni::install_cilium(cilium(None, true));
    let (log, end) = drive(host(false), plan, |_, _| failure());
    assert_eq!(log, vec!["test which cilium", "test which helm"]);
    let error = end.unwrap_err();
    assert_eq!(error, Error::NoCniInstaller);
    assert_eq!(
        error.message(),
        "Neither `cilium` CLI nor `helm` found. Install one of them to proceed with CNI setup."
    );
}

fn storage_plan(version: Option<&str>) -> Plan {
    storage::install_storage(StorageConfig { version: version.map(|v| v.to_string()) })
}

fn stored(line: &str) -> Outcome {
    if line.contains("metadata.name") { success("node-1") } else { success("") }
}

#[test]
fn storage_is_installed_on_a_schedulable_node() {
    let (log, end) = drive(host(false), storage_plan(None), |_, line| stored(line));
    assert_eq!(end, Ok(()));
    assert_eq!(
        log,
        vec![
            "test which helm",
            "read kubectl get nodes -o jsonpath={.items[0].metadata.name}",
            "run kubectl taint nodes node-1 node-role.kubernetes.io/control-plane:NoSchedule-",
            "read kubectl get node node-1 -o jsonpath={.spec.taints}",
            "run helm repo add openebs-localpv https://helm/openebs",
            "run helm repo update",
            "run helm install openebs-localpv openebs-localpv/localpv-provisioner --namespace openebs --create-namespace --version 4.4.0 --set storageClass.isDefaultClass=true",
            "run kubectl rollout status deployment -n openebs openebs-localpv-localpv-provisioner --timeout=300s",
        ]
    );
    let (log, _) = drive(host(false), storage_plan(Some("v4.2.0")), |_, line| stored(line));
    assert!(log[6].contains("--version 4.2.0"));
}

#[test]
fn storage_needs_helm() {
    let (log, end) = drive(host(false), storage_plan(None), |_, _| failure());
    assert_eq!(log.len(), 1);
    let error = end.unwrap_err();
    assert_eq!(error, Error::HelmRequired);
    assert_eq!(error.message(), "helm is required to install OpenEBS LocalPV Provisioner");
}

#[test]
fn storage_needs_a_node() {
    let (log, end) = drive(host(false), storage_plan(None), |_, line| {
        if line.contains("metadata.name") { failure() } else { success("") }
    });
    assert_eq!(log.len(), 2);
    let error = end.unwrap_err();
    assert_eq!(error, Error::UnknownNode);
    assert_eq!(error.message(), "Could not determine node name for taint removal");
}

#[test]
fn a_remaining_taint_stops() {
    let (log, end) = drive(host(false), storage_plan(None), |_, line| {
        if line.contains("spec.taints") {
            success(
                "[{\"effect\":\"NoSchedule\",\"key\":\"node-role.kubernetes.io/control-plane\"}]",
            )
        } else {
            stored(line)
        }
    });
    assert_eq!(log.len(), 4);
    let error = end.unwrap_err();
    assert_eq!(error, Error::TaintRemains("node-1".to_string()));
    assert_eq!(
        error.message(),
        "Control-plane NoSchedule taint still present on node-1 after removal attempt. Storage pods would not be schedulable."
    );
}

/// How storage goes on with these taints left on the node.
fn with_taints(taints: &str) -> Result<(), Error> {
    let (_, end) = drive(host(false), storage_plan(None), |_, line| {
        if line.contains("spec.taints") { success(taints) } else { stored(line) }
    });
    end
}

#[test]
fn other_effects_are_no_obstacle() {
    assert_eq!(with_taints("[{\"effect\":\"PreferNoSchedule\",\"key\":\"k\"}]"), Ok(()));
    assert_eq!(
        with_taints(
            "[{\"effect\":\"PreferNoSchedule\",\"key\":\"node-role.kubernetes.io/control-plane\"}]"
        ),
        Ok(())
    );
    assert_eq!(with_taints("[]"), Ok(()));
}

#[test]
fn other_keys_are_no_obstacle() {
    assert_eq!(
        with_taints("[{\"effect\":\"NoSchedule\",\"key\":\"node.kubernetes.io/not-ready\"}]"),
        Ok(())
    );
    assert_eq!(
        with_taints(
            "[{\"effect\":\"NoSchedule\",\"key\":\"a\"},{\"effect\":\"NoExecute\",\"key\":\"node-role.kubernetes.io/control-plane\"}]"
        ),
        Ok(())
    );
}

#[test]
fn the_taint_is_found_among_others() {
    assert_eq!(
        with_taints(
            "[{\"effect\":\"NoExecute\",\"key\":\"a\"},{\"effect\":\"NoSchedule\",\"key\":\"node-role.kubernetes.io/control-plane\"}]"
        ),
        Err(Error::TaintRemains("node-1".to_string()))
    );
    assert!(!storage::find_control_plane_taint(""));
}

#[test]
fn a_failing_taint_removal_is_judged_by_its_effect() {
    let (log, end) = drive(host(false), storage_plan(None), |_, line| {
        if line.starts_with("run kubectl taint") { failure() } else { stored(line) }
    });
    assert_eq!(end, Ok(()));
    assert_eq!(log.len(), 8);
}

#[test]
fn init_installs_networking_and_then_storage() {
    let request = Request::Init { endpoint: None, options: options() };
    let (log, end) = drive(host(true), cli::dispatch(&host(true), request), |_, line| {
        if line == "read ls /opt/cni/bin" {
            success("bridge")
        } else if line.starts_with("read sysctl") {
            success("1")
        } else if line.starts_with("read ip") || line.starts_with("read hostname -f") {
            networked(line, "")
        } else {
            stored(line)
        }
    });
    assert_eq!(end, Ok(()));
    let place = |wanted: &str| log.iter().position(|line| line.starts_with(wanted)).unwrap();
    assert!(place("test which containerd") < place("read ip -4 route"));
    assert!(place("prompt") < place("read cat /proc/swaps"));
    assert!(place("run sysctl --system") < place("run kubeadm init"));
    assert!(place("run kubeadm init") < place("run kubectl apply --server-side"));
    assert!(place("run kubectl apply --server-side") < place("run cilium install"));
    assert!(place("run cilium status --wait") < place("run helm install openebs-localpv"));
    assert!(place("run kubectl rollout") < place("print "));
    assert_eq!(log[log.len() - 1], "print ");
}
