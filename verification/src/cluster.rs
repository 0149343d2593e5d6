//! Cluster lifecycle: preflight, init, join, join tokens, reset, and status.
use crate::cmd;
use crate::cmd::{Command, Outcome};
use crate::cni;
use crate::cni::CiliumConfig;
use crate::config::Host;
use crate::error::Error;
use crate::plan;
use crate::plan::{Plan, StepView, Topic};
use crate::storage;
use crate::storage::StorageConfig;
use crate::text;
use vstd::prelude::*;

verus! {

// ── Configuration ────────────────────────────────────────────────────────────

/// Configuration for a new cluster.
#[derive(Debug, PartialEq, Eq)]
pub struct ClusterConfig<T = String> {
    pub control_plane_endpoint: T,
    pub pod_network_cidr: T,
    pub service_cidr: T,
    pub kubernetes_version: Option<T>,
}

impl View for ClusterConfig<String> {
    type V = ClusterConfig<Seq<char>>;

    open spec fn view(&self) -> ClusterConfig<Seq<char>> {
        ClusterConfig {
            control_plane_endpoint: self.control_plane_endpoint@,
            pod_network_cidr: self.pod_network_cidr@,
            service_cidr: self.service_cidr@,
            kubernetes_version: text::optional(self.kubernetes_version),
        }
    }
}

/// What a new cluster consists of, besides its endpoint.
#[derive(Debug, PartialEq, Eq)]
pub struct InitOptions<T = String> {
    pub pod_network_cidr: T,
    pub service_cidr: T,
    pub kubernetes_version: Option<T>,
    pub cilium_version: Option<T>,
    pub gateway_api: bool,
    pub storage_version: Option<T>,
    pub skip_cni: bool,
    pub skip_storage: bool,
}

impl View for InitOptions<String> {
    type V = InitOptions<Seq<char>>;

    open spec fn view(&self) -> InitOptions<Seq<char>> {
        InitOptions {
            pod_network_cidr: self.pod_network_cidr@,
            service_cidr: self.service_cidr@,
            kubernetes_version: text::optional(self.kubernetes_version),
            cilium_version: text::optional(self.cilium_version),
            gateway_api: self.gateway_api,
            storage_version: text::optional(self.storage_version),
            skip_cni: self.skip_cni,
            skip_storage: self.skip_storage,
        }
    }
}

/// Role when joining an existing cluster.
#[derive(Debug, Clone, Copy, PartialEq, Eq, Structural)]
pub enum NodeRole {
    /// Worker-only node
    Worker,
    /// Control-plane node (also runs workloads unless tainted)
    ControlPlane,
}

/// The role that a name in lower case stands for.
pub open spec fn role_named(name: Seq<char>) -> Option<NodeRole> {
    if name == "worker"@ {
        Some(NodeRole::Worker)
    } else if name == "control-plane"@ || name == "controlplane"@ || name == "master"@ || name
        == "both"@ {
        Some(NodeRole::ControlPlane)
    } else {
        None
    }
}

/// The role that a name stands for, in upper or lower case.
pub open spec fn role_of(name: Seq<char>) -> Result<NodeRole, Error<Seq<char>>> {
    match role_named(text::lowercase(name)) {
        Some(role) => Ok(role),
        None => Err(Error::InvalidRole(name)),
    }
}

/// The name of a role.
pub open spec fn role_name(role: NodeRole) -> Seq<char> {
    match role {
        NodeRole::Worker => "worker"@,
        NodeRole::ControlPlane => "control-plane"@,
    }
}

impl NodeRole {
    /// The role that a name in lower case stands for.
    pub fn from_lowercase(name: &str) -> (r: Option<NodeRole>)
        ensures
            r == role_named(name@),
    {
        if text::same(name, "worker") {
            Some(NodeRole::Worker)
        } else if text::same(name, "control-plane") || text::same(name, "controlplane")
            || text::same(name, "master") || text::same(name, "both") {
            Some(NodeRole::ControlPlane)
        } else {
            None
        }
    }

    /// The role that a name stands for, in upper or lower case.
    pub fn from_str(s: &str) -> (r: Result<NodeRole, Error>)
        ensures
            match r {
                Ok(role) => role_of(s@) == Ok::<_, Error<Seq<char>>>(role),
                Err(error) => role_of(s@) == Err::<NodeRole, _>(error@),
            },
            vstd::utf8::is_ascii_chars(s@) ==> (match r {
                Ok(role) => role_named(text::ascii_lowercase(s@)) == Some(role),
                Err(_) => role_named(text::ascii_lowercase(s@)) is None,
            }),
    {
        let name = text::to_lowercase(s);
        match NodeRole::from_lowercase(name.as_str()) {
            Some(role) => Ok(role),
            None => Err(Error::InvalidRole(s.to_owned())),
        }
    }

    /// The name of the role.
    pub fn to_string(&self) -> (r: String)
        ensures
            r@ == role_name(*self),
    {
        match self {
            NodeRole::Worker => "worker".to_owned(),
            NodeRole::ControlPlane => "control-plane".to_owned(),
        }
    }
}

/// Configuration for joining an existing cluster.
#[derive(Debug, PartialEq, Eq)]
pub struct JoinConfig<T = String> {
    pub role: NodeRole,
    pub token: T,
    pub api_server: T,
    pub ca_cert_hash: T,
    pub certificate_key: Option<T>,
}

impl View for JoinConfig<String> {
    type V = JoinConfig<Seq<char>>;

    open spec fn view(&self) -> JoinConfig<Seq<char>> {
        JoinConfig {
            role: self.role,
            token: self.token@,
            api_server: self.api_server@,
            ca_cert_hash: self.ca_cert_hash@,
            certificate_key: text::optional(self.certificate_key),
        }
    }
}

// ── Preflight ────────────────────────────────────────────────────────────────

/// How a kernel parameter is checked: its value is asked for.
pub open spec fn sysctl_check(param: Seq<char>) -> StepView {
    plan::capture(cmd::as_user("sysctl"@, seq!["-n"@, param]), Topic::Sysctl(param))
}

/// How a required binary is checked: it is looked up.
pub open spec fn binary_check(binary: Seq<char>) -> StepView {
    plan::probe(binary, Topic::RequiredBinary(binary))
}

/// How the host is made ready: binaries, swap, kernel modules, and kernel
/// parameters, the last two kept across reboots.
pub open spec fn preflight_checks_plan() -> Seq<StepView> {
    seq![
        binary_check("kubeadm"@),
        binary_check("kubelet"@),
        binary_check("kubectl"@),
        binary_check("crictl"@),
        plan::capture(cmd::as_user("cat"@, seq!["/proc/swaps"@]), Topic::Swaps),
        plan::capture(cmd::as_user("lsmod"@, seq![]), Topic::Modules),
        plan::require(
            cmd::as_root(
                "bash"@,
                seq![
                    "-c"@,
                    "printf 'overlay\nbr_netfilter\n' > /etc/modules-load.d/kubeinit.conf"@,
                ],
            ),
        ),
        sysctl_check("net.bridge.bridge-nf-call-iptables"@),
        sysctl_check("net.ipv4.ip_forward"@),
        plan::require(
            cmd::as_root(
                "bash"@,
                seq![
                    "-c"@,
                    "printf 'net.bridge.bridge-nf-call-iptables=1\nnet.ipv4.ip_forward=1\n' > /etc/sysctl.d/99-kubeinit.conf"@,
                ],
            ),
        ),
        plan::require(cmd::as_root("sysctl"@, seq!["--system"@])),
    ]
}

/// Checks that the host is ready, and mends what can be mended.
pub fn preflight_checks() -> (r: Plan)
    ensures
        r@ =~~= preflight_checks_plan(),
{
    Plan::new().probe("kubeadm", Topic::RequiredBinary("kubeadm".to_owned())).probe(
        "kubelet",
        Topic::RequiredBinary("kubelet".to_owned()),
    ).probe("kubectl", Topic::RequiredBinary("kubectl".to_owned())).probe(
        "crictl",
        Topic::RequiredBinary("crictl".to_owned()),
    ).capture(Command::as_user("cat").arg("/proc/swaps"), Topic::Swaps).capture(
        Command::as_user("lsmod"),
        Topic::Modules,
    ).require(
        Command::as_root("bash").arg("-c").arg(
            "printf 'overlay\nbr_netfilter\n' > /etc/modules-load.d/kubeinit.conf",
        ),
    ).capture(
        Command::as_user("sysctl").arg("-n").arg("net.bridge.bridge-nf-call-iptables"),
        Topic::Sysctl("net.bridge.bridge-nf-call-iptables".to_owned()),
    ).capture(
        Command::as_user("sysctl").arg("-n").arg("net.ipv4.ip_forward"),
        Topic::Sysctl("net.ipv4.ip_forward".to_owned()),
    ).require(
        Command::as_root("bash").arg("-c").arg(
            "printf 'net.bridge.bridge-nf-call-iptables=1\nnet.ipv4.ip_forward=1\n' > /etc/sysctl.d/99-kubeinit.conf",
        ),
    ).require(Command::as_root("sysctl").arg("--system"))
}

/// What follows from whether a required binary is there.
pub open spec fn binary_checked_plan(binary: Seq<char>, present: bool) -> Seq<StepView> {
    if present {
        Seq::empty()
    } else {
        seq![StepView::Fail(Error::MissingBinary(binary))]
    }
}

/// Stops if a required binary is not there.
pub fn binary_checked(binary: String, present: bool) -> (r: Plan)
    ensures
        r@ =~~= binary_checked_plan(binary@, present),
{
    if present {
        Plan::new()
    } else {
        Plan::new().fail(Error::MissingBinary(binary))
    }
}

/// Whether `/proc/swaps` lists a swap area: a line that is not empty, below the
/// heading.
pub open spec fn swap_enabled(swaps: Seq<char>) -> bool {
    exists|i: int|
        1 <= i < text::lines(swaps).len() && (#[trigger] text::lines(swaps)[i]).len() > 0
}

/// What follows from the swap areas in use.
pub open spec fn swaps_listed_plan(swaps: Seq<char>) -> Seq<StepView> {
    if swap_enabled(swaps) {
        seq![StepView::Fail(Error::SwapEnabled)]
    } else {
        Seq::empty()
    }
}

/// Stops if swap is in use, which kubeadm does not accept.
pub fn swaps_listed(swaps: &str) -> (r: Plan)
    ensures
        r@ =~~= swaps_listed_plan(swaps@),
{
    let lines = text::split_lines(swaps);
    let ghost all = text::texts(lines@);
    let mut i: usize = 1;
    while i < lines.len()
        invariant
            1 <= i,
            all == text::texts(lines@),
            all == text::lines(swaps@),
            forall|j: int| 1 <= j < i && j < all.len() ==> (#[trigger] all[j]).len() == 0,
        decreases lines@.len() - i,
    {
        if !lines[i].as_str().is_empty() {
            assert(all[i as int].len() > 0);
            return Plan::new().fail(Error::SwapEnabled);
        }
        i = i + 1;
    }
    Plan::new()
}

/// How a kernel module is loaded, unless it is named in the list of modules.
pub open spec fn module_plan(modules: Seq<char>, module: Seq<char>) -> Seq<StepView> {
    if text::occurs(modules, module) {
        Seq::empty()
    } else {
        seq![plan::require(cmd::as_root("modprobe"@, seq![module]))]
    }
}

/// What follows from the kernel modules that are loaded.
pub open spec fn modules_listed_plan(modules: Seq<char>) -> Seq<StepView> {
    module_plan(modules, "br_netfilter"@) + module_plan(modules, "overlay"@)
}

/// Loads the required kernel modules that are not loaded.
pub fn modules_listed(modules: &str) -> (r: Plan)
    ensures
        r@ =~~= modules_listed_plan(modules@),
{
    let mut r = Plan::new();
    if !text::contains(modules, "br_netfilter") {
        r = r.require(Command::as_root("modprobe").arg("br_netfilter"));
    }
    if !text::contains(modules, "overlay") {
        r = r.require(Command::as_root("modprobe").arg("overlay"));
    }
    r
}

/// What follows from the value of a kernel parameter.
pub open spec fn sysctl_read_plan(param: Seq<char>, value: Seq<char>) -> Seq<StepView> {
    if text::trimmed(value) == "1"@ {
        Seq::empty()
    } else {
        seq![plan::require(cmd::as_root("sysctl"@, seq!["-w"@, param + "=1"@]))]
    }
}

/// Sets a kernel parameter to 1, unless it is 1.
pub fn sysctl_read(param: String, value: &str) -> (r: Plan)
    ensures
        r@ =~~= sysctl_read_plan(param@, value@),
{
    let value = text::trim(value);
    if text::same(value.as_str(), "1") {
        Plan::new()
    } else {
        Plan::new().require(
            Command::as_root("sysctl").arg("-w").arg(param.concat("=1").as_str()),
        )
    }
}

// ── Init ─────────────────────────────────────────────────────────────────────

/// The options of `kubeadm init`. Cilium replaces kube-proxy, so kubeadm skips
/// it; a version has exactly one `v` in front.
pub open spec fn init_args(config: ClusterConfig<Seq<char>>) -> Seq<Seq<char>> {
    seq![
        "init"@,
        "--control-plane-endpoint"@,
        config.control_plane_endpoint,
        "--pod-network-cidr"@,
        config.pod_network_cidr,
        "--service-cidr"@,
        config.service_cidr,
        "--skip-phases"@,
        "addon/kube-proxy"@,
    ] + (match config.kubernetes_version {
        Some(version) => seq![
            "--kubernetes-version"@,
            "v"@ + text::without_leading(version, 'v'),
        ],
        None => Seq::empty(),
    })
}

/// How a cluster is initialized: kubeadm, the taint of the node, and the
/// kubeconfig of the user.
pub open spec fn init_cluster_plan(host: Host, config: ClusterConfig<Seq<char>>) -> Seq<StepView> {
    seq![
        plan::require(cmd::as_root("kubeadm"@, init_args(config))),
        plan::capture(cmd::as_user("hostname"@, seq![]), Topic::ControlPlaneTaint),
    ] + setup_kubeconfig_plan(host)
}

/// Initializes the Kubernetes cluster with kubeadm.
pub fn init_cluster(host: &Host, config: &ClusterConfig) -> (r: Plan)
    ensures
        r@ =~~= init_cluster_plan(*host, config@),
{
    let mut command = Command::as_root("kubeadm").arg("init").arg("--control-plane-endpoint").arg(
        config.control_plane_endpoint.as_str(),
    ).arg("--pod-network-cidr").arg(config.pod_network_cidr.as_str()).arg("--service-cidr").arg(
        config.service_cidr.as_str(),
    ).arg("--skip-phases").arg("addon/kube-proxy");
    match &config.kubernetes_version {
        Some(version) => {
            let version = text::strip_leading(version.as_str(), 'v');
            command = command.arg("--kubernetes-version").arg(
                "v".to_owned().concat(version.as_str()).as_str(),
            );
        },
        None => {},
    }
    assert(command@.args =~= init_args(config@));
    Plan::new().require(command).capture(
        Command::as_user("hostname"),
        Topic::ControlPlaneTaint,
    ).and(setup_kubeconfig(host))
}

/// What follows from the host name, for the taint of the node.
pub open spec fn taint_host_named_plan(hostname: Seq<char>) -> Seq<StepView> {
    if hostname.len() == 0 {
        Seq::empty()
    } else {
        seq![plan::attempt(storage::untaint_command(hostname))]
    }
}

/// Removes the control-plane `NoSchedule` taint, so that workloads can be
/// scheduled on single-node or small clusters.
pub fn taint_host_named(hostname: &str) -> (r: Plan)
    ensures
        r@ =~~= taint_host_named_plan(hostname@),
{
    if hostname.is_empty() {
        Plan::new()
    } else {
        Plan::new().attempt(storage::untaint(hostname))
    }
}

/// How the kubeconfig is set up: a private copy in the home directory, owned by
/// the invoking user.
pub open spec fn setup_kubeconfig_plan(host: Host) -> Seq<StepView> {
    let kube_dir = crate::config::home_of(host) + "/.kube"@;
    let kube_config = kube_dir + "/config"@;
    let admin_conf = host.settings.kubernetes_conf_dir@ + "/admin.conf"@;
    seq![
        plan::require(cmd::as_root("mkdir"@, seq!["-p"@, kube_dir])),
        plan::require(cmd::as_root("cp"@, seq!["-f"@, admin_conf, kube_config])),
        plan::require(cmd::as_root("chmod"@, seq!["600"@, kube_config])),
    ] + (match host.user {
        Some(user) => seq![
            plan::require(
                cmd::as_root(
                    "chown"@,
                    seq![
                        "-R"@,
                        text::decimal(user.uid as nat) + ":"@ + text::decimal(user.gid as nat),
                        kube_dir,
                    ],
                ),
            ),
        ],
        None => Seq::empty(),
    })
}

/// Copies the admin kubeconfig to the invoking user's home directory, so that
/// the files are owned by that user rather than root and readable by no other.
pub fn setup_kubeconfig(host: &Host) -> (r: Plan)
    ensures
        r@ =~~= setup_kubeconfig_plan(*host),
{
    let kube_dir = host.home().to_owned().concat("/.kube");
    let kube_config = kube_dir.as_str().to_owned().concat("/config");
    let admin_conf = host.settings.kubernetes_conf_dir.as_str().to_owned().concat("/admin.conf");
    let mut r = Plan::new().require(
        Command::as_root("mkdir").arg("-p").arg(kube_dir.as_str()),
    ).require(
        Command::as_root("cp").arg("-f").arg(admin_conf.as_str()).arg(kube_config.as_str()),
    ).require(Command::as_root("chmod").arg("600").arg(kube_config.as_str()));
    match &host.user {
        Some(user) => {
            let owner = text::decimal_text(user.uid).concat(":").concat(
                text::decimal_text(user.gid).as_str(),
            );
            r = r.require(
                Command::as_root("chown").arg("-R").arg(owner.as_str()).arg(kube_dir.as_str()),
            );
        },
        None => {},
    }
    r
}

/// The configuration of a cluster, once its endpoint is settled.
pub open spec fn cluster_config(
    endpoint: Seq<char>,
    options: InitOptions<Seq<char>>,
) -> ClusterConfig<Seq<char>> {
    ClusterConfig {
        control_plane_endpoint: endpoint,
        pod_network_cidr: options.pod_network_cidr,
        service_cidr: options.service_cidr,
        kubernetes_version: options.kubernetes_version,
    }
}

/// How a cluster is set up once its endpoint is settled: preflight checks,
/// kubeadm, networking, storage, and a summary.
pub open spec fn set_up_plan(
    host: Host,
    endpoint: Seq<char>,
    options: InitOptions<Seq<char>>,
) -> Seq<StepView> {
    preflight_checks_plan() + init_cluster_plan(host, cluster_config(endpoint, options)) + (
    if options.skip_cni {
        Seq::empty()
    } else {
        cni::install_cilium_plan(
            CiliumConfig {
                version: options.cilium_version,
                pod_cidr: options.pod_network_cidr,
                gateway_api: options.gateway_api,
            },
        )
    }) + (if options.skip_storage {
        Seq::empty()
    } else {
        storage::install_storage_plan(StorageConfig { version: options.storage_version })
    }) + print_post_init_summary_plan(host, cluster_config(endpoint, options))
}

/// Sets a cluster up whose endpoint is settled.
pub fn set_up(host: &Host, endpoint: String, options: InitOptions) -> (r: Plan)
    ensures
        r@ =~~= set_up_plan(*host, endpoint@, options@),
{
    let config = ClusterConfig {
        control_plane_endpoint: endpoint,
        pod_network_cidr: options.pod_network_cidr.clone(),
        service_cidr: options.service_cidr,
        kubernetes_version: options.kubernetes_version,
    };
    assert(config@ == cluster_config(endpoint@, options@));
    let mut r = preflight_checks().and(init_cluster(host, &config));
    if !options.skip_cni {
        r = r.and(
            cni::install_cilium(
                CiliumConfig {
                    version: options.cilium_version,
                    pod_cidr: options.pod_network_cidr,
                    gateway_api: options.gateway_api,
                },
            ),
        );
    }
    if !options.skip_storage {
        r = r.and(storage::install_storage(StorageConfig { version: options.storage_version }));
    }
    r.and(print_post_init_summary(host, &config))
}

// ── Join ─────────────────────────────────────────────────────────────────────

/// The options of `kubeadm join`.
pub open spec fn join_args(config: JoinConfig<Seq<char>>) -> Seq<Seq<char>> {
    seq![
        "join"@,
        config.api_server,
        "--token"@,
        config.token,
        "--discovery-token-ca-cert-hash"@,
        config.ca_cert_hash,
    ] + (match (config.role, config.certificate_key) {
        (NodeRole::ControlPlane, Some(key)) => seq![
            "--control-plane"@,
            "--certificate-key"@,
            key,
        ],
        _ => Seq::empty(),
    })
}

/// How a node joins: kubeadm, and the kubeconfig of the user. A control-plane
/// node needs a certificate key.
pub open spec fn join_cluster_plan(host: Host, config: JoinConfig<Seq<char>>) -> Seq<StepView> {
    if config.role == NodeRole::ControlPlane && config.certificate_key is None {
        seq![StepView::Fail(Error::CertificateKeyRequired)]
    } else {
        seq![plan::require(cmd::as_root("kubeadm"@, join_args(config)))] + setup_kubeconfig_plan(
            host,
        )
    }
}

/// Joins this node to an existing Kubernetes cluster.
pub fn join_cluster(host: &Host, config: &JoinConfig) -> (r: Plan)
    ensures
        r@ =~~= join_cluster_plan(*host, config@),
{
    let mut command = Command::as_root("kubeadm").arg("join").arg(config.api_server.as_str()).arg(
        "--token",
    ).arg(config.token.as_str()).arg("--discovery-token-ca-cert-hash").arg(
        config.ca_cert_hash.as_str(),
    );
    if config.role == NodeRole::ControlPlane {
        match &config.certificate_key {
            Some(key) => {
                command = command.arg("--control-plane").arg("--certificate-key").arg(
                    key.as_str(),
                );
            },
            None => {
                return Plan::new().fail(Error::CertificateKeyRequired);
            },
        }
    }
    assert(command@.args =~= join_args(config@));
    Plan::new().require(command).and(setup_kubeconfig(host))
}

// ── Join tokens ──────────────────────────────────────────────────────────────

/// How a join command is made: kubeadm creates a token.
pub open spec fn print_join_command_plan(control_plane: bool) -> Seq<StepView> {
    seq![
        plan::capture(
            cmd::as_root("kubeadm"@, seq!["token"@, "create"@, "--print-join-command"@]),
            Topic::JoinCommand(control_plane),
        ),
    ]
}

/// Prints a `kubeadm join` command. For a control-plane node, certificates are
/// uploaded too and their key is part of the command.
pub fn print_join_command(control_plane: bool) -> (r: Plan)
    ensures
        r@ =~~= print_join_command_plan(control_plane),
{
    Plan::new().capture(
        Command::as_root("kubeadm").arg("token").arg("create").arg("--print-join-command"),
        Topic::JoinCommand(control_plane),
    )
}

/// The API server that a join command names.
pub open spec fn hinted_api_server(join_command: Seq<char>) -> Seq<char> {
    if text::words(join_command).len() > 2 {
        text::words(join_command)[2]
    } else {
        "<api-server:6443>"@
    }
}

/// The value that an option has in a join command, or a placeholder.
pub open spec fn hinted_option(
    join_command: Seq<char>,
    option: Seq<char>,
    placeholder: Seq<char>,
) -> Seq<char> {
    match text::word_after(text::words(join_command), option) {
        Some(value) => value,
        None => placeholder,
    }
}

/// The options of `kubeinit join` that amount to a join command, for a role.
pub open spec fn join_hint(role: Seq<char>, join_command: Seq<char>) -> Seq<char> {
    "  kubeinit join --role "@ + role + " \\\n    --api-server "@ + hinted_api_server(join_command)
        + " \\\n    --token "@ + hinted_option(join_command, "--token"@, "<token>"@)
        + " \\\n    --ca-cert-hash "@ + hinted_option(
        join_command,
        "--discovery-token-ca-cert-hash"@,
        "<hash>"@,
    )
}

/// Writes the options of `kubeinit join` that amount to a join command.
pub fn write_join_hint(role: &str, join_command: &str) -> (r: String)
    ensures
        r@ == join_hint(role@, join_command@),
{
    let parts = text::split_words(join_command);
    assert(text::texts(parts@).len() == parts@.len());
    let api_server = if parts.len() > 2 {
        assert(text::texts(parts@)[2] == parts@[2]@);
        parts[2].as_str()
    } else {
        "<api-server:6443>"
    };
    let token = match text::find_word_after(&parts, "--token") {
        Some(value) => value,
        None => "<token>",
    };
    let ca_hash = match text::find_word_after(&parts, "--discovery-token-ca-cert-hash") {
        Some(value) => value,
        None => "<hash>",
    };
    "  kubeinit join --role ".to_owned().concat(role).concat(" \\\n    --api-server ").concat(
        api_server,
    ).concat(" \\\n    --token ").concat(token).concat(" \\\n    --ca-cert-hash ").concat(ca_hash)
}

/// What is printed for a worker.
pub open spec fn worker_join_plan(join_command: Seq<char>) -> Seq<StepView> {
    seq![
        StepView::Print(join_command),
        StepView::Print(""@),
        StepView::Print("Or use kubeinit on the joining node:"@),
        StepView::Print(join_hint("worker"@, join_command)),
    ]
}

/// What follows from the join command.
pub open spec fn join_command_created_plan(
    program: Seq<char>,
    control_plane: bool,
    outcome: Outcome<Seq<char>>,
) -> Seq<StepView> {
    match cmd::result_of(program, outcome) {
        Err(error) => seq![StepView::Fail(error)],
        Ok(join_command) => if control_plane {
            seq![
                plan::capture(
                    cmd::as_root(
                        "kubeadm"@,
                        seq!["init"@, "phase"@, "upload-certs"@, "--upload-certs"@],
                    ),
                    Topic::CertificateKey(join_command),
                ),
            ]
        } else {
            worker_join_plan(join_command)
        },
    }
}

/// Prints the join command for a worker; for a control-plane node, uploads the
/// certificates first.
pub fn join_command_created(program: &str, control_plane: bool, outcome: Outcome) -> (r: Plan)
    ensures
        r@ =~~= join_command_created_plan(program@, control_plane, outcome@),
{
    match cmd::run(program, outcome) {
        Err(error) => Plan::new().fail(error),
        Ok(join_command) => if control_plane {
            Plan::new().capture(
                Command::as_root("kubeadm").arg("init").arg("phase").arg("upload-certs").arg(
                    "--upload-certs",
                ),
                Topic::CertificateKey(join_command),
            )
        } else {
            let hint = write_join_hint("worker", join_command.as_str());
            Plan::new().print(join_command).print("".to_owned()).print(
                "Or use kubeinit on the joining node:".to_owned(),
            ).print(hint)
        },
    }
}

/// The certificate key: the last line that `kubeadm init phase upload-certs`
/// prints.
pub open spec fn uploaded_key(output: Seq<char>) -> Seq<char> {
    if text::lines(output).len() > 0 {
        text::trimmed(text::lines(output).last())
    } else {
        text::trimmed(""@)
    }
}

/// What is printed for a control-plane node.
pub open spec fn control_plane_join_plan(join_command: Seq<char>, key: Seq<char>) -> Seq<StepView> {
    seq![
        StepView::Print(join_command + " --control-plane --certificate-key "@ + key),
        StepView::Print(""@),
        StepView::Print("Or use kubeinit on the joining node:"@),
        StepView::Print(
            join_hint("control-plane"@, join_command) + " \\\n    --certificate-key "@ + key,
        ),
    ]
}

/// What follows from the upload of the certificates.
pub open spec fn certificates_uploaded_plan(
    program: Seq<char>,
    join_command: Seq<char>,
    outcome: Outcome<Seq<char>>,
) -> Seq<StepView> {
    match cmd::result_of(program, outcome) {
        Err(error) => seq![StepView::Fail(error)],
        Ok(output) => control_plane_join_plan(join_command, uploaded_key(output)),
    }
}

/// Prints the join command for a control-plane node, with its certificate key.
pub fn certificates_uploaded(program: &str, join_command: String, outcome: Outcome) -> (r: Plan)
    ensures
        r@ =~~= certificates_uploaded_plan(program@, join_command@, outcome@),
{
    match cmd::run(program, outcome) {
        Err(error) => Plan::new().fail(error),
        Ok(output) => {
            let lines = text::split_lines(output.as_str());
            assert(text::texts(lines@).len() == lines@.len());
            let key = if lines.len() > 0 {
                assert(text::texts(lines@).last() == lines@.last()@);
                text::trim(lines[lines.len() - 1].as_str())
            } else {
                text::trim("")
            };
            let hint = write_join_hint("control-plane", join_command.as_str()).concat(
                " \\\n    --certificate-key ",
            ).concat(key.as_str());
            Plan::new().print(
                join_command.concat(" --control-plane --certificate-key ").concat(key.as_str()),
            ).print("".to_owned()).print("Or use kubeinit on the joining node:".to_owned()).print(
                hint,
            )
        },
    }
}

// ── Reset ────────────────────────────────────────────────────────────────────

/// How the Helm releases are removed.
pub open spec fn remove_releases_plan() -> Seq<StepView> {
    seq![
        plan::attempt(
            cmd::as_user("helm"@, seq!["uninstall"@, "openebs-localpv"@, "-n"@, "openebs"@]),
        ),
        plan::attempt(
            cmd::as_user("helm"@, seq!["uninstall"@, "cilium"@, "-n"@, "kube-system"@]),
        ),
    ]
}

/// Removes the Helm releases, OpenEBS and Cilium.
pub fn remove_releases() -> (r: Plan)
    ensures
        r@ =~~= remove_releases_plan(),
{
    Plan::new().attempt(
        Command::as_user("helm").arg("uninstall").arg("openebs-localpv").arg("-n").arg("openebs"),
    ).attempt(
        Command::as_user("helm").arg("uninstall").arg("cilium").arg("-n").arg("kube-system"),
    )
}

/// What follows, on a reset, from whether Helm is there.
pub open spec fn reset_releases_plan(present: bool) -> Seq<StepView> {
    if present {
        remove_releases_plan()
    } else {
        Seq::empty()
    }
}

/// Removes the Helm releases if Helm is there.
pub fn reset_releases(present: bool) -> (r: Plan)
    ensures
        r@ =~~= reset_releases_plan(present),
{
    if present {
        remove_releases()
    } else {
        Plan::new()
    }
}

/// What follows from whether kubectl is there, for the Gateway API.
pub open spec fn remove_gateway_api_plan(host: Host, present: bool) -> Seq<StepView> {
    if present {
        seq![
            plan::attempt(
                cmd::as_user(
                    "kubectl"@,
                    seq!["delete"@, "-f"@, cni::gateway_api_url_of(host), "--ignore-not-found"@],
                ),
            ),
        ]
    } else {
        Seq::empty()
    }
}

/// Removes the Gateway API definitions if kubectl is there.
pub fn remove_gateway_api(host: &Host, present: bool) -> (r: Plan)
    ensures
        r@ =~~= remove_gateway_api_plan(*host, present),
{
    if present {
        Plan::new().attempt(
            Command::as_user("kubectl").arg("delete").arg("-f").arg(
                cni::gateway_api_url(host).as_str(),
            ).arg("--ignore-not-found"),
        )
    } else {
        Plan::new()
    }
}

/// What follows from whether kubectl is there, for the workloads of the node.
pub open spec fn drain_probed_plan(present: bool, logged: bool) -> Seq<StepView> {
    if present {
        seq![plan::capture(cmd::as_user("hostname"@, seq![]), Topic::DrainNode { logged })]
    } else {
        Seq::empty()
    }
}

/// Asks for the host name if kubectl can drain the node.
pub fn drain_probed(present: bool, logged: bool) -> (r: Plan)
    ensures
        r@ =~~= drain_probed_plan(present, logged),
{
    if present {
        Plan::new().capture(Command::as_user("hostname"), Topic::DrainNode { logged })
    } else {
        Plan::new()
    }
}

/// The command that drains a node.
pub open spec fn drain_command(hostname: Seq<char>) -> cmd::CommandView {
    cmd::as_user(
        "kubectl"@,
        seq![
            "drain"@,
            hostname,
            "--ignore-daemonsets"@,
            "--delete-emptydir-data"@,
            "--force"@,
            "--grace-period=30"@,
            "--timeout=60s"@,
        ],
    )
}

/// What follows from the host name, for the workloads of the node.
pub open spec fn drain_node_plan(hostname: Seq<char>, logged: bool) -> Seq<StepView> {
    if hostname.len() == 0 {
        Seq::empty()
    } else if logged {
        seq![plan::effort(drain_command(hostname))]
    } else {
        seq![plan::attempt(drain_command(hostname))]
    }
}

/// Drains the node of this host, and logs a failure if that is wanted.
pub fn drain_node(hostname: &str, logged: bool) -> (r: Plan)
    ensures
        r@ =~~= drain_node_plan(hostname@, logged),
{
    if hostname.is_empty() {
        return Plan::new();
    }
    let command = Command::as_user("kubectl").arg("drain").arg(hostname).arg(
        "--ignore-daemonsets",
    ).arg("--delete-emptydir-data").arg("--force").arg("--grace-period=30").arg("--timeout=60s");
    if logged {
        Plan::new().effort(command)
    } else {
        Plan::new().attempt(command)
    }
}

/// How a directory and all in it is removed, if it can be.
pub open spec fn remove_tree(path: Seq<char>) -> StepView {
    plan::attempt(cmd::as_root("rm"@, seq!["-rf"@, path]))
}

/// How a file is removed, if it can be.
pub open spec fn remove_file(path: Seq<char>) -> StepView {
    plan::attempt(cmd::as_root("rm"@, seq!["-f"@, path]))
}

/// Removes a directory and all in it.
pub fn rm_tree(path: &str) -> (r: Command)
    ensures
        r@ =~~= cmd::as_root("rm"@, seq!["-rf"@, path@]),
{
    Command::as_root("rm").arg("-rf").arg(path)
}

/// Removes a file.
pub fn rm_file(path: &str) -> (r: Command)
    ensures
        r@ =~~= cmd::as_root("rm"@, seq!["-f"@, path@]),
{
    Command::as_root("rm").arg("-f").arg(path)
}

/// How the files that only this tool writes are removed: the kernel module and
/// kernel parameter configuration, and the user's kubeconfig.
pub open spec fn remove_own_files_plan(host: Host) -> Seq<StepView> {
    seq![
        remove_file("/etc/modules-load.d/kubeinit.conf"@),
        remove_file("/etc/sysctl.d/99-kubeinit.conf"@),
    ] + (match host.user {
        Some(user) => seq![remove_tree(user.home@ + "/.kube"@)],
        None => Seq::empty(),
    })
}

/// Removes the files that only this tool writes.
pub fn remove_own_files(host: &Host) -> (r: Plan)
    ensures
        r@ =~~= remove_own_files_plan(*host),
{
    let r = Plan::new().attempt(rm_file("/etc/modules-load.d/kubeinit.conf")).attempt(
        rm_file("/etc/sysctl.d/99-kubeinit.conf"),
    );
    match &host.user {
        Some(user) => r.attempt(rm_tree(user.home.as_str().to_owned().concat("/.kube").as_str())),
        None => r,
    }
}

/// How a cluster is torn down; nothing is done unless it is forced.
pub open spec fn reset_cluster_plan(host: Host, force: bool) -> Seq<StepView> {
    if !force {
        Seq::empty()
    } else {
        seq![
            plan::probe("helm"@, Topic::ResetReleases),
            plan::probe("kubectl"@, Topic::GatewayApi),
            plan::probe("kubectl"@, Topic::Drain { logged: false }),
            plan::require(cmd::as_root("kubeadm"@, seq!["reset"@, "--force"@])),
            plan::attempt(cmd::as_root("systemctl"@, seq!["stop"@, "kubelet"@])),
            remove_tree(host.settings.cni_conf_dir@),
            plan::attempt(cmd::as_root("iptables"@, seq!["-F"@])),
            plan::attempt(cmd::as_root("iptables"@, seq!["-t"@, "nat"@, "-F"@])),
            plan::attempt(cmd::as_root("iptables"@, seq!["-t"@, "mangle"@, "-F"@])),
            plan::attempt(cmd::as_root("iptables"@, seq!["-X"@])),
            plan::attempt(cmd::as_root("ipvsadm"@, seq!["-C"@])),
            remove_tree(host.settings.kubelet_data_dir@),
            remove_tree(host.settings.kubernetes_conf_dir@),
            remove_tree("/var/lib/longhorn"@),
        ] + remove_own_files_plan(host)
    }
}

/// Resets the cluster: tears down all Kubernetes workloads and configuration
/// but leaves the installed binaries intact (uninstalling removes those).
pub fn reset_cluster(host: &Host, force: bool) -> (r: Plan)
    ensures
        r@ =~~= reset_cluster_plan(*host, force),
{
    if !force {
        return Plan::new();
    }
    Plan::new().probe("helm", Topic::ResetReleases).probe("kubectl", Topic::GatewayApi).probe(
        "kubectl",
        Topic::Drain { logged: false },
    ).require(Command::as_root("kubeadm").arg("reset").arg("--force")).attempt(
        Command::as_root("systemctl").arg("stop").arg("kubelet"),
    ).attempt(rm_tree(host.settings.cni_conf_dir.as_str())).attempt(
        Command::as_root("iptables").arg("-F"),
    ).attempt(Command::as_root("iptables").arg("-t").arg("nat").arg("-F")).attempt(
        Command::as_root("iptables").arg("-t").arg("mangle").arg("-F"),
    ).attempt(Command::as_root("iptables").arg("-X")).attempt(
        Command::as_root("ipvsadm").arg("-C"),
    ).attempt(rm_tree(host.settings.kubelet_data_dir.as_str())).attempt(
        rm_tree(host.settings.kubernetes_conf_dir.as_str()),
    ).attempt(rm_tree("/var/lib/longhorn")).and(remove_own_files(host))
}

// ── Summary ──────────────────────────────────────────────────────────────────

/// A row of the summary that gives one property of the cluster.
pub open spec fn info_row(label: Seq<char>, value: Seq<char>) -> StepView {
    StepView::Print("║  "@ + label + text::padded(value, 35) + " ║"@)
}

/// A row of the summary: a label and a path, each padded to its column.
pub open spec fn table_row(
    label: Seq<char>,
    label_width: nat,
    path: Seq<char>,
    path_width: nat,
) -> StepView {
    StepView::Print(
        "║  "@ + text::padded(label, label_width) + text::padded(path, path_width) + " ║"@,
    )
}

/// Writes a row that gives one property of the cluster.
fn write_info_row(label: &str, value: &str) -> (r: String)
    ensures
        StepView::Print(r@) == info_row(label@, value@),
{
    "║  ".to_owned().concat(label).concat(text::pad(value, 35).as_str()).concat(" ║")
}

/// Writes a row of a label and a path.
fn write_table_row(label: &str, label_width: usize, path: &str, path_width: usize) -> (r: String)
    ensures
        StepView::Print(r@) == table_row(label@, label_width as nat, path@, path_width as nat),
{
    "║  ".to_owned().concat(text::pad(label, label_width).as_str()).concat(
        text::pad(path, path_width).as_str(),
    ).concat(" ║")
}

/// The frame and the addresses of the cluster.
pub open spec fn summary_heading_plan(config: ClusterConfig<Seq<char>>) -> Seq<StepView> {
    seq![
        StepView::Print(""@),
        StepView::Print("╔══════════════════════════════════════════════════════════════╗"@),
        StepView::Print("║             Cluster Initialization Summary                  ║"@),
        StepView::Print("╠══════════════════════════════════════════════════════════════╣"@),
        info_row("Control-plane endpoint: "@, config.control_plane_endpoint),
        info_row("Pod network CIDR:       "@, config.pod_network_cidr),
        info_row("Service CIDR:           "@, config.service_cidr),
    ]
}

/// The frame and the addresses of the cluster.
fn summary_heading(config: &ClusterConfig) -> (r: Plan)
    ensures
        r@ =~~= summary_heading_plan(config@),
{
    Plan::new()
        .print("".to_owned())
        .print("╔══════════════════════════════════════════════════════════════╗".to_owned())
        .print("║             Cluster Initialization Summary                  ║".to_owned())
        .print("╠══════════════════════════════════════════════════════════════╣".to_owned())
        .print(write_info_row("Control-plane endpoint: ", config.control_plane_endpoint.as_str()))
        .print(write_info_row("Pod network CIDR:       ", config.pod_network_cidr.as_str()))
        .print(write_info_row("Service CIDR:           ", config.service_cidr.as_str()))
}

/// Where the binaries are.
pub open spec fn summary_binaries_plan(host: Host) -> Seq<StepView> {
    seq![
        StepView::Print("╠══════════════════════════════════════════════════════════════╣"@),
        StepView::Print("║  Installed Binaries                                        ║"@),
        StepView::Print("╟──────────────────────────────────────────────────────────────╢"@),
        table_row("kubeadm"@, 13, host.settings.bin_dir@ + "/kubeadm"@, 46),
        table_row("kubelet"@, 13, host.settings.bin_dir@ + "/kubelet"@, 46),
        table_row("kubectl"@, 13, host.settings.bin_dir@ + "/kubectl"@, 46),
        table_row("crictl"@, 13, host.settings.bin_dir@ + "/crictl"@, 46),
        table_row("containerd"@, 13, host.settings.bin_dir@ + "/containerd"@, 46),
        table_row("runc"@, 13, host.settings.sbin_dir@ + "/runc"@, 46),
        table_row("helm"@, 13, host.settings.bin_dir@ + "/helm"@, 46),
        table_row("cilium"@, 13, host.settings.bin_dir@ + "/cilium"@, 46),
    ]
}

/// Where the binaries are.
fn summary_binaries(host: &Host) -> (r: Plan)
    ensures
        r@ =~~= summary_binaries_plan(*host),
{
    Plan::new()
        .print("╠══════════════════════════════════════════════════════════════╣".to_owned())
        .print("║  Installed Binaries                                        ║".to_owned())
        .print("╟──────────────────────────────────────────────────────────────╢".to_owned())
        .print(
            write_table_row(
                "kubeadm",
                13,
                host.settings.bin_dir.as_str().to_owned().concat("/kubeadm").as_str(),
                46,
            ),
        )
        .print(
            write_table_row(
                "kubelet",
                13,
                host.settings.bin_dir.as_str().to_owned().concat("/kubelet").as_str(),
                46,
            ),
        )
        .print(
            write_table_row(
                "kubectl",
                13,
                host.settings.bin_dir.as_str().to_owned().concat("/kubectl").as_str(),
                46,
            ),
        )
        .print(
            write_table_row(
                "crictl",
                13,
                host.settings.bin_dir.as_str().to_owned().concat("/crictl").as_str(),
                46,
            ),
        )
        .print(
            write_table_row(
                "containerd",
                13,
                host.settings.bin_dir.as_str().to_owned().concat("/containerd").as_str(),
                46,
            ),
        )
        .print(
            write_table_row(
                "runc",
                13,
                host.settings.sbin_dir.as_str().to_owned().concat("/runc").as_str(),
                46,
            ),
        )
        .print(
            write_table_row(
                "helm",
                13,
                host.settings.bin_dir.as_str().to_owned().concat("/helm").as_str(),
                46,
            ),
        )
        .print(
            write_table_row(
                "cilium",
                13,
                host.settings.bin_dir.as_str().to_owned().concat("/cilium").as_str(),
                46,
            ),
        )
}

/// Where the credentials and certificates are.
pub open spec fn summary_credentials_plan(host: Host) -> Seq<StepView> {
    seq![
        StepView::Print("╠══════════════════════════════════════════════════════════════╣"@),
        StepView::Print("║  Credentials & Certificates                                ║"@),
        StepView::Print("╟──────────────────────────────────────────────────────────────╢"@),
        table_row("CA cert:"@, 17, host.settings.kubernetes_conf_dir@ + "/pki/ca.crt"@, 43),
        table_row("CA key:"@, 17, host.settings.kubernetes_conf_dir@ + "/pki/ca.key"@, 43),
        table_row(
            "API server cert:"@,
            17,
            host.settings.kubernetes_conf_dir@ + "/pki/apiserver.crt"@,
            43,
        ),
        table_row(
            "API server key:"@,
            17,
            host.settings.kubernetes_conf_dir@ + "/pki/apiserver.key"@,
            43,
        ),
        table_row(
            "SA key pair:"@,
            17,
            host.settings.kubernetes_conf_dir@ + "/pki/sa.{key,pub}"@,
            43,
        ),
        table_row(
            "Front proxy CA:"@,
            17,
            host.settings.kubernetes_conf_dir@ + "/pki/front-proxy-ca.crt"@,
            43,
        ),
        table_row("Etcd CA:"@, 17, host.settings.kubernetes_conf_dir@ + "/pki/etcd/ca.crt"@, 43),
    ]
}

/// Where the credentials and certificates are.
fn summary_credentials(host: &Host) -> (r: Plan)
    ensures
        r@ =~~= summary_credentials_plan(*host),
{
    Plan::new()
        .print("╠══════════════════════════════════════════════════════════════╣".to_owned())
        .print("║  Credentials & Certificates                                ║".to_owned())
        .print("╟──────────────────────────────────────────────────────────────╢".to_owned())
        .print(
            write_table_row(
                "CA cert:",
                17,
                host.settings.kubernetes_conf_dir.as_str().to_owned().concat("/pki/ca.crt").as_str(),
                43,
            ),
        )
        .print(
            write_table_row(
                "CA key:",
                17,
                host.settings.kubernetes_conf_dir.as_str().to_owned().concat("/pki/ca.key").as_str(),
                43,
            ),
        )
        .print(
            write_table_row(
                "API server cert:",
                17,
                host.settings.kubernetes_conf_dir.as_str().to_owned().concat("/pki/apiserver.crt").as_str(),
                43,
            ),
        )
        .print(
            write_table_row(
                "API server key:",
                17,
                host.settings.kubernetes_conf_dir.as_str().to_owned().concat("/pki/apiserver.key").as_str(),
                43,
            ),
        )
        .print(
            write_table_row(
                "SA key pair:",
                17,
                host.settings.kubernetes_conf_dir.as_str().to_owned().concat("/pki/sa.{key,pub}").as_str(),
                43,
            ),
        )
        .print(
            write_table_row(
                "Front proxy CA:",
                17,
                host.settings.kubernetes_conf_dir.as_str().to_owned().concat("/pki/front-proxy-ca.crt").as_str(),
                43,
            ),
        )
        .print(
            write_table_row(
                "Etcd CA:",
                17,
                host.settings.kubernetes_conf_dir.as_str().to_owned().concat("/pki/etcd/ca.crt").as_str(),
                43,
            ),
        )
}

/// Where the configuration files are.
pub open spec fn summary_files_plan(host: Host) -> Seq<StepView> {
    seq![
        StepView::Print("╠══════════════════════════════════════════════════════════════╣"@),
        StepView::Print("║  Configuration Files                                       ║"@),
        StepView::Print("╟──────────────────────────────────────────────────────────────╢"@),
        table_row("Kubeconfig (user):"@, 21, crate::config::home_of(host) + "/.kube/config"@, 39),
        table_row(
            "Kubeconfig (admin):"@,
            21,
            host.settings.kubernetes_conf_dir@ + "/admin.conf"@,
            39,
        ),
        table_row("Kubelet config:"@, 21, host.settings.kubelet_data_dir@ + "/config.yaml"@, 39),
        table_row(
            "Kubelet flags:"@,
            21,
            host.settings.kubelet_data_dir@ + "/kubeadm-flags.env"@,
            39,
        ),
        table_row(
            "Containerd config:"@,
            21,
            host.settings.containerd_conf_dir@ + "/config.toml"@,
            39,
        ),
        table_row("CNI config dir:"@, 21, host.settings.cni_conf_dir@ + "/"@, 39),
        table_row("CNI plugin dir:"@, 21, host.settings.cni_bin_dir@ + "/"@, 39),
    ]
}

/// Where the configuration files are.
fn summary_files(host: &Host) -> (r: Plan)
    ensures
        r@ =~~= summary_files_plan(*host),
{
    Plan::new()
        .print("╠══════════════════════════════════════════════════════════════╣".to_owned())
        .print("║  Configuration Files                                       ║".to_owned())
        .print("╟──────────────────────────────────────────────────────────────╢".to_owned())
        .print(
            write_table_row(
                "Kubeconfig (user):",
                21,
                host.home().to_owned().concat("/.kube/config").as_str(),
                39,
            ),
        )
        .print(
            write_table_row(
                "Kubeconfig (admin):",
                21,
                host.settings.kubernetes_conf_dir.as_str().to_owned().concat("/admin.conf").as_str(),
                39,
            ),
        )
        .print(
            write_table_row(
                "Kubelet config:",
                21,
                host.settings.kubelet_data_dir.as_str().to_owned().concat("/config.yaml").as_str(),
                39,
            ),
        )
        .print(
            write_table_row(
                "Kubelet flags:",
                21,
                host.settings.kubelet_data_dir.as_str().to_owned().concat("/kubeadm-flags.env").as_str(),
                39,
            ),
        )
        .print(
            write_table_row(
                "Containerd config:",
                21,
                host.settings.containerd_conf_dir.as_str().to_owned().concat("/config.toml").as_str(),
                39,
            ),
        )
        .print(
            write_table_row(
                "CNI config dir:",
                21,
                host.settings.cni_conf_dir.as_str().to_owned().concat("/").as_str(),
                39,
            ),
        )
        .print(
            write_table_row(
                "CNI plugin dir:",
                21,
                host.settings.cni_bin_dir.as_str().to_owned().concat("/").as_str(),
                39,
            ),
        )
}

/// The services, and what can be done next.
pub open spec fn summary_services_plan(host: Host) -> Seq<StepView> {
    seq![
        StepView::Print("╠══════════════════════════════════════════════════════════════╣"@),
        StepView::Print("║  Systemd Services                                          ║"@),
        StepView::Print("╟──────────────────────────────────────────────────────────────╢"@),
        table_row("kubelet:"@, 13, host.settings.systemd_unit_dir@ + "/kubelet.service"@, 47),
        table_row("containerd:"@, 13, host.settings.systemd_unit_dir@ + "/containerd.service"@, 47),
        StepView::Print("╠══════════════════════════════════════════════════════════════╣"@),
        StepView::Print("║  Next Steps                                                ║"@),
        StepView::Print("╟──────────────────────────────────────────────────────────────╢"@),
        StepView::Print("║  Join worker nodes:  kubeinit join-token                    ║"@),
        StepView::Print("║  Check status:       kubeinit status                        ║"@),
        StepView::Print("║  Reset cluster:      kubeinit reset --force                 ║"@),
        StepView::Print("╚══════════════════════════════════════════════════════════════╝"@),
        StepView::Print(""@),
    ]
}

/// The services, and what can be done next.
fn summary_services(host: &Host) -> (r: Plan)
    ensures
        r@ =~~= summary_services_plan(*host),
{
    Plan::new()
        .print("╠══════════════════════════════════════════════════════════════╣".to_owned())
        .print("║  Systemd Services                                          ║".to_owned())
        .print("╟──────────────────────────────────────────────────────────────╢".to_owned())
        .print(
            write_table_row(
                "kubelet:",
                13,
                host.settings.systemd_unit_dir.as_str().to_owned().concat("/kubelet.service").as_str(),
                47,
            ),
        )
        .print(
            write_table_row(
                "containerd:",
                13,
                host.settings.systemd_unit_dir.as_str().to_owned().concat("/containerd.service").as_str(),
                47,
            ),
        )
        .print("╠══════════════════════════════════════════════════════════════╣".to_owned())
        .print("║  Next Steps                                                ║".to_owned())
        .print("╟──────────────────────────────────────────────────────────────╢".to_owned())
        .print("║  Join worker nodes:  kubeinit join-token                    ║".to_owned())
        .print("║  Check status:       kubeinit status                        ║".to_owned())
        .print("║  Reset cluster:      kubeinit reset --force                 ║".to_owned())
        .print("╚══════════════════════════════════════════════════════════════╝".to_owned())
        .print("".to_owned())
}

/// The summary of a new cluster, line by line.
pub open spec fn print_post_init_summary_plan(
    host: Host,
    config: ClusterConfig<Seq<char>>,
) -> Seq<StepView> {
    summary_heading_plan(config) + summary_binaries_plan(host) + summary_credentials_plan(host)
        + summary_files_plan(host) + summary_services_plan(host)
}

/// Prints a summary of installed binary locations, credentials, and
/// configuration paths after a successful cluster initialization.
pub fn print_post_init_summary(host: &Host, config: &ClusterConfig) -> (r: Plan)
    ensures
        r@ =~~= print_post_init_summary_plan(*host, config@),
{
    summary_heading(config).and(summary_binaries(host)).and(summary_credentials(host)).and(
        summary_files(host),
    ).and(summary_services(host))
}

// ── Status ───────────────────────────────────────────────────────────────────

/// How the status is shown: nodes, pods, and Cilium.
pub open spec fn show_status_plan() -> Seq<StepView> {
    seq![
        plan::require(cmd::as_user("kubectl"@, seq!["get"@, "nodes"@, "-o"@, "wide"@])),
        StepView::Print(""@),
        plan::require(
            cmd::as_user("kubectl"@, seq!["get"@, "pods"@, "--all-namespaces"@, "-o"@, "wide"@]),
        ),
        StepView::Print(""@),
        plan::probe("cilium"@, Topic::CiliumStatus),
    ]
}

/// Shows basic cluster status via kubectl.
pub fn show_status() -> (r: Plan)
    ensures
        r@ =~~= show_status_plan(),
{
    Plan::new().require(
        Command::as_user("kubectl").arg("get").arg("nodes").arg("-o").arg("wide"),
    ).print("".to_owned()).require(
        Command::as_user("kubectl").arg("get").arg("pods").arg("--all-namespaces").arg("-o").arg(
            "wide",
        ),
    ).print("".to_owned()).probe("cilium", Topic::CiliumStatus)
}

/// What follows from whether the Cilium CLI is there.
pub open spec fn cilium_status_plan(present: bool) -> Seq<StepView> {
    if present {
        seq![plan::attempt(cmd::as_user("cilium"@, seq!["status"@]))]
    } else {
        seq![
            plan::require(
                cmd::as_user(
                    "kubectl"@,
                    seq![
                        "get"@,
                        "pods"@,
                        "-n"@,
                        "kube-system"@,
                        "-l"@,
                        "app.kubernetes.io/name=cilium-agent"@,
                        "-o"@,
                        "wide"@,
                    ],
                ),
            ),
        ]
    }
}

/// Shows the status of Cilium by its CLI, or else its pods.
pub fn cilium_status(present: bool) -> (r: Plan)
    ensures
        r@ =~~= cilium_status_plan(present),
{
    if present {
        Plan::new().attempt(Command::as_user("cilium").arg("status"))
    } else {
        Plan::new().require(
            Command::as_user("kubectl").arg("get").arg("pods").arg("-n").arg("kube-system").arg(
                "-l",
            ).arg("app.kubernetes.io/name=cilium-agent").arg("-o").arg("wide"),
        )
    }
}

} // verus!
