//! Installing and uninstalling what a cluster node needs: containerd, runc,
//! CNI plugins, crictl, the Kubernetes binaries, Helm, and the Cilium CLI.
use crate::cluster;
use crate::cmd;
use crate::cmd::{Command, Outcome};
use crate::config;
use crate::config::Host;
use crate::error::Error;
use crate::net;
use crate::plan;
use crate::plan::{Plan, Step, StepView, Topic};
use crate::text;
use vstd::prelude::*;

verus! {

// ── Release artifacts ────────────────────────────────────────────────────────

/// The name that Kubernetes and most Go-based release artifacts use for an
/// architecture.
pub open spec fn go_arch_of(arch: Seq<char>) -> Result<Seq<char>, Error<Seq<char>>> {
    if arch == "x86_64"@ {
        Ok("amd64"@)
    } else if arch == "aarch64"@ {
        Ok("arm64"@)
    } else {
        Err(Error::UnsupportedArchitecture(arch))
    }
}

/// Maps an architecture, as Rust names it, to the name that Kubernetes and most
/// Go-based release artifacts use.
pub fn go_arch(arch: &str) -> (r: Result<String, Error>)
    ensures
        cmd::result_view(r) == go_arch_of(arch@),
{
    if text::same(arch, "x86_64") {
        Ok("amd64".to_owned())
    } else if text::same(arch, "aarch64") {
        Ok("arm64".to_owned())
    } else {
        Err(Error::UnsupportedArchitecture(arch.to_owned()))
    }
}

/// A URL template with its placeholders filled in: first the version, then the
/// architecture.
pub open spec fn expanded_url(
    template: Seq<char>,
    version: Seq<char>,
    arch: Seq<char>,
) -> Seq<char> {
    text::replaced(text::replaced(template, "{version}"@, version), "{arch}"@, arch)
}

/// Expands `{version}` and `{arch}` placeholders in a URL template.
pub fn expand_url(template: &str, version: &str, arch: &str) -> (r: String)
    ensures
        r@ == expanded_url(template@, version@, arch@),
{
    proof {
        reveal_strlit("{version}");
        reveal_strlit("{arch}");
    }
    let versioned = text::replace(template, "{version}", version);
    text::replace(versioned.as_str(), "{arch}", arch)
}

/// The version asked for, or the default.
pub open spec fn version_of(version: Option<Seq<char>>, default: Seq<char>) -> Seq<char> {
    match version {
        Some(v) => v,
        None => default,
    }
}

/// How a shell script is run that must succeed.
pub open spec fn script(text: Seq<char>) -> StepView {
    plan::require(cmd::as_root("bash"@, seq!["-c"@, text]))
}

/// Runs a shell script as root.
fn bash(script: &str) -> (r: Command)
    ensures
        plan::require(r@) =~~= self::script(script@),
{
    Command::as_root("bash").arg("-c").arg(script)
}

/// The script that unpacks an archive from a URL into a directory.
pub open spec fn unpack_script(url: Seq<char>, dir: Seq<char>) -> Seq<char> {
    "curl -fsSL '"@ + url + "' | tar -xz -C "@ + dir
}

/// Unpacks an archive from a URL into a directory.
fn unpack(url: &str, dir: &str) -> (r: Command)
    ensures
        plan::require(r@) =~~= script(unpack_script(url@, dir@)),
{
    bash("curl -fsSL '".to_owned().concat(url).concat("' | tar -xz -C ").concat(dir).as_str())
}

/// The script that fetches a binary from a URL and makes it executable.
pub open spec fn fetch_binary_script(url: Seq<char>, dest: Seq<char>) -> Seq<char> {
    "curl -fsSL '"@ + url + "' -o '"@ + dest + "' && chmod 755 '"@ + dest + "'"@
}

/// Fetches a binary from a URL and makes it executable.
fn fetch_binary(url: &str, dest: &str) -> (r: Command)
    ensures
        plan::require(r@) =~~= script(fetch_binary_script(url@, dest@)),
{
    bash(
        "curl -fsSL '".to_owned().concat(url).concat("' -o '").concat(dest).concat(
            "' && chmod 755 '",
        ).concat(dest).concat("'").as_str(),
    )
}

// ── Install ──────────────────────────────────────────────────────────────────

/// How all dependencies are installed, in the order of their needs.
pub open spec fn install_all_plan(
    host: Host,
    kubernetes_version: Option<Seq<char>>,
    cilium_version: Option<Seq<char>>,
) -> Seq<StepView> {
    cmd::ensure_privilege_plan(host.root) + seq![
        plan::probe("containerd"@, Topic::Containerd(None)),
        plan::probe("runc"@, Topic::Runc(None)),
        plan::capture(
            cmd::as_root("ls"@, seq![host.settings.cni_bin_dir@]),
            Topic::CniPlugins(None),
        ),
        plan::probe("crictl"@, Topic::Crictl(None)),
    ] + install_kubernetes_components_plan(host, kubernetes_version) + seq![
        plan::probe("helm"@, Topic::Helm(None)),
        plan::probe("cilium"@, Topic::CiliumCli(cilium_version)),
    ]
}

/// Installs all dependencies required to bootstrap a cluster.
///
/// Binaries that are already present on `$PATH` are skipped.
pub fn install_all(
    host: &Host,
    kubernetes_version: Option<&str>,
    cilium_version: Option<&str>,
) -> (r: Plan)
    ensures
        r@ =~~= install_all_plan(
            *host,
            text::optional_str(kubernetes_version),
            text::optional_str(cilium_version),
        ),
{
    let cilium = match cilium_version {
        Some(version) => Some(version.to_owned()),
        None => None,
    };
    cmd::ensure_privilege(host.root).probe("containerd", Topic::Containerd(None)).probe(
        "runc",
        Topic::Runc(None),
    ).capture(
        Command::as_root("ls").arg(host.settings.cni_bin_dir.as_str()),
        Topic::CniPlugins(None),
    ).probe("crictl", Topic::Crictl(None)).and(
        install_kubernetes_components(host, kubernetes_version),
    ).probe("helm", Topic::Helm(None)).probe("cilium", Topic::CiliumCli(cilium))
}

/// How containerd is installed, unless it is there: the binaries, the service,
/// and a configuration that uses the systemd cgroup driver.
pub open spec fn install_containerd_plan(
    host: Host,
    version: Option<Seq<char>>,
    present: bool,
) -> Seq<StepView> {
    let v = version_of(version, config::DEFAULT_CONTAINERD_VERSION@);
    let conf_toml = host.settings.containerd_conf_dir@ + "/config.toml"@;
    if present {
        Seq::empty()
    } else {
        match go_arch_of(host.arch@) {
            Err(error) => seq![StepView::Fail(error)],
            Ok(arch) => seq![
                script(
                    unpack_script(
                        expanded_url(host.settings.url_containerd@, v, arch),
                        text::without_trailing(host.settings.bin_dir@, "/bin"@),
                    ),
                ),
                script(
                    "curl -fsSL '"@ + expanded_url(host.settings.url_containerd_service@, v, arch)
                        + "' -o '"@ + (host.settings.systemd_unit_dir@ + "/containerd.service"@)
                        + "'"@,
                ),
                plan::require(
                    cmd::as_root("mkdir"@, seq!["-p"@, host.settings.containerd_conf_dir@]),
                ),
                script("containerd config default > '"@ + conf_toml + "'"@),
                plan::require(
                    cmd::as_root(
                        "sed"@,
                        seq![
                            "-i"@,
                            "s/SystemdCgroup = false/SystemdCgroup = true/"@,
                            conf_toml,
                        ],
                    ),
                ),
                plan::require(cmd::as_root("systemctl"@, seq!["daemon-reload"@])),
                plan::require(
                    cmd::as_root("systemctl"@, seq!["enable"@, "--now"@, "containerd"@]),
                ),
            ],
        }
    }
}

/// Installs containerd, unless it is there.
pub fn install_containerd(host: &Host, version: Option<&str>, present: bool) -> (r: Plan)
    ensures
        r@ =~~= install_containerd_plan(*host, text::optional_str(version), present),
{
    if present {
        return Plan::new();
    }
    let version = config::version_or(version, config::DEFAULT_CONTAINERD_VERSION);
    let arch = match go_arch(host.arch.as_str()) {
        Err(error) => {
            return Plan::new().fail(error);
        },
        Ok(arch) => arch,
    };
    proof {
        reveal_strlit("/bin");
    }
    let url = expand_url(host.settings.url_containerd.as_str(), version, arch.as_str());
    let service_url = expand_url(
        host.settings.url_containerd_service.as_str(),
        version,
        arch.as_str(),
    );
    let service_dest = host.settings.systemd_unit_dir.as_str().to_owned().concat(
        "/containerd.service",
    );
    let conf_toml = host.settings.containerd_conf_dir.as_str().to_owned().concat("/config.toml");
    let prefix = text::strip_trailing(host.settings.bin_dir.as_str(), "/bin");
    Plan::new().require(unpack(url.as_str(), prefix.as_str())).require(
        bash(
            "curl -fsSL '".to_owned().concat(service_url.as_str()).concat("' -o '").concat(
                service_dest.as_str(),
            ).concat("'").as_str(),
        ),
    ).require(
        Command::as_root("mkdir").arg("-p").arg(host.settings.containerd_conf_dir.as_str()),
    ).require(
        bash(
            "containerd config default > '".to_owned().concat(conf_toml.as_str()).concat(
                "'",
            ).as_str(),
        ),
    ).require(
        Command::as_root("sed").arg("-i").arg("s/SystemdCgroup = false/SystemdCgroup = true/").arg(
            conf_toml.as_str(),
        ),
    ).require(Command::as_root("systemctl").arg("daemon-reload")).require(
        Command::as_root("systemctl").arg("enable").arg("--now").arg("containerd"),
    )
}

/// How runc is installed, unless it is there.
pub open spec fn install_runc_plan(
    host: Host,
    version: Option<Seq<char>>,
    present: bool,
) -> Seq<StepView> {
    if present {
        Seq::empty()
    } else {
        match go_arch_of(host.arch@) {
            Err(error) => seq![StepView::Fail(error)],
            Ok(arch) => seq![
                script(
                    fetch_binary_script(
                        expanded_url(
                            host.settings.url_runc@,
                            version_of(version, config::DEFAULT_RUNC_VERSION@),
                            arch,
                        ),
                        host.settings.sbin_dir@ + "/runc"@,
                    ),
                ),
            ],
        }
    }
}

/// Installs runc, unless it is there.
pub fn install_runc(host: &Host, version: Option<&str>, present: bool) -> (r: Plan)
    ensures
        r@ =~~= install_runc_plan(*host, text::optional_str(version), present),
{
    if present {
        return Plan::new();
    }
    let version = config::version_or(version, config::DEFAULT_RUNC_VERSION);
    match go_arch(host.arch.as_str()) {
        Err(error) => Plan::new().fail(error),
        Ok(arch) => {
            let url = expand_url(host.settings.url_runc.as_str(), version, arch.as_str());
            let dest = host.settings.sbin_dir.as_str().to_owned().concat("/runc");
            Plan::new().require(fetch_binary(url.as_str(), dest.as_str()))
        },
    }
}

/// How the CNI plugins are installed, unless the listing of their directory
/// shows some.
pub open spec fn install_cni_plugins_plan(
    host: Host,
    version: Option<Seq<char>>,
    listing: Seq<char>,
) -> Seq<StepView> {
    if listing.len() > 0 {
        Seq::empty()
    } else {
        match go_arch_of(host.arch@) {
            Err(error) => seq![StepView::Fail(error)],
            Ok(arch) => seq![
                plan::require(cmd::as_root("mkdir"@, seq!["-p"@, host.settings.cni_bin_dir@])),
                script(
                    unpack_script(
                        expanded_url(
                            host.settings.url_cni_plugins@,
                            version_of(version, config::DEFAULT_CNI_PLUGINS_VERSION@),
                            arch,
                        ),
                        host.settings.cni_bin_dir@,
                    ),
                ),
            ],
        }
    }
}

/// Installs the CNI plugins, unless some are there.
pub fn install_cni_plugins(host: &Host, version: Option<&str>, listing: &str) -> (r: Plan)
    ensures
        r@ =~~= install_cni_plugins_plan(*host, text::optional_str(version), listing@),
{
    if !listing.is_empty() {
        return Plan::new();
    }
    let version = config::version_or(version, config::DEFAULT_CNI_PLUGINS_VERSION);
    match go_arch(host.arch.as_str()) {
        Err(error) => Plan::new().fail(error),
        Ok(arch) => {
            let url = expand_url(host.settings.url_cni_plugins.as_str(), version, arch.as_str());
            Plan::new().require(
                Command::as_root("mkdir").arg("-p").arg(host.settings.cni_bin_dir.as_str()),
            ).require(unpack(url.as_str(), host.settings.cni_bin_dir.as_str()))
        },
    }
}

/// How crictl is installed, unless it is there: the binary, and a configuration
/// that points it at containerd.
pub open spec fn install_crictl_plan(
    host: Host,
    version: Option<Seq<char>>,
    present: bool,
) -> Seq<StepView> {
    if present {
        Seq::empty()
    } else {
        match go_arch_of(host.arch@) {
            Err(error) => seq![StepView::Fail(error)],
            Ok(arch) => seq![
                script(
                    unpack_script(
                        expanded_url(
                            host.settings.url_crictl@,
                            version_of(version, config::DEFAULT_CRICTL_VERSION@),
                            arch,
                        ),
                        host.settings.bin_dir@,
                    ),
                ),
                script(
                    "cat > '"@ + host.settings.crictl_config@ + "' <<'EOF'\nruntime-endpoint: "@
                        + host.settings.containerd_socket@ + "\nimage-endpoint: "@
                        + host.settings.containerd_socket@ + "\ntimeout: 10\nEOF"@,
                ),
            ],
        }
    }
}

/// Installs crictl, unless it is there.
pub fn install_crictl(host: &Host, version: Option<&str>, present: bool) -> (r: Plan)
    ensures
        r@ =~~= install_crictl_plan(*host, text::optional_str(version), present),
{
    if present {
        return Plan::new();
    }
    let version = config::version_or(version, config::DEFAULT_CRICTL_VERSION);
    match go_arch(host.arch.as_str()) {
        Err(error) => Plan::new().fail(error),
        Ok(arch) => {
            let url = expand_url(host.settings.url_crictl.as_str(), version, arch.as_str());
            Plan::new().require(unpack(url.as_str(), host.settings.bin_dir.as_str())).require(
                bash(
                    "cat > '".to_owned().concat(host.settings.crictl_config.as_str()).concat(
                        "' <<'EOF'\nruntime-endpoint: ",
                    ).concat(host.settings.containerd_socket.as_str()).concat(
                        "\nimage-endpoint: ",
                    ).concat(host.settings.containerd_socket.as_str()).concat(
                        "\ntimeout: 10\nEOF",
                    ).as_str(),
                ),
            )
        },
    }
}

/// How one Kubernetes binary is looked up, to be fetched if it is not there.
pub open spec fn component_check(component: Seq<char>, base_url: Seq<char>) -> StepView {
    plan::probe(component, Topic::Component { component, base_url })
}

/// How the Kubernetes binaries are installed, those that are not there, and the
/// kubelet service.
pub open spec fn install_kubernetes_components_plan(
    host: Host,
    version: Option<Seq<char>>,
) -> Seq<StepView> {
    match go_arch_of(host.arch@) {
        Err(error) => seq![StepView::Fail(error)],
        Ok(arch) => {
            let base_url = expanded_url(
                host.settings.url_kubernetes@,
                text::without_leading(
                    version_of(version, config::DEFAULT_KUBERNETES_VERSION@),
                    'v',
                ),
                arch,
            );
            seq![
                component_check("kubeadm"@, base_url),
                component_check("kubelet"@, base_url),
                component_check("kubectl"@, base_url),
            ] + install_kubelet_service_plan(host)
        },
    }
}

/// Installs kubeadm, kubelet, and kubectl, and the kubelet service.
pub fn install_kubernetes_components(host: &Host, version: Option<&str>) -> (r: Plan)
    ensures
        r@ =~~= install_kubernetes_components_plan(*host, text::optional_str(version)),
{
    let version = text::strip_leading(
        config::version_or(version, config::DEFAULT_KUBERNETES_VERSION),
        'v',
    );
    match go_arch(host.arch.as_str()) {
        Err(error) => Plan::new().fail(error),
        Ok(arch) => {
            let base_url = expand_url(
                host.settings.url_kubernetes.as_str(),
                version.as_str(),
                arch.as_str(),
            );
            Plan::new().probe(
                "kubeadm",
                Topic::Component { component: "kubeadm".to_owned(), base_url: base_url.clone() },
            ).probe(
                "kubelet",
                Topic::Component { component: "kubelet".to_owned(), base_url: base_url.clone() },
            ).probe(
                "kubectl",
                Topic::Component { component: "kubectl".to_owned(), base_url },
            ).and(install_kubelet_service(host))
        },
    }
}

/// How one Kubernetes binary is installed, unless it is there.
pub open spec fn install_component_plan(
    host: Host,
    component: Seq<char>,
    base_url: Seq<char>,
    present: bool,
) -> Seq<StepView> {
    if present {
        Seq::empty()
    } else {
        seq![
            script(
                fetch_binary_script(
                    base_url + "/"@ + component,
                    host.settings.bin_dir@ + "/"@ + component,
                ),
            ),
        ]
    }
}

/// Installs one Kubernetes binary, unless it is there.
pub fn install_component(host: &Host, component: &str, base_url: &str, present: bool) -> (r: Plan)
    ensures
        r@ =~~= install_component_plan(*host, component@, base_url@, present),
{
    if present {
        return Plan::new();
    }
    let url = base_url.to_owned().concat("/").concat(component);
    let dest = host.settings.bin_dir.as_str().to_owned().concat("/").concat(component);
    Plan::new().require(fetch_binary(url.as_str(), dest.as_str()))
}

/// The script that writes the kubelet service.
pub open spec fn kubelet_service_script(host: Host) -> Seq<char> {
    "mkdir -p "@
        + host.settings.systemd_unit_dir@
        + "/kubelet.service.d\n\
        cat > "@
        + host.settings.systemd_unit_dir@
        + "/kubelet.service <<'UNIT'\n\
        [Unit]\n\
        Description=kubelet: The Kubernetes Node Agent\n\
        Documentation=https://kubernetes.io/docs/\n\
        Wants=network-online.target\n\
        After=network-online.target\n\
        \n\
        [Service]\n\
        ExecStart="@
        + host.settings.bin_dir@
        + "/kubelet\n\
        Restart=always\n\
        StartLimitInterval=0\n\
        RestartSec=10\n\
        \n\
        [Install]\n\
        WantedBy=multi-user.target\n\
        UNIT\n\
        \n\
        cat > "@
        + host.settings.systemd_unit_dir@
        + "/kubelet.service.d/10-kubeadm.conf <<'DROP'\n\
        [Service]\n\
        Environment=\"KUBELET_KUBECONFIG_ARGS=--bootstrap-kubeconfig="@
        + host.settings.kubernetes_conf_dir@
        + "/bootstrap-kubelet.conf --kubeconfig="@
        + host.settings.kubernetes_conf_dir@
        + "/kubelet.conf\"\n\
        Environment=\"KUBELET_CONFIG_ARGS=--config="@
        + host.settings.kubelet_data_dir@
        + "/config.yaml\"\n\
        EnvironmentFile=-"@
        + host.settings.kubelet_data_dir@
        + "/kubeadm-flags.env\n\
        ExecStart=\n\
        ExecStart="@
        + host.settings.bin_dir@
        + "/kubelet $KUBELET_KUBECONFIG_ARGS $KUBELET_CONFIG_ARGS $KUBELET_KUBEADM_ARGS $KUBELET_EXTRA_ARGS\n\
        DROP"@
}

/// How the kubelet service is installed: written, and enabled.
pub open spec fn install_kubelet_service_plan(host: Host) -> Seq<StepView> {
    seq![
        script(kubelet_service_script(host)),
        plan::require(cmd::as_root("systemctl"@, seq!["daemon-reload"@])),
        plan::require(cmd::as_root("systemctl"@, seq!["enable"@, "kubelet"@])),
    ]
}

/// Writes the kubelet service and enables it.
pub fn install_kubelet_service(host: &Host) -> (r: Plan)
    ensures
        r@ =~~= install_kubelet_service_plan(*host),
{
    let script = "mkdir -p ".to_owned().concat(host.settings.systemd_unit_dir.as_str()).concat(
        "/kubelet.service.d\n\
        cat > ",
    ).concat(host.settings.systemd_unit_dir.as_str()).concat(
        "/kubelet.service <<'UNIT'\n\
        [Unit]\n\
        Description=kubelet: The Kubernetes Node Agent\n\
        Documentation=https://kubernetes.io/docs/\n\
        Wants=network-online.target\n\
        After=network-online.target\n\
        \n\
        [Service]\n\
        ExecStart=",
    ).concat(host.settings.bin_dir.as_str()).concat(
        "/kubelet\n\
        Restart=always\n\
        StartLimitInterval=0\n\
        RestartSec=10\n\
        \n\
        [Install]\n\
        WantedBy=multi-user.target\n\
        UNIT\n\
        \n\
        cat > ",
    ).concat(host.settings.systemd_unit_dir.as_str()).concat(
        "/kubelet.service.d/10-kubeadm.conf <<'DROP'\n\
        [Service]\n\
        Environment=\"KUBELET_KUBECONFIG_ARGS=--bootstrap-kubeconfig=",
    ).concat(host.settings.kubernetes_conf_dir.as_str()).concat(
        "/bootstrap-kubelet.conf --kubeconfig=",
    ).concat(host.settings.kubernetes_conf_dir.as_str()).concat(
        "/kubelet.conf\"\n\
        Environment=\"KUBELET_CONFIG_ARGS=--config=",
    ).concat(host.settings.kubelet_data_dir.as_str()).concat(
        "/config.yaml\"\n\
        EnvironmentFile=-",
    ).concat(host.settings.kubelet_data_dir.as_str()).concat(
        "/kubeadm-flags.env\n\
        ExecStart=\n\
        ExecStart=",
    ).concat(host.settings.bin_dir.as_str()).concat(
        "/kubelet $KUBELET_KUBECONFIG_ARGS $KUBELET_CONFIG_ARGS $KUBELET_KUBEADM_ARGS $KUBELET_EXTRA_ARGS\n\
        DROP",
    );
    Plan::new().require(bash(script.as_str())).require(
        Command::as_root("systemctl").arg("daemon-reload"),
    ).require(Command::as_root("systemctl").arg("enable").arg("kubelet"))
}

/// How Helm is installed, unless it is there.
pub open spec fn install_helm_plan(
    host: Host,
    version: Option<Seq<char>>,
    present: bool,
) -> Seq<StepView> {
    if present {
        Seq::empty()
    } else {
        match go_arch_of(host.arch@) {
            Err(error) => seq![StepView::Fail(error)],
            Ok(arch) => seq![
                script(
                    "curl -fsSL '"@ + expanded_url(
                        host.settings.url_helm@,
                        version_of(version, config::DEFAULT_HELM_VERSION@),
                        arch,
                    ) + "' | tar -xz --strip-components=1 -C "@ + host.settings.bin_dir@
                        + " linux-"@ + arch + "/helm"@,
                ),
            ],
        }
    }
}

/// Installs Helm, unless it is there.
pub fn install_helm(host: &Host, version: Option<&str>, present: bool) -> (r: Plan)
    ensures
        r@ =~~= install_helm_plan(*host, text::optional_str(version), present),
{
    if present {
        return Plan::new();
    }
    let version = config::version_or(version, config::DEFAULT_HELM_VERSION);
    match go_arch(host.arch.as_str()) {
        Err(error) => Plan::new().fail(error),
        Ok(arch) => {
            let url = expand_url(host.settings.url_helm.as_str(), version, arch.as_str());
            Plan::new().require(
                bash(
                    "curl -fsSL '".to_owned().concat(url.as_str()).concat(
                        "' | tar -xz --strip-components=1 -C ",
                    ).concat(host.settings.bin_dir.as_str()).concat(" linux-").concat(
                        arch.as_str(),
                    ).concat("/helm").as_str(),
                ),
            )
        },
    }
}

/// How the Cilium CLI is installed, unless it is there.
pub open spec fn install_cilium_cli_plan(
    host: Host,
    version: Option<Seq<char>>,
    present: bool,
) -> Seq<StepView> {
    if present {
        Seq::empty()
    } else {
        match go_arch_of(host.arch@) {
            Err(error) => seq![StepView::Fail(error)],
            Ok(arch) => seq![
                script(
                    unpack_script(
                        expanded_url(
                            host.settings.url_cilium_cli@,
                            version_of(version, config::DEFAULT_CILIUM_CLI_VERSION@),
                            arch,
                        ),
                        host.settings.bin_dir@,
                    ),
                ),
            ],
        }
    }
}

/// Installs the Cilium CLI, unless it is there.
pub fn install_cilium_cli(host: &Host, version: Option<&str>, present: bool) -> (r: Plan)
    ensures
        r@ =~~= install_cilium_cli_plan(*host, text::optional_str(version), present),
{
    if present {
        return Plan::new();
    }
    let version = config::version_or(version, config::DEFAULT_CILIUM_CLI_VERSION);
    match go_arch(host.arch.as_str()) {
        Err(error) => Plan::new().fail(error),
        Ok(arch) => {
            let url = expand_url(host.settings.url_cilium_cli.as_str(), version, arch.as_str());
            Plan::new().require(unpack(url.as_str(), host.settings.bin_dir.as_str()))
        },
    }
}

// ── Uninstall ────────────────────────────────────────────────────────────────

/// How the binaries are removed, and what is left of data and configuration.
pub open spec fn remove_components_plan(host: Host) -> Seq<StepView> {
    uninstall_kubernetes_components_plan(host) + seq![
        plan::probe("crictl"@, Topic::RemoveCrictl),
        plan::probe("cilium"@, Topic::RemoveCiliumCli),
        plan::probe("helm"@, Topic::RemoveHelm),
    ] + uninstall_cni_plugins_plan(host) + seq![
        plan::probe("containerd"@, Topic::RemoveContainerd),
        plan::probe("runc"@, Topic::RemoveRunc),
    ] + uninstall_data_and_config_plan(host)
}

/// How everything is uninstalled: what runs in the cluster, the cluster itself,
/// and then the components.
pub open spec fn uninstall_all_plan(host: Host) -> Seq<StepView> {
    cmd::ensure_privilege_plan(host.root) + seq![plan::probe("helm"@, Topic::UninstallReleases)]
        + stop_cluster_workloads_plan() + remove_components_plan(host)
}

/// Removes all Kubernetes cluster components and related tooling. Binaries that
/// are not present are silently skipped.
pub fn uninstall_all(host: &Host) -> (r: Plan)
    ensures
        r@ =~~= uninstall_all_plan(*host),
{
    cmd::ensure_privilege(host.root).probe("helm", Topic::UninstallReleases).and(
        stop_cluster_workloads(),
    ).and(uninstall_kubernetes_components(host)).probe("crictl", Topic::RemoveCrictl).probe(
        "cilium",
        Topic::RemoveCiliumCli,
    ).probe("helm", Topic::RemoveHelm).and(uninstall_cni_plugins(host)).probe(
        "containerd",
        Topic::RemoveContainerd,
    ).probe("runc", Topic::RemoveRunc).and(uninstall_data_and_config(host))
}

/// How the user is asked before everything is uninstalled, unless it is forced.
pub open spec fn confirm_uninstall_plan(host: Host, force: bool) -> Seq<StepView> {
    if force {
        uninstall_all_plan(host)
    } else {
        seq![
            StepView::Prompt {
                text:
                    "This will remove all Kubernetes cluster components and related tooling.\nAre you sure? [y/N]: "@,
                topic: Topic::ConfirmUninstall,
            },
        ]
    }
}

/// Uninstalls everything, after a confirmation unless it is forced.
pub fn confirm_uninstall(host: &Host, force: bool) -> (r: Plan)
    ensures
        r@ =~~= confirm_uninstall_plan(*host, force),
{
    if force {
        uninstall_all(host)
    } else {
        Plan::new().push(
            Step::Prompt {
                text:
                    "This will remove all Kubernetes cluster components and related tooling.\nAre you sure? [y/N]: ".to_owned(),
                topic: Topic::ConfirmUninstall,
            },
        )
    }
}

/// What follows from the reply: only a `yes` uninstalls anything.
pub open spec fn uninstall_replied_plan(host: Host, outcome: Outcome<Seq<char>>) -> Seq<StepView> {
    match outcome {
        Outcome::Success(reply) => if net::is_yes(text::trimmed(reply)) {
            uninstall_all_plan(host)
        } else {
            seq![StepView::Fail(Error::Aborted)]
        },
        Outcome::NotStarted(cause) => seq![StepView::Fail(Error::NoReply(cause))],
        Outcome::Failure(cause) => seq![StepView::Fail(Error::NoReply(cause))],
    }
}

/// Uninstalls everything if the user confirmed it.
pub fn uninstall_replied(host: &Host, outcome: Outcome) -> (r: Plan)
    ensures
        r@ =~~= uninstall_replied_plan(*host, outcome@),
{
    match outcome {
        Outcome::Success(reply) => {
            let answer = text::trim(reply.as_str());
            if net::yes(answer.as_str()) {
                uninstall_all(host)
            } else {
                Plan::new().fail(Error::Aborted)
            }
        },
        Outcome::NotStarted(cause) => Plan::new().fail(Error::NoReply(cause)),
        Outcome::Failure(cause) => Plan::new().fail(Error::NoReply(cause)),
    }
}

/// What follows, on an uninstall, from whether Helm is there: without it,
/// nothing that it installed is removed.
pub open spec fn uninstall_helm_releases_plan(present: bool) -> Seq<StepView> {
    if present {
        cluster::remove_releases_plan() + seq![plan::probe("kubectl"@, Topic::GatewayApi)]
    } else {
        Seq::empty()
    }
}

/// Uninstalls the Helm releases (OpenEBS, Cilium) and the Gateway API while the
/// API server is still reachable, so that resources are cleaned up properly.
pub fn uninstall_helm_releases(present: bool) -> (r: Plan)
    ensures
        r@ =~~= uninstall_helm_releases_plan(present),
{
    if present {
        cluster::remove_releases().probe("kubectl", Topic::GatewayApi)
    } else {
        Plan::new()
    }
}

/// How what is left of data and configuration is removed.
pub open spec fn uninstall_data_and_config_plan(host: Host) -> Seq<StepView> {
    seq![cluster::remove_tree("/var/openebs"@)] + cluster::remove_own_files_plan(host)
}

/// Removes leftover data directories, the tool's own configuration, and the
/// user's kubeconfig after all binaries have been removed.
pub fn uninstall_data_and_config(host: &Host) -> (r: Plan)
    ensures
        r@ =~~= uninstall_data_and_config_plan(*host),
{
    Plan::new().attempt(cluster::rm_tree("/var/openebs")).and(cluster::remove_own_files(host))
}

// ── Stopping workloads ───────────────────────────────────────────────────────

/// How workloads are stopped: the node is drained, the control plane torn down,
/// the kubelet stopped so that it restarts nothing, and the rest stopped via
/// crictl.
///
/// `kubeadm reset` comes before crictl, and not after it: as long as the control
/// plane and the kubelet run, containers that crictl stops are started again, so
/// crictl stops what is left when both are gone.
pub open spec fn stop_cluster_workloads_plan() -> Seq<StepView> {
    seq![
        plan::probe("kubectl"@, Topic::Drain { logged: true }),
        plan::probe("kubeadm"@, Topic::KubeadmReset),
        plan::effort(cmd::as_root("systemctl"@, seq!["stop"@, "kubelet"@])),
        plan::probe("crictl"@, Topic::Containers),
    ]
}

/// Gracefully stops all cluster workloads and control-plane containers before
/// binaries are removed. Each step is best-effort: failures are logged but do
/// not abort the uninstall.
pub fn stop_cluster_workloads() -> (r: Plan)
    ensures
        r@ =~~= stop_cluster_workloads_plan(),
{
    Plan::new().probe("kubectl", Topic::Drain { logged: true }).probe("kubeadm", Topic::KubeadmReset).effort(
        Command::as_root("systemctl").arg("stop").arg("kubelet"),
    ).probe("crictl", Topic::Containers)
}

/// What follows from whether kubeadm is there.
pub open spec fn kubeadm_probed_plan(present: bool) -> Seq<StepView> {
    if present {
        seq![plan::effort(cmd::as_root("kubeadm"@, seq!["reset"@, "--force"@]))]
    } else {
        Seq::empty()
    }
}

/// Tears the control plane down if kubeadm is there.
pub fn kubeadm_probed(present: bool) -> (r: Plan)
    ensures
        r@ =~~= kubeadm_probed_plan(present),
{
    if present {
        Plan::new().effort(Command::as_root("kubeadm").arg("reset").arg("--force"))
    } else {
        Plan::new()
    }
}

/// The question which containers run.
pub open spec fn list_containers(topic: Topic<Seq<char>>) -> StepView {
    plan::capture(cmd::as_root("crictl"@, seq!["ps"@, "-q"@]), topic)
}

/// Lists the containers that run.
fn crictl_ps() -> (r: Command)
    ensures
        r@ =~~= cmd::as_root("crictl"@, seq!["ps"@, "-q"@]),
{
    Command::as_root("crictl").arg("ps").arg("-q")
}

/// What follows from whether crictl is there.
pub open spec fn crictl_probed_plan(present: bool) -> Seq<StepView> {
    if present {
        seq![
            list_containers(Topic::RunningContainers),
            plan::capture(cmd::as_root("crictl"@, seq!["pods"@, "-q"@]), Topic::PodSandboxes),
        ]
    } else {
        Seq::empty()
    }
}

/// Asks which containers run, and then which pod sandboxes are left.
pub fn crictl_probed(present: bool) -> (r: Plan)
    ensures
        r@ =~~= crictl_probed_plan(present),
{
    if present {
        Plan::new().capture(crictl_ps(), Topic::RunningContainers).capture(
            Command::as_root("crictl").arg("pods").arg("-q"),
            Topic::PodSandboxes,
        )
    } else {
        Plan::new()
    }
}

/// The identifiers that a listing gives, one on each line.
pub open spec fn listed_ids(listing: Seq<char>) -> Seq<Seq<char>> {
    text::lines(listing).map_values(|line: Seq<char>| text::trimmed(line)).filter(
        |id: Seq<char>| id.len() > 0,
    )
}

/// Reads the identifiers of a listing.
pub fn read_ids(listing: &str) -> (r: Vec<String>)
    ensures
        text::texts(r@) == listed_ids(listing@),
{
    let lines = text::split_lines(listing);
    let ghost trimmed = text::lines(listing@).map_values(|line: Seq<char>| text::trimmed(line));
    let ghost named = |id: Seq<char>| id.len() > 0;
    let mut ids: Vec<String> = Vec::new();
    proof {
        reveal(Seq::filter);
        assert(trimmed.take(0).filter(named) =~= Seq::<Seq<char>>::empty());
        assert(text::texts(ids@) =~= Seq::<Seq<char>>::empty());
    }
    for i in 0..lines.len()
        invariant
            text::texts(lines@) == text::lines(listing@),
            trimmed == text::lines(listing@).map_values(|line: Seq<char>| text::trimmed(line)),
            named == (|id: Seq<char>| id.len() > 0),
            text::texts(ids@) == trimmed.take(i as int).filter(named),
    {
        let id = text::trim(lines[i].as_str());
        let ghost before = ids@;
        proof {
            assert(text::texts(lines@)[i as int] == lines@[i as int]@);
            assert(trimmed.take(i + 1).drop_last() =~= trimmed.take(i as int));
            assert(trimmed.take(i + 1).last() == id@);
            reveal(Seq::filter);
            text::lemma_texts_push(before, id);
        }
        if !id.as_str().is_empty() {
            ids.push(id);
        }
    }
    proof {
        assert(text::texts(lines@).len() == lines@.len());
        assert(trimmed.take(trimmed.len() as int) =~= trimmed);
    }
    ids
}

/// How often it is looked whether the containers have exited.
pub const EXIT_LOOKS: u64 = 12;

/// How many seconds pass between two looks.
pub const EXIT_PAUSE: u64 = 5;

/// How a container is stopped.
pub open spec fn stop_container(id: Seq<char>) -> StepView {
    plan::effort(cmd::as_root("crictl"@, seq!["stop"@, "--timeout"@, "30"@, id]))
}

/// What follows from the containers that run: each is stopped, their exit is
/// waited for, and those that do not exit are removed.
pub open spec fn containers_listed_plan(listing: Seq<char>) -> Seq<StepView> {
    if listing.len() == 0 {
        Seq::empty()
    } else {
        listed_ids(listing).map_values(|id: Seq<char>| stop_container(id)) + seq![
            list_containers(Topic::Exiting(EXIT_LOOKS)),
            list_containers(Topic::Stragglers),
        ]
    }
}

/// Stops the containers that run and waits for their exit.
pub fn containers_listed(listing: &str) -> (r: Plan)
    ensures
        r@ =~~= containers_listed_plan(listing@),
{
    if listing.is_empty() {
        return Plan::new();
    }
    let ids = read_ids(listing);
    let ghost all = listed_ids(listing@);
    let mut r = Plan::new();
    assert(r@ =~= all.take(0).map_values(|id: Seq<char>| stop_container(id)));
    for i in 0..ids.len()
        invariant
            all == text::texts(ids@),
            r@ == all.take(i as int).map_values(|id: Seq<char>| stop_container(id)),
    {
        let id = ids[i].as_str();
        let command = Command::as_root("crictl").arg("stop").arg("--timeout").arg("30").arg(id);
        assert(plan::effort(command@) =~~= stop_container(id@));
        r = r.effort(command);
        assert(r@ =~= all.take(i + 1).map_values(|id: Seq<char>| stop_container(id)));
    }
    assert(text::texts(ids@).len() == ids@.len());
    assert(all.take(all.len() as int) =~= all);
    r.capture(crictl_ps(), Topic::Exiting(EXIT_LOOKS)).capture(crictl_ps(), Topic::Stragglers)
}

/// What follows from the containers that have not exited: a pause, and another
/// look if any is left.
pub open spec fn exiting_plan(looks: u64, listing: Seq<char>) -> Seq<StepView> {
    if text::trimmed(listing).len() == 0 {
        Seq::empty()
    } else {
        seq![StepView::Sleep(EXIT_PAUSE)] + (if looks > 1 {
            seq![list_containers(Topic::Exiting((looks - 1) as u64))]
        } else {
            Seq::empty()
        })
    }
}

/// Waits for the containers that have not exited.
pub fn exiting(looks: u64, listing: &str) -> (r: Plan)
    ensures
        r@ =~~= exiting_plan(looks, listing@),
{
    let left = text::trim(listing);
    if left.as_str().is_empty() {
        return Plan::new();
    }
    let r = Plan::new().push(Step::Sleep(EXIT_PAUSE));
    if looks > 1 {
        r.capture(crictl_ps(), Topic::Exiting(looks - 1))
    } else {
        r
    }
}

/// How a container is removed that does not exit.
pub open spec fn remove_container(id: Seq<char>) -> StepView {
    plan::effort(cmd::as_root("crictl"@, seq!["rm"@, "--force"@, id]))
}

/// What follows from the containers that have not exited after all.
pub open spec fn stragglers_listed_plan(listing: Seq<char>) -> Seq<StepView> {
    listed_ids(listing).map_values(|id: Seq<char>| remove_container(id))
}

/// Removes the containers that have not exited.
pub fn stragglers_listed(listing: &str) -> (r: Plan)
    ensures
        r@ =~~= stragglers_listed_plan(listing@),
{
    let ids = read_ids(listing);
    let ghost all = listed_ids(listing@);
    let mut r = Plan::new();
    assert(r@ =~= all.take(0).map_values(|id: Seq<char>| remove_container(id)));
    for i in 0..ids.len()
        invariant
            all == text::texts(ids@),
            r@ == all.take(i as int).map_values(|id: Seq<char>| remove_container(id)),
    {
        let id = ids[i].as_str();
        let command = Command::as_root("crictl").arg("rm").arg("--force").arg(id);
        assert(plan::effort(command@) =~~= remove_container(id@));
        r = r.effort(command);
        assert(r@ =~= all.take(i + 1).map_values(|id: Seq<char>| remove_container(id)));
    }
    assert(text::texts(ids@).len() == ids@.len());
    assert(all.take(all.len() as int) =~= all);
    r
}

/// How pod sandboxes are removed: each is stopped first.
pub open spec fn remove_sandboxes(ids: Seq<Seq<char>>) -> Seq<StepView>
    decreases ids.len(),
{
    if ids.len() == 0 {
        Seq::empty()
    } else {
        remove_sandboxes(ids.drop_last()) + seq![
            plan::effort(cmd::as_root("crictl"@, seq!["stopp"@, ids.last()])),
            plan::effort(cmd::as_root("crictl"@, seq!["rmp"@, "--force"@, ids.last()])),
        ]
    }
}

/// Stops and removes the pod sandboxes of a listing.
pub fn sandboxes_listed(listing: &str) -> (r: Plan)
    ensures
        r@ =~~= remove_sandboxes(listed_ids(listing@)),
{
    let ids = read_ids(listing);
    let ghost all = listed_ids(listing@);
    let mut r = Plan::new();
    for i in 0..ids.len()
        invariant
            all == text::texts(ids@),
            r@ == remove_sandboxes(all.take(i as int)),
    {
        let id = ids[i].as_str();
        let ghost before = r@;
        r = r.effort(Command::as_root("crictl").arg("stopp").arg(id)).effort(
            Command::as_root("crictl").arg("rmp").arg("--force").arg(id),
        );
        proof {
            let so_far = all.take(i + 1);
            assert(so_far.drop_last() =~= all.take(i as int));
            assert(so_far.last() == id@);
            assert(r@ =~~= before + seq![
                plan::effort(cmd::as_root("crictl"@, seq!["stopp"@, id@])),
                plan::effort(cmd::as_root("crictl"@, seq!["rmp"@, "--force"@, id@])),
            ]);
        }
    }
    assert(text::texts(ids@).len() == ids@.len());
    assert(all.take(all.len() as int) =~= all);
    r
}

// ── Removing components ──────────────────────────────────────────────────────

/// How a file is removed that must be.
pub open spec fn require_removal(path: Seq<char>) -> StepView {
    plan::require(cmd::as_root("rm"@, seq!["-f"@, path]))
}

/// How the Kubernetes binaries are removed, those that are there, with their
/// service, configuration, and data.
pub open spec fn uninstall_kubernetes_components_plan(host: Host) -> Seq<StepView> {
    seq![
        plan::attempt(cmd::as_root("systemctl"@, seq!["disable"@, "kubelet"@])),
        plan::probe("kubeadm"@, Topic::RemoveComponent("kubeadm"@)),
        plan::probe("kubelet"@, Topic::RemoveComponent("kubelet"@)),
        plan::probe("kubectl"@, Topic::RemoveComponent("kubectl"@)),
        cluster::remove_file(host.settings.systemd_unit_dir@ + "/kubelet.service"@),
        cluster::remove_tree(host.settings.systemd_unit_dir@ + "/kubelet.service.d"@),
        cluster::remove_tree(host.settings.kubernetes_conf_dir@),
        cluster::remove_tree(host.settings.kubelet_data_dir@),
        cluster::remove_tree(host.settings.etcd_data_dir@),
        plan::attempt(cmd::as_root("systemctl"@, seq!["daemon-reload"@])),
    ]
}

/// Removes kubeadm, kubelet, and kubectl, and all that belongs to them.
pub fn uninstall_kubernetes_components(host: &Host) -> (r: Plan)
    ensures
        r@ =~~= uninstall_kubernetes_components_plan(*host),
{
    let unit_dir = host.settings.systemd_unit_dir.as_str();
    Plan::new().attempt(Command::as_root("systemctl").arg("disable").arg("kubelet")).probe(
        "kubeadm",
        Topic::RemoveComponent("kubeadm".to_owned()),
    ).probe("kubelet", Topic::RemoveComponent("kubelet".to_owned())).probe(
        "kubectl",
        Topic::RemoveComponent("kubectl".to_owned()),
    ).attempt(
        cluster::rm_file(unit_dir.to_owned().concat("/kubelet.service").as_str()),
    ).attempt(
        cluster::rm_tree(unit_dir.to_owned().concat("/kubelet.service.d").as_str()),
    ).attempt(cluster::rm_tree(host.settings.kubernetes_conf_dir.as_str())).attempt(
        cluster::rm_tree(host.settings.kubelet_data_dir.as_str()),
    ).attempt(cluster::rm_tree(host.settings.etcd_data_dir.as_str())).attempt(
        Command::as_root("systemctl").arg("daemon-reload"),
    )
}

/// How a binary is removed from a directory, if it is there.
pub open spec fn remove_binary_plan(
    dir: Seq<char>,
    binary: Seq<char>,
    present: bool,
) -> Seq<StepView> {
    if present {
        seq![require_removal(dir + "/"@ + binary)]
    } else {
        Seq::empty()
    }
}

/// Removes a binary from a directory, if it is there.
pub fn remove_binary(dir: &str, binary: &str, present: bool) -> (r: Plan)
    ensures
        r@ =~~= remove_binary_plan(dir@, binary@, present),
{
    if present {
        Plan::new().require(
            cluster::rm_file(dir.to_owned().concat("/").concat(binary).as_str()),
        )
    } else {
        Plan::new()
    }
}

/// How crictl is removed, if it is there, with its configuration.
pub open spec fn uninstall_crictl_plan(host: Host, present: bool) -> Seq<StepView> {
    if present {
        remove_binary_plan(host.settings.bin_dir@, "crictl"@, true) + seq![
            cluster::remove_file(host.settings.crictl_config@),
        ]
    } else {
        Seq::empty()
    }
}

/// Removes crictl, if it is there, with its configuration.
pub fn uninstall_crictl(host: &Host, present: bool) -> (r: Plan)
    ensures
        r@ =~~= uninstall_crictl_plan(*host, present),
{
    if present {
        remove_binary(host.settings.bin_dir.as_str(), "crictl", true).attempt(
            cluster::rm_file(host.settings.crictl_config.as_str()),
        )
    } else {
        Plan::new()
    }
}

/// Removes the Cilium CLI, if it is there.
pub fn uninstall_cilium_cli(host: &Host, present: bool) -> (r: Plan)
    ensures
        r@ =~~= remove_binary_plan(host.settings.bin_dir@, "cilium"@, present),
{
    remove_binary(host.settings.bin_dir.as_str(), "cilium", present)
}

/// Removes Helm, if it is there.
pub fn uninstall_helm(host: &Host, present: bool) -> (r: Plan)
    ensures
        r@ =~~= remove_binary_plan(host.settings.bin_dir@, "helm"@, present),
{
    remove_binary(host.settings.bin_dir.as_str(), "helm", present)
}

/// How the CNI plugins and their configuration are removed.
pub open spec fn uninstall_cni_plugins_plan(host: Host) -> Seq<StepView> {
    seq![
        cluster::remove_tree(host.settings.cni_bin_dir@),
        cluster::remove_tree(host.settings.cni_conf_dir@),
    ]
}

/// Removes the CNI plugins and their configuration.
pub fn uninstall_cni_plugins(host: &Host) -> (r: Plan)
    ensures
        r@ =~~= uninstall_cni_plugins_plan(*host),
{
    Plan::new().attempt(cluster::rm_tree(host.settings.cni_bin_dir.as_str())).attempt(
        cluster::rm_tree(host.settings.cni_conf_dir.as_str()),
    )
}

/// How containerd is removed, if it is there: the service is stopped, and its
/// binaries, unit, configuration, and data are removed.
pub open spec fn uninstall_containerd_plan(host: Host, present: bool) -> Seq<StepView> {
    let bin_dir = host.settings.bin_dir@;
    if present {
        seq![
            plan::attempt(cmd::as_root("systemctl"@, seq!["stop"@, "containerd"@])),
            plan::attempt(cmd::as_root("systemctl"@, seq!["disable"@, "containerd"@])),
            cluster::remove_file(bin_dir + "/containerd"@),
            cluster::remove_file(bin_dir + "/containerd-shim"@),
            cluster::remove_file(bin_dir + "/containerd-shim-runc-v1"@),
            cluster::remove_file(bin_dir + "/containerd-shim-runc-v2"@),
            cluster::remove_file(bin_dir + "/containerd-stress"@),
            cluster::remove_file(bin_dir + "/ctr"@),
            cluster::remove_file(host.settings.systemd_unit_dir@ + "/containerd.service"@),
            cluster::remove_tree(host.settings.containerd_conf_dir@),
            cluster::remove_tree(host.settings.containerd_data_dir@),
            cluster::remove_tree(host.settings.containerd_run_dir@),
            plan::attempt(cmd::as_root("systemctl"@, seq!["daemon-reload"@])),
        ]
    } else {
        Seq::empty()
    }
}

/// Removes containerd, if it is there, and all that belongs to it.
pub fn uninstall_containerd(host: &Host, present: bool) -> (r: Plan)
    ensures
        r@ =~~= uninstall_containerd_plan(*host, present),
{
    if !present {
        return Plan::new();
    }
    let bin_dir = host.settings.bin_dir.as_str();
    Plan::new().attempt(Command::as_root("systemctl").arg("stop").arg("containerd")).attempt(
        Command::as_root("systemctl").arg("disable").arg("containerd"),
    ).attempt(cluster::rm_file(bin_dir.to_owned().concat("/containerd").as_str())).attempt(
        cluster::rm_file(bin_dir.to_owned().concat("/containerd-shim").as_str()),
    ).attempt(
        cluster::rm_file(bin_dir.to_owned().concat("/containerd-shim-runc-v1").as_str()),
    ).attempt(
        cluster::rm_file(bin_dir.to_owned().concat("/containerd-shim-runc-v2").as_str()),
    ).attempt(cluster::rm_file(bin_dir.to_owned().concat("/containerd-stress").as_str())).attempt(
        cluster::rm_file(bin_dir.to_owned().concat("/ctr").as_str()),
    ).attempt(
        cluster::rm_file(
            host.settings.systemd_unit_dir.as_str().to_owned().concat(
                "/containerd.service",
            ).as_str(),
        ),
    ).attempt(cluster::rm_tree(host.settings.containerd_conf_dir.as_str())).attempt(
        cluster::rm_tree(host.settings.containerd_data_dir.as_str()),
    ).attempt(cluster::rm_tree(host.settings.containerd_run_dir.as_str())).attempt(
        Command::as_root("systemctl").arg("daemon-reload"),
    )
}

/// Removes runc, if it is there.
pub fn uninstall_runc(host: &Host, present: bool) -> (r: Plan)
    ensures
        r@ =~~= remove_binary_plan(host.settings.sbin_dir@, "runc"@, present),
{
    remove_binary(host.settings.sbin_dir.as_str(), "runc", present)
}

} // verus!
